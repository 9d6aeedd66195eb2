//! Profiles: a display name, a Willow subspace key, an avatar and an online
//! flag; profile ids and their hex display.
use vstd::prelude::*;
use crate::text::{push_str, push_char};

verus! {

/// Lower-case hex digit of a nibble `d < 16`.
pub open spec fn hex_digit(d: u8) -> char {
    if d < 10 { ((d as u32) + 48) as char } else { ((d as u32) + 87) as char }
}

/// Lower-case hex text of bytes, high nibble first.
pub open spec fn hex_text(bytes: Seq<u8>) -> Seq<char>
    decreases bytes.len(),
{
    if bytes.len() == 0 {
        Seq::empty()
    } else {
        seq![hex_digit(bytes[0] / 16), hex_digit(bytes[0] % 16)] + hex_text(bytes.drop_first())
    }
}

proof fn lemma_hex_text_len(bytes: Seq<u8>)
    ensures
        hex_text(bytes).len() == 2 * bytes.len(),
    decreases bytes.len(),
{
    if bytes.len() > 0 {
        lemma_hex_text_len(bytes.drop_first());
    }
}

/// `hex::ToHex::encode_hex`: the lower-case hex text of `bytes`, two digits
/// per byte, high nibble first, as the crate's source writes it.
#[verifier::external_body]
fn encode_hex(bytes: &[u8]) -> (r: String)
    ensures
        r@ == hex_text(bytes@),
{
    hex::ToHex::encode_hex::<String>(&bytes)
}

/// The subspace id (public key) that a subspace secret corresponds to.
pub uninterp spec fn subspace_id_of(secret: Seq<u8>) -> Seq<u8>;

/// `willow25::entry::randomly_generate_subspace` with the operating system's
/// random source: the bytes of a fresh subspace secret. Nothing is promised
/// of the bytes: they are random.
#[verifier::external_body]
fn generate_subspace_secret() -> (r: [u8; 32]) {
    let (_id, secret) = willow25::entry::randomly_generate_subspace(&mut rand_core::OsRng);
    secret.into_bytes()
}

/// `SubspaceSecret::from_bytes(..).corresponding_subspace_id().to_bytes()`:
/// the subspace id that the secret `secret` corresponds to.
#[verifier::external_body]
fn subspace_id_for(secret: &[u8; 32]) -> (r: [u8; 32])
    ensures
        r@ == subspace_id_of(secret@),
{
    willow25::entry::SubspaceSecret::from_bytes(secret).corresponding_subspace_id().to_bytes()
}

/// The public identity of a profile: its subspace id.
#[derive(Debug, Clone, Copy)]
pub struct ProfileId(pub [u8; 32]);

impl ProfileId {
    /// The id as lower-case hex (the `{:x}` display).
    pub fn to_hex(&self) -> (s: String)
        ensures
            s@ == hex_text(self.0@),
    {
        encode_hex(&self.0)
    }

    /// The short label shown for an id: `ID: .+` and the last eight hex digits.
    pub fn short_label(&self) -> (s: String)
        ensures
            s@ == seq!['I', 'D', ':', ' ', '.', '+'] + hex_text(self.0@).subrange(56, 64),
    {
        let hex = self.to_hex();
        proof {
            lemma_hex_text_len(self.0@);
        }
        let mut s = String::new();
        push_str(&mut s, "ID: .+");
        proof { reveal_strlit("ID: .+"); }
        let h = hex.as_str();
        let ghost start = s@;
        for i in 56..64usize
            invariant
                h@ == hex_text(self.0@),
                h@.len() == 64,
                s@ == start + h@.subrange(56, i as int),
        {
            push_char(&mut s, h.get_char(i));
            assert(h@.subrange(56, i + 1) =~= h@.subrange(56, i as int).push(h@[i as int]));
        }
        assert(start =~= seq!['I', 'D', ':', ' ', '.', '+']);
        s
    }
}

/// The secret key of a profile's subspace.
pub struct ProfileKey {
    pub secret: [u8; 32],
}

impl ProfileKey {
    /// A freshly generated random key.
    pub fn new() -> (k: ProfileKey) {
        ProfileKey { secret: generate_subspace_secret() }
    }

    /// A key from the bytes of a subspace secret.
    pub fn from_secret(secret: [u8; 32]) -> (k: ProfileKey)
        ensures
            k.secret == secret,
    {
        ProfileKey { secret }
    }

    /// The id that this key corresponds to.
    pub fn id(&self) -> (id: ProfileId)
        ensures
            id.0@ == subspace_id_of(self.secret@),
    {
        ProfileId(subspace_id_for(&self.secret))
    }
}

/// The availability a profile's avatar shows.
#[derive(Debug, PartialEq, Eq, Structural)]
pub enum Availability {
    Free,
    Busy,
}

/// `after` is `before` with the online flag flipped and all else kept.
pub open spec fn online_toggled(before: Profile, after: Profile) -> bool {
    &&& after.online == !before.online
    &&& after.name == before.name
    &&& after.key == before.key
    &&& after.avatar == before.avatar
}

/// A profile: avatar image path, key, display name and online flag.
pub struct Profile {
    pub avatar: Option<String>,
    pub key: [u8; 32],
    pub name: String,
    pub online: bool,
}

impl Profile {
    /// A profile named `name` with key `key`, online, without avatar.
    pub fn new(name: String, key: [u8; 32]) -> (p: Profile)
        ensures
            p.name@ == name@,
            p.key == key,
            p.online,
            p.avatar is None,
    {
        Profile { avatar: None, key, name, online: true }
    }

    /// The profile's id: the subspace id of its key.
    pub fn id(&self) -> (id: ProfileId)
        ensures
            id.0@ == subspace_id_of(self.key@),
    {
        ProfileId(subspace_id_for(&self.key))
    }

    /// The display name.
    pub fn name(&self) -> (n: String)
        ensures
            n@ == self.name@,
    {
        self.name.clone()
    }

    /// Sets the avatar image path.
    pub fn set_avatar(&mut self, avatar: String)
        ensures
            final(self).avatar == Some(avatar),
            final(self).name == old(self).name,
            final(self).key == old(self).key,
            final(self).online == old(self).online,
    {
        self.avatar = Some(avatar);
    }

    /// The avatar image path, if set.
    pub fn avatar(&self) -> (a: Option<&String>)
        ensures
            a == match self.avatar { Some(p) => Some(&p), None => None::<&String> },
    {
        match &self.avatar {
            Some(p) => Some(p),
            None => None,
        }
    }

    /// Whether the profile shows as online.
    pub fn online(&self) -> (b: bool)
        ensures
            b == self.online,
    {
        self.online
    }

    /// The status line shown under the name: `Online` or `Offline`.
    pub fn status_text(&self) -> (s: String)
        ensures
            self.online ==> s@ == seq!['O', 'n', 'l', 'i', 'n', 'e'],
            !self.online ==> s@ == seq!['O', 'f', 'f', 'l', 'i', 'n', 'e'],
    {
        if self.online {
            let t = "Online";
            proof { reveal_strlit("Online"); }
            t.to_owned()
        } else {
            let t = "Offline";
            proof { reveal_strlit("Offline"); }
            t.to_owned()
        }
    }

    /// The availability shown on the avatar: free when online, busy otherwise.
    pub fn availability(&self) -> (a: Availability)
        ensures
            self.online ==> a == Availability::Free,
            !self.online ==> a == Availability::Busy,
    {
        if self.online { Availability::Free } else { Availability::Busy }
    }

    /// Flips the online flag.
    pub fn toggle_online(&mut self)
        ensures
            online_toggled(*old(self), *final(self)),
    {
        self.online = !self.online;
    }
}

/// Data-only list of profiles.
pub struct ProfileManager {
    pub profiles: Vec<Profile>,
}

impl ProfileManager {
    /// No profiles.
    pub fn new() -> (m: ProfileManager)
        ensures
            m.profiles@.len() == 0,
    {
        ProfileManager { profiles: Vec::new() }
    }

    /// Adds a profile at the end.
    pub fn add_profile(&mut self, profile: Profile)
        ensures
            final(self).profiles@ == old(self).profiles@.push(profile),
    {
        self.profiles.push(profile);
    }
}

/// Toggling a profile's online flag twice gives back the profile it was.
pub proof fn law_toggle_online_twice(p0: Profile, p1: Profile, p2: Profile)
    requires
        online_toggled(p0, p1),
        online_toggled(p1, p2),
    ensures
        p2 == p0,
{
}

/// A profile's id is the id of its key: a key and a profile holding it
/// show the same id.
pub proof fn law_profile_id_is_key_id(key: ProfileKey, profile: Profile)
    requires
        profile.key == key.secret,
    ensures
        subspace_id_of(profile.key@) == subspace_id_of(key.secret@),
{
}

} // verus!
