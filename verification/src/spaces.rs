//! The Willow store's bookkeeping: profiles, spaces (Willow namespaces, owned
//! or communal) and which of them is active.
use vstd::prelude::*;
use crate::profile::{Profile, ProfileKey};

verus! {

/// The namespace id (public key) that a namespace secret corresponds to.
pub uninterp spec fn namespace_id_of(secret: Seq<u8>) -> Seq<u8>;

/// Whether a namespace id is communal: its last byte is even (the willow25
/// crate's definition; otherwise the namespace is owned).
pub open spec fn is_communal_id(id: Seq<u8>) -> bool {
    id.len() == 32 && id[31] % 2 == 0
}

/// `willow25::entry::randomly_generate_owned_namespace` with the operating
/// system's random source: the bytes of a fresh secret whose namespace is
/// owned (the crate retries until the id is owned).
#[verifier::external_body]
fn generate_owned_namespace_secret() -> (r: [u8; 32])
    ensures
        !is_communal_id(namespace_id_of(r@)),
{
    let (_id, secret) = willow25::entry::randomly_generate_owned_namespace(&mut rand_core::OsRng);
    secret.into_bytes()
}

/// `willow25::entry::randomly_generate_communal_namespace` with the operating
/// system's random source: the bytes of a fresh secret whose namespace is
/// communal (the crate retries until the id is communal).
#[verifier::external_body]
fn generate_communal_namespace_secret() -> (r: [u8; 32])
    ensures
        is_communal_id(namespace_id_of(r@)),
{
    let (_id, secret) = willow25::entry::randomly_generate_communal_namespace(&mut rand_core::OsRng);
    secret.into_bytes()
}

/// `NamespaceSecret::from_bytes(..).corresponding_namespace_id().to_bytes()`:
/// the namespace id that the secret corresponds to.
#[verifier::external_body]
fn namespace_id_for(secret: &[u8; 32]) -> (r: [u8; 32])
    ensures
        r@ == namespace_id_of(secret@),
{
    willow25::entry::NamespaceSecret::from_bytes(secret).corresponding_namespace_id().to_bytes()
}

/// `NamespaceId::from_bytes(..).is_communal()`: whether the id's last byte is even.
#[verifier::external_body]
fn namespace_is_communal(id: &[u8; 32]) -> (r: bool)
    ensures
        r == is_communal_id(id@),
{
    willow25::entry::NamespaceId::from_bytes(id).is_communal()
}

/// The shape of a space's icon.
#[derive(Debug, PartialEq, Eq, Structural)]
pub enum IconShape {
    /// A square with rounded corners: communal spaces.
    RoundedSquare,
    /// A circle: owned spaces.
    Circle,
}

/// `".assets/create-space.svg"`
pub open spec fn default_space_icon() -> Seq<char> {
    seq![
        '.', 'a', 's', 's', 'e', 't', 's', '/', 'c', 'r', 'e', 'a', 't', 'e', '-', 's', 'p', 'a', 'c', 'e',
        '.', 's', 'v', 'g',
    ]
}

/// The image of a space's icon: its own when it has one, else the
/// create-space image.
pub fn space_icon_path(icon_path: Option<String>) -> (p: String)
    ensures
        icon_path matches Some(i) ==> p == i,
        icon_path is None ==> p@ == default_space_icon(),
{
    match icon_path {
        Some(i) => i,
        None => {
            let d = ".assets/create-space.svg";
            proof {
                reveal_strlit(".assets/create-space.svg");
                assert(d@ =~= default_space_icon());
            }
            d.to_owned()
        },
    }
}

/// A space: a named Willow namespace, held by its secret.
pub struct Space {
    pub name: String,
    pub secret: [u8; 32],
}

impl Space {
    /// A space named `name` for the namespace of `secret`.
    pub fn new(name: String, secret: [u8; 32]) -> (s: Space)
        ensures
            s.name@ == name@,
            s.secret == secret,
    {
        Space { name, secret }
    }

    /// The display name.
    pub fn name(&self) -> (n: String)
        ensures
            n@ == self.name@,
    {
        self.name.clone()
    }

    /// The namespace id of the space.
    pub fn namespace_id(&self) -> (id: [u8; 32])
        ensures
            id@ == namespace_id_of(self.secret@),
    {
        namespace_id_for(&self.secret)
    }

    /// The shape of the space's icon: a rounded square when communal, a
    /// circle when owned.
    pub fn icon_shape(&self) -> (s: IconShape)
        ensures
            is_communal_id(namespace_id_of(self.secret@)) ==> s == IconShape::RoundedSquare,
            !is_communal_id(namespace_id_of(self.secret@)) ==> s == IconShape::Circle,
    {
        if self.is_communal() { IconShape::RoundedSquare } else { IconShape::Circle }
    }

    /// Whether the space is communal (open to anyone) rather than owned.
    pub fn is_communal(&self) -> (b: bool)
        ensures
            b == is_communal_id(namespace_id_of(self.secret@)),
    {
        let id = namespace_id_for(&self.secret);
        namespace_is_communal(&id)
    }
}

/// The state of one Willow store: its profiles and spaces, and the active
/// ones, as positions in those lists.
pub struct WillowState {
    pub profiles: Vec<Profile>,
    pub spaces: Vec<Space>,
    pub active_profile: Option<usize>,
    pub active_space: Option<usize>,
}

/// The text of an optional avatar path.
pub open spec fn avatar_text(a: Option<String>) -> Option<Seq<char>> {
    match a {
        Some(p) => Some(p@),
        None => None,
    }
}

/// `after` is `before` with a profile named `name` added at position `i`,
/// online, with avatar `avatar`; the first profile added becomes the active
/// one, and nothing else changes.
pub open spec fn added_profile_with(
    before: WillowState,
    after: WillowState,
    name: Seq<char>,
    i: usize,
    avatar: Option<Seq<char>>,
) -> bool {
    &&& i == before.profiles@.len()
    &&& after.profiles@.len() == i + 1
    &&& after.profiles@.subrange(0, i as int) == before.profiles@
    &&& after.profiles@[i as int].name@ == name
    &&& after.profiles@[i as int].online
    &&& avatar_text(after.profiles@[i as int].avatar) == avatar
    &&& after.spaces@ == before.spaces@
    &&& after.active_space == before.active_space
    &&& after.active_profile == match before.active_profile {
        Some(a) => Some(a),
        None => Some(i),
    }
}

/// `after` is `before` with a profile named `name` added at position `i`,
/// online and without avatar (see [`added_profile_with`]).
pub open spec fn added_profile(before: WillowState, after: WillowState, name: Seq<char>, i: usize) -> bool {
    added_profile_with(before, after, name, i, None)
}

/// `after` is `before` with a space named `name` added at position `i`,
/// communal or owned as `communal` says; nothing else changes.
pub open spec fn added_space(before: WillowState, after: WillowState, name: Seq<char>, i: usize, communal: bool) -> bool {
    &&& i == before.spaces@.len()
    &&& after.spaces@.len() == i + 1
    &&& after.spaces@.subrange(0, i as int) == before.spaces@
    &&& after.spaces@[i as int].name@ == name
    &&& is_communal_id(namespace_id_of(after.spaces@[i as int].secret@)) == communal
    &&& after.profiles@ == before.profiles@
    &&& after.active_profile == before.active_profile
    &&& after.active_space == before.active_space
}

impl WillowState {
    /// Active positions point into the lists.
    pub open spec fn wf(&self) -> bool {
        &&& (self.active_profile matches Some(i) ==> i < self.profiles@.len())
        &&& (self.active_space matches Some(i) ==> i < self.spaces@.len())
    }

    /// An empty store: no profiles, no spaces, nothing active.
    pub fn new() -> (s: WillowState)
        ensures
            s.wf(),
            s.profiles@.len() == 0,
            s.spaces@.len() == 0,
            s.active_profile is None,
            s.active_space is None,
    {
        WillowState { profiles: Vec::new(), spaces: Vec::new(), active_profile: None, active_space: None }
    }

    /// Creates a profile named `name` with a fresh random key and returns its
    /// position. The first profile created becomes the active one.
    pub fn create_profile(&mut self, name: String) -> (i: usize)
        requires
            old(self).wf(),
            old(self).profiles@.len() < usize::MAX,
        ensures
            final(self).wf(),
            added_profile(*old(self), *final(self), name@, i),
    {
        let key = ProfileKey::new();
        let profile = Profile::new(name, key.secret);
        let i = self.profiles.len();
        self.profiles.push(profile);
        if self.active_profile.is_none() {
            self.active_profile = Some(i);
        }
        assert(self.profiles@.subrange(0, i as int) =~= old(self).profiles@);
        i
    }

    fn add_space(&mut self, space: Space) -> (i: usize)
        requires
            old(self).wf(),
        ensures
            final(self).wf(),
            i == old(self).spaces@.len(),
            final(self).spaces@ == old(self).spaces@.push(space),
            final(self).profiles@ == old(self).profiles@,
            final(self).active_profile == old(self).active_profile,
            final(self).active_space == old(self).active_space,
    {
        let i = self.spaces.len();
        self.spaces.push(space);
        i
    }

    /// Creates an owned (invite-only) space named `name` with a fresh random
    /// namespace, and returns its position.
    pub fn create_owned_space(&mut self, name: String) -> (i: usize)
        requires
            old(self).wf(),
        ensures
            final(self).wf(),
            added_space(*old(self), *final(self), name@, i, false),
    {
        let secret = generate_owned_namespace_secret();
        let i = self.add_space(Space::new(name, secret));
        assert(self.spaces@.subrange(0, i as int) =~= old(self).spaces@);
        i
    }

    /// Creates a communal (open to anyone) space named `name` with a fresh
    /// random namespace, and returns its position.
    pub fn create_communal_space(&mut self, name: String) -> (i: usize)
        requires
            old(self).wf(),
        ensures
            final(self).wf(),
            added_space(*old(self), *final(self), name@, i, true),
    {
        let secret = generate_communal_namespace_secret();
        let i = self.add_space(Space::new(name, secret));
        assert(self.spaces@.subrange(0, i as int) =~= old(self).spaces@);
        i
    }

    /// Makes the profile at position `i` the active one.
    pub fn set_active_profile(&mut self, i: usize)
        requires
            old(self).wf(),
            i < old(self).profiles@.len(),
        ensures
            final(self).wf(),
            final(self).active_profile == Some(i),
            final(self).active_space == old(self).active_space,
            final(self).profiles@ == old(self).profiles@,
            final(self).spaces@ == old(self).spaces@,
    {
        self.active_profile = Some(i);
    }

    /// Makes the space at position `i` the active one.
    pub fn set_active_space(&mut self, i: usize)
        requires
            old(self).wf(),
            i < old(self).spaces@.len(),
        ensures
            final(self).wf(),
            final(self).active_space == Some(i),
            final(self).active_profile == old(self).active_profile,
            final(self).profiles@ == old(self).profiles@,
            final(self).spaces@ == old(self).spaces@,
    {
        self.active_space = Some(i);
    }

    /// Sets the avatar image path of the profile at position `i`.
    pub fn set_profile_avatar(&mut self, i: usize, avatar: String)
        requires
            old(self).wf(),
            i < old(self).profiles@.len(),
        ensures
            final(self).wf(),
            final(self).profiles@.len() == old(self).profiles@.len(),
            forall|j: int| 0 <= j < old(self).profiles@.len() && j != i ==> #[trigger] final(self).profiles@[j] == old(self).profiles@[j],
            final(self).profiles@[i as int].avatar == Some(avatar),
            final(self).profiles@[i as int].name == old(self).profiles@[i as int].name,
            final(self).profiles@[i as int].key == old(self).profiles@[i as int].key,
            final(self).profiles@[i as int].online == old(self).profiles@[i as int].online,
            final(self).spaces@ == old(self).spaces@,
            final(self).active_profile == old(self).active_profile,
            final(self).active_space == old(self).active_space,
    {
        self.profiles[i].set_avatar(avatar);
    }

    /// Whether the create-space button prompts for a first space: a profile
    /// is active and there are no spaces yet.
    pub fn prompts_first_space(&self) -> (b: bool)
        ensures
            b == (self.active_profile is Some && self.spaces@.len() == 0),
    {
        self.active_profile.is_some() && self.spaces.len() == 0
    }

    /// The active profile, if any.
    pub fn active_profile(&self) -> (p: Option<&Profile>)
        requires
            self.wf(),
        ensures
            p == match self.active_profile {
                Some(i) => Some(&self.profiles@[i as int]),
                None => None::<&Profile>,
            },
    {
        match self.active_profile {
            Some(i) => Some(&self.profiles[i]),
            None => None,
        }
    }

    /// The active space, if any.
    pub fn active_space(&self) -> (s: Option<&Space>)
        requires
            self.wf(),
        ensures
            s == match self.active_space {
                Some(i) => Some(&self.spaces@[i as int]),
                None => None::<&Space>,
            },
    {
        match self.active_space {
            Some(i) => Some(&self.spaces[i]),
            None => None,
        }
    }

    /// All profiles, in creation order.
    pub fn profiles(&self) -> (p: &Vec<Profile>)
        ensures
            p@ == self.profiles@,
    {
        &self.profiles
    }

    /// All spaces, in creation order.
    pub fn spaces(&self) -> (s: &Vec<Space>)
        ensures
            s@ == self.spaces@,
    {
        &self.spaces
    }
}

/// The first profile created in a store becomes the active one, and stays
/// active whatever profile is created after it.
pub proof fn law_first_profile_is_active(
    s0: WillowState,
    s1: WillowState,
    s2: WillowState,
    n1: Seq<char>,
    n2: Seq<char>,
    i1: usize,
    i2: usize,
)
    requires
        s0.wf(),
        s0.profiles@.len() == 0,
        added_profile(s0, s1, n1, i1),
        added_profile(s1, s2, n2, i2),
    ensures
        i1 == 0,
        s1.active_profile == Some(0usize),
        s2.active_profile == Some(0usize),
        s2.profiles@[0].name@ == n1,
{
    assert(s2.profiles@[0] == s2.profiles@.subrange(0, i2 as int)[0]);
}

/// Spaces never change which profile is active, and profiles never change
/// which space is active.
pub proof fn law_spaces_and_profiles_independent(
    s0: WillowState,
    s1: WillowState,
    s2: WillowState,
    pn: Seq<char>,
    sn: Seq<char>,
    pi: usize,
    si: usize,
    communal: bool,
)
    requires
        added_profile(s0, s1, pn, pi),
        added_space(s1, s2, sn, si, communal),
    ensures
        s2.active_space == s0.active_space,
        s2.active_profile == s1.active_profile,
        s2.profiles@[pi as int].name@ == pn,
        s2.spaces@.subrange(0, si as int) == s0.spaces@,
{
}

} // verus!
