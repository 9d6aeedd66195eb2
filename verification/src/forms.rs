//! The creation forms: typed names that become profiles and spaces, the kind
//! of space chosen, the root profiles ticked for a new space, the icon picked
//! for a new profile, and the onboarding screen's two steps.
use vstd::prelude::*;
use crate::onboarding::{is_blank, is_blank_text};
use crate::profile::ProfileKey;
use crate::spaces::{added_profile, added_profile_with, added_space, avatar_text, WillowState};

verus! {

/// The kind of space a form creates.
#[derive(Debug, Clone, Copy, PartialEq, Eq, Structural)]
pub enum SpaceKind {
    /// Invite-only.
    Owned,
    /// Open to anyone.
    Communal,
}

/// Creates a profile from a typed name, unless the name is blank (empty
/// once white space is trimmed). Returns the new profile's position.
pub fn submit_profile_name(name: String, state: &mut WillowState) -> (r: Option<usize>)
    requires
        old(state).wf(),
        old(state).profiles@.len() < usize::MAX,
    ensures
        final(state).wf(),
        is_blank(name@) ==> r is None && *final(state) == *old(state),
        !is_blank(name@) ==> (r matches Some(i) && added_profile(*old(state), *final(state), name@, i)),
{
    if is_blank_text(name.as_str()) {
        return None;
    }
    Some(state.create_profile(name))
}

/// Creates a profile from a typed name, unless the name is empty. Returns
/// the new profile's position.
pub fn submit_nonempty_profile_name(name: String, state: &mut WillowState) -> (r: Option<usize>)
    requires
        old(state).wf(),
        old(state).profiles@.len() < usize::MAX,
    ensures
        final(state).wf(),
        name@.len() == 0 ==> r is None && *final(state) == *old(state),
        name@.len() > 0 ==> (r matches Some(i) && added_profile(*old(state), *final(state), name@, i)),
{
    if name.as_str().is_empty() {
        return None;
    }
    Some(state.create_profile(name))
}

/// The create-profile dialog: the icon picked, if any.
pub struct CreateProfileInput {
    pub icon_path: Option<String>,
}

impl CreateProfileInput {
    /// No icon picked.
    pub fn new() -> (f: CreateProfileInput)
        ensures
            f.icon_path is None,
    {
        CreateProfileInput { icon_path: None }
    }

    /// Takes the paths chosen in the file picker: exactly one path becomes
    /// the icon; any other choice is refused and changes nothing. Returns
    /// whether the icon was taken.
    pub fn choose_icon(&mut self, paths: Vec<String>) -> (taken: bool)
        ensures
            taken == (paths@.len() == 1),
            taken ==> avatar_text(final(self).icon_path) == Some(paths@[0]@),
            !taken ==> final(self).icon_path == old(self).icon_path,
    {
        if paths.len() != 1 {
            return false;
        }
        let path = paths[0].clone();
        self.icon_path = Some(path);
        true
    }

    /// Creates the profile named `name`, with the icon picked as its avatar,
    /// unless the name is blank. Returns the new profile's position.
    pub fn submit(&self, name: String, state: &mut WillowState) -> (r: Option<usize>)
        requires
            old(state).wf(),
            old(state).profiles@.len() < usize::MAX,
        ensures
            final(state).wf(),
            is_blank(name@) ==> r is None && *final(state) == *old(state),
            !is_blank(name@) ==> (r matches Some(i)
                && added_profile_with(*old(state), *final(state), name@, i, avatar_text(self.icon_path))),
    {
        if is_blank_text(name.as_str()) {
            return None;
        }
        let ghost n = name@;
        let i = state.create_profile(name);
        let ghost mid = *state;
        match &self.icon_path {
            Some(icon) => {
                state.set_profile_avatar(i, icon.clone());
                assert(state.profiles@.subrange(0, i as int) =~= mid.profiles@.subrange(0, i as int));
            },
            None => {},
        }
        Some(i)
    }
}

/// The create-space dialog: the kind of space, and whether each profile (by
/// position, as listed so far) is ticked as a root profile of the new space.
pub struct CreateSpaceInput {
    pub kind: SpaceKind,
    pub root_profiles: Vec<bool>,
}

impl CreateSpaceInput {
    /// Owned, with no profiles listed yet.
    pub fn new() -> (f: CreateSpaceInput)
        ensures
            f.kind == SpaceKind::Owned,
            f.root_profiles@.len() == 0,
    {
        CreateSpaceInput { kind: SpaceKind::Owned, root_profiles: Vec::new() }
    }

    /// Chooses the kind of space.
    pub fn select_kind(&mut self, kind: SpaceKind)
        ensures
            final(self).kind == kind,
            final(self).root_profiles@ == old(self).root_profiles@,
    {
        self.kind = kind;
    }

    /// Lists the first `n` profiles: a profile listed for the first time is
    /// ticked when it is the first one and unticked otherwise; profiles
    /// listed before keep their ticks.
    pub fn show_root_profiles(&mut self, n: usize)
        ensures
            final(self).kind == old(self).kind,
            final(self).root_profiles@.len() == if n > old(self).root_profiles@.len() { n as nat } else { old(self).root_profiles@.len() },
            forall|j: int| 0 <= j < old(self).root_profiles@.len() ==> #[trigger] final(self).root_profiles@[j] == old(self).root_profiles@[j],
            forall|j: int| old(self).root_profiles@.len() <= j < n ==> #[trigger] final(self).root_profiles@[j] == (j == 0),
    {
        let mut k = self.root_profiles.len();
        while k < n
            invariant
                old(self).root_profiles@.len() <= k,
                k <= n ==> self.root_profiles@.len() == k,
                n < old(self).root_profiles@.len() ==> self.root_profiles@ == old(self).root_profiles@,
                k > n ==> k == old(self).root_profiles@.len() && self.root_profiles@ == old(self).root_profiles@,
                self.kind == old(self).kind,
                forall|j: int| 0 <= j < old(self).root_profiles@.len() ==> #[trigger] self.root_profiles@[j] == old(self).root_profiles@[j],
                forall|j: int| old(self).root_profiles@.len() <= j < k && j < self.root_profiles@.len() ==> #[trigger] self.root_profiles@[j] == (j == 0),
            decreases n - k,
        {
            self.root_profiles.push(k == 0);
            k = k + 1;
        }
    }

    /// Flips the tick of the profile at position `i`, when it is listed.
    /// Returns whether it was.
    pub fn toggle_root_profile(&mut self, i: usize) -> (listed: bool)
        ensures
            listed == (i < old(self).root_profiles@.len()),
            final(self).kind == old(self).kind,
            listed ==> final(self).root_profiles@ == old(self).root_profiles@.update(i as int, !old(self).root_profiles@[i as int]),
            !listed ==> final(self).root_profiles@ == old(self).root_profiles@,
    {
        if i >= self.root_profiles.len() {
            return false;
        }
        let t = self.root_profiles[i];
        self.root_profiles.set(i, !t);
        true
    }

    /// Creates the space named `name`, of the chosen kind, unless the name
    /// is blank. Returns the new space's position.
    pub fn submit(&self, name: String, state: &mut WillowState) -> (r: Option<usize>)
        requires
            old(state).wf(),
        ensures
            final(state).wf(),
            is_blank(name@) ==> r is None && *final(state) == *old(state),
            !is_blank(name@) ==> (r matches Some(i)
                && added_space(*old(state), *final(state), name@, i, self.kind == SpaceKind::Communal)),
    {
        if is_blank_text(name.as_str()) {
            return None;
        }
        match self.kind {
            SpaceKind::Owned => Some(state.create_owned_space(name)),
            SpaceKind::Communal => Some(state.create_communal_space(name)),
        }
    }
}

/// The onboarding screen: the profile name typed (empty to begin with), the
/// kind of space chosen, the space name typed (`Home` to begin with), and
/// the key whose id is previewed for the profile to be made.
pub struct OnboardingForm {
    pub profile_name: String,
    pub space_kind: SpaceKind,
    pub space_name: String,
    pub profile_key: ProfileKey,
}

impl OnboardingForm {
    /// No profile name, owned space named `Home`, with a fresh random key
    /// previewed.
    pub fn new() -> (f: OnboardingForm)
        ensures
            f.profile_name@.len() == 0,
            f.space_kind == SpaceKind::Owned,
            f.space_name@ == seq!['H', 'o', 'm', 'e'],
    {
        let home = "Home";
        proof { reveal_strlit("Home"); }
        OnboardingForm {
            profile_name: String::new(),
            space_kind: SpaceKind::Owned,
            space_name: home.to_owned(),
            profile_key: ProfileKey::new(),
        }
    }

    /// Previews a fresh random key instead; the rest of the form is kept.
    pub fn regenerate_key(&mut self)
        ensures
            final(self).profile_name == old(self).profile_name,
            final(self).space_kind == old(self).space_kind,
            final(self).space_name == old(self).space_name,
    {
        self.profile_key = ProfileKey::new();
    }

    /// Chooses the kind of space.
    pub fn select_space_kind(&mut self, kind: SpaceKind)
        ensures
            final(self).space_kind == kind,
            final(self).profile_name == old(self).profile_name,
            final(self).space_name == old(self).space_name,
            final(self).profile_key == old(self).profile_key,
    {
        self.space_kind = kind;
    }

    /// Whether the create-profile icon invites a click: a profile name is typed.
    pub fn profile_ready(&self) -> (b: bool)
        ensures
            b == (self.profile_name@.len() > 0),
    {
        !self.profile_name.as_str().is_empty()
    }

    /// The profile step: a typed profile name that is not blank becomes a
    /// new profile (with a key of its own, not the one previewed) and the
    /// name input is cleared; a blank name changes nothing.
    pub fn submit_profile(&mut self, state: &mut WillowState) -> (r: Option<usize>)
        requires
            old(state).wf(),
            old(state).profiles@.len() < usize::MAX,
        ensures
            final(state).wf(),
            is_blank(old(self).profile_name@) ==> r is None && *final(state) == *old(state)
                && final(self).profile_name == old(self).profile_name,
            !is_blank(old(self).profile_name@) ==> (r matches Some(i)
                && added_profile(*old(state), *final(state), old(self).profile_name@, i)
                && final(self).profile_name@.len() == 0),
            final(self).space_kind == old(self).space_kind,
            final(self).space_name == old(self).space_name,
            final(self).profile_key == old(self).profile_key,
    {
        if is_blank_text(self.profile_name.as_str()) {
            return None;
        }
        let mut name = String::new();
        std::mem::swap(&mut name, &mut self.profile_name);
        submit_profile_name(name, state)
    }

    /// The space step: submitting a typed space name that is not empty
    /// creates a profile of that name in the store (this step is wired to
    /// profile creation).
    pub fn submit_space(&self, state: &mut WillowState) -> (r: Option<usize>)
        requires
            old(state).wf(),
            old(state).profiles@.len() < usize::MAX,
        ensures
            final(state).wf(),
            self.space_name@.len() == 0 ==> r is None && *final(state) == *old(state),
            self.space_name@.len() > 0 ==> (r matches Some(i) && added_profile(*old(state), *final(state), self.space_name@, i)),
    {
        submit_nonempty_profile_name(self.space_name.clone(), state)
    }
}

} // verus!
