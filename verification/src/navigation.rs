//! The side panels' navigation: which content the panel root shows, what
//! its bottom bar offers, and the tagged panel's own selection.
use vstd::prelude::*;
use crate::forms::submit_nonempty_profile_name;
use crate::profile::{hex_text, subspace_id_of, Profile, ProfileKey};
use crate::spaces::{added_profile, added_space, WillowState};

verus! {

/// What the bottom bar shows: the create-profile control while no profile
/// is active, else the bar of the active profile.
#[derive(Debug, PartialEq, Eq, Structural)]
pub enum BottomBar {
    CreateProfile,
    ProfileBar(usize),
}

/// The bottom bar for the active profile `active`.
pub fn bottom_bar(active: Option<usize>) -> (b: BottomBar)
    ensures
        active is None ==> b == BottomBar::CreateProfile,
        active matches Some(i) ==> b == BottomBar::ProfileBar(i),
{
    match active {
        None => BottomBar::CreateProfile,
        Some(i) => BottomBar::ProfileBar(i),
    }
}

/// What the panel root shows: the home page, or a space by position.
#[derive(Debug, PartialEq, Eq, Structural)]
pub enum PanelContent {
    Home,
    Space(usize),
}

/// The panel root: the content it shows.
pub struct PanelRoot {
    pub content: PanelContent,
}

impl PanelRoot {
    /// Showing the home page.
    pub fn new() -> (p: PanelRoot)
        ensures
            p.content == PanelContent::Home,
    {
        PanelRoot { content: PanelContent::Home }
    }

    /// The home icon was clicked.
    pub fn show_home(&mut self)
        ensures
            final(self).content == PanelContent::Home,
    {
        self.content = PanelContent::Home;
    }

    /// The icon of the space at position `i` was clicked: it becomes the
    /// store's active space and the panel shows it.
    pub fn open_space(&mut self, state: &mut WillowState, i: usize)
        requires
            old(state).wf(),
            i < old(state).spaces@.len(),
        ensures
            final(state).wf(),
            final(self).content == PanelContent::Space(i),
            final(state).active_space == Some(i),
            final(state).active_profile == old(state).active_profile,
            final(state).profiles@ == old(state).profiles@,
            final(state).spaces@ == old(state).spaces@,
    {
        state.set_active_space(i);
        self.content = PanelContent::Space(i);
    }
}

/// `"Group's Space"`
pub open spec fn group_space_name() -> Seq<char> {
    seq!['G', 'r', 'o', 'u', 'p', '\'', 's', ' ', 'S', 'p', 'a', 'c', 'e']
}

/// The tagged panel's selection: its active profile and space (positions in
/// the store), whether the initial panel shows, the demo profile, and the
/// bottom bar's create-profile control (the name typed and the key whose id
/// is previewed).
pub struct TaggedPanel {
    pub active_profile: Option<usize>,
    pub active_space: Option<usize>,
    pub initial_panel: bool,
    pub demo_profile: Profile,
    pub create_profile_name: String,
    pub create_profile_key: ProfileKey,
}

impl TaggedPanel {
    /// Opens the panel: an owned space named `Group's Space` is created in
    /// the store, and a demo profile `Myselfandi` with a fresh random key and
    /// the tagged avatar is made (not stored); nothing is selected, the
    /// initial panel shows, no profile name is typed and a fresh random key
    /// is previewed.
    pub fn new(state: &mut WillowState) -> (p: TaggedPanel)
        requires
            old(state).wf(),
        ensures
            final(state).wf(),
            added_space(*old(state), *final(state), group_space_name(), old(state).spaces@.len() as usize, false),
            p.active_profile is None,
            p.active_space is None,
            p.initial_panel,
            p.demo_profile.name@ == seq!['M', 'y', 's', 'e', 'l', 'f', 'a', 'n', 'd', 'i'],
            p.demo_profile.avatar matches Some(a) && a@ == seq!['.', 'a', 's', 's', 'e', 't', 's', '/', 't', 'a', 'g', 'g', 'e', 'd', '.', 's', 'v', 'g'],
            p.demo_profile.online,
            p.create_profile_name@.len() == 0,
    {
        let group = "Group's Space";
        let demo = "Myselfandi";
        let avatar = ".assets/tagged.svg";
        proof {
            reveal_strlit("Group's Space");
            reveal_strlit("Myselfandi");
            reveal_strlit(".assets/tagged.svg");
        }
        assert(group@ =~= group_space_name());
        let _space = state.create_owned_space(group.to_owned());
        let mut demo_profile = Profile::new(demo.to_owned(), ProfileKey::new().secret);
        demo_profile.set_avatar(avatar.to_owned());
        TaggedPanel {
            active_profile: None,
            active_space: None,
            initial_panel: true,
            demo_profile,
            create_profile_name: String::new(),
            create_profile_key: ProfileKey::new(),
        }
    }

    /// The panel's title was clicked: switches between the initial panel
    /// and the active one.
    pub fn toggle_initial_panel(&mut self)
        ensures
            final(self).initial_panel == !old(self).initial_panel,
            final(self).active_profile == old(self).active_profile,
            final(self).active_space == old(self).active_space,
    {
        self.initial_panel = !self.initial_panel;
    }

    /// The bottom bar's create-profile control was used (clicked, or Enter
    /// pressed): a non-empty typed name becomes a new profile, which the
    /// panel selects; the typed name is kept.
    pub fn create_profile_from_bar(&mut self, state: &mut WillowState) -> (r: Option<usize>)
        requires
            old(state).wf(),
            old(state).profiles@.len() < usize::MAX,
        ensures
            final(state).wf(),
            old(self).create_profile_name@.len() == 0 ==> r is None && *final(state) == *old(state)
                && final(self).active_profile == old(self).active_profile,
            old(self).create_profile_name@.len() > 0 ==> (r matches Some(i)
                && added_profile(*old(state), *final(state), old(self).create_profile_name@, i)
                && final(self).active_profile == Some(i)),
            final(self).active_space == old(self).active_space,
            final(self).initial_panel == old(self).initial_panel,
            final(self).create_profile_name == old(self).create_profile_name,
            final(self).create_profile_key == old(self).create_profile_key,
    {
        let r = submit_nonempty_profile_name(self.create_profile_name.clone(), state);
        if let Some(i) = r {
            self.active_profile = Some(i);
        }
        r
    }

    /// Whether the create-profile icon bounces: a name is typed.
    pub fn icon_bounces(&self) -> (b: bool)
        ensures
            b == (self.create_profile_name@.len() > 0),
    {
        !self.create_profile_name.as_str().is_empty()
    }

    /// Previews a fresh random key instead; nothing else changes.
    pub fn regenerate_key(&mut self)
        ensures
            final(self).active_profile == old(self).active_profile,
            final(self).active_space == old(self).active_space,
            final(self).initial_panel == old(self).initial_panel,
            final(self).demo_profile == old(self).demo_profile,
            final(self).create_profile_name == old(self).create_profile_name,
    {
        self.create_profile_key = ProfileKey::new();
    }

    /// The previewed key's label: `ID: .+` and the last eight hex digits
    /// of its id.
    pub fn key_label(&self) -> (s: String)
        ensures
            s@ == seq!['I', 'D', ':', ' ', '.', '+']
                + hex_text(subspace_id_of(self.create_profile_key.secret@)).subrange(56, 64),
    {
        self.create_profile_key.id().short_label()
    }

    /// What the bottom bar shows.
    pub fn bottom_bar(&self) -> (b: BottomBar)
        ensures
            self.active_profile is None ==> b == BottomBar::CreateProfile,
            self.active_profile matches Some(i) ==> b == BottomBar::ProfileBar(i),
    {
        bottom_bar(self.active_profile)
    }

    /// Whether the create-space button prompts for a space: a profile is
    /// selected but no space is.
    pub fn prompts_new_space(&self) -> (b: bool)
        ensures
            b == (self.active_profile is Some && self.active_space is None),
    {
        self.active_profile.is_some() && self.active_space.is_none()
    }
}

} // verus!
