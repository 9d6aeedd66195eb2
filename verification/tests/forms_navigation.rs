use galvanized::chat::DocContent;
use galvanized::directory::WillowDirectory;
use galvanized::forms::{
    submit_nonempty_profile_name, submit_profile_name, CreateProfileInput, CreateSpaceInput, OnboardingForm, SpaceKind,
};
use galvanized::navigation::{bottom_bar, BottomBar, PanelContent, PanelRoot, TaggedPanel};
use galvanized::panel::{EndpointState, IrohPanelState};
use galvanized::spaces::WillowState;

fn names(state: &WillowState) -> Vec<String> {
    state.profiles().iter().map(|p| p.name()).collect()
}

#[test]
fn blank_profile_names_are_ignored() {
    let mut s = WillowState::new();
    assert_eq!(submit_profile_name("   ".to_owned(), &mut s), None);
    assert_eq!(submit_profile_name(String::new(), &mut s), None);
    assert!(s.profiles().is_empty());
    assert_eq!(submit_profile_name(" Ann ".to_owned(), &mut s), Some(0));
    assert_eq!(names(&s), vec![" Ann "]);
}

#[test]
fn only_empty_names_are_ignored_by_the_bar() {
    let mut s = WillowState::new();
    assert_eq!(submit_nonempty_profile_name(String::new(), &mut s), None);
    assert_eq!(submit_nonempty_profile_name(" ".to_owned(), &mut s), Some(0));
    assert_eq!(names(&s), vec![" "]);
}

#[test]
fn profile_dialog_icon_needs_exactly_one_path() {
    let mut f = CreateProfileInput::new();
    assert!(!f.choose_icon(vec![]));
    assert!(!f.choose_icon(vec!["a.png".to_owned(), "b.png".to_owned()]));
    assert!(f.icon_path.is_none());
    assert!(f.choose_icon(vec!["me.png".to_owned()]));
    assert_eq!(f.icon_path.as_deref(), Some("me.png"));
}

#[test]
fn profile_dialog_sets_avatar() {
    let mut s = WillowState::new();
    let mut f = CreateProfileInput::new();
    assert_eq!(f.submit("\t".to_owned(), &mut s), None);
    assert_eq!(f.submit("Plain".to_owned(), &mut s), Some(0));
    assert!(s.profiles()[0].avatar().is_none());
    f.choose_icon(vec!["icon.svg".to_owned()]);
    assert_eq!(f.submit("Iconic".to_owned(), &mut s), Some(1));
    assert_eq!(s.profiles()[1].avatar().map(|a| a.as_str()), Some("icon.svg"));
    assert_eq!(s.active_profile().unwrap().name(), "Plain");
}

#[test]
fn space_dialog_creates_chosen_kind() {
    let mut s = WillowState::new();
    let mut f = CreateSpaceInput::new();
    assert_eq!(f.kind, SpaceKind::Owned);
    assert_eq!(f.submit(" ".to_owned(), &mut s), None);
    assert_eq!(f.submit("Mine".to_owned(), &mut s), Some(0));
    f.select_kind(SpaceKind::Communal);
    assert_eq!(f.submit("Ours".to_owned(), &mut s), Some(1));
    assert!(!s.spaces()[0].is_communal());
    assert!(s.spaces()[1].is_communal());
}

#[test]
fn space_dialog_root_profile_ticks() {
    let mut f = CreateSpaceInput::new();
    f.show_root_profiles(3);
    assert_eq!(f.root_profiles, vec![true, false, false]);
    assert!(f.toggle_root_profile(1));
    assert!(f.toggle_root_profile(0));
    assert!(!f.toggle_root_profile(7));
    f.show_root_profiles(2);
    assert_eq!(f.root_profiles, vec![false, true, false]);
    f.show_root_profiles(4);
    assert_eq!(f.root_profiles, vec![false, true, false, false]);
}

#[test]
fn onboarding_form_steps() {
    let mut s = WillowState::new();
    let mut f = OnboardingForm::new();
    assert_eq!(f.space_name, "Home");
    assert_eq!(f.space_kind, SpaceKind::Owned);
    assert!(!f.profile_ready());
    f.profile_name = "x".to_owned();
    assert!(f.profile_ready());
    let before = f.profile_key.id().0;
    f.regenerate_key();
    assert_ne!(f.profile_key.id().0, before);
    f.select_space_kind(SpaceKind::Communal);
    assert_eq!(f.space_kind, SpaceKind::Communal);
    f.profile_name = "  ".to_owned();
    assert_eq!(f.submit_profile(&mut s), None);
    assert_eq!(f.profile_name, "  ");
    f.profile_name = "Me".to_owned();
    assert_eq!(f.submit_profile(&mut s), Some(0));
    assert_eq!(f.profile_name, "");
    assert_eq!(f.submit_space(&mut s), Some(1));
    assert_eq!(names(&s), vec!["Me", "Home"]);
    f.space_name = String::new();
    assert_eq!(f.submit_space(&mut s), None);
}

#[test]
fn panel_root_navigation() {
    let mut s = WillowState::new();
    let mut root = PanelRoot::new();
    assert_eq!(root.content, PanelContent::Home);
    assert!(!s.prompts_first_space());
    s.create_profile("P".to_owned());
    assert!(s.prompts_first_space());
    let i = s.create_owned_space("S".to_owned());
    assert!(!s.prompts_first_space());
    root.open_space(&mut s, i);
    assert_eq!(root.content, PanelContent::Space(0));
    assert_eq!(s.active_space().unwrap().name(), "S");
    root.show_home();
    assert_eq!(root.content, PanelContent::Home);
    assert_eq!(bottom_bar(None), BottomBar::CreateProfile);
    assert_eq!(bottom_bar(Some(2)), BottomBar::ProfileBar(2));
}

#[test]
fn tagged_panel_selection() {
    let mut s = WillowState::new();
    let mut p = TaggedPanel::new(&mut s);
    assert_eq!(s.spaces().len(), 1);
    assert_eq!(s.spaces()[0].name(), "Group's Space");
    assert!(!s.spaces()[0].is_communal());
    assert_eq!(p.demo_profile.name(), "Myselfandi");
    assert_eq!(p.demo_profile.avatar().map(|a| a.as_str()), Some(".assets/tagged.svg"));
    assert!(s.profiles().is_empty());
    assert!(p.initial_panel);
    p.toggle_initial_panel();
    assert!(!p.initial_panel);
    assert_eq!(p.bottom_bar(), BottomBar::CreateProfile);
    assert!(!p.prompts_new_space());
    assert!(!p.icon_bounces());
    assert_eq!(p.create_profile_from_bar(&mut s), None);
    p.create_profile_name = "Zed".to_owned();
    assert!(p.icon_bounces());
    assert_eq!(p.create_profile_from_bar(&mut s), Some(0));
    assert_eq!(p.create_profile_name, "Zed");
    let label = p.key_label();
    assert!(label.starts_with("ID: .+") && label.len() == 14);
    assert_eq!(label, p.create_profile_key.id().short_label());
    let before = p.create_profile_key.secret;
    p.regenerate_key();
    assert_ne!(p.create_profile_key.secret, before);
    assert_eq!(p.active_profile, Some(0));
    assert_eq!(p.bottom_bar(), BottomBar::ProfileBar(0));
    assert!(p.prompts_new_space());
}

#[test]
fn greeting_document() {
    assert_eq!(DocContent::with_greeting().messages, vec!["Hello".to_owned()]);
}

fn id(b: u8) -> [u8; 32] {
    [b; 32]
}

#[test]
fn doc_lookups_need_a_node() {
    let mut p = IrohPanelState::new();
    assert!(!p.connect_doc(&vec![id(1)]));
    assert!(p.endpoints.keys().is_empty());
    p.set_ready();
    assert!(p.connect_doc(&vec![id(1), id(2), id(1)]));
    assert_eq!(p.endpoints.keys(), vec![id(1), id(2)]);
    let e = *p.endpoints.get(&id(2)).unwrap();
    assert_eq!(e, EndpointState { doc_lookup: true, doc_sync: false, has_chat: false });
}

#[test]
fn found_doc_opens_chat_and_sync() {
    let mut p = IrohPanelState::new();
    p.set_ready();
    p.connect_doc(&vec![id(3)]);
    p.doc_found(id(3));
    p.doc_found(id(4));
    assert_eq!(*p.endpoints.get(&id(3)).unwrap(), EndpointState { doc_lookup: true, doc_sync: true, has_chat: true });
    assert_eq!(*p.endpoints.get(&id(4)).unwrap(), EndpointState { doc_lookup: false, doc_sync: true, has_chat: true });
    // A later lookup keeps the open chat.
    p.connect_doc(&vec![id(4)]);
    assert_eq!(*p.endpoints.get(&id(4)).unwrap(), EndpointState { doc_lookup: true, doc_sync: true, has_chat: true });
}

#[test]
fn directory_namespace_for_profile() {
    let mut d = WillowDirectory::new("p".to_owned());
    let i = d.create_namespace_for(2, "mine".to_owned());
    assert_eq!(i, 2);
    assert_eq!(d.profiles()[2].namespaces(), vec![1, 2]);
    assert_eq!(d.profiles()[1].namespaces(), vec![0]);
    assert_eq!(d.namespaces()[2].name(), "mine");
}
