use galvanized::profile::{Availability, Profile, ProfileId, ProfileKey, ProfileManager};
use galvanized::spaces::{space_icon_path, IconShape, Space, WillowState};

#[test]
fn profile_id_hex_and_label() {
    let mut bytes = [0u8; 32];
    bytes[0] = 0xab;
    bytes[28] = 0x01;
    bytes[29] = 0x23;
    bytes[30] = 0x45;
    bytes[31] = 0xef;
    let id = ProfileId(bytes);
    let hex = id.to_hex();
    assert_eq!(hex.len(), 64);
    assert!(hex.starts_with("ab00"));
    assert!(hex.ends_with("012345ef"));
    assert_eq!(id.short_label(), "ID: .+012345ef");
}

#[test]
fn profile_id_is_key_id() {
    let key = ProfileKey::from_secret([7u8; 32]);
    let profile = Profile::new("Ann".to_owned(), key.secret);
    assert_eq!(profile.id().0, key.id().0);
    // The id is the public key, not the secret.
    assert_ne!(key.id().0, [7u8; 32]);
}

#[test]
fn fresh_keys_differ() {
    let a = ProfileKey::new();
    let b = ProfileKey::new();
    assert_ne!(a.secret, b.secret);
}

#[test]
fn new_profile_is_online_without_avatar() {
    let mut p = Profile::new("Bo".to_owned(), [1u8; 32]);
    assert_eq!(p.name(), "Bo");
    assert!(p.online());
    assert!(p.avatar().is_none());
    p.set_avatar("img/bo.png".to_owned());
    assert_eq!(p.avatar().map(|s| s.as_str()), Some("img/bo.png"));
}

#[test]
fn toggle_online_twice_restores() {
    let mut p = Profile::new("Cy".to_owned(), [2u8; 32]);
    p.toggle_online();
    assert!(!p.online());
    p.toggle_online();
    assert!(p.online());
}

#[test]
fn profile_manager_keeps_order() {
    let mut m = ProfileManager::new();
    m.add_profile(Profile::new("a".to_owned(), [0u8; 32]));
    m.add_profile(Profile::new("b".to_owned(), [0u8; 32]));
    let names: Vec<String> = m.profiles.iter().map(|p| p.name()).collect();
    assert_eq!(names, vec!["a", "b"]);
}

#[test]
fn first_profile_becomes_active_and_stays() {
    let mut s = WillowState::new();
    assert!(s.active_profile().is_none());
    let first = s.create_profile("first".to_owned());
    assert_eq!(first, 0);
    assert_eq!(s.active_profile().unwrap().name(), "first");
    let second = s.create_profile("second".to_owned());
    assert_eq!(second, 1);
    assert_eq!(s.active_profile().unwrap().name(), "first");
    assert_eq!(s.profiles().len(), 2);
}

#[test]
fn owned_and_communal_spaces() {
    let mut s = WillowState::new();
    let o = s.create_owned_space("Team".to_owned());
    let c = s.create_communal_space("Town".to_owned());
    assert_eq!((o, c), (0, 1));
    assert!(!s.spaces()[o].is_communal());
    assert!(s.spaces()[c].is_communal());
    assert_eq!(s.spaces()[o].name(), "Team");
    assert!(s.active_space().is_none());
    // Communal ids end in an even byte, owned ones in an odd byte.
    assert_eq!(s.spaces()[c].namespace_id()[31] % 2, 0);
    assert_eq!(s.spaces()[o].namespace_id()[31] % 2, 1);
}

#[test]
fn space_namespace_id_is_stable() {
    let sp = Space::new("x".to_owned(), [9u8; 32]);
    assert_eq!(sp.namespace_id(), sp.namespace_id());
    assert_ne!(sp.namespace_id(), [9u8; 32]);
    assert_eq!(sp.is_communal(), sp.namespace_id()[31] % 2 == 0);
}

#[test]
fn spaces_and_profiles_do_not_change_each_others_selection() {
    let mut s = WillowState::new();
    s.create_profile("p".to_owned());
    let sp = s.create_communal_space("c".to_owned());
    s.set_active_space(sp);
    s.create_profile("q".to_owned());
    assert_eq!(s.active_space().unwrap().name(), "c");
    s.create_owned_space("o".to_owned());
    assert_eq!(s.active_profile().unwrap().name(), "p");
    assert_eq!(s.active_space().unwrap().name(), "c");
    s.set_active_profile(1);
    assert_eq!(s.active_profile().unwrap().name(), "q");
}

#[test]
fn profile_status_line() {
    let mut p = Profile::new("S".to_owned(), [3u8; 32]);
    assert_eq!(p.status_text(), "Online");
    assert_eq!(p.availability(), Availability::Free);
    p.toggle_online();
    assert_eq!(p.status_text(), "Offline");
    assert_eq!(p.availability(), Availability::Busy);
}

#[test]
fn space_icons() {
    assert_eq!(space_icon_path(None), ".assets/create-space.svg");
    assert_eq!(space_icon_path(Some("me.png".to_owned())), "me.png");
    let mut s = WillowState::new();
    let o = s.create_owned_space("o".to_owned());
    let c = s.create_communal_space("c".to_owned());
    assert_eq!(s.spaces()[o].icon_shape(), IconShape::Circle);
    assert_eq!(s.spaces()[c].icon_shape(), IconShape::RoundedSquare);
}
