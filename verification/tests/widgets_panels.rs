use galvanized::directory::{Namespace, WillowDirectory};
use galvanized::onboarding::{
    accepts_dialog_name, accepts_profile_name, is_blank_text, onboarding_tab_action, ButtonInput, Onboarding, TabAction,
};
use galvanized::panel::{
    copy_ticket_label, endpoint_id_label, endpoint_to_sync, local_endpoint_label, new_topic_id, IrohPanelState,
};
use galvanized::widgets::{
    calendar_day_labels, handle_task_input, Canvas, Contact, Contacts, Feed, SoulRing, WillowTaskInput,
};

#[test]
fn tab_actions() {
    assert_eq!(onboarding_tab_action(true, true), TabAction::Nothing);
    assert_eq!(onboarding_tab_action(false, true), TabAction::Activate);
    assert_eq!(onboarding_tab_action(false, false), TabAction::Create);
}

#[test]
fn onboarding_completes_with_profile_and_space() {
    let mut o = Onboarding::new();
    assert!(!o.is_complete());
    o.profile = Some(0);
    assert!(!o.is_complete());
    o.space = Some(0);
    assert!(o.is_complete());
}

#[test]
fn typed_names() {
    assert!(accepts_profile_name(" "));
    assert!(!accepts_profile_name(""));
    assert!(!accepts_dialog_name("  \t\u{3000}"));
    assert!(accepts_dialog_name(" a "));
    assert!(is_blank_text(""));
    assert!(!is_blank_text("x"));
}

#[test]
fn button_input_toggle() {
    let mut b = ButtonInput::new("New".to_owned()).placeholder_text("name".to_owned());
    assert!(b.is_button() && !b.is_input());
    b.fresh_input();
    assert!(b.is_input() && !b.is_button());
    b.clear();
    assert!(b.is_button());
    assert_eq!(b.placeholder.as_deref(), Some("name"));
    assert!(!b.submits(""));
    assert!(b.submits("x"));
}

#[test]
fn contacts_sample() {
    let c = Contacts::new();
    let lines: Vec<(String, String)> = c.contacts.iter().map(|c| (c.name_line(), c.key_line())).collect();
    assert_eq!(lines[0], ("Name: Apple".to_owned(), "Key: applekey".to_owned()));
    assert_eq!(lines[2], ("Name: Cranberry".to_owned(), "Key: cranberrykey".to_owned()));
    assert_eq!(lines.len(), 3);
    assert_eq!(Contact::new("n".to_owned(), "k".to_owned()).key_line(), "Key: k");
}

#[test]
fn calendar_labels_one_to_thirty_five() {
    let labels = calendar_day_labels();
    assert_eq!(labels.len(), 35);
    assert_eq!(labels[0], "1");
    assert_eq!(labels[9], "10");
    assert_eq!(labels[34], "35");
}

#[test]
fn feeds_canvases_tasks() {
    let f = Feed::new(vec![1, 2, 3]);
    assert_eq!(f.children, vec![1, 2, 3]);
    let mut c: Canvas<&str> = Canvas::new();
    c.add("a");
    c.add("b");
    assert_eq!(c.widgets, vec!["a", "b"]);
    assert_eq!(handle_task_input(WillowTaskInput::Shutdown), Ok(()));
    assert!(SoulRing {}.souls().is_empty());
}

#[test]
fn copy_ticket_label_shows_last_eight() {
    assert_eq!(copy_ticket_label("abcdefghijklmnop"), "Copy Ticket .+ijklmnop");
}

#[test]
fn panel_topics_need_a_node() {
    let mut p = IrohPanelState::new();
    assert_eq!(p.spaces, vec!["Home", "Family", "Work"]);
    let t = new_topic_id();
    assert!(!p.create_topic_ui(t, "first".to_owned()));
    assert!(p.topic_ids().is_empty());
    p.set_ready();
    assert!(p.create_topic_ui(t, "first".to_owned()));
    assert!(p.create_topic_ui([0u8; 32], "zero".to_owned()));
    let ids = p.topic_ids();
    assert_eq!(ids.len(), 2);
    assert!(ids.contains(&t) && ids.contains(&[0u8; 32]));
    assert_eq!(p.topics.get(&[0u8; 32]).unwrap().title, "zero");
    p.add_doc("doc".to_owned());
    assert_eq!(p.docs, vec!["doc"]);
}

#[test]
fn directory_sample_content() {
    let d = WillowDirectory::new("/tmp/store".to_owned());
    let ns: Vec<Vec<String>> = d.namespaces().iter().map(|n| n.entry_labels()).collect();
    assert_eq!(ns, vec![vec!["ns0/entry/0", "ns0/entry/1"], vec!["ns1/entry/2", "ns1/entry/3"]]);
    let ps: Vec<(String, Vec<usize>)> = d.profiles().iter().map(|p| (p.name(), p.namespaces())).collect();
    assert_eq!(ps[0], ("Profile 0".to_owned(), vec![0, 1]));
    assert_eq!(ps[1], ("Profile 1".to_owned(), vec![0]));
    assert_eq!(ps[2], ("Profile 2".to_owned(), vec![1]));
    assert_eq!(d.path, "/tmp/store");
}

#[test]
fn directory_grows() {
    let mut d = WillowDirectory::new("p".to_owned());
    let i = d.create_namespace("ns2".to_owned());
    assert_eq!(i, 2);
    let j = d.create_profile("3".to_owned(), "Profile 3".to_owned());
    assert_eq!(j, 3);
    assert_eq!(d.profiles()[3].id(), "3");
    let mut n = Namespace::new("n".to_owned());
    n.create_entry("e".to_owned());
    assert_eq!(n.entries(), &vec!["e".to_owned()]);
    assert_eq!(n.name(), "n");
    d.profiles[1].toggle_open();
    assert!(!d.profiles[1].open);
    d.profiles[1].select_namespace(0);
    assert_eq!(d.profiles[1].active_namespace, Some(0));
}

#[test]
fn endpoint_label_shows_first_eight() {
    assert_eq!(endpoint_id_label("0123456789abcdef"), "Endpoint ID: .+01234567");
    assert_eq!(endpoint_id_label("abc"), "Endpoint ID: .+abc");
    assert_eq!(endpoint_id_label("ééééééééé"), "Endpoint ID: .+éééééééé");
}

#[test]
fn connections_view_choices() {
    assert_eq!(endpoint_to_sync(&vec![]), None);
    assert_eq!(endpoint_to_sync(&vec![[1u8; 32], [2u8; 32]]), Some([1u8; 32]));
    assert_eq!(local_endpoint_label(None), "Local endpoint unavailable");
    assert_eq!(local_endpoint_label(Some("0123456789abcdef")), "89abcdef");
}

#[test]
fn contacts_feed_yields_the_contacts() {
    let c = Contacts::new();
    let names: Vec<String> = c.feed().iter().map(|c| c.name.clone()).collect();
    assert_eq!(names, vec!["Apple", "Banana", "Cranberry"]);
}

#[test]
fn new_topic_leaves_other_chats() {
    let mut p = IrohPanelState::new();
    p.set_ready();
    p.create_topic_ui([1u8; 32], "one".to_owned());
    p.topics.get(&[1u8; 32]).unwrap();
    assert!(p.create_topic_ui([2u8; 32], "two".to_owned()));
    assert_eq!(p.topics.get(&[1u8; 32]).unwrap().title, "one");
    assert_eq!(p.topics.get(&[2u8; 32]).unwrap().title, "two");
}

#[test]
fn unicode_blanks() {
    assert!(is_blank_text("\u{85}\u{a0}\u{1680}\u{2000}\u{200a}\u{2028}\u{2029}\u{202f}\u{205f}\u{3000}\t\r\n"));
    assert!(!is_blank_text("\u{200b}"));
    assert!(!is_blank_text("\u{feff}"));
}
