use galvanized::chat::{ChatBubble, ChatDocument, ChatMessage, DocContent, TopicChat};
use galvanized::vault::{
    is_cap_active, is_vault_password, SubmitOutcome, UnlockAction, VaultState, VaultUnlockUi, VAULT_CAP_TTL_MS,
    VAULT_CAP_TTL_SECS,
};

#[test]
fn empty_text_is_not_sent() {
    let mut d = ChatDocument::new();
    assert!(!d.send_message(String::new()));
    assert!(d.messages.is_empty());
}

#[test]
fn sent_text_is_appended_from_id_and_name() {
    let mut d = ChatDocument::new();
    assert!(d.send_message("hello".to_owned()));
    assert!(d.send_message("again".to_owned()));
    assert_eq!(d.messages.len(), 2);
    let last = d.messages.last().unwrap();
    assert_eq!((last.sender_id.as_str(), last.sender_name.as_str(), last.body.as_str()), ("ID", "Name", "again"));
    assert_eq!(d.messages[0].body, "hello");
    assert_ne!(d.messages[0].id, d.messages[1].id);
}

#[test]
fn bubble_lines() {
    let m = ChatMessage::new("peer-1".to_owned(), "Pat".to_owned(), "hi there".to_owned());
    let b = ChatBubble::new(&m);
    assert_eq!(b.from_line(), "From: peer-1");
    assert_eq!(b.message_line(), "Message: hi there");
}

#[test]
fn added_message_keeps_order() {
    let mut d = ChatDocument::new();
    d.add_message(ChatMessage::new("a".to_owned(), "A".to_owned(), "1".to_owned()));
    d.add_message(ChatMessage::new("b".to_owned(), "B".to_owned(), "2".to_owned()));
    let bodies: Vec<&str> = d.messages.iter().map(|m| m.body.as_str()).collect();
    assert_eq!(bodies, vec!["1", "2"]);
    assert!(DocContent::new().messages.is_empty());
}

#[test]
fn topic_chat_needs_a_sender() {
    let mut c = TopicChat::new("topic".to_owned());
    assert!(!c.send_message("early".to_owned()));
    assert!(c.messages.is_empty());
    c.set_sender();
    assert!(c.send_message("now".to_owned()));
    assert_eq!(c.messages, vec!["now".to_owned()]);
    assert_eq!(c.title, "topic");
}

#[test]
fn received_bytes_are_shown_as_text() {
    let mut c = TopicChat::new("t".to_owned());
    c.handle_received_message("héllo".as_bytes());
    c.handle_received_message(&[0x66, 0xff, 0x6f]);
    assert_eq!(c.messages, vec!["héllo".to_owned(), "f\u{fffd}o".to_owned()]);
}

#[test]
fn unlock_decisions() {
    let mut v = VaultState::new();
    assert_eq!(v.unlock(0), UnlockAction::OpenWindow);
    v.window_opened(true);
    assert_eq!(v.unlock(5), UnlockAction::AwaitPending);
    assert!(v.unlock_granted(1_000));
    assert!(v.is_unlocked(1_000));
    assert_eq!(v.unlock(10_999), UnlockAction::ReturnCached);
    // Ten seconds after the grant the capability has expired.
    assert!(!v.is_unlocked(11_000));
    assert_eq!(v.unlock(11_000), UnlockAction::OpenWindow);
    assert_eq!(VAULT_CAP_TTL_SECS, 10);
    assert_eq!(VAULT_CAP_TTL_MS, 10_000);
}

#[test]
fn failed_window_changes_nothing() {
    let mut v = VaultState::new();
    v.window_opened(false);
    assert_eq!(v.unlock(0), UnlockAction::OpenWindow);
    assert!(!v.unlock_granted(0));
    assert!(!is_cap_active(None, 0));
    assert!(is_cap_active(Some(500), 100));
}

#[test]
fn password_check() {
    assert!(is_vault_password("password"));
    assert!(!is_vault_password("Password"));
    assert!(!is_vault_password("password1"));
    assert!(!is_vault_password(""));
}

#[test]
fn unlock_window_releases_once() {
    let mut w = VaultUnlockUi::new();
    assert_eq!(w.submit("guess"), SubmitOutcome::Rejected);
    assert!(w.can_release);
    assert_eq!(w.submit("password"), SubmitOutcome::Accepted);
    assert_eq!(w.submit("password"), SubmitOutcome::AlreadySent);
    assert!(!w.can_release);
}
