use galvanized::peers::{compare_keys, KeyOrder, PeerTable};
use galvanized::protocol::{DocStep, Envelope, GalvanizedMessage, GalvanizedProtocol, PeerError, PeerSet};

fn id(first: u8, last: u8) -> [u8; 32] {
    let mut k = [0u8; 32];
    k[0] = first;
    k[31] = last;
    k
}

#[test]
fn key_order_is_lexicographic() {
    assert!(compare_keys(&id(1, 9), &id(2, 0)) == KeyOrder::Less);
    assert!(compare_keys(&id(2, 0), &id(1, 9)) == KeyOrder::Greater);
    assert!(compare_keys(&id(3, 3), &id(3, 3)) == KeyOrder::Equal);
    assert!(compare_keys(&id(3, 2), &id(3, 3)) == KeyOrder::Less);
}

#[test]
fn table_insert_get_remove() {
    let mut t: PeerTable<&str> = PeerTable::new();
    t.insert(id(5, 0), "five");
    t.insert(id(1, 0), "one");
    t.insert(id(5, 0), "FIVE");
    assert_eq!(t.get(&id(5, 0)), Some(&"FIVE"));
    assert_eq!(t.get(&id(1, 0)), Some(&"one"));
    assert_eq!(t.get(&id(2, 0)), None);
    assert_eq!(t.keys(), vec![id(1, 0), id(5, 0)]);
    assert!(t.remove(&id(1, 0)));
    assert!(!t.remove(&id(1, 0)));
    assert!(!t.contains(&id(1, 0)));
    assert_eq!(t.keys(), vec![id(5, 0)]);
}

#[test]
fn table_insert_if_absent_keeps_existing() {
    let mut t: PeerTable<u32> = PeerTable::new();
    assert!(t.insert_if_absent(id(4, 4), 1));
    assert!(!t.insert_if_absent(id(4, 4), 2));
    assert_eq!(t.get(&id(4, 4)), Some(&1));
}

#[test]
fn unknown_peer_has_no_state() {
    let mut p = GalvanizedProtocol::new();
    assert!(matches!(p.open_doc_step(&id(1, 1)), Err(PeerError::NoPeerState)));
    assert_eq!(p.set_doc(id(1, 1), "doc".to_owned()), Err(PeerError::NoPeerState));
    assert_eq!(
        p.handle_message(id(1, 1), GalvanizedMessage::CreatedDoc("doc".to_owned())),
        Err(PeerError::NoPeerState)
    );
    assert!(p.remote_peers().is_empty());
}

#[test]
fn connected_peer_creates_then_opens_doc() {
    let mut p = GalvanizedProtocol::new();
    let first = p.connected(id(2, 0));
    assert!(matches!(first.message, GalvanizedMessage::CreatedStream));
    assert!(matches!(p.open_doc_step(&id(2, 0)), Ok(DocStep::Create)));
    assert_eq!(p.set_doc(id(2, 0), "d1".to_owned()), Ok(()));
    match p.open_doc_step(&id(2, 0)) {
        Ok(DocStep::Open(d)) => assert_eq!(d, "d1"),
        other => panic!("unexpected {:?}", other),
    }
}

#[test]
fn accepting_a_known_peer_keeps_its_doc() {
    let mut p = GalvanizedProtocol::new();
    p.accepted(id(3, 0));
    assert_eq!(p.handle_message(id(3, 0), GalvanizedMessage::CreatedDoc("shared".to_owned())), Ok(()));
    p.accepted(id(3, 0));
    match p.open_doc_step(&id(3, 0)) {
        Ok(DocStep::Open(d)) => assert_eq!(d, "shared"),
        other => panic!("unexpected {:?}", other),
    }
    // Connecting anew forgets the document.
    p.connected(id(3, 0));
    assert!(matches!(p.open_doc_step(&id(3, 0)), Ok(DocStep::Create)));
}

#[test]
fn stream_opener_changes_nothing() {
    let mut p = GalvanizedProtocol::new();
    assert_eq!(p.handle_message(id(9, 9), GalvanizedMessage::CreatedStream), Ok(()));
    assert!(p.remote_peers().is_empty());
    p.connected(id(9, 1));
    p.connected(id(1, 9));
    assert_eq!(p.remote_peers(), vec![id(1, 9), id(9, 1)]);
}

#[test]
fn envelope_carries_message() {
    let e = Envelope::from(GalvanizedMessage::CreatedDoc("x".to_owned()));
    assert!(matches!(e.message, GalvanizedMessage::CreatedDoc(ref d) if d == "x"));
}

#[test]
fn test_serialize_message() {
    let envelope = Envelope::from(GalvanizedMessage::CreatedStream);
    let message = match &envelope.message {
        GalvanizedMessage::CreatedStream => serde_json::Value::String("CreatedStream".to_owned()),
        GalvanizedMessage::CreatedDoc(d) => {
            let mut m = serde_json::Map::new();
            m.insert("CreatedDoc".to_owned(), serde_json::Value::String(d.clone()));
            serde_json::Value::Object(m)
        }
    };
    let mut outer = serde_json::Map::new();
    outer.insert("message".to_owned(), message);
    let serialized = serde_json::to_string(&serde_json::Value::Object(outer)).unwrap();
    println!("Serialized: {}", serialized);
    assert_eq!(serialized, "{\"message\":\"CreatedStream\"}");
}

#[test]
fn discovered_then_expired_peers() {
    let mut s = PeerSet::new();
    s.insert(id(7, 7));
    s.discovered(&vec![id(1, 0), id(2, 0)]);
    assert!(s.contains(&id(1, 0)) && s.contains(&id(2, 0)) && s.contains(&id(7, 7)));
    s.expired(&vec![id(1, 0), id(2, 0)]);
    assert_eq!(s.to_vec(), vec![id(7, 7)]);
    s.remove(&id(7, 7));
    assert!(s.to_vec().is_empty());
}

#[test]
fn created_doc_is_recorded_and_announced() {
    let mut p = GalvanizedProtocol::new();
    assert!(matches!(p.doc_created(id(5, 5), "d".to_owned()), Err(PeerError::NoPeerState)));
    p.connected(id(5, 5));
    match p.doc_created(id(5, 5), "doc-7".to_owned()) {
        Ok(e) => assert!(matches!(e.message, GalvanizedMessage::CreatedDoc(ref d) if d == "doc-7")),
        Err(e) => panic!("unexpected {:?}", e),
    }
    match p.open_doc_step(&id(5, 5)) {
        Ok(DocStep::Open(d)) => assert_eq!(d, "doc-7"),
        other => panic!("unexpected {:?}", other),
    }
}
