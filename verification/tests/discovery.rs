use galvanized::discovery::{compare_bytes, DiscoveredPeers};
use galvanized::peers::KeyOrder;

#[test]
fn byte_string_order() {
    assert!(compare_bytes(&vec![1, 2], &vec![1, 2, 0]) == KeyOrder::Less);
    assert!(compare_bytes(&vec![2], &vec![1, 9, 9]) == KeyOrder::Greater);
    assert!(compare_bytes(&vec![], &vec![]) == KeyOrder::Equal);
    assert!(compare_bytes(&vec![0, 36, 8], &vec![0, 36, 8]) == KeyOrder::Equal);
}

#[test]
fn discovered_peers_of_any_length() {
    let long: Vec<u8> = (0u8..38).collect();
    let short = vec![0u8, 1];
    let mut s = DiscoveredPeers::new();
    s.discovered(&vec![long.clone(), short.clone(), long.clone()]);
    assert_eq!(s.ids(), &vec![short.clone(), long.clone()]);
    assert!(s.contains(&long) && s.contains(&short));
    assert!(!s.contains(&vec![0u8]));
    s.expired(&vec![short.clone(), vec![9u8]]);
    assert_eq!(s.ids(), &vec![long.clone()]);
    s.remove(&long);
    s.insert(vec![5u8]);
    assert_eq!(s.ids(), &vec![vec![5u8]]);
}
