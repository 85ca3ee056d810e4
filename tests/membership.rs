use p2p_gossip::membership::MembershipTable;

fn b(s: &str) -> Vec<u8> {
    s.as_bytes().to_vec()
}

#[test]
fn add_peer_is_idempotent() {
    let mut t = MembershipTable::new();
    t.add_peer(&b("kitchen"), &b("p1"));
    t.add_peer(&b("kitchen"), &b("p1"));
    assert_eq!(t.peers_for(&b("kitchen")), vec![b("p1")]);
}

#[test]
fn remove_peer_leaves_all_topics() {
    let mut t = MembershipTable::new();
    t.add_peer(&b("a"), &b("p1"));
    t.add_peer(&b("b"), &b("p1"));
    t.add_peer(&b("b"), &b("p2"));
    t.remove_peer(&b("p1"));
    assert!(t.peers_for(&b("a")).is_empty());
    assert_eq!(t.peers_for(&b("b")), vec![b("p2")]);
    assert!(!t.has_peer(&b("b"), &b("p1")));
}

#[test]
fn unknown_topic_has_no_peers() {
    let t = MembershipTable::new();
    assert!(t.peers_for(&b("nothing")).is_empty());
}
