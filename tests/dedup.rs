use p2p_gossip::dedup::Deduplicator;

#[test]
fn first_sight_is_unseen_then_seen() {
    let mut d = Deduplicator::new(4);
    assert!(!d.already_seen(7));
    assert!(d.already_seen(7));
    assert_eq!(d.len(), 1);
}

#[test]
fn overflow_evicts_first_inserted() {
    let k: usize = 3;
    let mut d = Deduplicator::new(k);
    for id in [10u64, 20, 30, 40] {
        assert!(!d.already_seen(id));
    }
    assert_eq!(d.len(), k);
    assert!(!d.contains(10));
    assert!(d.contains(20));
    assert!(d.contains(40));
    // the evicted id is treated as unseen again
    assert!(!d.already_seen(10));
    assert!(!d.contains(20));
}

#[test]
fn repeated_id_does_not_refresh_order() {
    let mut d = Deduplicator::new(2);
    assert!(!d.already_seen(1));
    assert!(!d.already_seen(2));
    assert!(d.already_seen(1));
    assert!(!d.already_seen(3));
    assert!(!d.contains(1));
    assert!(d.contains(2));
    assert!(d.contains(3));
}

#[test]
fn capacity_one_keeps_latest() {
    let mut d = Deduplicator::new(1);
    assert!(!d.already_seen(5));
    assert!(!d.already_seen(6));
    assert!(!d.contains(5));
    assert_eq!(d.capacity(), 1);
}
