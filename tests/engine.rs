use p2p_gossip::crypto::{message_id, Identity};
use p2p_gossip::engine::{GossipEngine, GossipError};
use p2p_gossip::router::{handle_ip, LineOutcome};

fn b(s: &str) -> Vec<u8> {
    s.as_bytes().to_vec()
}

fn node() -> GossipEngine {
    match GossipEngine::new(Identity::generate(), b("topic-broadcast"), 64) {
        Ok(e) => e,
        Err(_) => panic!("valid broadcast topic"),
    }
}

#[test]
fn message_id_is_deterministic() {
    let p = b("some payload");
    assert_eq!(message_id(&p), message_id(&p.clone()));
    assert_ne!(message_id(&b("payload a")), message_id(&b("payload b")));
}

#[test]
fn empty_broadcast_topic_is_invalid() {
    assert!(matches!(
        GossipEngine::new(Identity::generate(), Vec::new(), 8),
        Err(GossipError::InvalidTopic)
    ));
}

#[test]
fn subscribe_rejects_bad_topics() {
    let mut e = node();
    assert_eq!(e.subscribe(&Vec::new()), Err(GossipError::InvalidTopic));
    assert_eq!(e.subscribe(&vec![b'a', 0u8]), Err(GossipError::InvalidTopic));
    assert!(!e.is_subscribed(&vec![b'a', 0u8]));
}

#[test]
fn publish_with_no_peers_delivers_locally_when_subscribed() {
    let mut e = node();
    assert_eq!(e.subscribe(&b("kitchen")), Ok(()));
    let p = e.publish(&b("kitchen"), &b("hello")).ok().unwrap();
    assert!(p.deliver);
    assert!(p.no_peers());
    assert_eq!(p.message.payload, b("hello"));
    assert_eq!(p.message.topic, b("kitchen"));
    assert_eq!(&p.message.sender, e.identity().peer_id());
    assert_eq!(p.message.message_id, message_id(&b("hello")));
}

#[test]
fn two_nodes_exchange_once() {
    let mut a = node();
    let mut bnode = node();
    let a_id = a.identity().peer_id().clone();
    let b_id = bnode.identity().peer_id().clone();
    a.peer_appeared(&b_id);
    bnode.peer_appeared(&a_id);
    assert_eq!(a.subscribe(&b("kitchen")), Ok(()));
    assert_eq!(bnode.subscribe(&b("kitchen")), Ok(()));
    let p = a.publish(&b("kitchen"), &b("hi")).ok().unwrap();
    assert_eq!(p.targets, vec![b_id.clone()]);
    let first = bnode.handle_inbound(&a_id, &p.message).ok().unwrap();
    assert!(first.deliver);
    assert!(!first.duplicate);
    // B forwards to its peers on the topic other than the sender: none here
    assert!(first.forward_to.is_empty());
    let second = bnode.handle_inbound(&a_id, &p.message).ok().unwrap();
    assert!(second.duplicate);
    assert!(!second.deliver);
    assert!(second.forward_to.is_empty());
}

#[test]
fn fresh_message_is_forwarded_to_others_but_not_sender() {
    let mut a = node();
    let mut relay = node();
    let a_id = a.identity().peer_id().clone();
    let other = b("other-peer");
    relay.peer_appeared(&a_id);
    relay.peer_appeared(&other);
    assert_eq!(relay.subscribe(&b("kitchen")), Ok(()));
    let p = a.publish(&b("kitchen"), &b("pass it on")).ok().unwrap();
    let r = relay.handle_inbound(&a_id, &p.message).ok().unwrap();
    assert!(r.deliver);
    assert_eq!(r.forward_to, vec![other]);
}

#[test]
fn own_echo_is_not_delivered_again() {
    let mut a = node();
    let peer = b("peer-x");
    a.peer_appeared(&peer);
    assert_eq!(a.subscribe(&b("kitchen")), Ok(()));
    let p = a.publish(&b("kitchen"), &b("echo me")).ok().unwrap();
    assert!(p.deliver);
    let echo = a.handle_inbound(&peer, &p.message).ok().unwrap();
    assert!(echo.duplicate);
    assert!(!echo.deliver);
    assert!(echo.forward_to.is_empty());
}

#[test]
fn vanished_peer_leaves_every_topic() {
    let mut e = node();
    assert_eq!(e.subscribe(&b("kitchen")), Ok(()));
    let p = b("peer-p");
    e.peer_appeared(&p);
    assert_eq!(e.peers_for(&b("kitchen")), vec![p.clone()]);
    assert_eq!(e.peers_for(&b("topic-broadcast")), vec![p.clone()]);
    e.peer_vanished(&p);
    assert!(e.peers_for(&b("kitchen")).is_empty());
    assert!(e.peers_for(&b("topic-broadcast")).is_empty());
}

#[test]
fn tampered_payload_is_refused() {
    let mut a = node();
    let mut bnode = node();
    let a_id = a.identity().peer_id().clone();
    assert_eq!(bnode.subscribe(&b("kitchen")), Ok(()));
    let p = a.publish(&b("kitchen"), &b("original")).ok().unwrap();
    let mut m = p.message.clone();
    m.payload = b("forged");
    m.message_id = message_id(&m.payload);
    assert!(matches!(bnode.handle_inbound(&a_id, &m), Err(GossipError::AuthenticationFailure)));
    // a forged sender is refused too
    let mut m2 = p.message.clone();
    m2.sender = b("someone else");
    assert!(matches!(bnode.handle_inbound(&a_id, &m2), Err(GossipError::AuthenticationFailure)));
    // and a wrong id
    let mut m3 = p.message.clone();
    m3.message_id = m3.message_id.wrapping_add(1);
    assert!(matches!(bnode.handle_inbound(&a_id, &m3), Err(GossipError::AuthenticationFailure)));
    // the genuine message still goes through afterwards
    let ok = bnode.handle_inbound(&a_id, &p.message).ok().unwrap();
    assert!(ok.deliver);
}

#[test]
fn line_subscribe_sends_nothing() {
    let mut e = node();
    let r = handle_ip(&mut e, &b("t:sub:news"));
    assert!(matches!(r, Ok(LineOutcome::Subscribed)));
    assert!(e.is_subscribed(&b("news")));
}

#[test]
fn line_publish_to_unsubscribed_topic_is_not_delivered() {
    let mut e = node();
    let peer = b("peer-n");
    e.peer_appeared(&peer);
    match handle_ip(&mut e, &b("t:news:breaking")) {
        Ok(LineOutcome::Published(p)) => {
            assert!(!p.deliver);
            assert!(p.targets.is_empty());
            assert_eq!(p.message.topic, b("news"));
            assert_eq!(p.message.payload, b("breaking"));
        }
        _ => panic!("expected a publication"),
    }
}

#[test]
fn plain_line_goes_to_broadcast_topic() {
    let mut e = node();
    match handle_ip(&mut e, &b("hello all")) {
        Ok(LineOutcome::Published(p)) => {
            assert!(p.deliver);
            assert_eq!(p.message.topic, b("topic-broadcast"));
            assert_eq!(p.message.payload, b("hello all"));
        }
        _ => panic!("expected a publication"),
    }
}

#[test]
fn malformed_line_is_reported() {
    let mut e = node();
    assert!(matches!(handle_ip(&mut e, &b("t:oops")), Err(GossipError::MalformedCommand)));
    assert!(matches!(handle_ip(&mut e, &b("t::x")), Err(GossipError::InvalidTopic)));
}

#[test]
fn identity_from_secret_is_deterministic() {
    let secret: Vec<u8> = (1u8..=32).collect();
    let a = Identity::from_secret(secret.clone()).unwrap();
    let b2 = Identity::from_secret(secret).unwrap();
    assert_eq!(a.public_key(), b2.public_key());
    assert_eq!(a.peer_id(), b2.peer_id());
    assert!(!a.public_key().is_empty());
    assert!(Identity::from_secret(vec![0u8; 31]).is_none());
    assert!(Identity::from_secret(Vec::new()).is_none());
}

#[test]
fn published_message_is_authentic() {
    let mut e = node();
    let p = e.publish(&b("kitchen"), &b("signed")).ok().unwrap();
    assert!(p2p_gossip::engine::check_message(&p.message));
    assert!(!p.message.signature.is_empty());
    let mut tampered = p.message.clone();
    tampered.payload = b("signeD");
    assert!(!p2p_gossip::engine::check_message(&tampered));
}

#[test]
fn publishing_past_capacity_evicts_first_id() {
    let mut e = match GossipEngine::new(Identity::generate(), b("topic-broadcast"), 2) {
        Ok(e) => e,
        Err(_) => panic!("valid broadcast topic"),
    };
    let peer = b("peer-q");
    let mut published = Vec::new();
    for line in ["t:news:x0", "t:news:x1", "t:news:x2"] {
        match handle_ip(&mut e, &b(line)) {
            Ok(LineOutcome::Published(p)) => published.push(p.message),
            _ => panic!("expected a publication"),
        }
    }
    // x0's id was evicted: an echo of it counts as unseen again
    let again = e.handle_inbound(&peer, &published[0]).ok().unwrap();
    assert!(!again.duplicate);
    // x2's id is still held
    let dup = e.handle_inbound(&peer, &published[2]).ok().unwrap();
    assert!(dup.duplicate);
}
