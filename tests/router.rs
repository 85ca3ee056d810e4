use p2p_gossip::engine::GossipError;
use p2p_gossip::router::{parse_command, Command};

fn b(s: &str) -> Vec<u8> {
    s.as_bytes().to_vec()
}

#[test]
fn parses_subscribe() {
    match parse_command(&b("t:sub:news")) {
        Ok(Command::Subscribe { topic }) => assert_eq!(topic, b("news")),
        _ => panic!("expected a subscription"),
    }
}

#[test]
fn parses_publish_keeping_colons_in_payload() {
    match parse_command(&b("t:news:a:b:c")) {
        Ok(Command::Publish { topic, payload }) => {
            assert_eq!(topic, b("news"));
            assert_eq!(payload, b("a:b:c"));
        }
        _ => panic!("expected a publication"),
    }
}

#[test]
fn plain_line_is_broadcast() {
    match parse_command(&b("hello there")) {
        Ok(Command::Broadcast { payload }) => assert_eq!(payload, b("hello there")),
        _ => panic!("expected a broadcast"),
    }
}

#[test]
fn missing_segment_is_malformed() {
    assert!(matches!(parse_command(&b("t:")), Err(GossipError::MalformedCommand)));
    assert!(matches!(parse_command(&b("t:news")), Err(GossipError::MalformedCommand)));
}

#[test]
fn sub_with_colons_takes_the_rest_as_topic() {
    match parse_command(&b("t:sub:a:b")) {
        Ok(Command::Subscribe { topic }) => assert_eq!(topic, b("a:b")),
        _ => panic!("expected a subscription"),
    }
}
