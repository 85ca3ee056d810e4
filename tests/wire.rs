use p2p_gossip::crypto::Identity;
use p2p_gossip::engine::{GossipEngine, Message};
use p2p_gossip::wire::{decode_message, encode_message};

fn sample() -> Message {
    Message {
        topic: b"kitchen".to_vec(),
        payload: b"hello".to_vec(),
        signature: vec![1, 2, 3],
        sender: vec![9, 9],
        key: vec![],
        message_id: 0x0102030405060708,
    }
}

#[test]
fn frame_layout_is_exact() {
    let f = encode_message(&sample()).unwrap();
    let mut expect: Vec<u8> = vec![7, 0, 0, 0];
    expect.extend_from_slice(b"kitchen");
    expect.extend_from_slice(&[5, 0, 0, 0]);
    expect.extend_from_slice(b"hello");
    expect.extend_from_slice(&[3, 0, 0, 0, 1, 2, 3]);
    expect.extend_from_slice(&[2, 0, 0, 0, 9, 9]);
    expect.extend_from_slice(&[0, 0, 0, 0]);
    expect.extend_from_slice(&[8, 7, 6, 5, 4, 3, 2, 1]);
    assert_eq!(f, expect);
}

#[test]
fn frame_round_trip() {
    let m = sample();
    let back = decode_message(&encode_message(&m).unwrap()).unwrap();
    assert_eq!(back.topic, m.topic);
    assert_eq!(back.payload, m.payload);
    assert_eq!(back.signature, m.signature);
    assert_eq!(back.sender, m.sender);
    assert_eq!(back.key, m.key);
    assert_eq!(back.message_id, m.message_id);
}

#[test]
fn truncated_or_padded_frames_are_refused() {
    let f = encode_message(&sample()).unwrap();
    assert!(decode_message(&f[..f.len() - 1].to_vec()).is_none());
    let mut longer = f.clone();
    longer.push(0);
    assert!(decode_message(&longer).is_none());
    assert!(decode_message(&Vec::new()).is_none());
    assert!(decode_message(&vec![200, 0, 0, 0, 1]).is_none());
}

#[test]
fn decoded_signed_message_is_accepted() {
    let mut a = GossipEngine::new(Identity::generate(), b"topic-broadcast".to_vec(), 8).ok().unwrap();
    let mut b = GossipEngine::new(Identity::generate(), b"topic-broadcast".to_vec(), 8).ok().unwrap();
    let p = a.publish(&b"topic-broadcast".to_vec(), &b"over the wire".to_vec()).ok().unwrap();
    let m = decode_message(&encode_message(&p.message).unwrap()).unwrap();
    let a_id = a.identity().peer_id().clone();
    let r = b.handle_inbound(&a_id, &m).ok().unwrap();
    assert!(r.deliver);
}
