use vstd::prelude::*;
use vstd::bytes::{
    lemma_auto_spec_u32_to_from_le_bytes, lemma_auto_spec_u64_to_from_le_bytes, spec_u32_from_le_bytes,
    spec_u32_to_le_bytes, spec_u64_from_le_bytes, spec_u64_to_le_bytes, u32_from_le_bytes, u32_to_le_bytes,
    u64_from_le_bytes, u64_to_le_bytes,
};
use crate::engine::Message;
use crate::bytes::slice_bytes;

verus! {

/// A byte string on the wire: its length as four little-endian bytes, then the bytes.
pub open spec fn field_bytes(b: Seq<u8>) -> Seq<u8> {
    spec_u32_to_le_bytes(b.len() as u32) + b
}

/// The fields of a message, as a frame holds them.
pub type FrameFields = (Seq<u8>, Seq<u8>, Seq<u8>, Seq<u8>, Seq<u8>, u64);

pub open spec fn fields_of(m: Message) -> FrameFields {
    (m.topic@, m.payload@, m.signature@, m.sender@, m.key@, m.message_id)
}

/// Every byte string of `m` has a length that fits in four bytes.
pub open spec fn fits(m: Message) -> bool {
    &&& m.topic@.len() <= u32::MAX
    &&& m.payload@.len() <= u32::MAX
    &&& m.signature@.len() <= u32::MAX
    &&& m.sender@.len() <= u32::MAX
    &&& m.key@.len() <= u32::MAX
}

/// A frame: topic, payload, signature, sender and key as fields, then the id
/// as eight little-endian bytes.
pub open spec fn frame_bytes(m: Message) -> Seq<u8> {
    field_bytes(m.topic@) + field_bytes(m.payload@) + field_bytes(m.signature@) + field_bytes(m.sender@)
        + field_bytes(m.key@) + spec_u64_to_le_bytes(m.message_id)
}

/// The field that starts at `at` in `s`, and where it ends.
pub open spec fn read_field(s: Seq<u8>, at: int) -> Option<(Seq<u8>, int)> {
    if 0 <= at && at + 4 <= s.len() {
        let n = spec_u32_from_le_bytes(s.subrange(at, at + 4)) as int;
        if at + 4 + n <= s.len() {
            Some((s.subrange(at + 4, at + 4 + n), at + 4 + n))
        } else {
            None
        }
    } else {
        None
    }
}

/// The fields that `s` holds as a frame, where it is one.
pub open spec fn parse_frame(s: Seq<u8>) -> Option<FrameFields> {
    match read_field(s, 0) {
        None => None,
        Some((t, a)) => match read_field(s, a) {
            None => None,
            Some((p, b)) => match read_field(s, b) {
                None => None,
                Some((g, c)) => match read_field(s, c) {
                    None => None,
                    Some((d, e)) => match read_field(s, e) {
                        None => None,
                        Some((k, f)) => if f + 8 == s.len() {
                            Some((t, p, g, d, k, spec_u64_from_le_bytes(s.subrange(f, f + 8))))
                        } else {
                            None
                        },
                    },
                },
            },
        },
    }
}

proof fn lemma_read_field(pre: Seq<u8>, b: Seq<u8>, rest: Seq<u8>)
    requires
        b.len() <= u32::MAX,
    ensures
        read_field(pre + field_bytes(b) + rest, pre.len() as int) == Some((b, (pre.len() + 4 + b.len()) as int)),
{
    lemma_auto_spec_u32_to_from_le_bytes();
    let s = pre + field_bytes(b) + rest;
    let at = pre.len() as int;
    assert(s.subrange(at, at + 4) =~= spec_u32_to_le_bytes(b.len() as u32));
    assert(s.subrange(at + 4, at + 4 + b.len()) =~= b);
}

/// Reading a frame back gives the fields that were written.
pub proof fn lemma_frame_round_trip(m: Message)
    requires
        fits(m),
    ensures
        parse_frame(frame_bytes(m)) == Some(fields_of(m)),
{
    lemma_auto_spec_u64_to_from_le_bytes();
    let f1 = field_bytes(m.topic@);
    let f2 = field_bytes(m.payload@);
    let f3 = field_bytes(m.signature@);
    let f4 = field_bytes(m.sender@);
    let f5 = field_bytes(m.key@);
    let idb = spec_u64_to_le_bytes(m.message_id);
    let s = frame_bytes(m);
    lemma_auto_spec_u32_to_from_le_bytes();
    assert(s =~= Seq::<u8>::empty() + f1 + (f2 + f3 + f4 + f5 + idb));
    lemma_read_field(Seq::<u8>::empty(), m.topic@, f2 + f3 + f4 + f5 + idb);
    assert(s =~= f1 + f2 + (f3 + f4 + f5 + idb));
    lemma_read_field(f1, m.payload@, f3 + f4 + f5 + idb);
    assert(s =~= (f1 + f2) + f3 + (f4 + f5 + idb));
    lemma_read_field(f1 + f2, m.signature@, f4 + f5 + idb);
    assert(s =~= (f1 + f2 + f3) + f4 + (f5 + idb));
    lemma_read_field(f1 + f2 + f3, m.sender@, f5 + idb);
    assert(s =~= (f1 + f2 + f3 + f4) + f5 + idb);
    lemma_read_field(f1 + f2 + f3 + f4, m.key@, idb);
    let f = (f1 + f2 + f3 + f4 + f5).len() as int;
    assert(s.subrange(f, f + 8) =~= idb);
}

fn append_bytes(r: &mut Vec<u8>, b: &Vec<u8>)
    ensures
        final(r)@ == old(r)@ + b@,
{
    let mut i: usize = 0;
    while i < b.len()
        invariant
            i <= b@.len(),
            r@ == old(r)@ + b@.subrange(0, i as int),
        decreases b@.len() - i,
    {
        r.push(b[i]);
        assert(b@.subrange(0, i + 1) =~= b@.subrange(0, i as int).push(b@[i as int]));
        assert(old(r)@ + b@.subrange(0, i + 1) =~= (old(r)@ + b@.subrange(0, i as int)).push(b@[i as int]));
        i = i + 1;
    }
    assert(b@.subrange(0, b@.len() as int) =~= b@);
}

fn append_field(r: &mut Vec<u8>, b: &Vec<u8>)
    requires
        b@.len() <= u32::MAX,
    ensures
        final(r)@ == old(r)@ + field_bytes(b@),
{
    let len = u32_to_le_bytes(b.len() as u32);
    append_bytes(r, &len);
    append_bytes(r, b);
    assert(final(r)@ =~= old(r)@ + field_bytes(b@));
}

/// The frame of `m`; `None` where one of its byte strings is too long for a frame.
pub fn encode_message(m: &Message) -> (r: Option<Vec<u8>>)
    ensures
        r is None <==> !fits(*m),
        r matches Some(v) ==> v@ == frame_bytes(*m),
{
    let max = u32::MAX as usize;
    if m.topic.len() > max || m.payload.len() > max || m.signature.len() > max || m.sender.len() > max
        || m.key.len() > max {
        return None;
    }
    let mut r: Vec<u8> = Vec::new();
    append_field(&mut r, &m.topic);
    append_field(&mut r, &m.payload);
    append_field(&mut r, &m.signature);
    append_field(&mut r, &m.sender);
    append_field(&mut r, &m.key);
    let id = u64_to_le_bytes(m.message_id);
    append_bytes(&mut r, &id);
    assert(r@ =~= frame_bytes(*m));
    Some(r)
}

fn read_field_exec(s: &Vec<u8>, at: usize) -> (r: Option<(Vec<u8>, usize)>)
    requires
        at <= s@.len(),
    ensures
        match r {
            None => read_field(s@, at as int) is None,
            Some((v, e)) => read_field(s@, at as int) == Some((v@, e as int)),
        },
{
    if s.len() - at < 4 {
        return None;
    }
    let len_bytes = slice_bytes(s, at, at + 4);
    let n = u32_from_le_bytes(len_bytes.as_slice()) as usize;
    if s.len() - (at + 4) < n {
        return None;
    }
    let v = slice_bytes(s, at + 4, at + 4 + n);
    Some((v, at + 4 + n))
}

/// The message that `bytes` holds as a frame, if it is one.
pub fn decode_message(bytes: &Vec<u8>) -> (r: Option<Message>)
    ensures
        match r {
            None => parse_frame(bytes@) is None,
            Some(m) => parse_frame(bytes@) == Some(fields_of(m)),
        },
{
    let (topic, a) = match read_field_exec(bytes, 0) {
        None => return None,
        Some(x) => x,
    };
    let (payload, b) = match read_field_exec(bytes, a) {
        None => return None,
        Some(x) => x,
    };
    let (signature, c) = match read_field_exec(bytes, b) {
        None => return None,
        Some(x) => x,
    };
    let (sender, d) = match read_field_exec(bytes, c) {
        None => return None,
        Some(x) => x,
    };
    let (key, e) = match read_field_exec(bytes, d) {
        None => return None,
        Some(x) => x,
    };
    if bytes.len() - e != 8 {
        return None;
    }
    let id_bytes = slice_bytes(bytes, e, e + 8);
    let message_id = u64_from_le_bytes(id_bytes.as_slice());
    Some(Message { topic, payload, signature, sender, key, message_id })
}

} // verus!
