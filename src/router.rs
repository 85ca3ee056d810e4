use vstd::prelude::*;
use crate::crypto::content_hash;
use crate::dedup::mark_seen;
use crate::engine::{authentic, members_after_subscribe, valid_topic, GossipEngine, GossipError, Publication};
use crate::membership::peers_on;
use crate::bytes::{slice_bytes, views};

verus! {

/// The byte `:`, which separates the segments of a command.
pub const COLON: u8 = 58;

/// A line in command form starts with `t:`.
pub open spec fn is_command(line: Seq<u8>) -> bool {
    line.len() >= 2 && line[0] == 116u8 && line[1] == COLON
}

/// The index of the first `:` in `s` at or after `from`, or the length of `s`.
pub open spec fn first_colon(s: Seq<u8>, from: int) -> int
    decreases s.len() - from,
{
    if from < 0 || from >= s.len() {
        s.len() as int
    } else if s[from] == COLON {
        from
    } else {
        first_colon(s, from + 1)
    }
}

proof fn lemma_first_colon_bound(s: Seq<u8>, from: int)
    requires
        0 <= from,
    ensures
        first_colon(s, from) <= s.len(),
    decreases s.len() - from,
{
    if from < s.len() && s[from] != COLON {
        lemma_first_colon_bound(s, from + 1);
    }
}

/// The segment between `t:` and the next colon.
pub open spec fn head_segment(line: Seq<u8>) -> Seq<u8> {
    line.subrange(2, first_colon(line, 2))
}

/// What follows the second colon, verbatim.
pub open spec fn tail_segment(line: Seq<u8>) -> Seq<u8> {
    line.subrange(first_colon(line, 2) + 1, line.len() as int)
}

/// A command whose second colon is missing.
pub open spec fn is_malformed(line: Seq<u8>) -> bool {
    is_command(line) && first_colon(line, 2) == line.len()
}

/// `t:sub:<topic>`.
pub open spec fn is_subscribe(line: Seq<u8>) -> bool {
    is_command(line) && first_colon(line, 2) < line.len() && head_segment(line) == seq![115u8, 117u8, 98u8]
}

/// `t:<topic>:<payload>`.
pub open spec fn is_publish(line: Seq<u8>) -> bool {
    is_command(line) && first_colon(line, 2) < line.len() && head_segment(line) != seq![115u8, 117u8, 98u8]
}

/// The topic that a line other than a subscription publishes on.
pub open spec fn publish_topic(line: Seq<u8>, broadcast: Seq<u8>) -> Seq<u8> {
    if is_publish(line) {
        head_segment(line)
    } else {
        broadcast
    }
}

/// The payload that a line other than a subscription publishes.
pub open spec fn publish_payload(line: Seq<u8>) -> Seq<u8> {
    if is_publish(line) {
        tail_segment(line)
    } else {
        line
    }
}

/// What a line of input asks for.
pub enum Command {
    Subscribe { topic: Vec<u8> },
    Publish { topic: Vec<u8>, payload: Vec<u8> },
    /// Anything not in command form goes to the broadcast topic.
    Broadcast { payload: Vec<u8> },
}

/// What handling a line of input did.
pub enum LineOutcome {
    Subscribed,
    Published(Publication),
}

/// Parses a line: `t:sub:<topic>` subscribes, `t:<topic>:<payload>` publishes,
/// anything else is broadcast whole; `t:` without a second colon is malformed.
pub fn parse_command(line: &Vec<u8>) -> (r: Result<Command, GossipError>)
    ensures
        is_malformed(line@) <==> r == Err::<Command, GossipError>(GossipError::MalformedCommand),
        r is Err ==> is_malformed(line@),
        !is_command(line@) ==> (r matches Ok(Command::Broadcast { payload }) && payload@ == line@),
        is_subscribe(line@) ==> (r matches Ok(Command::Subscribe { topic }) && topic@ == tail_segment(line@)),
        is_publish(line@) ==> (r matches Ok(Command::Publish { topic, payload }) && topic@
            == head_segment(line@) && payload@ == tail_segment(line@)),
{
    if line.len() < 2 || line[0] != 116u8 || line[1] != COLON {
        let payload = line.clone();
        return Ok(Command::Broadcast { payload });
    }
    let mut k: usize = 2;
    while k < line.len() && line[k] != COLON
        invariant
            2 <= k <= line@.len(),
            first_colon(line@, 2) == first_colon(line@, k as int),
        decreases line@.len() - k,
    {
        k = k + 1;
    }
    if k == line.len() {
        return Err(GossipError::MalformedCommand);
    }
    let head = slice_bytes(line, 2, k);
    let tail = slice_bytes(line, k + 1, line.len());
    if head.len() == 3 && head[0] == 115u8 && head[1] == 117u8 && head[2] == 98u8 {
        assert(head@ =~= seq![115u8, 117u8, 98u8]);
        Ok(Command::Subscribe { topic: tail })
    } else {
        assert(head@ != seq![115u8, 117u8, 98u8]) by {
            if head@ == seq![115u8, 117u8, 98u8] {
                assert(head@.len() == 3 && head@[0] == 115u8 && head@[1] == 117u8 && head@[2] == 98u8);
            }
        }
        Ok(Command::Publish { topic: head, payload: tail })
    }
}

/// Handles one line of input: parses it and subscribes or publishes through
/// the engine. A subscription sends nothing.
pub fn handle_ip(engine: &mut GossipEngine, line: &Vec<u8>) -> (r: Result<LineOutcome, GossipError>)
    requires
        old(engine).wf(),
    ensures
        is_malformed(line@) <==> r == Err::<LineOutcome, GossipError>(GossipError::MalformedCommand),
        r is Err ==> final(engine).unchanged(old(engine)),
        is_subscribe(line@) ==> {
            &&& !valid_topic(tail_segment(line@)) <==> r == Err::<LineOutcome, GossipError>(GossipError::InvalidTopic)
            &&& valid_topic(tail_segment(line@)) ==> r == Ok::<LineOutcome, GossipError>(LineOutcome::Subscribed)
            &&& r is Ok ==> {
                &&& final(engine).same_but_members(old(engine))
                &&& final(engine).subs() == old(engine).subs().insert(tail_segment(line@))
                &&& final(engine).discovered_peers() == old(engine).discovered_peers()
                &&& final(engine).members() == members_after_subscribe(
                    old(engine).members(),
                    tail_segment(line@),
                    old(engine).discovered_peers(),
                )
            }
        },
        !is_malformed(line@) && !is_subscribe(line@) ==> {
            let topic = publish_topic(line@, old(engine).broadcast());
            let payload = publish_payload(line@);
            &&& !valid_topic(topic) <==> r == Err::<LineOutcome, GossipError>(GossipError::InvalidTopic)
            &&& valid_topic(topic) ==> r is Ok
            &&& r matches Ok(o) ==> (o matches LineOutcome::Published(p) && {
                &&& final(engine).same_but_seen(old(engine))
                &&& final(engine).seen() == mark_seen(old(engine).seen(), old(engine).cap(), content_hash(payload))
                &&& p.message.topic@ == topic
                &&& p.message.payload@ == payload
                &&& p.message.sender@ == old(engine).local_id()
                &&& p.message.key@ == old(engine).local_key()
                &&& p.message.message_id == content_hash(payload)
                &&& authentic(p.message)
                &&& p.deliver == old(engine).subs().contains(topic)
                &&& views(p.targets@).to_set() == peers_on(old(engine).members(), topic)
                &&& views(p.targets@).no_duplicates()
            })
        },
{
    proof {
        lemma_first_colon_bound(line@, 2);
    }
    match parse_command(line) {
        Err(e) => Err(e),
        Ok(Command::Subscribe { topic }) => {
            match engine.subscribe(&topic) {
                Ok(()) => Ok(LineOutcome::Subscribed),
                Err(e) => Err(e),
            }
        },
        Ok(Command::Publish { topic, payload }) => {
            match engine.publish(&topic, &payload) {
                Ok(p) => Ok(LineOutcome::Published(p)),
                Err(e) => Err(e),
            }
        },
        Ok(Command::Broadcast { payload }) => {
            let topic = engine.broadcast_topic().clone();
            assert(topic@ == engine.broadcast());
            assert(valid_topic(topic@));
            match engine.publish(&topic, &payload) {
                Ok(p) => Ok(LineOutcome::Published(p)),
                Err(e) => Err(e),
            }
        },
    }
}

} // verus!
