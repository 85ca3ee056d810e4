use vstd::prelude::*;
use crate::bytes::{holds_bytes, views};
use crate::crypto::{content_hash, key_peer_id, message_id, peer_id_of_key, signature_valid, verify_signature, Identity};
use crate::dedup::{mark_seen, Deduplicator};
use crate::membership::{peers_on, MembershipTable};

verus! {

/// What goes wrong with a command or a message.
#[derive(Debug, Clone, Copy, PartialEq, Eq, Structural)]
pub enum GossipError {
    /// The topic name is empty or holds a NUL byte.
    InvalidTopic,
    /// An input line in command form with a segment missing.
    MalformedCommand,
    /// An inbound message whose signature, sender or id does not check out.
    AuthenticationFailure,
}

/// A topic name is non-empty and holds no NUL byte (the separator of signed content).
pub open spec fn valid_topic(topic: Seq<u8>) -> bool {
    topic.len() > 0 && forall|i: int| 0 <= i < topic.len() ==> topic[i] != 0u8
}

/// The bytes that a message's signature covers.
pub open spec fn signed_content(topic: Seq<u8>, payload: Seq<u8>) -> Seq<u8> {
    topic.push(0u8) + payload
}

/// A gossip message as it travels between peers.
#[derive(Debug, Clone)]
pub struct Message {
    pub topic: Vec<u8>,
    pub payload: Vec<u8>,
    pub signature: Vec<u8>,
    /// The peer id of the author.
    pub sender: Vec<u8>,
    /// The author's public key, protobuf-encoded.
    pub key: Vec<u8>,
    pub message_id: u64,
}

/// A message is authentic when its signature verifies under its key, the key
/// belongs to its sender, and its id is the hash of its payload.
pub open spec fn authentic(m: Message) -> bool {
    &&& signature_valid(m.key@, signed_content(m.topic@, m.payload@), m.signature@)
    &&& key_peer_id(m.key@) == Some(m.sender@)
    &&& m.message_id == content_hash(m.payload@)
}

/// An inbound message is fresh when it is authentic and its id is not in `seen`.
pub open spec fn is_fresh(seen: Seq<u64>, m: Message) -> bool {
    authentic(m) && !seen.contains(m.message_id)
}

/// The seen-set after handling `m`: only a fresh message is marked.
pub open spec fn seen_after_inbound(seen: Seq<u64>, cap: nat, m: Message) -> Seq<u64> {
    if is_fresh(seen, m) {
        mark_seen(seen, cap, m.message_id)
    } else {
        seen
    }
}

/// Membership after `peer` appears: it joins every subscribed topic.
pub open spec fn members_after_appeared(
    members: Set<(Seq<u8>, Seq<u8>)>,
    subs: Set<Seq<u8>>,
    peer: Seq<u8>,
) -> Set<(Seq<u8>, Seq<u8>)> {
    Set::new(|e: (Seq<u8>, Seq<u8>)| members.contains(e) || (e.1 == peer && subs.contains(e.0)))
}

/// Membership after `peer` vanishes: it leaves every topic.
pub open spec fn members_after_vanished(members: Set<(Seq<u8>, Seq<u8>)>, peer: Seq<u8>) -> Set<
    (Seq<u8>, Seq<u8>),
> {
    members.filter(|e: (Seq<u8>, Seq<u8>)| e.1 != peer)
}

/// Membership after subscribing to `topic`: every discovered peer joins it.
pub open spec fn members_after_subscribe(
    members: Set<(Seq<u8>, Seq<u8>)>,
    topic: Seq<u8>,
    discovered: Set<Seq<u8>>,
) -> Set<(Seq<u8>, Seq<u8>)> {
    Set::new(|e: (Seq<u8>, Seq<u8>)| members.contains(e) || (e.0 == topic && discovered.contains(e.1)))
}

/// A locally published message and where it goes.
pub struct Publication {
    pub message: Message,
    /// The peers to send it to, each once.
    pub targets: Vec<Vec<u8>>,
    /// Whether the local application receives it (the node is subscribed).
    pub deliver: bool,
}

impl Publication {
    /// Whether nobody is there to receive it: a warning, not an error.
    pub fn no_peers(&self) -> (r: bool)
        ensures
            r == (self.targets@.len() == 0),
    {
        self.targets.len() == 0
    }
}

/// What becomes of an authentic inbound message.
pub struct Inbound {
    /// Its id had been seen: nothing is delivered or forwarded.
    pub duplicate: bool,
    /// Whether the local application receives it.
    pub deliver: bool,
    /// The peers to forward it to, each once.
    pub forward_to: Vec<Vec<u8>>,
}

/// The gossip engine: local subscriptions, discovered peers, the membership
/// table and the seen-set, all changed only through its methods.
pub struct GossipEngine {
    identity: Identity,
    broadcast_topic: Vec<u8>,
    subscriptions: Vec<Vec<u8>>,
    discovered: Vec<Vec<u8>>,
    membership: MembershipTable,
    seen: Deduplicator,
}

impl GossipEngine {
    pub closed spec fn subs(&self) -> Set<Seq<u8>> {
        views(self.subscriptions@).to_set()
    }

    pub closed spec fn discovered_peers(&self) -> Set<Seq<u8>> {
        views(self.discovered@).to_set()
    }

    pub closed spec fn members(&self) -> Set<(Seq<u8>, Seq<u8>)> {
        self.membership@
    }

    pub closed spec fn seen(&self) -> Seq<u64> {
        self.seen@
    }

    pub closed spec fn cap(&self) -> nat {
        self.seen.cap()
    }

    pub closed spec fn local_id(&self) -> Seq<u8> {
        self.identity.peer_id_view()
    }

    pub closed spec fn local_key(&self) -> Seq<u8> {
        self.identity.public_key_view()
    }

    pub closed spec fn broadcast(&self) -> Seq<u8> {
        self.broadcast_topic@
    }

    pub closed spec fn wf(&self) -> bool {
        self.seen.wf() && valid_topic(self.broadcast_topic@) && self.identity.wf()
    }

    /// Everything but the membership table and the subscriptions is as in `o`.
    pub open spec fn same_but_members(&self, o: &GossipEngine) -> bool {
        &&& self.wf()
        &&& self.seen() == o.seen()
        &&& self.cap() == o.cap()
        &&& self.local_id() == o.local_id()
        &&& self.local_key() == o.local_key()
        &&& self.broadcast() == o.broadcast()
    }

    /// Everything but the seen-set is as in `o`.
    pub open spec fn same_but_seen(&self, o: &GossipEngine) -> bool {
        &&& self.wf()
        &&& self.cap() == o.cap()
        &&& self.local_id() == o.local_id()
        &&& self.local_key() == o.local_key()
        &&& self.broadcast() == o.broadcast()
        &&& self.subs() == o.subs()
        &&& self.discovered_peers() == o.discovered_peers()
        &&& self.members() == o.members()
    }

    /// Nothing observable differs from `o`.
    pub open spec fn unchanged(&self, o: &GossipEngine) -> bool {
        &&& self.same_but_members(o)
        &&& self.subs() == o.subs()
        &&& self.discovered_peers() == o.discovered_peers()
        &&& self.members() == o.members()
    }
}

impl GossipEngine {
    /// An engine for `identity` whose seen-set holds up to `capacity` ids,
    /// subscribed to `broadcast_topic`.
    pub fn new(identity: Identity, broadcast_topic: Vec<u8>, capacity: usize) -> (r: Result<GossipEngine, GossipError>)
        requires
            capacity > 0,
            identity.wf(),
        ensures
            !valid_topic(broadcast_topic@) <==> r == Err::<GossipEngine, GossipError>(GossipError::InvalidTopic),
            valid_topic(broadcast_topic@) ==> r is Ok,
            r matches Ok(e) ==> {
                &&& e.wf()
                &&& e.subs() == set![broadcast_topic@]
                &&& e.discovered_peers() == Set::<Seq<u8>>::empty()
                &&& e.members() == Set::<(Seq<u8>, Seq<u8>)>::empty()
                &&& e.seen() == Seq::<u64>::empty()
                &&& e.cap() == capacity
                &&& e.local_id() == identity.peer_id_view()
                &&& e.local_key() == identity.public_key_view()
                &&& e.broadcast() == broadcast_topic@
            },
    {
        if !check_topic(&broadcast_topic) {
            return Err(GossipError::InvalidTopic);
        }
        let mut subscriptions: Vec<Vec<u8>> = Vec::new();
        subscriptions.push(broadcast_topic.clone());
        let e = GossipEngine {
            identity,
            broadcast_topic,
            subscriptions,
            discovered: Vec::new(),
            membership: MembershipTable::new(),
            seen: Deduplicator::new(capacity),
        };
        proof {
            lemma_push_to_set(Seq::<Vec<u8>>::empty(), e.subscriptions@[0]);
            assert(views(Seq::<Vec<u8>>::empty()).to_set() =~= Set::<Seq<u8>>::empty());
            assert(e.subscriptions@ =~= Seq::<Vec<u8>>::empty().push(e.subscriptions@[0]));
            assert(e.subs() =~= set![e.broadcast_topic@]);
            assert(e.discovered_peers() =~= Set::<Seq<u8>>::empty());
        }
        Ok(e)
    }

    pub fn identity(&self) -> (r: &Identity)
        ensures
            r.peer_id_view() == self.local_id(),
            r.public_key_view() == self.local_key(),
    {
        &self.identity
    }

    pub fn broadcast_topic(&self) -> (r: &Vec<u8>)
        ensures
            r@ == self.broadcast(),
            self.wf() ==> valid_topic(r@),
    {
        &self.broadcast_topic
    }

    /// Whether the local node is subscribed to `topic`.
    pub fn is_subscribed(&self, topic: &Vec<u8>) -> (r: bool)
        ensures
            r == self.subs().contains(topic@),
    {
        holds_bytes(&self.subscriptions, topic)
    }

    /// The current fan-out targets on `topic`, each once.
    pub fn peers_for(&self, topic: &Vec<u8>) -> (r: Vec<Vec<u8>>)
        ensures
            views(r@).to_set() == peers_on(self.members(), topic@),
            views(r@).no_duplicates(),
    {
        self.membership.peers_for(topic)
    }


    /// A peer appeared: it is remembered and joins every subscribed topic.
    pub fn peer_appeared(&mut self, peer: &Vec<u8>)
        requires
            old(self).wf(),
        ensures
            final(self).same_but_members(old(self)),
            final(self).subs() == old(self).subs(),
            final(self).discovered_peers() == old(self).discovered_peers().insert(peer@),
            final(self).members() == members_after_appeared(old(self).members(), old(self).subs(), peer@),
    {
        if !holds_bytes(&self.discovered, peer) {
            let ghost before = self.discovered@;
            self.discovered.push(peer.clone());
            proof {
                lemma_push_to_set(before, self.discovered@.last());
                assert(self.discovered@ =~= before.push(self.discovered@.last()));
            }
        } else {
            assert(self.discovered_peers().insert(peer@) =~= self.discovered_peers());
        }
        add_on_all_topics(&mut self.membership, &self.subscriptions, peer);
    }

    /// A peer vanished: it is forgotten and leaves every topic.
    pub fn peer_vanished(&mut self, peer: &Vec<u8>)
        requires
            old(self).wf(),
        ensures
            final(self).same_but_members(old(self)),
            final(self).subs() == old(self).subs(),
            final(self).discovered_peers() == old(self).discovered_peers().remove(peer@),
            final(self).members() == members_after_vanished(old(self).members(), peer@),
    {
        self.discovered = without_bytes(&self.discovered, peer);
        self.membership.remove_peer(peer);
    }


    /// Builds, signs and marks as seen a message on `topic` carrying `payload`,
    /// and says to whom it goes: the peers on `topic`, and the local
    /// application where the node is subscribed to `topic`.
    pub fn publish(&mut self, topic: &Vec<u8>, payload: &Vec<u8>) -> (r: Result<Publication, GossipError>)
        requires
            old(self).wf(),
        ensures
            !valid_topic(topic@) <==> r == Err::<Publication, GossipError>(GossipError::InvalidTopic),
            valid_topic(topic@) ==> r is Ok,
            r is Err ==> final(self).unchanged(old(self)),
            r matches Ok(p) ==> {
                &&& final(self).same_but_seen(old(self))
                &&& final(self).seen() == mark_seen(old(self).seen(), old(self).cap(), content_hash(payload@))
                &&& p.message.topic@ == topic@
                &&& p.message.payload@ == payload@
                &&& p.message.sender@ == old(self).local_id()
                &&& p.message.key@ == old(self).local_key()
                &&& p.message.message_id == content_hash(payload@)
                &&& authentic(p.message)
                &&& p.deliver == old(self).subs().contains(topic@)
                &&& views(p.targets@).to_set() == peers_on(old(self).members(), topic@)
                &&& views(p.targets@).no_duplicates()
            },
    {
        if !check_topic(topic) {
            return Err(GossipError::InvalidTopic);
        }
        let content = build_signed_content(topic, payload);
        let signature = self.identity.sign(&content);
        proof {
            self.identity.lemma_peer_id_of_key();
        }
        let id = message_id(payload);
        let _ = self.seen.already_seen(id);
        let targets = self.membership.peers_for(topic);
        let deliver = holds_bytes(&self.subscriptions, topic);
        let message = Message {
            topic: topic.clone(),
            payload: payload.clone(),
            signature,
            sender: self.identity.peer_id().clone(),
            key: self.identity.public_key().clone(),
            message_id: id,
        };
        Ok(Publication { message, targets, deliver })
    }

    /// Handles a message that arrived from peer `from`: a message that is not
    /// authentic is refused; one already seen is dropped; a fresh one is
    /// marked seen, delivered where the node is subscribed to its topic, and
    /// forwarded to the peers on its topic other than `from`.
    pub fn handle_inbound(&mut self, from: &Vec<u8>, m: &Message) -> (r: Result<Inbound, GossipError>)
        requires
            old(self).wf(),
        ensures
            !authentic(*m) <==> r == Err::<Inbound, GossipError>(GossipError::AuthenticationFailure),
            authentic(*m) ==> r is Ok,
            final(self).same_but_seen(old(self)),
            final(self).seen() == seen_after_inbound(old(self).seen(), old(self).cap(), *m),
            r matches Ok(o) ==> {
                &&& o.duplicate == old(self).seen().contains(m.message_id)
                &&& o.deliver == (is_fresh(old(self).seen(), *m) && old(self).subs().contains(m.topic@))
                &&& views(o.forward_to@).to_set() == (if is_fresh(old(self).seen(), *m) {
                    peers_on(old(self).members(), m.topic@).remove(from@)
                } else {
                    Set::<Seq<u8>>::empty()
                })
                &&& views(o.forward_to@).no_duplicates()
            },
    {
        if !check_message(m) {
            return Err(GossipError::AuthenticationFailure);
        }
        if self.seen.already_seen(m.message_id) {
            let none: Vec<Vec<u8>> = Vec::new();
            assert(views(none@).to_set() =~= Set::<Seq<u8>>::empty());
            assert(views(none@) =~= Seq::<Seq<u8>>::empty());
            return Ok(Inbound { duplicate: true, deliver: false, forward_to: none });
        }
        let deliver = holds_bytes(&self.subscriptions, &m.topic);
        let targets = self.membership.peers_for(&m.topic);
        let forward_to = without_bytes(&targets, from);
        Ok(Inbound { duplicate: false, deliver, forward_to })
    }

    /// Registers local interest in `topic`; every discovered peer joins it.
    /// Nothing is sent.
    pub fn subscribe(&mut self, topic: &Vec<u8>) -> (r: Result<(), GossipError>)
        requires
            old(self).wf(),
        ensures
            !valid_topic(topic@) <==> r == Err::<(), GossipError>(GossipError::InvalidTopic),
            valid_topic(topic@) ==> r is Ok,
            r is Err ==> final(self).unchanged(old(self)),
            r is Ok ==> {
                &&& final(self).same_but_members(old(self))
                &&& final(self).subs() == old(self).subs().insert(topic@)
                &&& final(self).discovered_peers() == old(self).discovered_peers()
                &&& final(self).members() == members_after_subscribe(
                    old(self).members(),
                    topic@,
                    old(self).discovered_peers(),
                )
            },
    {
        if !check_topic(topic) {
            return Err(GossipError::InvalidTopic);
        }
        if !holds_bytes(&self.subscriptions, topic) {
            let ghost before = self.subscriptions@;
            self.subscriptions.push(topic.clone());
            proof {
                lemma_push_to_set(before, self.subscriptions@.last());
                assert(self.subscriptions@ =~= before.push(self.subscriptions@.last()));
            }
        } else {
            assert(self.subs().insert(topic@) =~= self.subs());
        }
        add_all_on_topic(&mut self.membership, topic, &self.discovered);
        Ok(())
    }
}

/// Lists every peer of `peers` on `topic`.
fn add_all_on_topic(table: &mut MembershipTable, topic: &Vec<u8>, peers: &Vec<Vec<u8>>)
    ensures
        final(table)@ == members_after_subscribe(old(table)@, topic@, views(peers@).to_set()),
{
    let mut i: usize = 0;
    while i < peers.len()
        invariant
            i <= peers@.len(),
            table@ == members_after_subscribe(
                old(table)@,
                topic@,
                views(peers@.subrange(0, i as int)).to_set(),
            ),
        decreases peers@.len() - i,
    {
        table.add_peer(topic, &peers[i]);
        proof {
            assert(peers@.subrange(0, i + 1) =~= peers@.subrange(0, i as int).push(peers@[i as int]));
            lemma_push_to_set(peers@.subrange(0, i as int), peers@[i as int]);
            assert(table@ =~= members_after_subscribe(
                old(table)@,
                topic@,
                views(peers@.subrange(0, i + 1)).to_set(),
            ));
        }
        i = i + 1;
    }
    assert(peers@.subrange(0, peers@.len() as int) =~= peers@);
}

/// Lists `peer` on every topic of `topics`.
fn add_on_all_topics(table: &mut MembershipTable, topics: &Vec<Vec<u8>>, peer: &Vec<u8>)
    ensures
        final(table)@ == members_after_appeared(old(table)@, views(topics@).to_set(), peer@),
{
    let mut i: usize = 0;
    while i < topics.len()
        invariant
            i <= topics@.len(),
            table@ == members_after_appeared(
                old(table)@,
                views(topics@.subrange(0, i as int)).to_set(),
                peer@,
            ),
        decreases topics@.len() - i,
    {
        table.add_peer(&topics[i], peer);
        proof {
            assert(topics@.subrange(0, i + 1) =~= topics@.subrange(0, i as int).push(topics@[i as int]));
            lemma_push_to_set(topics@.subrange(0, i as int), topics@[i as int]);
            assert(table@ =~= members_after_appeared(
                old(table)@,
                views(topics@.subrange(0, i + 1)).to_set(),
                peer@,
            ));
        }
        i = i + 1;
    }
    assert(topics@.subrange(0, topics@.len() as int) =~= topics@);
}

/// The byte strings of `v` other than `b`.
fn without_bytes(v: &Vec<Vec<u8>>, b: &Vec<u8>) -> (r: Vec<Vec<u8>>)
    ensures
        views(r@).to_set() == views(v@).to_set().remove(b@),
        views(v@).no_duplicates() ==> views(r@).no_duplicates(),
{
    let mut r: Vec<Vec<u8>> = Vec::new();
    let mut i: usize = 0;
    while i < v.len()
        invariant
            i <= v@.len(),
            views(r@).to_set() == views(v@.subrange(0, i as int)).to_set().remove(b@),
            views(v@).no_duplicates() ==> views(r@).no_duplicates(),
        decreases v@.len() - i,
    {
        proof {
            assert(v@.subrange(0, i + 1) =~= v@.subrange(0, i as int).push(v@[i as int]));
            lemma_push_to_set(v@.subrange(0, i as int), v@[i as int]);
        }
        if !crate::bytes::same_bytes(&v[i], b) {
            let ghost before = r@;
            r.push(v[i].clone());
            proof {
                lemma_push_to_set(before, r@.last());
                assert(r@ =~= before.push(r@.last()));
                assert(views(r@) =~= views(before).push(v@[i as int]@));
                if views(v@).no_duplicates() {
                    assert(!views(before).contains(v@[i as int]@)) by {
                        if views(before).contains(v@[i as int]@) {
                            assert(views(before).to_set().contains(v@[i as int]@));
                            assert(views(v@.subrange(0, i as int)).contains(v@[i as int]@));
                            let j = choose|j: int| 0 <= j < i && #[trigger] views(v@.subrange(0, i as int))[j] == v@[i as int]@;
                            assert(views(v@)[j] == views(v@)[i as int]);
                        }
                    }
                }
            }
        }
        assert(views(r@).to_set() =~= views(v@.subrange(0, i + 1)).to_set().remove(b@));
        i = i + 1;
    }
    assert(v@.subrange(0, v@.len() as int) =~= v@);
    r
}

/// Whether `topic` is a valid topic name.
pub fn check_topic(topic: &Vec<u8>) -> (r: bool)
    ensures
        r == valid_topic(topic@),
{
    if topic.len() == 0 {
        return false;
    }
    let mut i: usize = 0;
    while i < topic.len()
        invariant
            i <= topic@.len(),
            forall|j: int| 0 <= j < i ==> topic@[j] != 0u8,
        decreases topic@.len() - i,
    {
        if topic[i] == 0u8 {
            return false;
        }
        i = i + 1;
    }
    true
}

/// The bytes to sign for a message on `topic` carrying `payload`.
pub fn build_signed_content(topic: &Vec<u8>, payload: &Vec<u8>) -> (r: Vec<u8>)
    ensures
        r@ == signed_content(topic@, payload@),
{
    let mut r = topic.clone();
    r.push(0u8);
    let mut i: usize = 0;
    let ghost start = r@;
    while i < payload.len()
        invariant
            i <= payload@.len(),
            start == topic@.push(0u8),
            r@ == start + payload@.subrange(0, i as int),
        decreases payload@.len() - i,
    {
        r.push(payload[i]);
        assert(payload@.subrange(0, i + 1) =~= payload@.subrange(0, i as int).push(payload@[i as int]));
        i = i + 1;
    }
    assert(payload@.subrange(0, payload@.len() as int) =~= payload@);
    r
}

/// Whether `m` is authentic.
pub fn check_message(m: &Message) -> (r: bool)
    ensures
        r == authentic(*m),
{
    if message_id(&m.payload) != m.message_id {
        return false;
    }
    match peer_id_of_key(&m.key) {
        None => {
            return false;
        },
        Some(id) => {
            if !crate::bytes::same_bytes(&id, &m.sender) {
                return false;
            }
        },
    }
    let content = build_signed_content(&m.topic, &m.payload);
    verify_signature(&m.key, &content, &m.signature)
}

/// Handling the same message twice: whatever became of it the first time, the
/// second time it is not fresh, so it is neither delivered nor forwarded again.
pub proof fn lemma_redelivery_not_fresh(seen: Seq<u64>, cap: nat, m: Message)
    requires
        cap > 0,
    ensures
        !is_fresh(seen_after_inbound(seen, cap, m), m),
{
    if is_fresh(seen, m) {
        crate::dedup::lemma_marked_is_seen(seen, cap, m.message_id);
    }
}

/// After publishing `payload`, any message with that payload that comes back
/// (an echo of our own) is not fresh, so it is not delivered a second time.
pub proof fn lemma_no_self_echo(seen: Seq<u64>, cap: nat, payload: Seq<u8>, m: Message)
    requires
        cap > 0,
        m.payload@ == payload,
    ensures
        !is_fresh(mark_seen(seen, cap, content_hash(payload)), m),
{
    crate::dedup::lemma_marked_is_seen(seen, cap, content_hash(payload));
}

/// After a peer appears and then vanishes, no topic lists it.
pub proof fn lemma_appeared_then_vanished(
    members: Set<(Seq<u8>, Seq<u8>)>,
    subs: Set<Seq<u8>>,
    peer: Seq<u8>,
    topic: Seq<u8>,
)
    ensures
        !peers_on(members_after_vanished(members_after_appeared(members, subs, peer), peer), topic).contains(peer),
{
}

/// A message whose signature does not verify for its topic and payload (one
/// whose payload was tampered with) is never fresh: it is neither delivered nor
/// forwarded.
pub proof fn lemma_bad_signature_refused(seen: Seq<u64>, m: Message)
    requires
        !signature_valid(m.key@, signed_content(m.topic@, m.payload@), m.signature@),
    ensures
        !authentic(m),
        !is_fresh(seen, m),
{
}

proof fn lemma_push_to_set(v: Seq<Vec<u8>>, x: Vec<u8>)
    ensures
        views(v.push(x)).to_set() == views(v).to_set().insert(x@),
{
    assert(views(v.push(x)) =~= views(v).push(x@));
    views(v).lemma_push_to_set_commute(x@);
}

} // verus!
