use vstd::prelude::*;
use crate::bytes::{same_bytes, views};

verus! {

/// The peers that `members` lists on `topic`.
pub open spec fn peers_on(members: Set<(Seq<u8>, Seq<u8>)>, topic: Seq<u8>) -> Set<Seq<u8>> {
    Set::new(|p: Seq<u8>| members.contains((topic, p)))
}

/// Whether the first `n` entries hold the pair (`t`, `p`).
pub open spec fn has_entry(s: Seq<(Vec<u8>, Vec<u8>)>, n: int, t: Seq<u8>, p: Seq<u8>) -> bool {
    exists|i: int| 0 <= i < n && #[trigger] s[i].0@ == t && s[i].1@ == p
}

/// Per topic, the peers eligible for fan-out on it.
pub struct MembershipTable {
    entries: Vec<(Vec<u8>, Vec<u8>)>,
}

impl MembershipTable {
    /// The (topic, peer) pairs held.
    pub closed spec fn view(&self) -> Set<(Seq<u8>, Seq<u8>)> {
        Set::new(|e: (Seq<u8>, Seq<u8>)| has_entry(self.entries@, self.entries@.len() as int, e.0, e.1))
    }

    pub fn new() -> (r: MembershipTable)
        ensures
            r@ == Set::<(Seq<u8>, Seq<u8>)>::empty(),
    {
        let r = MembershipTable { entries: Vec::new() };
        assert(r@ =~= Set::<(Seq<u8>, Seq<u8>)>::empty());
        r
    }

    /// Whether `peer` is listed on `topic`.
    pub fn has_peer(&self, topic: &Vec<u8>, peer: &Vec<u8>) -> (r: bool)
        ensures
            r == self@.contains((topic@, peer@)),
    {
        let mut i: usize = 0;
        while i < self.entries.len()
            invariant
                i <= self.entries@.len(),
                !has_entry(self.entries@, i as int, topic@, peer@),
            decreases self.entries@.len() - i,
        {
            if same_bytes(&self.entries[i].0, topic) && same_bytes(&self.entries[i].1, peer) {
                assert(has_entry(self.entries@, self.entries@.len() as int, topic@, peer@));
                return true;
            }
            i = i + 1;
        }
        false
    }

    /// Lists `peer` on `topic`; listing it again changes nothing.
    pub fn add_peer(&mut self, topic: &Vec<u8>, peer: &Vec<u8>)
        ensures
            final(self)@ == old(self)@.insert((topic@, peer@)),
    {
        if self.has_peer(topic, peer) {
            assert(old(self)@.insert((topic@, peer@)) =~= old(self)@);
            return;
        }
        let ghost before = self.entries@;
        self.entries.push((topic.clone(), peer.clone()));
        assert forall|e: (Seq<u8>, Seq<u8>)|
            #[trigger] final(self)@.contains(e) <==> old(self)@.insert((topic@, peer@)).contains(e) by {
            if has_entry(before, before.len() as int, e.0, e.1) {
                let i = choose|i: int| 0 <= i < before.len() && #[trigger] before[i].0@ == e.0 && before[i].1@ == e.1;
                assert(self.entries@[i] == before[i]);
            }
            if has_entry(self.entries@, self.entries@.len() as int, e.0, e.1) {
                let i = choose|i: int| 0 <= i < self.entries@.len() && #[trigger] self.entries@[i].0@ == e.0 && self.entries@[i].1@ == e.1;
                if i < before.len() {
                    assert(before[i] == self.entries@[i]);
                }
            }
            if e == (topic@, peer@) {
                assert(self.entries@[before.len() as int].0@ == e.0);
            }
        }
        assert(final(self)@ =~= old(self)@.insert((topic@, peer@)));
    }

    /// Removes `peer` from every topic.
    pub fn remove_peer(&mut self, peer: &Vec<u8>)
        ensures
            final(self)@ == old(self)@.filter(|e: (Seq<u8>, Seq<u8>)| e.1 != peer@),
    {
        let ghost before = self.entries@;
        let mut kept: Vec<(Vec<u8>, Vec<u8>)> = Vec::new();
        let mut i: usize = 0;
        while i < self.entries.len()
            invariant
                self.entries@ == before,
                i <= before.len(),
                forall|t: Seq<u8>, p: Seq<u8>|
                    #![trigger has_entry(kept@, kept@.len() as int, t, p)]
                    #![trigger has_entry(before, i as int, t, p)]
                    has_entry(kept@, kept@.len() as int, t, p)
                        <==> (has_entry(before, i as int, t, p) && p != peer@),
            decreases before.len() - i,
        {
            let ghost k0 = kept@;
            if !same_bytes(&self.entries[i].1, peer) {
                kept.push((self.entries[i].0.clone(), self.entries[i].1.clone()));
            }
            assert forall|t: Seq<u8>, p: Seq<u8>|
                has_entry(kept@, kept@.len() as int, t, p)
                    <==> (has_entry(before, i + 1, t, p) && p != peer@) by {
                assert(has_entry(k0, k0.len() as int, t, p)
                    <==> (has_entry(before, i as int, t, p) && p != peer@));
                if has_entry(kept@, kept@.len() as int, t, p) {
                    let j = choose|j: int| 0 <= j < kept@.len() && #[trigger] kept@[j].0@ == t && kept@[j].1@ == p;
                    if j < k0.len() {
                        assert(kept@[j] == k0[j]);
                        assert(has_entry(k0, k0.len() as int, t, p));
                        let m = choose|m: int| 0 <= m < i && #[trigger] before[m].0@ == t && before[m].1@ == p;
                        assert(has_entry(before, i + 1, t, p));
                    } else {
                        assert(has_entry(before, i + 1, t, p));
                    }
                }
                if has_entry(before, i + 1, t, p) && p != peer@ {
                    let m = choose|m: int| 0 <= m < i + 1 && #[trigger] before[m].0@ == t && before[m].1@ == p;
                    if m < i {
                        assert(has_entry(before, i as int, t, p));
                        assert(has_entry(k0, k0.len() as int, t, p));
                        let j = choose|j: int| 0 <= j < k0.len() && #[trigger] k0[j].0@ == t && k0[j].1@ == p;
                        assert(kept@[j] == k0[j]);
                    } else {
                        assert(kept@[k0.len() as int].0@ == t);
                    }
                }
            }
            i = i + 1;
        }
        self.entries = kept;
        assert forall|e: (Seq<u8>, Seq<u8>)|
            #[trigger] final(self)@.contains(e) <==> (old(self)@.contains(e) && e.1 != peer@) by {
            assert(has_entry(kept@, kept@.len() as int, e.0, e.1)
                <==> (has_entry(before, before.len() as int, e.0, e.1) && e.1 != peer@));
        }
        assert(final(self)@ =~= old(self)@.filter(|e: (Seq<u8>, Seq<u8>)| e.1 != peer@));
    }

    /// The peers listed on `topic`, each once.
    pub fn peers_for(&self, topic: &Vec<u8>) -> (r: Vec<Vec<u8>>)
        ensures
            views(r@).to_set() == peers_on(self@, topic@),
            views(r@).no_duplicates(),
    {
        let mut r: Vec<Vec<u8>> = Vec::new();
        let mut i: usize = 0;
        while i < self.entries.len()
            invariant
                i <= self.entries@.len(),
                views(r@).no_duplicates(),
                forall|p: Seq<u8>|
                    views(r@).contains(p) <==> has_entry(self.entries@, i as int, topic@, p),
            decreases self.entries@.len() - i,
        {
            let ghost r0 = r@;
            if same_bytes(&self.entries[i].0, topic) && !crate::bytes::holds_bytes(&r, &self.entries[i].1) {
                r.push(self.entries[i].1.clone());
                assert(views(r@) =~= views(r0).push(self.entries@[i as int].1@));
            }
            assert forall|p: Seq<u8>|
                views(r@).contains(p) <==> has_entry(self.entries@, i + 1, topic@, p) by {
                if views(r@).contains(p) {
                    let j = choose|j: int| 0 <= j < views(r@).len() && #[trigger] views(r@)[j] == p;
                    if j < r0.len() {
                        assert(views(r0)[j] == p);
                        assert(views(r0).contains(p));
                        let m = choose|m: int| 0 <= m < i && #[trigger] self.entries@[m].0@ == topic@ && self.entries@[m].1@ == p;
                    }
                }
                if has_entry(self.entries@, i + 1, topic@, p) {
                    let m = choose|m: int| 0 <= m < i + 1 && #[trigger] self.entries@[m].0@ == topic@ && self.entries@[m].1@ == p;
                    if m < i {
                        assert(has_entry(self.entries@, i as int, topic@, p));
                        assert(views(r0).contains(p));
                        let j = choose|j: int| 0 <= j < views(r0).len() && #[trigger] views(r0)[j] == p;
                        assert(views(r@)[j] == p);
                    } else if views(r0).contains(p) {
                        let j = choose|j: int| 0 <= j < views(r0).len() && #[trigger] views(r0)[j] == p;
                        assert(views(r@)[j] == p);
                    } else {
                        assert(views(r@)[r0.len() as int] == p);
                    }
                }
            }
            i = i + 1;
        }
        assert(views(r@).to_set() =~= peers_on(self@, topic@));
        r
    }
}

} // verus!
