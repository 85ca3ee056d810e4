use vstd::prelude::*;

verus! {

/// What the seen-set holds after `id` is marked in `seen`, under capacity `cap`:
/// an id already there changes nothing; a new one is appended and, when the
/// capacity is exceeded, the oldest id leaves.
pub open spec fn mark_seen(seen: Seq<u64>, cap: nat, id: u64) -> Seq<u64> {
    if seen.contains(id) {
        seen
    } else if seen.len() + 1 > cap {
        seen.push(id).drop_first()
    } else {
        seen.push(id)
    }
}

/// Marks each id of `ids` in turn, starting from `seen`.
pub open spec fn mark_all(seen: Seq<u64>, cap: nat, ids: Seq<u64>) -> Seq<u64>
    decreases ids.len(),
{
    if ids.len() == 0 {
        seen
    } else {
        mark_seen(mark_all(seen, cap, ids.drop_last()), cap, ids.last())
    }
}

proof fn lemma_fill_below_capacity(cap: nat, ids: Seq<u64>, n: nat)
    requires
        ids.no_duplicates(),
        n <= cap,
        n <= ids.len(),
    ensures
        mark_all(Seq::<u64>::empty(), cap, ids.take(n as int)) == ids.take(n as int),
    decreases n,
{
    if n > 0 {
        let pre = ids.take(n as int);
        assert(pre.drop_last() =~= ids.take(n - 1));
        lemma_fill_below_capacity(cap, ids, (n - 1) as nat);
        assert(!ids.take(n - 1).contains(ids[n - 1])) by {
            if ids.take(n - 1).contains(ids[n - 1]) {
                let j = choose|j: int| 0 <= j < n - 1 && #[trigger] ids.take(n - 1)[j] == ids[n - 1];
                assert(ids[j] == ids[n - 1]);
            }
        }
        assert(ids.take(n - 1).push(ids[n - 1]) =~= pre);
    }
}

/// Once `cap + 1` distinct ids have been marked in an empty cache of capacity
/// `cap`, the first of them has been evicted, so it counts as unseen again.
pub proof fn lemma_overflow_evicts_first(cap: nat, ids: Seq<u64>)
    requires
        cap > 0,
        ids.len() == cap + 1,
        ids.no_duplicates(),
    ensures
        mark_all(Seq::<u64>::empty(), cap, ids) == ids.subrange(1, cap as int + 1),
        !mark_all(Seq::<u64>::empty(), cap, ids).contains(ids[0]),
{
    lemma_fill_below_capacity(cap, ids, cap);
    assert(ids.drop_last() =~= ids.take(cap as int));
    let pre = ids.take(cap as int);
    assert(!pre.contains(ids[cap as int])) by {
        if pre.contains(ids[cap as int]) {
            let j = choose|j: int| 0 <= j < cap && #[trigger] pre[j] == ids[cap as int];
            assert(ids[j] == ids[cap as int]);
        }
    }
    assert(pre.push(ids[cap as int]).drop_first() =~= ids.subrange(1, cap as int + 1));
    let r = ids.subrange(1, cap as int + 1);
    assert(!r.contains(ids[0])) by {
        if r.contains(ids[0]) {
            let j = choose|j: int| 0 <= j < r.len() && #[trigger] r[j] == ids[0];
            assert(ids[j + 1] == ids[0]);
        }
    }
}

/// Right after an id is marked, it counts as seen.
pub proof fn lemma_marked_is_seen(seen: Seq<u64>, cap: nat, id: u64)
    requires
        cap > 0,
    ensures
        mark_seen(seen, cap, id).contains(id),
{
    if !seen.contains(id) {
        let s = seen.push(id);
        if s.len() > cap {
            assert(s.drop_first()[s.len() - 2] == id);
        } else {
            assert(s[s.len() - 1] == id);
        }
    }
}

/// A bounded cache of recently seen message ids, evicted oldest first.
pub struct Deduplicator {
    ids: Vec<u64>,
    capacity: usize,
}

impl Deduplicator {
    /// The ids held, oldest first.
    pub closed spec fn view(&self) -> Seq<u64> {
        self.ids@
    }

    pub closed spec fn cap(&self) -> nat {
        self.capacity as nat
    }

    pub closed spec fn wf(&self) -> bool {
        &&& self.capacity > 0
        &&& self.ids@.len() <= self.capacity
        &&& self.ids@.no_duplicates()
    }

    pub fn new(capacity: usize) -> (r: Deduplicator)
        requires
            capacity > 0,
        ensures
            r.wf(),
            r@ == Seq::<u64>::empty(),
            r.cap() == capacity,
    {
        Deduplicator { ids: Vec::new(), capacity }
    }

    pub fn capacity(&self) -> (r: usize)
        ensures
            r == self.cap(),
    {
        self.capacity
    }

    pub fn len(&self) -> (r: usize)
        ensures
            r == self@.len(),
    {
        self.ids.len()
    }

    /// Whether `id` is held, without marking it.
    pub fn contains(&self, id: u64) -> (r: bool)
        ensures
            r == self@.contains(id),
    {
        let mut i: usize = 0;
        while i < self.ids.len()
            invariant
                i <= self.ids@.len(),
                forall|j: int| 0 <= j < i ==> self.ids@[j] != id,
            decreases self.ids@.len() - i,
        {
            if self.ids[i] == id {
                return true;
            }
            i = i + 1;
        }
        false
    }

    /// Checks whether `id` was seen and marks it, in one step.
    pub fn already_seen(&mut self, id: u64) -> (r: bool)
        requires
            old(self).wf(),
        ensures
            final(self).wf(),
            r == old(self)@.contains(id),
            final(self)@ == mark_seen(old(self)@, old(self).cap(), id),
            final(self).cap() == old(self).cap(),
    {
        if self.contains(id) {
            return true;
        }
        self.ids.push(id);
        if self.ids.len() > self.capacity {
            self.ids.remove(0);
        }
        proof {
            let s = old(self)@.push(id);
            assert(s.no_duplicates());
            if s.len() > self.capacity {
                assert(self.ids@ =~= s.drop_first());
            } else {
                assert(self.ids@ =~= s);
            }
        }
        false
    }
}

} // verus!
