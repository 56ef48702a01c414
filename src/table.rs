//! A table of per-stream records keyed by stream id.

use vstd::prelude::*;

verus! {

/// Records keyed by a 64-bit id, kept in insertion order.
pub struct StreamTable<S> {
    entries: Vec<(u64, S)>,
}

pub open spec fn seq_has<S>(e: Seq<(u64, S)>, k: u64) -> bool {
    exists|i: int| 0 <= i < e.len() && (#[trigger] e[i]).0 == k
}

pub open spec fn seq_unique<S>(e: Seq<(u64, S)>) -> bool {
    forall|i: int, j: int| 0 <= i < e.len() && 0 <= j < e.len() && i != j ==> (#[trigger] e[i]).0 != (#[trigger] e[j]).0
}

pub open spec fn seq_view<S>(e: Seq<(u64, S)>) -> Map<u64, S> {
    Map::new(|k: u64| seq_has(e, k), |k: u64| e[choose|i: int| 0 <= i < e.len() && (#[trigger] e[i]).0 == k].1)
}

proof fn lemma_index_value<S>(e: Seq<(u64, S)>, i: int)
    requires
        seq_unique(e),
        0 <= i < e.len(),
    ensures
        seq_view(e).contains_key(e[i].0),
        seq_view(e)[e[i].0] == e[i].1,
{
    let k = e[i].0;
    assert(seq_has(e, k));
    let j = choose|j: int| 0 <= j < e.len() && (#[trigger] e[j]).0 == k;
    assert(j == i);
}

proof fn lemma_view_push<S>(e: Seq<(u64, S)>, k: u64, v: S)
    requires
        seq_unique(e),
        !seq_has(e, k),
    ensures
        seq_unique(e.push((k, v))),
        seq_view(e.push((k, v))) =~= seq_view(e).insert(k, v),
{
    let n = e.push((k, v));
    assert(seq_unique(n)) by {
        assert forall|i: int, j: int| 0 <= i < n.len() && 0 <= j < n.len() && i != j implies (#[trigger] n[i]).0 != (#[trigger] n[j]).0 by {
            if i < e.len() && j < e.len() {
                assert(n[i] == e[i] && n[j] == e[j]);
            } else if i < e.len() {
                assert(n[i] == e[i]);
            } else {
                assert(n[j] == e[j]);
            }
        }
    }
    assert forall|q: u64| seq_view(n).contains_key(q) == seq_view(e).insert(k, v).contains_key(q) by {
        if seq_has(e, q) {
            let j = choose|j: int| 0 <= j < e.len() && (#[trigger] e[j]).0 == q;
            assert(n[j] == e[j]);
        }
        if q == k {
            assert(n[e.len() as int].0 == k);
        }
        if seq_has(n, q) {
            let j = choose|j: int| 0 <= j < n.len() && (#[trigger] n[j]).0 == q;
            if j < e.len() {
                assert(n[j] == e[j]);
            }
        }
    }
    assert forall|q: u64| #[trigger] seq_view(n).contains_key(q) implies seq_view(n)[q] == seq_view(e).insert(k, v)[q] by {
        if q == k {
            lemma_index_value(n, e.len() as int);
        } else {
            let j = choose|j: int| 0 <= j < n.len() && (#[trigger] n[j]).0 == q;
            assert(j < e.len());
            assert(n[j] == e[j]);
            lemma_index_value(n, j);
            lemma_index_value(e, j);
        }
    }
}

proof fn lemma_view_update<S>(e: Seq<(u64, S)>, i: int, v: S)
    requires
        seq_unique(e),
        0 <= i < e.len(),
    ensures
        seq_unique(e.update(i, (e[i].0, v))),
        seq_view(e.update(i, (e[i].0, v))) =~= seq_view(e).insert(e[i].0, v),
{
    let k = e[i].0;
    let n = e.update(i, (k, v));
    assert(seq_unique(n)) by {
        assert forall|a: int, b: int| 0 <= a < n.len() && 0 <= b < n.len() && a != b implies (#[trigger] n[a]).0 != (#[trigger] n[b]).0 by {
            assert(n[a].0 == e[a].0 && n[b].0 == e[b].0);
        }
    }
    assert forall|q: u64| seq_view(n).contains_key(q) == seq_view(e).insert(k, v).contains_key(q) by {
        if seq_has(e, q) {
            let j = choose|j: int| 0 <= j < e.len() && (#[trigger] e[j]).0 == q;
            assert(n[j].0 == e[j].0);
        }
        if q == k {
            assert(n[i].0 == k);
        }
        if seq_has(n, q) {
            let j = choose|j: int| 0 <= j < n.len() && (#[trigger] n[j]).0 == q;
            assert(n[j].0 == e[j].0);
        }
    }
    assert forall|q: u64| #[trigger] seq_view(n).contains_key(q) implies seq_view(n)[q] == seq_view(e).insert(k, v)[q] by {
        if q == k {
            lemma_index_value(n, i);
        } else {
            let j = choose|j: int| 0 <= j < n.len() && (#[trigger] n[j]).0 == q;
            assert(j != i);
            assert(n[j] == e[j]);
            lemma_index_value(n, j);
            lemma_index_value(e, j);
        }
    }
}

proof fn lemma_view_remove<S>(e: Seq<(u64, S)>, i: int)
    requires
        seq_unique(e),
        0 <= i < e.len(),
    ensures
        seq_unique(e.remove(i)),
        seq_view(e.remove(i)) =~= seq_view(e).remove(e[i].0),
{
    let k = e[i].0;
    let n = e.remove(i);
    assert(seq_unique(n)) by {
        assert forall|a: int, b: int| 0 <= a < n.len() && 0 <= b < n.len() && a != b implies (#[trigger] n[a]).0 != (#[trigger] n[b]).0 by {
            let a2 = if a < i { a } else { a + 1 };
            let b2 = if b < i { b } else { b + 1 };
            assert(n[a] == e[a2] && n[b] == e[b2]);
        }
    }
    assert forall|q: u64| seq_view(n).contains_key(q) == seq_view(e).remove(k).contains_key(q) by {
        if seq_has(e, q) && q != k {
            let j = choose|j: int| 0 <= j < e.len() && (#[trigger] e[j]).0 == q;
            assert(j != i);
            let j2 = if j < i { j } else { j - 1 };
            assert(n[j2] == e[j]);
        }
        if seq_has(n, q) {
            let j = choose|j: int| 0 <= j < n.len() && (#[trigger] n[j]).0 == q;
            let j2 = if j < i { j } else { j + 1 };
            assert(n[j] == e[j2]);
            assert(j2 != i);
        }
    }
    assert forall|q: u64| #[trigger] seq_view(n).contains_key(q) implies seq_view(n)[q] == seq_view(e).remove(k)[q] by {
        let j = choose|j: int| 0 <= j < n.len() && (#[trigger] n[j]).0 == q;
        let j2 = if j < i { j } else { j + 1 };
        assert(n[j] == e[j2]);
        lemma_index_value(n, j);
        lemma_index_value(e, j2);
    }
}

impl<S> StreamTable<S> {
    /// Ids in table order.
    pub closed spec fn keys_seq(&self) -> Seq<u64> {
        self.entries@.map_values(|e: (u64, S)| e.0)
    }

    /// Ids are unique.
    pub closed spec fn wf(&self) -> bool {
        seq_unique(self.entries@)
    }

    /// Number of records.
    pub open spec fn size(&self) -> nat {
        self.keys_seq().len()
    }

    /// The ids in table order are exactly the keys of the view, each once.
    pub proof fn lemma_keys(&self)
        requires
            self.wf(),
        ensures
            forall|i: int| 0 <= i < self.size() ==> self@.contains_key(#[trigger] self.keys_seq()[i]),
            forall|k: u64| #[trigger] self@.contains_key(k) ==> exists|i: int| 0 <= i < self.size() && self.keys_seq()[i] == k,
            forall|i: int, j: int| 0 <= i < self.size() && 0 <= j < self.size() && i != j ==> self.keys_seq()[i] != self.keys_seq()[j],
            self.size() == 0 ==> self@ =~= Map::<u64, S>::empty(),
    {
        let e = self.entries@;
        assert forall|i: int| 0 <= i < self.size() implies self@.contains_key(#[trigger] self.keys_seq()[i]) by {
            assert(e[i].0 == self.keys_seq()[i]);
            assert(seq_has(e, e[i].0));
        }
        assert forall|k: u64| #[trigger] self@.contains_key(k) implies exists|i: int| 0 <= i < self.size() && self.keys_seq()[i] == k by {
            let j = choose|j: int| 0 <= j < e.len() && (#[trigger] e[j]).0 == k;
            assert(self.keys_seq()[j] == k);
        }
        assert forall|i: int, j: int| 0 <= i < self.size() && 0 <= j < self.size() && i != j implies self.keys_seq()[i] != self.keys_seq()[j] by {
            assert(e[i].0 == self.keys_seq()[i] && e[j].0 == self.keys_seq()[j]);
        }
    }

    /// An empty table.
    pub fn new() -> (r: StreamTable<S>)
        ensures
            r.wf(),
            r@ =~= Map::<u64, S>::empty(),
            r.size() == 0,
    {
        StreamTable { entries: Vec::new() }
    }

    /// Number of records.
    pub fn len(&self) -> (r: usize)
        ensures
            r == self.size(),
    {
        self.entries.len()
    }

    /// The id at position `i` of the table order.
    pub fn key_at(&self, i: usize) -> (r: u64)
        requires
            i < self.size(),
        ensures
            r == self.keys_seq()[i as int],
    {
        self.entries[i].0
    }

    fn find(&self, k: u64) -> (r: Option<usize>)
        requires
            self.wf(),
        ensures
            match r {
                Some(i) => i < self.entries@.len() && self.entries@[i as int].0 == k,
                None => !seq_has(self.entries@, k),
            },
    {
        let mut i: usize = 0;
        while i < self.entries.len()
            invariant
                i <= self.entries@.len(),
                forall|j: int| 0 <= j < i ==> (#[trigger] self.entries@[j]).0 != k,
            decreases self.entries@.len() - i,
        {
            if self.entries[i].0 == k {
                return Some(i);
            }
            i = i + 1;
        }
        None
    }

    /// Whether a record with id `k` exists.
    pub fn contains(&self, k: u64) -> (r: bool)
        requires
            self.wf(),
        ensures
            r == self@.contains_key(k),
    {
        self.find(k).is_some()
    }

    /// The record with id `k`, if any.
    pub fn get(&self, k: u64) -> (r: Option<&S>)
        requires
            self.wf(),
        ensures
            match r {
                Some(v) => self@.contains_key(k) && *v == self@[k],
                None => !self@.contains_key(k),
            },
    {
        match self.find(k) {
            Some(i) => {
                proof {
                    lemma_index_value(self.entries@, i as int);
                }
                Some(&self.entries[i].1)
            },
            None => None,
        }
    }

    /// Stores `v` under `k`, replacing any record there in place.
    pub fn insert(&mut self, k: u64, v: S)
        requires
            old(self).wf(),
        ensures
            final(self).wf(),
            final(self)@ == old(self)@.insert(k, v),
            old(self)@.contains_key(k) ==> final(self).keys_seq() == old(self).keys_seq(),
            !old(self)@.contains_key(k) ==> final(self).keys_seq() == old(self).keys_seq().push(k),
    {
        match self.find(k) {
            Some(i) => {
                proof {
                    lemma_view_update(self.entries@, i as int, v);
                    lemma_index_value(self.entries@, i as int);
                }
                let ghost before = self.entries@;
                self.entries.set(i, (k, v));
                assert(self.keys_seq() =~= old(self).keys_seq());
                assert(self.entries@ == before.update(i as int, (before[i as int].0, v)));
            },
            None => {
                proof {
                    lemma_view_push(self.entries@, k, v);
                }
                self.entries.push((k, v));
                assert(self.keys_seq() =~= old(self).keys_seq().push(k));
            },
        }
    }

    /// Takes the record with id `k` out of the table.
    pub fn remove(&mut self, k: u64) -> (r: Option<S>)
        requires
            old(self).wf(),
        ensures
            final(self).wf(),
            final(self)@ == old(self)@.remove(k),
            match r {
                Some(v) => old(self)@.contains_key(k) && v == old(self)@[k] && final(self).size() + 1 == old(self).size(),
                None => !old(self)@.contains_key(k) && final(self).size() == old(self).size(),
            },
    {
        match self.find(k) {
            Some(i) => {
                proof {
                    lemma_view_remove(self.entries@, i as int);
                    lemma_index_value(self.entries@, i as int);
                }
                let (_, v) = self.entries.remove(i);
                Some(v)
            },
            None => {
                proof {
                    assert(!seq_view(self.entries@).contains_key(k));
                    assert(seq_view(self.entries@).remove(k) =~= seq_view(self.entries@));
                }
                None
            },
        }
    }

    /// Removes every record.
    pub fn clear(&mut self)
        ensures
            final(self).wf(),
            final(self)@ =~= Map::<u64, S>::empty(),
            final(self).size() == 0,
    {
        self.entries.clear();
    }

    /// The ids in table order.
    pub fn keys(&self) -> (r: Vec<u64>)
        ensures
            r@ == self.keys_seq(),
    {
        let mut out: Vec<u64> = Vec::new();
        let mut i: usize = 0;
        while i < self.entries.len()
            invariant
                i <= self.entries@.len(),
                out@ == self.keys_seq().take(i as int),
            decreases self.entries@.len() - i,
        {
            out.push(self.entries[i].0);
            i = i + 1;
            assert(out@ =~= self.keys_seq().take(i as int));
        }
        assert(out@ =~= self.keys_seq());
        out
    }
}

impl<S> View for StreamTable<S> {
    type V = Map<u64, S>;

    /// Every record, keyed by id.
    closed spec fn view(&self) -> Map<u64, S> {
        seq_view(self.entries@)
    }
}

} // verus!
