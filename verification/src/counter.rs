//! The grow-only counter: what this node added itself, and the last
//! value that each peer reported of its own additions.

use crate::idmap::{in_order, lemma_in_order, sorted_by_id, IdMap};
use vstd::prelude::*;

verus! {

/// The sum of the values of `es`.
pub open spec fn sum_values(es: Seq<(Seq<char>, usize)>) -> int
    decreases es.len(),
{
    if es.len() == 0 {
        0
    } else {
        sum_values(es.drop_last()) + es.last().1
    }
}

/// The sum of a beginning of a list is at most the sum of the list.
pub proof fn lemma_sum_prefix(es: Seq<(Seq<char>, usize)>, i: int)
    requires
        0 <= i <= es.len(),
    ensures
        0 <= sum_values(es.take(i)) <= sum_values(es),
    decreases es.len(),
{
    if i == es.len() {
        assert(es.take(i) =~= es);
        if es.len() > 0 {
            lemma_sum_prefix(es.drop_last(), i - 1);
        }
    } else {
        lemma_sum_prefix(es.drop_last(), i);
        assert(es.drop_last().take(i) =~= es.take(i));
    }
}

/// Replacing the value of entry `i` changes the sum by the difference.
pub proof fn lemma_sum_update(es: Seq<(Seq<char>, usize)>, i: int, e: (Seq<char>, usize))
    requires
        0 <= i < es.len(),
    ensures
        sum_values(es.update(i, e)) == sum_values(es) - es[i].1 + e.1,
    decreases es.len(),
{
    let ns = es.update(i, e);
    if i == es.len() - 1 {
        assert(ns.drop_last() =~= es.drop_last());
    } else {
        lemma_sum_update(es.drop_last(), i, e);
        assert(ns.drop_last() =~= es.drop_last().update(i, e));
    }
}

/// A new entry adds its value to the sum.
pub proof fn lemma_sum_insert(es: Seq<(Seq<char>, usize)>, i: int, e: (Seq<char>, usize))
    requires
        0 <= i <= es.len(),
    ensures
        sum_values(es.insert(i, e)) == sum_values(es) + e.1,
    decreases es.len(),
{
    let ns = es.insert(i, e);
    if i == es.len() {
        assert(ns.drop_last() =~= es);
    } else {
        lemma_sum_insert(es.drop_last(), i, e);
        assert(ns.drop_last() =~= es.drop_last().insert(i, e));
    }
}

/// Each node of `ids` has reported 0.
pub open spec fn zeroes(ids: Seq<Seq<char>>) -> Map<Seq<char>, usize> {
    Map::new(|k: Seq<char>| ids.contains(k), |k: Seq<char>| 0usize)
}

/// What the counter state stands for.
pub ghost struct CounterView {
    /// The sum of what this node added.
    pub cntr: usize,
    /// For each peer, the value that it reported last.
    pub cntrs: Map<Seq<char>, usize>,
}

impl CounterView {
    /// The value that peer `p` reported last: 0, if it reported none.
    pub open spec fn peer(self, p: Seq<char>) -> int {
        if self.cntrs.contains_key(p) {
            self.cntrs[p] as int
        } else {
            0
        }
    }

    /// The value of the counter: what this node added and what its peers
    /// reported.
    pub open spec fn value(self) -> int {
        self.cntr + sum_values(in_order(self.cntrs))
    }
}

/// The counter state of a node.
pub struct Counter {
    cntr: usize,
    cntrs: IdMap<usize>,
}

impl View for Counter {
    type V = CounterView;

    closed spec fn view(&self) -> CounterView {
        CounterView { cntr: self.cntr, cntrs: self.cntrs.map() }
    }
}

impl Counter {
    /// The peers' values are held in ascending order of the peers.
    pub closed spec fn wf(&self) -> bool {
        self.cntrs.wf()
    }

    /// The state at start: nothing added, nothing reported.
    pub fn new() -> (c: Self)
        ensures
            c.wf(),
            c@ == (CounterView { cntr: 0, cntrs: Map::empty() }),
            c@.value() == 0,
    {
        let c = Counter { cntr: 0, cntrs: IdMap::new() };
        proof {
            assert(c@.cntrs =~= Map::empty());
            lemma_in_order(c.cntrs@);
        }
        c
    }

    /// Starts anew what the peers reported: of each node of `ids`, 0.
    pub fn init(&mut self, ids: &Vec<String>)
        requires
            old(self).wf(),
        ensures
            final(self).wf(),
            final(self)@ == (CounterView { cntrs: zeroes(ids.deep_view()), ..old(self)@ }),
            final(self)@.value() == old(self)@.cntr,
    {
        let mut cntrs: IdMap<usize> = IdMap::new();
        let mut i: usize = 0;
        proof {
            lemma_in_order(cntrs@);
        }
        while i < ids.len()
            invariant
                i <= ids.len(),
                cntrs.wf(),
                forall|k: Seq<char>|
                    cntrs.map().contains_key(k) <==> ids.deep_view().take(i as int).contains(k),
                forall|k: Seq<char>| #[trigger] cntrs.map().contains_key(k) ==> cntrs.map()[k] == 0,
                sum_values(cntrs@) == 0,
            decreases ids.len() - i,
        {
            let ghost es = cntrs@;
            let prev = cntrs.put(ids[i].clone(), 0);
            proof {
                let k0 = ids@[i as int]@;
                let next = ids.deep_view().take(i + 1);
                assert forall|k: Seq<char>| cntrs.map().contains_key(k) <==> next.contains(k) by {
                    assert(next[i as int] == k0);
                }
                lemma_sum_after_put(es, cntrs@, k0, 0, prev);
            }
            i += 1;
        }
        self.cntrs = cntrs;
        proof {
            assert(ids.deep_view().take(ids.len() as int) =~= ids.deep_view());
            assert(self@.cntrs =~= zeroes(ids.deep_view()));
            lemma_in_order(self.cntrs@);
        }
    }

    /// Adds `delta` to what this node added.
    pub fn add(&mut self, delta: usize)
        requires
            old(self).wf(),
            old(self)@.cntr + delta <= usize::MAX,
        ensures
            final(self).wf(),
            final(self)@ == (CounterView { cntr: (old(self)@.cntr + delta) as usize, ..old(self)@ }),
            final(self)@.value() == old(self)@.value() + delta,
    {
        self.cntr += delta;
    }

    /// What this node added.
    pub fn local(&self) -> (c: usize)
        ensures
            c == self@.cntr,
    {
        self.cntr
    }

    /// Records `cntr` as the value that `peer` reported last.
    pub fn set_peer(&mut self, peer: String, cntr: usize)
        requires
            old(self).wf(),
        ensures
            final(self).wf(),
            final(self)@ == (CounterView { cntrs: old(self)@.cntrs.insert(peer@, cntr), ..old(self)@ }),
            final(self)@.value() == old(self)@.value() - old(self)@.peer(peer@) + cntr,
    {
        let ghost es = self.cntrs@;
        let prev = self.cntrs.put(peer, cntr);
        proof {
            lemma_in_order(es);
            lemma_in_order(self.cntrs@);
            lemma_sum_after_put(es, self.cntrs@, peer@, cntr, prev);
        }
    }

    /// The value of the counter, if it is a machine number.
    pub fn value(&self) -> (v: Option<usize>)
        requires
            self.wf(),
        ensures
            v == (if self@.value() <= usize::MAX {
                Some(self@.value() as usize)
            } else {
                None
            }),
    {
        let ghost es = self.cntrs@;
        proof {
            lemma_in_order(es);
        }
        let mut total: usize = self.cntr;
        let mut i: usize = 0;
        while i < self.cntrs.len()
            invariant
                i <= es.len(),
                es == self.cntrs@,
                self@.value() == self.cntr + sum_values(es),
                total == self.cntr + sum_values(es.take(i as int)),
            decreases es.len() - i,
        {
            proof {
                assert(es.take(i + 1).drop_last() =~= es.take(i as int));
                lemma_sum_prefix(es, i + 1);
            }
            let x = *self.cntrs.value_at(i);
            if x > usize::MAX - total {
                return None;
            }
            total = total + x;
            i += 1;
        }
        proof {
            assert(es.take(es.len() as int) =~= es);
        }
        Some(total)
    }
}

/// What setting one key does to the sum of a list of entries.
proof fn lemma_sum_after_put(
    es: Seq<(Seq<char>, usize)>,
    ns: Seq<(Seq<char>, usize)>,
    k: Seq<char>,
    v: usize,
    prev: Option<usize>,
)
    requires
        sorted_by_id(es),
        prev == (if crate::idmap::as_map(es).contains_key(k) {
            Some(crate::idmap::as_map(es)[k])
        } else {
            None
        }),
        prev is Some ==> ns == es.update(crate::idmap::index_of(es, k), (k, v)),
        prev is None ==> exists|i: int| 0 <= i <= es.len() && ns == #[trigger] es.insert(i, (k, v)),
    ensures
        sum_values(ns) == sum_values(es) - (match prev {
            Some(p) => p as int,
            None => 0,
        }) + v,
{
    if prev is Some {
        crate::idmap::lemma_key_has_index(es, k);
        lemma_sum_update(es, crate::idmap::index_of(es, k), (k, v));
    } else {
        let i = choose|i: int| 0 <= i <= es.len() && ns == #[trigger] es.insert(i, (k, v));
        lemma_sum_insert(es, i, (k, v));
    }
}

} // verus!
