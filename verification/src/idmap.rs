//! A map keyed by identifier, kept as a list in ascending order of the
//! keys. The order makes the list a function of the map it stands for:
//! two nodes that hold the same entries walk them in the same order.

use crate::ident::{
    id_less, id_lt, lemma_id_lt_irreflexive, lemma_id_lt_total, lemma_id_lt_transitive, same_id,
};
use vstd::prelude::*;

verus! {

/// The keys of `es` ascend strictly.
pub open spec fn sorted_by_id<V>(es: Seq<(Seq<char>, V)>) -> bool {
    forall|i: int, j: int|
        #![trigger es[i], es[j]]
        0 <= i < j < es.len() ==> id_lt(es[i].0, es[j].0)
}

/// Some entry of `es` has the key `k`.
pub open spec fn has_key<V>(es: Seq<(Seq<char>, V)>, k: Seq<char>) -> bool {
    exists|i: int| 0 <= i < es.len() && (#[trigger] es[i]).0 == k
}

/// The place of an entry of `es` with the key `k`.
pub open spec fn index_of<V>(es: Seq<(Seq<char>, V)>, k: Seq<char>) -> int {
    choose|i: int| 0 <= i < es.len() && (#[trigger] es[i]).0 == k
}

/// The map that the entries `es` stand for.
pub open spec fn as_map<V>(es: Seq<(Seq<char>, V)>) -> Map<Seq<char>, V> {
    Map::new(|k: Seq<char>| has_key(es, k), |k: Seq<char>| es[index_of(es, k)].1)
}

/// In a sorted list no key occurs twice.
pub proof fn lemma_sorted_distinct<V>(es: Seq<(Seq<char>, V)>, i: int, j: int)
    requires
        sorted_by_id(es),
        0 <= i < es.len(),
        0 <= j < es.len(),
        es[i].0 == es[j].0,
    ensures
        i == j,
{
    lemma_id_lt_irreflexive(es[i].0);
}

/// The map of a sorted list holds each entry under its key.
pub proof fn lemma_map_of_sorted<V>(es: Seq<(Seq<char>, V)>, i: int)
    requires
        sorted_by_id(es),
        0 <= i < es.len(),
    ensures
        as_map(es).contains_key(es[i].0),
        as_map(es)[es[i].0] == es[i].1,
        index_of(es, es[i].0) == i,
{
    lemma_sorted_distinct(es, i, index_of(es, es[i].0));
}

/// A key of the map of a list is the key of one of its entries.
pub proof fn lemma_key_has_index<V>(es: Seq<(Seq<char>, V)>, k: Seq<char>)
    requires
        as_map(es).contains_key(k),
    ensures
        0 <= index_of(es, k) < es.len(),
        es[index_of(es, k)].0 == k,
        as_map(es)[k] == es[index_of(es, k)].1,
{
}

/// Replacing the value of entry `i` sets its key in the map.
pub proof fn lemma_as_map_update<V>(es: Seq<(Seq<char>, V)>, i: int, v: V)
    requires
        sorted_by_id(es),
        0 <= i < es.len(),
    ensures
        sorted_by_id(es.update(i, (es[i].0, v))),
        as_map(es.update(i, (es[i].0, v))) == as_map(es).insert(es[i].0, v),
{
    let k = es[i].0;
    let ns = es.update(i, (k, v));
    assert forall|key: Seq<char>| as_map(ns).contains_key(key) <==> as_map(es).insert(
        k,
        v,
    ).contains_key(key) by {
        if has_key(ns, key) {
            let c = index_of(ns, key);
            assert(es[c].0 == key);
        }
        if has_key(es, key) {
            let c = index_of(es, key);
            assert(ns[c].0 == key);
        }
    }
    assert forall|key: Seq<char>| as_map(ns).contains_key(key) implies as_map(ns)[key]
        == as_map(es).insert(k, v)[key] by {
        let c = index_of(ns, key);
        lemma_map_of_sorted(ns, c);
        lemma_map_of_sorted(es, c);
    }
}

/// Putting a new entry at a place that keeps the order adds its key to
/// the map.
pub proof fn lemma_as_map_insert<V>(es: Seq<(Seq<char>, V)>, i: int, k: Seq<char>, v: V)
    requires
        sorted_by_id(es),
        0 <= i <= es.len(),
        forall|j: int| 0 <= j < i ==> id_lt((#[trigger] es[j]).0, k),
        forall|j: int| i <= j < es.len() ==> id_lt(k, (#[trigger] es[j]).0),
    ensures
        sorted_by_id(es.insert(i, (k, v))),
        as_map(es.insert(i, (k, v))) == as_map(es).insert(k, v),
{
    let ns = es.insert(i, (k, v));
    assert(sorted_by_id(ns)) by {
        assert forall|a: int, b: int| 0 <= a < b < ns.len() implies id_lt(ns[a].0, ns[b].0) by {
            let oa = if a < i {
                a
            } else {
                a - 1
            };
            let ob = if b < i {
                b
            } else {
                b - 1
            };
            if a != i && b != i {
                assert(id_lt(es[oa].0, es[ob].0));
            } else if a == i {
                assert(id_lt(k, es[ob].0));
            } else {
                assert(id_lt(es[oa].0, k));
            }
        }
    }
    assert forall|key: Seq<char>| as_map(ns).contains_key(key) <==> as_map(es).insert(
        k,
        v,
    ).contains_key(key) by {
        if has_key(ns, key) {
            let c = index_of(ns, key);
            if c < i {
                assert(es[c].0 == key);
            } else if c > i {
                assert(es[c - 1].0 == key);
            }
        }
        if has_key(es, key) {
            let c = index_of(es, key);
            if c < i {
                assert(ns[c].0 == key);
            } else {
                assert(ns[c + 1].0 == key);
            }
        }
        if key == k {
            assert(ns[i].0 == key);
        }
    }
    assert forall|key: Seq<char>| as_map(ns).contains_key(key) implies as_map(ns)[key]
        == as_map(es).insert(k, v)[key] by {
        let c = index_of(ns, key);
        lemma_map_of_sorted(ns, c);
        if c < i {
            lemma_map_of_sorted(es, c);
        } else if c > i {
            lemma_map_of_sorted(es, c - 1);
            lemma_id_lt_irreflexive(k);
        }
    }
}

/// Taking entry `i` out takes its key out of the map.
pub proof fn lemma_as_map_remove<V>(es: Seq<(Seq<char>, V)>, i: int)
    requires
        sorted_by_id(es),
        0 <= i < es.len(),
    ensures
        sorted_by_id(es.remove(i)),
        as_map(es.remove(i)) == as_map(es).remove(es[i].0),
{
    let k = es[i].0;
    let ns = es.remove(i);
    assert(sorted_by_id(ns)) by {
        assert forall|a: int, b: int| 0 <= a < b < ns.len() implies id_lt(ns[a].0, ns[b].0) by {
            let oa = if a < i {
                a
            } else {
                a + 1
            };
            let ob = if b < i {
                b
            } else {
                b + 1
            };
            assert(id_lt(es[oa].0, es[ob].0));
        }
    }
    assert forall|key: Seq<char>| as_map(ns).contains_key(key) <==> as_map(es).remove(
        k,
    ).contains_key(key) by {
        if has_key(ns, key) {
            let c = index_of(ns, key);
            let oc = if c < i {
                c
            } else {
                c + 1
            };
            if key == k {
                lemma_sorted_distinct(es, oc, i);
            }
        }
        if has_key(es, key) && key != k {
            let c = index_of(es, key);
            if c < i {
                assert(ns[c].0 == key);
            } else {
                assert(ns[c - 1].0 == key);
            }
        }
    }
    assert forall|key: Seq<char>| as_map(ns).contains_key(key) implies as_map(ns)[key]
        == as_map(es).remove(k)[key] by {
        let c = index_of(ns, key);
        lemma_map_of_sorted(ns, c);
        if c < i {
            lemma_map_of_sorted(es, c);
        } else {
            lemma_map_of_sorted(es, c + 1);
        }
    }
}

/// A sorted list is a function of its map: two sorted lists that stand
/// for the same map are the same list.
pub proof fn lemma_sorted_unique<V>(a: Seq<(Seq<char>, V)>, b: Seq<(Seq<char>, V)>)
    requires
        sorted_by_id(a),
        sorted_by_id(b),
        as_map(a) == as_map(b),
    ensures
        a == b,
    decreases a.len(),
{
    if a.len() == 0 {
        if b.len() > 0 {
            lemma_map_of_sorted(b, 0);
        }
    } else {
        let la = a.len() - 1;
        lemma_map_of_sorted(a, la);
        let jb = index_of(b, a[la].0);
        let lb = b.len() - 1;
        lemma_map_of_sorted(b, lb);
        let ja = index_of(a, b[lb].0);
        // the last key of each list is the greatest key of the common map
        if jb < lb {
            if ja < la {
                lemma_id_lt_transitive(a[la].0, b[lb].0, a[la].0);
                lemma_id_lt_irreflexive(a[la].0);
            } else {
                lemma_id_lt_irreflexive(a[la].0);
            }
        }
        lemma_map_of_sorted(b, jb);
        lemma_as_map_remove(a, la);
        lemma_as_map_remove(b, lb);
        lemma_sorted_unique(a.drop_last(), b.drop_last());
        assert(a =~= a.drop_last().push(a[la]));
    }
}

/// The entries of the map `m` in ascending order of their keys.
pub open spec fn in_order<V>(m: Map<Seq<char>, V>) -> Seq<(Seq<char>, V)> {
    choose|es: Seq<(Seq<char>, V)>| sorted_by_id(es) && as_map(es) == m
}

/// The entries in order of the map of a sorted list are that list.
pub proof fn lemma_in_order<V>(es: Seq<(Seq<char>, V)>)
    requires
        sorted_by_id(es),
    ensures
        in_order(as_map(es)) == es,
{
    lemma_sorted_unique(in_order(as_map(es)), es);
}

/// A map from identifiers to values of type `V`.
pub struct IdMap<V> {
    items: Vec<(String, V)>,
}

impl<V> View for IdMap<V> {
    type V = Seq<(Seq<char>, V)>;

    /// The entries, in ascending order of their keys.
    closed spec fn view(&self) -> Seq<(Seq<char>, V)> {
        Seq::new(self.items@.len(), |i: int| (self.items@[i].0@, self.items@[i].1))
    }
}

impl<V> IdMap<V> {
    /// The keys ascend strictly.
    pub open spec fn wf(&self) -> bool {
        sorted_by_id(self@)
    }

    /// The map that the entries stand for.
    pub open spec fn map(&self) -> Map<Seq<char>, V> {
        as_map(self@)
    }

    /// The empty map.
    pub fn new() -> (m: Self)
        ensures
            m@ == Seq::<(Seq<char>, V)>::empty(),
            m.wf(),
    {
        let m = IdMap { items: Vec::new() };
        m
    }

    /// The number of entries.
    pub fn len(&self) -> (n: usize)
        ensures
            n == self@.len(),
    {
        self.items.len()
    }

    /// The key of entry `i`.
    pub fn key_at(&self, i: usize) -> (k: &String)
        requires
            i < self@.len(),
        ensures
            k@ == self@[i as int].0,
    {
        &self.items[i].0
    }

    /// The value of entry `i`.
    pub fn value_at(&self, i: usize) -> (v: &V)
        requires
            i < self@.len(),
        ensures
            *v == self@[i as int].1,
    {
        &self.items[i].1
    }

    /// The place where `key` stands or would stand, and whether it stands
    /// there.
    pub fn position(&self, key: &String) -> (r: (usize, bool))
        requires
            self.wf(),
        ensures
            r.0 <= self@.len(),
            forall|j: int| 0 <= j < r.0 ==> id_lt((#[trigger] self@[j]).0, key@),
            r.1 ==> r.0 < self@.len() && self@[r.0 as int].0 == key@,
            !r.1 ==> forall|j: int| r.0 <= j < self@.len() ==> id_lt(key@, (#[trigger] self@[j]).0),
            r.1 == has_key(self@, key@),
            r.1 ==> index_of(self@, key@) == r.0,
    {
        let mut i: usize = 0;
        while i < self.items.len() && id_less(&self.items[i].0, key)
            invariant
                i <= self.items.len(),
                forall|j: int| 0 <= j < i ==> id_lt((#[trigger] self@[j]).0, key@),
            decreases self.items.len() - i,
        {
            i += 1;
        }
        let found = i < self.items.len() && same_id(&self.items[i].0, key);
        proof {
            let es = self@;
            if found {
                lemma_map_of_sorted(es, i as int);
            } else {
                assert forall|j: int| i <= j < es.len() implies id_lt(key@, (#[trigger] es[j]).0) by {
                    lemma_id_lt_total(es[i as int].0, key@);
                    if j > i {
                        lemma_id_lt_transitive(key@, es[i as int].0, es[j].0);
                    }
                }
                if has_key(es, key@) {
                    lemma_id_lt_irreflexive(key@);
                }
            }
        }
        (i, found)
    }

    /// Whether the map holds `key`.
    pub fn contains_key(&self, key: &String) -> (r: bool)
        requires
            self.wf(),
        ensures
            r == self.map().contains_key(key@),
    {
        self.position(key).1
    }

    /// The value under `key`, if there is one.
    pub fn get(&self, key: &String) -> (r: Option<&V>)
        requires
            self.wf(),
        ensures
            match r {
                Some(v) => self.map().contains_key(key@) && *v == self.map()[key@],
                None => !self.map().contains_key(key@),
            },
    {
        let (i, found) = self.position(key);
        if found {
            Some(&self.items[i].1)
        } else {
            None
        }
    }

    /// Sets the value under `key`, and returns the value that stood there.
    pub fn put(&mut self, key: String, v: V) -> (prev: Option<V>)
        requires
            old(self).wf(),
        ensures
            final(self).wf(),
            final(self).map() == old(self).map().insert(key@, v),
            prev == (if old(self).map().contains_key(key@) {
                Some(old(self).map()[key@])
            } else {
                None
            }),
            prev is Some ==> final(self)@ == old(self)@.update(
                index_of(old(self)@, key@),
                (key@, v),
            ),
            prev is None ==> exists|i: int|
                0 <= i <= old(self)@.len() && final(self)@ == #[trigger] old(self)@.insert(
                    i,
                    (key@, v),
                ),
    {
        let (i, found) = self.position(&key);
        let ghost es = self@;
        if found {
            let (k, prev) = self.items.remove(i);
            self.items.insert(i, (key, v));
            proof {
                assert(self@ =~= es.update(i as int, (es[i as int].0, v)));
                lemma_as_map_update(es, i as int, v);
            }
            Some(prev)
        } else {
            self.items.insert(i, (key, v));
            proof {
                assert(self@ =~= es.insert(i as int, (key@, v)));
                lemma_as_map_insert(es, i as int, key@, v);
            }
            None
        }
    }

    /// Takes `key` out of the map, and returns the value that stood there.
    pub fn remove(&mut self, key: &String) -> (prev: Option<V>)
        requires
            old(self).wf(),
        ensures
            final(self).wf(),
            final(self).map() == old(self).map().remove(key@),
            prev == (if old(self).map().contains_key(key@) {
                Some(old(self).map()[key@])
            } else {
                None
            }),
    {
        let (i, found) = self.position(key);
        let ghost es = self@;
        if found {
            let (k, prev) = self.items.remove(i);
            proof {
                assert(self@ =~= es.remove(i as int));
                lemma_as_map_remove(es, i as int);
            }
            Some(prev)
        } else {
            None
        }
    }
}

} // verus!
