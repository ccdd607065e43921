//! The sequencer's buffer: what each node contributed to each epoch.

use crate::idmap::{
    as_map, has_key, in_order, index_of, lemma_in_order, lemma_map_of_sorted, sorted_by_id, IdMap,
};
use crate::message::{SeqTxn, SeqTxnView};
use std::collections::HashMap;
use vstd::prelude::*;

verus! {

broadcast use vstd::std_specs::hash::group_hash_axioms;

/// The contributions to one epoch: for each contributing node, in
/// ascending order of the nodes, the transactions that it contributed.
pub type Contributions = Seq<(Seq<char>, Seq<SeqTxnView>)>;

/// The transactions of all contributions, node after node.
pub open spec fn flatten(cs: Contributions) -> Seq<SeqTxnView>
    decreases cs.len(),
{
    if cs.len() == 0 {
        Seq::empty()
    } else {
        flatten(cs.drop_last()) + cs.last().1
    }
}

/// One more contribution: the transactions of the first `i + 1` are
/// those of the first `i` and then those of the next.
pub proof fn lemma_flatten_step(cs: Contributions, i: int)
    requires
        0 <= i < cs.len(),
    ensures
        flatten(cs.take(i + 1)) == flatten(cs.take(i)) + cs[i].1,
{
    assert(cs.take(i + 1).drop_last() =~= cs.take(i));
}

/// Where every contribution can be carried out, so can their
/// transactions taken together.
pub proof fn lemma_flatten_valid(cs: Contributions)
    requires
        forall|i: int| 0 <= i < cs.len() ==> crate::kvstore::txns_valid(#[trigger] cs[i].1),
    ensures
        crate::kvstore::txns_valid(flatten(cs)),
    decreases cs.len(),
{
    if cs.len() > 0 {
        lemma_flatten_valid(cs.drop_last());
    }
}

/// The transactions of an epoch are those of any list of its
/// contributions that stands in ascending order of the nodes.
pub proof fn lemma_all_in_order(b: BroadcasterView, e: usize, cs: Contributions)
    requires
        sorted_by_id(cs),
        as_map(cs) == b.at(e),
    ensures
        b.all(e) == flatten(cs),
{
    lemma_in_order(cs);
}

/// The stored lists as the contributions that they stand for.
spec fn modelled(es: Seq<(Seq<char>, Vec<SeqTxn>)>) -> Contributions {
    Seq::new(es.len(), |i: int| (es[i].0, es[i].1.deep_view()))
}

/// The contributions are ordered as the stored lists are, and hold under
/// each key what the stored list under that key stands for.
proof fn lemma_modelled(es: Seq<(Seq<char>, Vec<SeqTxn>)>)
    requires
        sorted_by_id(es),
    ensures
        sorted_by_id(modelled(es)),
        forall|k: Seq<char>| has_key(modelled(es), k) <==> has_key(es, k),
        forall|k: Seq<char>| #[trigger]
            has_key(es, k) ==> as_map(modelled(es))[k] == as_map(es)[k].deep_view(),
{
    let ms = modelled(es);
    assert forall|k: Seq<char>| has_key(ms, k) <==> has_key(es, k) by {
        if has_key(ms, k) {
            let c = index_of(ms, k);
            assert(es[c].0 == k);
        }
        if has_key(es, k) {
            let c = index_of(es, k);
            assert(ms[c].0 == k);
        }
    }
    assert forall|k: Seq<char>| #[trigger] has_key(es, k) implies as_map(ms)[k] == as_map(
        es,
    )[k].deep_view() by {
        let c = index_of(es, k);
        lemma_map_of_sorted(es, c);
        lemma_map_of_sorted(ms, c);
    }
}

/// What a buffer stands for: for each epoch that has contributions, what
/// each node contributed to it; and the nodes that an epoch waits for.
pub ghost struct BroadcasterView {
    pub buf: Map<usize, Map<Seq<char>, Seq<SeqTxnView>>>,
    pub neighborhood: Seq<Seq<char>>,
}

impl BroadcasterView {
    /// What each node contributed to epoch `e`.
    pub open spec fn at(self, e: usize) -> Map<Seq<char>, Seq<SeqTxnView>> {
        if self.buf.contains_key(e) {
            self.buf[e]
        } else {
            Map::empty()
        }
    }

    /// What node `k` contributed to epoch `e`: nothing, if it is not
    /// there.
    pub open spec fn of(self, e: usize, k: Seq<char>) -> Seq<SeqTxnView> {
        if self.at(e).contains_key(k) {
            self.at(e)[k]
        } else {
            Seq::empty()
        }
    }

    /// Every node that an epoch waits for has contributed to epoch `e`.
    pub open spec fn complete(self, e: usize) -> bool {
        forall|i: int|
            0 <= i < self.neighborhood.len() ==> self.at(e).contains_key(
                #[trigger] self.neighborhood[i],
            )
    }

    /// The transactions of epoch `e`: those of each contributing node,
    /// the nodes in ascending order.
    pub open spec fn all(self, e: usize) -> Seq<SeqTxnView> {
        flatten(in_order(self.at(e)))
    }

    /// The buffer with `txns` as what node `k` contributed to epoch `e`.
    pub open spec fn with(self, e: usize, k: Seq<char>, txns: Seq<SeqTxnView>) -> BroadcasterView {
        BroadcasterView { buf: self.buf.insert(e, self.at(e).insert(k, txns)), ..self }
    }
}

/// The buffer of contributions, epoch by epoch, and the nodes whose
/// contributions an epoch waits for.
pub struct Broadcaster {
    broadcast_nodes: HashMap<usize, IdMap<Vec<SeqTxn>>>,
    neighborhood: Vec<String>,
}

impl View for Broadcaster {
    type V = BroadcasterView;

    closed spec fn view(&self) -> BroadcasterView {
        BroadcasterView {
            buf: Map::new(
                |e: usize| self.broadcast_nodes@.contains_key(e),
                |e: usize| as_map(modelled(self.broadcast_nodes@[e]@)),
            ),
            neighborhood: self.neighborhood.deep_view(),
        }
    }
}

impl Broadcaster {
    /// Every epoch's contributions are held in ascending order of the
    /// nodes.
    pub closed spec fn wf(&self) -> bool {
        forall|e: usize| #[trigger]
            self.broadcast_nodes@.contains_key(e) ==> self.broadcast_nodes@[e].wf()
    }

    /// Where every contribution to `epoch` can be carried out, so can
    /// the epoch's transactions.
    pub proof fn lemma_all_valid(&self, epoch: usize)
        requires
            self.wf(),
            forall|k: Seq<char>| #[trigger]
                self@.at(epoch).contains_key(k) ==> crate::kvstore::txns_valid(self@.at(epoch)[k]),
        ensures
            crate::kvstore::txns_valid(self@.all(epoch)),
    {
        if self.broadcast_nodes@.contains_key(epoch) {
            let cs = modelled(self.broadcast_nodes@[epoch]@);
            lemma_modelled(self.broadcast_nodes@[epoch]@);
            lemma_in_order(cs);
            assert forall|i: int| 0 <= i < cs.len() implies crate::kvstore::txns_valid(
                #[trigger] cs[i].1,
            ) by {
                lemma_map_of_sorted(cs, i);
                assert(self@.at(epoch) == as_map(cs));
            }
            lemma_flatten_valid(cs);
        } else {
            let none = Seq::<(Seq<char>, Seq<SeqTxnView>)>::empty();
            assert(as_map(none) =~= Map::empty());
            lemma_in_order(none);
        }
    }

    /// The empty buffer, which waits for nobody.
    pub fn new() -> (b: Self)
        ensures
            b.wf(),
            b@ == (BroadcasterView { buf: Map::empty(), neighborhood: Seq::empty() }),
    {
        let b = Self { broadcast_nodes: HashMap::new(), neighborhood: Vec::new() };
        proof {
            assert(b.neighborhood.deep_view() =~= Seq::<Seq<char>>::empty());
            assert(b@.buf =~= Map::empty());
        }
        b
    }

    /// Names the nodes whose contributions an epoch waits for.
    pub fn init(&mut self, from_ids: Vec<String>)
        requires
            old(self).wf(),
        ensures
            final(self).wf(),
            final(self)@ == (BroadcasterView { neighborhood: from_ids.deep_view(), ..old(self)@ }),
    {
        self.neighborhood = from_ids;
    }

    /// Records `txns` as what `nodeid` contributed to the epoch
    /// `timestamp`, in place of what it had contributed before.
    pub fn push(&mut self, timestamp: usize, nodeid: String, txns: Vec<SeqTxn>)
        requires
            old(self).wf(),
        ensures
            final(self).wf(),
            final(self)@ == old(self)@.with(timestamp, nodeid@, txns.deep_view()),
    {
        let ghost before = old(self)@.at(timestamp);
        let mut slot = match self.broadcast_nodes.remove(&timestamp) {
            Some(m) => m,
            None => IdMap::new(),
        };
        let ghost es = slot@;
        proof {
            lemma_modelled(es);
        }
        slot.put(nodeid, txns);
        proof {
            lemma_modelled(slot@);
            let after = as_map(modelled(slot@));
            let want = before.insert(nodeid@, txns.deep_view());
            assert forall|k: Seq<char>| after.contains_key(k) <==> want.contains_key(k) by {
                assert(as_map(slot@).contains_key(k) <==> has_key(slot@, k));
            }
            assert(after =~= want);
        }
        self.broadcast_nodes.insert(timestamp, slot);
        proof {
            assert(self@.buf =~= old(self)@.with(timestamp, nodeid@, txns.deep_view()).buf);
        }
    }

    /// Adds `txn` behind what `nodeid` has contributed to `epoch`.
    pub fn enqueue(&mut self, epoch: usize, nodeid: String, txn: SeqTxn)
        requires
            old(self).wf(),
        ensures
            final(self).wf(),
            final(self)@ == old(self)@.with(
                epoch,
                nodeid@,
                old(self)@.of(epoch, nodeid@).push(txn.deep_view()),
            ),
    {
        let ghost before = old(self)@.at(epoch);
        let mut slot = match self.broadcast_nodes.remove(&epoch) {
            Some(m) => m,
            None => IdMap::new(),
        };
        let ghost es = slot@;
        proof {
            lemma_modelled(es);
        }
        let mut list = match slot.remove(&nodeid) {
            Some(l) => l,
            None => Vec::new(),
        };
        let ghost earlier = list.deep_view();
        proof {
            assert(earlier =~= old(self)@.of(epoch, nodeid@));
        }
        list.push(txn);
        slot.put(nodeid, list);
        proof {
            lemma_modelled(slot@);
            let after = as_map(modelled(slot@));
            let want = before.insert(nodeid@, earlier.push(txn.deep_view()));
            assert forall|k: Seq<char>| after.contains_key(k) <==> want.contains_key(k) by {
                assert(as_map(slot@).contains_key(k) <==> has_key(slot@, k));
            }
            assert forall|k: Seq<char>| after.contains_key(k) implies after[k] == want[k] by {
                assert(has_key(slot@, k));
            }
            assert(after =~= want);
        }
        self.broadcast_nodes.insert(epoch, slot);
        proof {
            assert(self@.buf =~= old(self)@.with(
                epoch,
                nodeid@,
                old(self)@.of(epoch, nodeid@).push(txn.deep_view()),
            ).buf);
        }
    }

    /// Whether every node that `epoch` waits for has contributed to it.
    pub fn has_all(&self, epoch: usize) -> (r: bool)
        requires
            self.wf(),
        ensures
            r == self@.complete(epoch),
    {
        let ghost nodes = self@.neighborhood;
        match self.broadcast_nodes.get(&epoch) {
            None => {
                proof {
                    if self.neighborhood.len() > 0 {
                        assert(!self@.at(epoch).contains_key(nodes[0]));
                    }
                }
                self.neighborhood.len() == 0
            },
            Some(slot) => {
                proof {
                    lemma_modelled(slot@);
                }
                let mut i: usize = 0;
                while i < self.neighborhood.len()
                    invariant
                        i <= self.neighborhood.len(),
                        slot.wf(),
                        nodes == self.neighborhood.deep_view(),
                        nodes == self@.neighborhood,
                        self@.at(epoch) == as_map(modelled(slot@)),
                        forall|k: Seq<char>| has_key(modelled(slot@), k) <==> has_key(slot@, k),
                        forall|j: int| 0 <= j < i ==> self@.at(epoch).contains_key(#[trigger] nodes[j]),
                    decreases self.neighborhood.len() - i,
                {
                    let ghost k = self.neighborhood@[i as int]@;
                    proof {
                        assert(nodes[i as int] == k);
                    }
                    if !slot.contains_key(&self.neighborhood[i]) {
                        return false;
                    }
                    i += 1;
                }
                true
            },
        }
    }

    /// The transactions of all contributions to `epoch`, node after node
    /// in ascending order of the nodes.
    pub fn get_all(&self, epoch: usize) -> (out: Vec<SeqTxn>)
        requires
            self.wf(),
        ensures
            out.deep_view() == self@.all(epoch),
    {
        let mut out: Vec<SeqTxn> = Vec::new();
        match self.broadcast_nodes.get(&epoch) {
            None => {
                proof {
                    let none = Seq::<(Seq<char>, Seq<SeqTxnView>)>::empty();
                    assert(as_map(none) =~= Map::empty());
                    lemma_in_order(none);
                }
            },
            Some(slot) => {
                let ghost cs = modelled(slot@);
                proof {
                    lemma_modelled(slot@);
                    lemma_in_order(cs);
                }
                let mut i: usize = 0;
                while i < slot.len()
                    invariant
                        i <= slot@.len(),
                        cs == modelled(slot@),
                        out.deep_view() == flatten(cs.take(i as int)),
                    decreases slot@.len() - i,
                {
                    let list = slot.value_at(i);
                    let ghost done = out.deep_view();
                    let mut j: usize = 0;
                    while j < list.len()
                        invariant
                            j <= list.len(),
                            out.deep_view() == done + list.deep_view().take(j as int),
                        decreases list.len() - j,
                    {
                        let ghost prev = out.deep_view();
                        out.push(list[j].duplicate());
                        proof {
                            assert(out.deep_view() =~= prev.push(list@[j as int].deep_view()));
                            assert(list.deep_view().take(j + 1) =~= list.deep_view().take(
                                j as int,
                            ).push(list@[j as int].deep_view()));
                        }
                        j += 1;
                    }
                    proof {
                        lemma_flatten_step(cs, i as int);
                    }
                    i += 1;
                }
                proof {
                    assert(cs.take(slot@.len() as int) =~= cs);
                }
            },
        }
        out
    }
}

} // verus!
