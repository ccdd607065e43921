//! The key/value store that transactions read and write.

use crate::message::{SeqTxn, SeqTxnView, TxnOp};
use std::collections::HashMap;
use vstd::prelude::*;

verus! {

broadcast use vstd::std_specs::hash::group_hash_axioms;

/// An operation that the store can carry out: a read, or a write that
/// brings its value.
pub open spec fn op_valid(o: TxnOp) -> bool {
    o.0 == 'r' || (o.0 == 'w' && o.2 is Some)
}

/// Every operation of the list can be carried out.
pub open spec fn ops_valid(ops: Seq<TxnOp>) -> bool {
    forall|i: int| 0 <= i < ops.len() ==> op_valid(#[trigger] ops[i])
}

/// Every operation of every transaction of the list can be carried out.
pub open spec fn txns_valid(txns: Seq<SeqTxnView>) -> bool {
    forall|i: int| 0 <= i < txns.len() ==> ops_valid(#[trigger] txns[i].txn)
}

/// The store after one operation: a write sets its key, a read changes
/// nothing.
pub open spec fn store_after_op(kv: Map<usize, usize>, o: TxnOp) -> Map<usize, usize> {
    if o.0 == 'w' {
        kv.insert(o.1, o.2->0)
    } else {
        kv
    }
}

/// What one operation reports: a write reports itself, a read reports
/// what the store holds under its key.
pub open spec fn result_of_op(kv: Map<usize, usize>, o: TxnOp) -> TxnOp {
    if o.0 == 'w' {
        o
    } else {
        (
            o.0,
            o.1,
            if kv.contains_key(o.1) {
                Some(kv[o.1])
            } else {
                None
            },
        )
    }
}

/// The store after the operations of `ops`, carried out in order.
pub open spec fn store_after(kv: Map<usize, usize>, ops: Seq<TxnOp>) -> Map<usize, usize>
    decreases ops.len(),
{
    if ops.len() == 0 {
        kv
    } else {
        store_after_op(store_after(kv, ops.drop_last()), ops.last())
    }
}

/// What the operations of `ops` report, each one against the store that
/// the operations before it have left.
pub open spec fn results_of(kv: Map<usize, usize>, ops: Seq<TxnOp>) -> Seq<TxnOp> {
    Seq::new(ops.len(), |i: int| result_of_op(store_after(kv, ops.take(i)), ops[i]))
}

/// The store after the transactions of `txns`, carried out in order.
pub open spec fn store_after_all(kv: Map<usize, usize>, txns: Seq<SeqTxnView>) -> Map<
    usize,
    usize,
>
    decreases txns.len(),
{
    if txns.len() == 0 {
        kv
    } else {
        store_after(store_after_all(kv, txns.drop_last()), txns.last().txn)
    }
}

/// One more operation: the store after `i + 1` operations is the store
/// after `i` of them and then the next.
pub proof fn lemma_store_after_step(kv: Map<usize, usize>, ops: Seq<TxnOp>, i: int)
    requires
        0 <= i < ops.len(),
    ensures
        store_after(kv, ops.take(i + 1)) == store_after_op(store_after(kv, ops.take(i)), ops[i]),
{
    assert(ops.take(i + 1).drop_last() =~= ops.take(i));
}

/// One more transaction: the store after `i + 1` transactions is the
/// store after `i` of them and then the next.
pub proof fn lemma_store_after_all_step(kv: Map<usize, usize>, txns: Seq<SeqTxnView>, i: int)
    requires
        0 <= i < txns.len(),
    ensures
        store_after_all(kv, txns.take(i + 1)) == store_after(
            store_after_all(kv, txns.take(i)),
            txns[i].txn,
        ),
{
    assert(txns.take(i + 1).drop_last() =~= txns.take(i));
}

/// Whether every operation of the list can be carried out.
pub fn ops_ok(ops: &Vec<TxnOp>) -> (r: bool)
    ensures
        r == ops_valid(ops@),
{
    let mut i: usize = 0;
    while i < ops.len()
        invariant
            i <= ops.len(),
            forall|j: int| 0 <= j < i ==> op_valid(#[trigger] ops@[j]),
        decreases ops.len() - i,
    {
        let (op, _, value) = ops[i];
        if !(op == 'r' || (op == 'w' && value.is_some())) {
            return false;
        }
        i += 1;
    }
    true
}

/// Whether every operation of every transaction of the list can be
/// carried out.
pub fn txns_ok(txns: &Vec<SeqTxn>) -> (r: bool)
    ensures
        r == txns_valid(txns.deep_view()),
{
    let mut i: usize = 0;
    while i < txns.len()
        invariant
            i <= txns.len(),
            forall|j: int| 0 <= j < i ==> ops_valid(#[trigger] txns.deep_view()[j].txn),
        decreases txns.len() - i,
    {
        if !ops_ok(&txns[i].txn) {
            assert(!ops_valid(txns.deep_view()[i as int].txn));
            return false;
        }
        i += 1;
    }
    true
}

/// A map from keys to values.
pub struct KVStore {
    kv: HashMap<usize, usize>,
}

impl View for KVStore {
    type V = Map<usize, usize>;

    closed spec fn view(&self) -> Map<usize, usize> {
        self.kv@
    }
}

impl KVStore {
    /// The empty store.
    pub fn new() -> (s: Self)
        ensures
            s@ == Map::<usize, usize>::empty(),
    {
        Self { kv: HashMap::new() }
    }

    /// The value under `key`, if there is one.
    pub fn get(&self, key: usize) -> (v: Option<usize>)
        ensures
            v == (if self@.contains_key(key) {
                Some(self@[key])
            } else {
                None
            }),
    {
        match self.kv.get(&key) {
            Some(v) => Some(*v),
            None => None,
        }
    }

    /// Carries out the operations of `txn` in order and returns what each
    /// reports.
    pub fn apply_transaction(&mut self, txn: &[TxnOp]) -> (out: Vec<TxnOp>)
        requires
            ops_valid(txn@),
        ensures
            final(self)@ == store_after(old(self)@, txn@),
            out@ == results_of(old(self)@, txn@),
    {
        let mut out: Vec<TxnOp> = Vec::new();
        let mut i: usize = 0;
        while i < txn.len()
            invariant
                i <= txn.len(),
                ops_valid(txn@),
                self@ == store_after(old(self)@, txn@.take(i as int)),
                out.len() == i,
                forall|j: int| 0 <= j < i ==> out@[j] == results_of(old(self)@, txn@)[j],
            decreases txn.len() - i,
        {
            let (op, key, value) = txn[i];
            proof {
                lemma_store_after_step(old(self)@, txn@, i as int);
            }
            if op == 'w' {
                match value {
                    Some(v) => {
                        self.kv.insert(key, v);
                    },
                    None => {},
                }
                out.push((op, key, value));
            } else {
                out.push((op, key, self.get(key)));
            }
            i += 1;
        }
        proof {
            assert(txn@.take(txn.len() as int) =~= txn@);
        }
        out
    }

    /// What the operations of `txn` would report, leaving the store as it
    /// is.
    pub fn preview(&self, txn: &[TxnOp]) -> (out: Vec<TxnOp>)
        requires
            ops_valid(txn@),
        ensures
            out@ == results_of(self@, txn@),
    {
        let mut scratch = KVStore { kv: self.kv.clone() };
        scratch.apply_transaction(txn)
    }

    /// Carries out the transactions of `txns` in order.
    pub fn apply_all(&mut self, txns: &Vec<SeqTxn>)
        requires
            txns_valid(txns.deep_view()),
        ensures
            final(self)@ == store_after_all(old(self)@, txns.deep_view()),
    {
        let mut i: usize = 0;
        while i < txns.len()
            invariant
                i <= txns.len(),
                txns_valid(txns.deep_view()),
                self@ == store_after_all(old(self)@, txns.deep_view().take(i as int)),
            decreases txns.len() - i,
        {
            proof {
                lemma_store_after_all_step(old(self)@, txns.deep_view(), i as int);
            }
            let _ = self.apply_transaction(txns[i].txn.as_slice());
            i += 1;
        }
        proof {
            assert(txns.deep_view().take(txns.len() as int) =~= txns.deep_view());
        }
    }
}

} // verus!
