//! The sequencer's clock: transaction numbers, epochs and the two phases
//! that alternate.

use vstd::prelude::*;

verus! {

/// The state of the sequencer on one node.
#[derive(Debug)]
pub struct State {
    /// The number that the next transaction takes.
    pub txn_id: usize,
    /// The epoch that contributions are gathered for.
    pub cur_epoch: usize,
    /// Whether the node is in the receiving phase (else: flushing).
    pub receiving: bool,
}

impl State {
    /// The state at start: nothing numbered yet, epoch 0, receiving.
    pub fn new() -> (s: Self)
        ensures
            s == (State { txn_id: 0, cur_epoch: 0, receiving: true }),
    {
        Self { txn_id: 0, cur_epoch: 0, receiving: true }
    }

    /// Hands out the next transaction number.
    pub fn next_txn_id(&mut self) -> (id: usize)
        requires
            old(self).txn_id < usize::MAX,
        ensures
            id == old(self).txn_id,
            *final(self) == (State { txn_id: (old(self).txn_id + 1) as usize, ..*old(self) }),
    {
        let id = self.txn_id;
        self.txn_id += 1;
        id
    }

    /// Changes phase. Leaving the receiving phase opens the next epoch.
    pub fn switch_phase(&mut self)
        requires
            old(self).receiving ==> old(self).cur_epoch < usize::MAX,
        ensures
            final(self).receiving == !old(self).receiving,
            final(self).txn_id == old(self).txn_id,
            final(self).cur_epoch == old(self).cur_epoch + (if old(self).receiving {
                1int
            } else {
                0int
            }),
    {
        self.receiving = !self.receiving;
        if !self.receiving {
            self.cur_epoch += 1;
        }
    }
}

} // verus!
