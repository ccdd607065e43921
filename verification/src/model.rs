//! The node as a state machine: what its state stands for, which events
//! it cannot take, and the state and the messages that follow from each
//! event it can take.

use crate::broadcaster::BroadcasterView;
use crate::counter::{zeroes, CounterView};
use crate::gossip::{nothing_seen, GossipView};
use crate::kvstore::{ops_valid, results_of, store_after_all, txns_valid};
use crate::logstore::LogView;
use crate::message::{fanned, EvtView, FrameView, MsgView, PlView, SeqTxnView, Task, TxnOp};
use crate::sequencer::State;
use vstd::prelude::*;

verus! {

/// Why a node cannot take an event. The event then leaves it unchanged.
#[derive(Debug, Clone, Copy, PartialEq, Eq, Structural)]
pub enum Fault {
    /// A request came before the node was told who it is.
    NotInitialized,
    /// The node was told a second time who it is.
    AlreadyInitialized,
    /// The node was given a name that is not among the cluster's.
    BadInit,
    /// Gossip came from a node that is not of the cluster.
    UnknownPeer,
    /// Gossip came without a number to acknowledge.
    MissingMsgId,
    /// A transaction holds an operation that is neither a read nor a
    /// write with a value.
    MalformedTxn,
    /// A number would leave the range of the machine's numbers.
    Overflow,
}

/// What a node stands for.
pub ghost struct NodeView {
    /// Whether the node was told who it is.
    pub initialized: bool,
    /// Whether a read reports the counter.
    pub with_counter: bool,
    /// The node's name.
    pub id: Seq<char>,
    /// The names of all nodes of the cluster; the first is the leader.
    pub ids: Seq<Seq<char>>,
    /// The number that the next message of this node takes.
    pub msg_id: usize,
    /// The topology that the node was told last.
    pub topology: Seq<(Seq<char>, Seq<Seq<char>>)>,
    pub gossip: GossipView,
    pub counter: CounterView,
    pub logs: LogView,
    pub seq: State,
    pub buf: BroadcasterView,
    pub kv: Map<usize, usize>,
}

/// Whether the event asks for a new identifier.
pub open spec fn asks_identifier(evt: EvtView) -> bool {
    evt matches EvtView::Ext(req) && req.body.pl == PlView::Generate
}

/// Every transaction that the buffer holds can be carried out.
pub open spec fn buffered_valid(buf: BroadcasterView) -> bool {
    forall|e: usize, k: Seq<char>| #[trigger]
        buf.at(e).contains_key(k) ==> txns_valid(buf.at(e)[k])
}

impl NodeView {
    /// The node's neighbours in the star round the leader.
    pub open spec fn central(self) -> Seq<Seq<char>> {
        crate::neighborhood::central(self.ids, self.id)
    }

    /// The node's neighbours in the mesh.
    pub open spec fn mesh(self) -> Seq<Seq<char>> {
        crate::neighborhood::mesh(self.ids, self.id)
    }

    /// Whether this node is the leader.
    pub open spec fn is_leader(self) -> bool {
        self.ids.len() > 0 && self.id == self.ids[0]
    }

    /// What holds of a node at all times.
    pub open spec fn inv(self) -> bool {
        &&& self.gossip.inv()
        &&& !self.initialized ==> self.ids.len() == 0
        &&& !self.initialized ==> self.counter.cntr == 0 && self.counter.value() == 0
        &&& self.initialized ==> self.ids.contains(self.id)
        &&& forall|k: Seq<char>| self.ids.contains(k) ==> #[trigger] self.gossip.seen.contains_key(k)
        &&& buffered_valid(self.buf)
    }

    /// Whether the node, on the tick that ends a receiving phase, has a
    /// complete epoch to flush.
    pub open spec fn flushes(self) -> bool {
        self.seq.receiving && self.buf.complete(self.seq.cur_epoch)
    }

    /// The message numbers that a request with payload `pl` uses up
    /// beyond that of its answer.
    pub open spec fn extra_ids(self, pl: PlView) -> int {
        match pl {
            PlView::Send { .. } | PlView::CommitOffsets { .. } => if self.is_leader() {
                self.central().len() as int
            } else {
                0
            },
            _ => 0,
        }
    }

    /// The message numbers that a task may use up.
    pub open spec fn task_ids(self, task: Task) -> int {
        match task {
            Task::CentralGossip => self.central().len() as int,
            Task::MeshGossip => self.mesh().len() as int,
            Task::GossipCntr => self.mesh().len() as int,
            Task::SwitchPhase => if self.flushes() {
                self.mesh().len() as int
            } else {
                0
            },
        }
    }

    /// What is wrong with the request that `sender` sent under the number
    /// `number` with the payload `pl`, the message numbers apart.
    pub open spec fn request_fault(
        self,
        sender: Seq<char>,
        number: Option<usize>,
        pl: PlView,
    ) -> Option<Fault> {
        match pl {
            PlView::Init { node_id, node_ids } => if self.initialized {
                Some(Fault::AlreadyInitialized)
            } else if !node_ids.contains(node_id) {
                Some(Fault::BadInit)
            } else {
                None
            },
            pl => if !pl.is_request() {
                None
            } else if !self.initialized {
                Some(Fault::NotInitialized)
            } else {
                match pl {
                    PlView::Gossip { .. } => if number is None {
                        Some(Fault::MissingMsgId)
                    } else if !self.gossip.seen.contains_key(sender) {
                        Some(Fault::UnknownPeer)
                    } else {
                        None
                    },
                    PlView::GossipOk { id } => if self.gossip.pending.contains_key(id)
                        && !self.gossip.seen.contains_key(sender) {
                        Some(Fault::UnknownPeer)
                    } else {
                        None
                    },
                    PlView::Txn { txn } => if !ops_valid(txn) {
                        Some(Fault::MalformedTxn)
                    } else if self.seq.txn_id == usize::MAX {
                        Some(Fault::Overflow)
                    } else {
                        None
                    },
                    PlView::BroadcastTxn { txns } => if !txns_valid(txns) {
                        Some(Fault::MalformedTxn)
                    } else {
                        None
                    },
                    PlView::Add { delta } => if self.counter.cntr + delta > usize::MAX {
                        Some(Fault::Overflow)
                    } else {
                        None
                    },
                    PlView::Read => if self.with_counter && self.counter.value() > usize::MAX {
                        Some(Fault::Overflow)
                    } else {
                        None
                    },
                    _ => None,
                }
            },
        }
    }

    /// Why the node cannot carry out the task, if it cannot.
    pub open spec fn task_fault(self, task: Task) -> Option<Fault> {
        if task == Task::SwitchPhase && self.seq.receiving && self.seq.cur_epoch == usize::MAX {
            Some(Fault::Overflow)
        } else if self.msg_id + self.task_ids(task) > usize::MAX {
            Some(Fault::Overflow)
        } else {
            None
        }
    }

    /// Why the node cannot take the event, if it cannot.
    pub open spec fn fault(self, evt: EvtView) -> Option<Fault> {
        match evt {
            EvtView::Ext(req) => match self.request_fault(req.src, req.body.msg_id, req.body.pl) {
                Some(f) => Some(f),
                None => if self.msg_id + 1 + self.extra_ids(req.body.pl) > usize::MAX {
                    Some(Fault::Overflow)
                } else {
                    None
                },
            },
            EvtView::Int(task) => self.task_fault(task),
        }
    }

    /// By how much a request with payload `pl` from `sender` raises the
    /// value of the counter.
    pub open spec fn request_gain(self, sender: Seq<char>, pl: PlView) -> int {
        match pl {
            PlView::Add { delta } => delta as int,
            PlView::GossipCntr { cntr } => cntr - self.counter.peer(sender),
            _ => 0,
        }
    }

    /// By how much the event raises the value of the counter.
    pub open spec fn counter_gain(self, evt: EvtView) -> int {
        match evt {
            EvtView::Ext(req) => self.request_gain(req.src, req.body.pl),
            EvtView::Int(_) => 0,
        }
    }

    /// The node with `n` more message numbers used up.
    pub open spec fn numbered(self, n: int) -> NodeView {
        NodeView { msg_id: (self.msg_id + n) as usize, ..self }
    }

    /// After `init`: the node knows itself and the cluster, knows nothing
    /// yet of what its peers hold or counted, and waits in each epoch for
    /// every node of the cluster.
    pub open spec fn on_init(self, frame: FrameView, node_id: Seq<char>, node_ids: Seq<Seq<char>>) -> (
        NodeView,
        Seq<MsgView>,
    ) {
        (
            NodeView {
                initialized: true,
                id: node_id,
                ids: node_ids,
                gossip: GossipView { seen: nothing_seen(node_ids), ..self.gossip },
                counter: CounterView { cntrs: zeroes(node_ids), ..self.counter },
                buf: BroadcasterView { neighborhood: node_ids, ..self.buf },
                ..self
            },
            seq![frame.carrying(PlView::InitOk)],
        )
    }

    /// After `topology`: recorded, and of no effect on whom the node
    /// talks to.
    pub open spec fn on_topology(
        self,
        frame: FrameView,
        topology: Seq<(Seq<char>, Seq<Seq<char>>)>,
    ) -> (NodeView, Seq<MsgView>) {
        (NodeView { topology, ..self }, seq![frame.carrying(PlView::TopologyOk)])
    }

    /// After `broadcast`: the node holds the value. It is not passed on
    /// before the next round of gossip.
    pub open spec fn on_broadcast(self, frame: FrameView, msg: usize) -> (NodeView, Seq<MsgView>) {
        (
            NodeView { gossip: self.gossip.learn(seq![msg]), ..self },
            seq![frame.carrying(PlView::BroadcastOk)],
        )
    }

    /// What a read reports of the counter.
    pub open spec fn read_value(self) -> Option<usize> {
        if self.with_counter {
            Some(self.counter.value() as usize)
        } else {
            None
        }
    }

    /// What a read reports of the values held.
    pub open spec fn read_msgs(self) -> Option<Seq<usize>> {
        if self.gossip.messages.len() == 0 {
            None
        } else {
            Some(self.gossip.messages)
        }
    }

    /// After `read`.
    pub open spec fn on_read(self, frame: FrameView) -> (NodeView, Seq<MsgView>) {
        (
            self,
            seq![
                frame.carrying(PlView::ReadOk { msgs: self.read_msgs(), value: self.read_value() }),
            ],
        )
    }

    /// After `gossip` from a peer: the node holds the values, knows that
    /// the peer holds them, and acknowledges by the number of the gossip.
    pub open spec fn on_gossip(self, frame: FrameView, msgs: Seq<usize>) -> (NodeView, Seq<MsgView>) {
        (
            NodeView { gossip: self.gossip.learn(msgs).credit(frame.dst, msgs), ..self },
            seq![frame.carrying(PlView::GossipOk { id: frame.in_reply_to->0 })],
        )
    }

    /// After `gossip_ok`: the digest that went out under that number is
    /// settled, and the peer is known to hold its values.
    pub open spec fn on_gossip_ok(self, frame: FrameView, id: usize) -> (NodeView, Seq<MsgView>) {
        if self.gossip.pending.contains_key(id) {
            (
                NodeView {
                    gossip: GossipView {
                        pending: self.gossip.pending.remove(id),
                        ..self.gossip.credit(frame.dst, self.gossip.pending[id])
                    },
                    ..self
                },
                Seq::empty(),
            )
        } else {
            (self, Seq::empty())
        }
    }

    /// After `gossip_cntr` from a peer: its value takes the place of the
    /// one it reported before.
    pub open spec fn on_gossip_cntr(self, frame: FrameView, cntr: usize) -> (NodeView, Seq<MsgView>) {
        (
            NodeView {
                counter: CounterView {
                    cntrs: self.counter.cntrs.insert(frame.dst, cntr),
                    ..self.counter
                },
                ..self
            },
            Seq::empty(),
        )
    }

    /// After `add`.
    pub open spec fn on_add(self, frame: FrameView, delta: usize) -> (NodeView, Seq<MsgView>) {
        (
            NodeView {
                counter: CounterView {
                    cntr: (self.counter.cntr + delta) as usize,
                    ..self.counter
                },
                ..self
            },
            seq![frame.carrying(PlView::AddOk)],
        )
    }

    /// After `send`. The leader appends, answers with the last offset of
    /// the key's log and spreads that log to its neighbours in the star.
    /// Any other node passes the request on to the leader.
    pub open spec fn on_send(self, frame: FrameView, key: Seq<char>, msg: usize) -> (
        NodeView,
        Seq<MsgView>,
    ) {
        if self.is_leader() {
            let logs = self.logs.after_send(key, msg);
            (
                NodeView { logs, ..self }.numbered(self.central().len() as int),
                seq![
                    frame.carrying(PlView::SendOk { offset: (logs.log(key).len() - 1) as usize }),
                ] + fanned(
                    self.id,
                    self.central(),
                    self.msg_id as int,
                    PlView::SendMany { key, msgs: logs.log(key) },
                ),
            )
        } else {
            (self, seq![frame.redirected(self.ids[0]).carrying(PlView::Send { key, msg })])
        }
    }

    /// After `send_many`: the node takes the leader's log for its own,
    /// unless its own is longer.
    pub open spec fn on_send_many(self, key: Seq<char>, msgs: Seq<usize>) -> (NodeView, Seq<MsgView>) {
        (NodeView { logs: self.logs.after_send_many(key, msgs), ..self }, Seq::empty())
    }

    /// After `poll`.
    pub open spec fn on_poll(self, frame: FrameView, offsets: Seq<(Seq<char>, usize)>) -> (
        NodeView,
        Seq<MsgView>,
    ) {
        (self, seq![frame.carrying(PlView::PollOk { msgs: self.logs.polled(offsets) })])
    }

    /// After `commit_offsets`. The leader raises its committed offsets,
    /// answers and spreads the request to its neighbours in the star.
    /// Any other node passes the request on to the leader.
    pub open spec fn on_commit_offsets(self, frame: FrameView, offsets: Seq<(Seq<char>, usize)>) -> (
        NodeView,
        Seq<MsgView>,
    ) {
        if self.is_leader() {
            (
                NodeView { logs: self.logs.after_commit(offsets), ..self }.numbered(
                    self.central().len() as int,
                ),
                seq![frame.carrying(PlView::CommitOffsetsOk)] + fanned(
                    self.id,
                    self.central(),
                    self.msg_id as int,
                    PlView::CommitOffsets { offsets },
                ),
            )
        } else {
            (self, seq![frame.redirected(self.ids[0]).carrying(PlView::CommitOffsets { offsets })])
        }
    }

    /// After `list_committed_offsets`.
    pub open spec fn on_list_committed_offsets(self, frame: FrameView, keys: Seq<Seq<char>>) -> (
        NodeView,
        Seq<MsgView>,
    ) {
        (
            self,
            seq![frame.carrying(PlView::ListCommittedOffsetsOk { offsets: self.logs.listed(keys) })],
        )
    }

    /// After `txn`: the transaction takes the next number, the answer
    /// says what its operations would report against the store as it is,
    /// and the transaction waits in the current epoch to be committed.
    /// The store itself is not touched before the epoch is flushed.
    pub open spec fn on_txn(self, frame: FrameView, txn: Seq<TxnOp>) -> (NodeView, Seq<MsgView>) {
        let result = results_of(self.kv, txn);
        let queued = SeqTxnView { seq: self.seq.txn_id, txn };
        let epoch = self.seq.cur_epoch;
        (
            NodeView {
                seq: State { txn_id: (self.seq.txn_id + 1) as usize, ..self.seq },
                buf: self.buf.with(epoch, self.id, self.buf.of(epoch, self.id).push(queued)),
                ..self
            },
            seq![frame.carrying(PlView::TxnOk { txn: result })],
        )
    }

    /// After `broadcast_txn` from a peer: the transactions are what that
    /// peer contributes to the current epoch.
    pub open spec fn on_broadcast_txn(self, frame: FrameView, txns: Seq<SeqTxnView>) -> (
        NodeView,
        Seq<MsgView>,
    ) {
        (NodeView { buf: self.buf.with(self.seq.cur_epoch, frame.dst, txns), ..self }, Seq::empty())
    }

    /// After a round of gossip to `peers`.
    pub open spec fn on_gossip_round(self, peers: Seq<Seq<char>>) -> (NodeView, Seq<MsgView>) {
        (
            NodeView {
                gossip: self.gossip.after_round(peers, self.msg_id as int),
                ..self
            }.numbered(self.gossip.sent_in_round(peers)),
            self.gossip.round_messages(self.id, peers, self.msg_id as int),
        )
    }

    /// After the tick that spreads the counter: every node of the mesh is
    /// told what this node added.
    pub open spec fn on_counter_round(self) -> (NodeView, Seq<MsgView>) {
        (
            self.numbered(self.mesh().len() as int),
            fanned(
                self.id,
                self.mesh(),
                self.msg_id as int,
                PlView::GossipCntr { cntr: self.counter.cntr },
            ),
        )
    }

    /// After the tick that changes phase. Where a receiving phase ends
    /// and its epoch is complete, the epoch's transactions are carried
    /// out against the store, in the order of the contributing nodes, and
    /// spread to the mesh.
    pub open spec fn on_phase_switch(self) -> (NodeView, Seq<MsgView>) {
        let epoch = self.seq.cur_epoch;
        let seq = State {
            receiving: !self.seq.receiving,
            cur_epoch: if self.seq.receiving {
                (epoch + 1) as usize
            } else {
                epoch
            },
            ..self.seq
        };
        if self.flushes() {
            let all = self.buf.all(epoch);
            (
                NodeView { seq, kv: store_after_all(self.kv, all), ..self }.numbered(
                    self.mesh().len() as int,
                ),
                fanned(
                    self.id,
                    self.mesh(),
                    self.msg_id as int,
                    PlView::BroadcastTxn { txns: all },
                ),
            )
        } else {
            (NodeView { seq, ..self }, Seq::empty())
        }
    }

    /// What a request does to a node that has framed its answer.
    pub open spec fn on_request(self, frame: FrameView, pl: PlView, fresh: Seq<char>) -> (
        NodeView,
        Seq<MsgView>,
    ) {
        match pl {
            PlView::Init { node_id, node_ids } => self.on_init(frame, node_id, node_ids),
            PlView::Echo { echo } => (self, seq![frame.carrying(PlView::EchoOk { echo })]),
            PlView::Generate => (self, seq![frame.carrying(PlView::GenerateOk { id: fresh })]),
            PlView::Topology { topology } => self.on_topology(frame, topology),
            PlView::Broadcast { msg } => self.on_broadcast(frame, msg),
            PlView::Read => self.on_read(frame),
            PlView::Gossip { msgs } => self.on_gossip(frame, msgs),
            PlView::GossipOk { id } => self.on_gossip_ok(frame, id),
            PlView::GossipCntr { cntr } => self.on_gossip_cntr(frame, cntr),
            PlView::Add { delta } => self.on_add(frame, delta),
            PlView::Send { key, msg } => self.on_send(frame, key, msg),
            PlView::SendMany { key, msgs } => self.on_send_many(key, msgs),
            PlView::Poll { offsets } => self.on_poll(frame, offsets),
            PlView::CommitOffsets { offsets } => self.on_commit_offsets(frame, offsets),
            PlView::ListCommittedOffsets { keys } => self.on_list_committed_offsets(frame, keys),
            PlView::Txn { txn } => self.on_txn(frame, txn),
            PlView::BroadcastTxn { txns } => self.on_broadcast_txn(frame, txns),
            _ => (self, Seq::empty()),
        }
    }

    /// The state and the messages that follow from an event that the
    /// node can take. Every message from outside uses up the number that
    /// its answer carries, whether an answer is sent or not. `fresh` is
    /// the identifier that a `generate` is answered with.
    pub open spec fn step(self, evt: EvtView, fresh: Seq<char>) -> (NodeView, Seq<MsgView>) {
        match evt {
            EvtView::Ext(req) => self.numbered(1).on_request(
                req.answer_frame(self.msg_id),
                req.body.pl,
                fresh,
            ),
            EvtView::Int(Task::CentralGossip) => self.on_gossip_round(self.central()),
            EvtView::Int(Task::MeshGossip) => self.on_gossip_round(self.mesh()),
            EvtView::Int(Task::GossipCntr) => self.on_counter_round(),
            EvtView::Int(Task::SwitchPhase) => self.on_phase_switch(),
        }
    }
}

} // verus!
