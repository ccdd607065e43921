//! The node: its state, and the handler that takes one event at a time.

use crate::broadcaster::Broadcaster;
use crate::counter::Counter;
use crate::gossip::{lemma_after_round, lemma_sent_in_round, Gossip};
use crate::ident::{ids_contain, same_id};
use crate::kvstore::{ops_ok, txns_ok, KVStore};
use crate::logstore::LogStore;
use crate::message::{
    copy_ids, fan_out, Evt, Frame, Msg, MsgView, Pl, PlView, SeqTxn, Task, TxnOp,
};
use crate::model::{asks_identifier, Fault, NodeView};
use crate::neighborhood::{central_of, lemma_neighbours_are_nodes, others_of};
use crate::sequencer::State;
use crate::unique::{fresh_id, is_hyphenated};
use vstd::prelude::*;

verus! {

/// A list of one message.
fn one(msg: Msg) -> (out: Vec<Msg>)
    ensures
        out.deep_view() == seq![msg.deep_view()],
{
    let mut out: Vec<Msg> = Vec::new();
    out.push(msg);
    out
}

/// No message.
fn none() -> (out: Vec<Msg>)
    ensures
        out.deep_view() == Seq::<MsgView>::empty(),
{
    let out: Vec<Msg> = Vec::new();
    out
}

/// The answer to a `generate` that `frame` frames, with the identifier
/// `id`.
pub fn generate_ok(frame: Frame, id: String) -> (msg: Msg)
    ensures
        msg.deep_view() == frame.deep_view().carrying(PlView::GenerateOk { id: id@ }),
{
    frame.carrying(Pl::GenerateOk { id })
}

/// The state of one node of the cluster.
pub struct Node {
    initialized: bool,
    with_counter: bool,
    id: String,
    ids: Vec<String>,
    central: Vec<String>,
    mesh: Vec<String>,
    msg_id: usize,
    topology: Vec<(String, Vec<String>)>,
    gossip: Gossip,
    counter: Counter,
    logs: LogStore,
    state: State,
    broadcaster: Broadcaster,
    kvstore: KVStore,
}

impl View for Node {
    type V = NodeView;

    closed spec fn view(&self) -> NodeView {
        NodeView {
            initialized: self.initialized,
            with_counter: self.with_counter,
            id: self.id@,
            ids: self.ids.deep_view(),
            msg_id: self.msg_id,
            topology: self.topology.deep_view(),
            gossip: self.gossip@,
            counter: self.counter@,
            logs: self.logs@,
            seq: self.state,
            buf: self.broadcaster@,
            kv: self.kvstore@,
        }
    }
}

impl Node {
    /// The parts are well formed, the neighbourhoods are those of the
    /// node's place in the cluster, and the node keeps its invariant.
    pub closed spec fn wf(&self) -> bool {
        &&& self.gossip.wf()
        &&& self.counter.wf()
        &&& self.logs.wf()
        &&& self.broadcaster.wf()
        &&& self.central.deep_view() == self@.central()
        &&& self.mesh.deep_view() == self@.mesh()
        &&& self@.inv()
    }

    /// A well-formed node keeps the invariant of its model.
    pub proof fn lemma_inv(&self)
        requires
            self.wf(),
        ensures
            self@.inv(),
    {
    }

    /// A node at start, before it was told who it is. `with_counter`
    /// says whether its reads report the counter.
    pub fn new(with_counter: bool) -> (node: Self)
        ensures
            node.wf(),
            node@.inv(),
            !node@.initialized,
            node@.with_counter == with_counter,
            node@.msg_id == 0,
            node@.ids.len() == 0,
            node@.gossip.messages.len() == 0,
            node@.counter.value() == 0,
            node@.seq == (State { txn_id: 0, cur_epoch: 0, receiving: true }),
            node@.kv == Map::<usize, usize>::empty(),
            node@.logs.logs == Map::<Seq<char>, Seq<usize>>::empty(),
            node@.logs.committed == Map::<Seq<char>, usize>::empty(),
            node@.buf.buf == Map::<usize, Map<Seq<char>, Seq<crate::message::SeqTxnView>>>::empty(),
    {
        let node = Node {
            initialized: false,
            with_counter,
            id: String::new(),
            ids: Vec::new(),
            central: Vec::new(),
            mesh: Vec::new(),
            msg_id: 0,
            topology: Vec::new(),
            gossip: Gossip::new(),
            counter: Counter::new(),
            logs: LogStore::new(),
            state: State::new(),
            broadcaster: Broadcaster::new(),
            kvstore: KVStore::new(),
        };
        proof {
            assert(node.ids.deep_view() =~= Seq::<Seq<char>>::empty());
        }
        node
    }

    /// The number that the next message of this node takes.
    pub fn msg_id(&self) -> (n: usize)
        ensures
            n == self@.msg_id,
    {
        self.msg_id
    }

    /// Whether the node was told who it is.
    pub fn is_initialized(&self) -> (r: bool)
        ensures
            r == self@.initialized,
    {
        self.initialized
    }

    /// The value that the store holds under `key`, if any.
    pub fn stored(&self, key: usize) -> (v: Option<usize>)
        ensures
            v == (if self@.kv.contains_key(key) {
                Some(self@.kv[key])
            } else {
                None
            }),
    {
        self.kvstore.get(key)
    }

    /// The sequencer's clock.
    pub fn clock(&self) -> (s: &State)
        ensures
            *s == self@.seq,
    {
        &self.state
    }

    /// Whether this node is the leader.
    fn leads(&self) -> (r: bool)
        ensures
            r == self@.is_leader(),
    {
        if self.ids.len() > 0 {
            same_id(&self.id, &self.ids[0])
        } else {
            false
        }
    }

    /// What is wrong with a request, the message numbers apart.
    fn check_request(&self, sender: &String, number: Option<usize>, pl: &Pl) -> (r: Option<Fault>)
        requires
            self.wf(),
        ensures
            r == self@.request_fault(sender@, number, pl.deep_view()),
    {
        match pl {
            Pl::Init { node_id, node_ids } => {
                if self.initialized {
                    Some(Fault::AlreadyInitialized)
                } else if !ids_contain(node_ids, node_id) {
                    Some(Fault::BadInit)
                } else {
                    None
                }
            },
            Pl::Gossip { .. } => {
                if !self.initialized {
                    Some(Fault::NotInitialized)
                } else if number.is_none() {
                    Some(Fault::MissingMsgId)
                } else if !self.gossip.knows(sender) {
                    Some(Fault::UnknownPeer)
                } else {
                    None
                }
            },
            Pl::GossipOk { id } => {
                if !self.initialized {
                    Some(Fault::NotInitialized)
                } else if self.gossip.awaits(*id) && !self.gossip.knows(sender) {
                    Some(Fault::UnknownPeer)
                } else {
                    None
                }
            },
            Pl::Txn { txn } => {
                if !self.initialized {
                    Some(Fault::NotInitialized)
                } else if !ops_ok(txn) {
                    Some(Fault::MalformedTxn)
                } else if self.state.txn_id == usize::MAX {
                    Some(Fault::Overflow)
                } else {
                    None
                }
            },
            Pl::BroadcastTxn { txns } => {
                if !self.initialized {
                    Some(Fault::NotInitialized)
                } else if !txns_ok(txns) {
                    Some(Fault::MalformedTxn)
                } else {
                    None
                }
            },
            Pl::Add { delta } => {
                if !self.initialized {
                    Some(Fault::NotInitialized)
                } else if *delta > usize::MAX - self.counter.local() {
                    Some(Fault::Overflow)
                } else {
                    None
                }
            },
            Pl::Read => {
                if !self.initialized {
                    Some(Fault::NotInitialized)
                } else if self.with_counter && self.counter.value().is_none() {
                    Some(Fault::Overflow)
                } else {
                    None
                }
            },
            Pl::Echo { .. }
            | Pl::Generate
            | Pl::Topology { .. }
            | Pl::Broadcast { .. }
            | Pl::GossipCntr { .. }
            | Pl::Send { .. }
            | Pl::SendMany { .. }
            | Pl::Poll { .. }
            | Pl::CommitOffsets { .. }
            | Pl::ListCommittedOffsets { .. } => {
                if !self.initialized {
                    Some(Fault::NotInitialized)
                } else {
                    None
                }
            },
            _ => None,
        }
    }

    /// Why the node cannot carry out the task, if it cannot.
    fn check_task(&self, task: Task) -> (r: Option<Fault>)
        requires
            self.wf(),
        ensures
            r == self@.task_fault(task),
    {
        let needed = match task {
            Task::CentralGossip => self.central.len(),
            Task::MeshGossip => self.mesh.len(),
            Task::GossipCntr => self.mesh.len(),
            Task::SwitchPhase => {
                if self.state.receiving && self.state.cur_epoch == usize::MAX {
                    return Some(Fault::Overflow);
                }
                if self.state.receiving && self.broadcaster.has_all(self.state.cur_epoch) {
                    self.mesh.len()
                } else {
                    0
                }
            },
        };
        if needed > usize::MAX - self.msg_id {
            Some(Fault::Overflow)
        } else {
            None
        }
    }

    /// Why the node cannot take the event, if it cannot.
    pub fn check(&self, evt: &Evt) -> (r: Option<Fault>)
        requires
            self.wf(),
        ensures
            r == self@.fault(evt.deep_view()),
    {
        match evt {
            Evt::Int(task) => self.check_task(*task),
            Evt::Ext(msg) => {
                match self.check_request(&msg.src, msg.body.msg_id, &msg.body.pl) {
                    Some(f) => Some(f),
                    None => {
                        let extra = match &msg.body.pl {
                            Pl::Send { .. } | Pl::CommitOffsets { .. } => if self.leads() {
                                self.central.len()
                            } else {
                                0
                            },
                            _ => 0,
                        };
                        if self.msg_id == usize::MAX || extra > usize::MAX - self.msg_id - 1 {
                            Some(Fault::Overflow)
                        } else {
                            None
                        }
                    },
                }
            },
        }
    }

    /// Takes in who the node is and who its cluster is.
    fn do_init(&mut self, frame: Frame, node_id: String, node_ids: Vec<String>) -> (out: Vec<Msg>)
        requires
            old(self).wf(),
            !old(self)@.initialized,
            node_ids.deep_view().contains(node_id@),
        ensures
            final(self).wf(),
            (final(self)@, out.deep_view()) == old(self)@.on_init(
                frame.deep_view(),
                node_id@,
                node_ids.deep_view(),
            ),
            final(self)@.counter.value() == old(self)@.counter.value(),
    {
        let ghost before = self@.buf;
        self.central = central_of(&node_ids, &node_id);
        self.mesh = others_of(&node_ids, &node_id);
        self.gossip.init(&node_ids);
        self.counter.init(&node_ids);
        self.broadcaster.init(copy_ids(&node_ids));
        self.id = node_id;
        self.ids = node_ids;
        self.initialized = true;
        proof {
            self.gossip.lemma_inv();
            assert forall|e: usize, k: Seq<char>| #[trigger]
                self@.buf.at(e).contains_key(k) implies crate::kvstore::txns_valid(
                self@.buf.at(e)[k],
            ) by {
                assert(before.at(e).contains_key(k));
            }
        }
        one(frame.carrying(Pl::InitOk))
    }

    /// Records the topology.
    fn do_topology(&mut self, frame: Frame, topology: Vec<(String, Vec<String>)>) -> (out: Vec<Msg>)
        requires
            old(self).wf(),
        ensures
            final(self).wf(),
            (final(self)@, out.deep_view()) == old(self)@.on_topology(
                frame.deep_view(),
                topology.deep_view(),
            ),
    {
        self.topology = topology;
        one(frame.carrying(Pl::TopologyOk))
    }

    /// Takes in a value that a client broadcast.
    fn do_broadcast(&mut self, frame: Frame, msg: usize) -> (out: Vec<Msg>)
        requires
            old(self).wf(),
        ensures
            final(self).wf(),
            (final(self)@, out.deep_view()) == old(self)@.on_broadcast(frame.deep_view(), msg),
    {
        self.gossip.broadcast(msg);
        proof {
            self.gossip.lemma_inv();
        }
        one(frame.carrying(Pl::BroadcastOk))
    }

    /// Reports the values held and, where asked for, the counter.
    fn do_read(&self, frame: Frame) -> (out: Vec<Msg>)
        requires
            self.wf(),
            self@.with_counter ==> self@.counter.value() <= usize::MAX,
        ensures
            (self@, out.deep_view()) == self@.on_read(frame.deep_view()),
    {
        let msgs = self.gossip.read();
        let value = if self.with_counter {
            self.counter.value()
        } else {
            None
        };
        one(frame.carrying(Pl::ReadOk { msgs, value }))
    }

    /// Takes in a peer's digest and acknowledges it.
    fn do_gossip(&mut self, frame: Frame, msgs: Vec<usize>) -> (out: Vec<Msg>)
        requires
            old(self).wf(),
            frame.in_reply_to is Some,
            old(self)@.gossip.seen.contains_key(frame.dst@),
        ensures
            final(self).wf(),
            (final(self)@, out.deep_view()) == old(self)@.on_gossip(frame.deep_view(), msgs@),
    {
        let _ = self.gossip.receive(&frame.dst, &msgs);
        proof {
            self.gossip.lemma_inv();
        }
        let id = match frame.in_reply_to {
            Some(i) => i,
            None => 0,
        };
        one(frame.carrying(Pl::GossipOk { id }))
    }

    /// Settles the digest that a peer acknowledged.
    fn do_gossip_ok(&mut self, frame: Frame, id: usize) -> (out: Vec<Msg>)
        requires
            old(self).wf(),
            old(self)@.gossip.pending.contains_key(id) ==> old(self)@.gossip.seen.contains_key(
                frame.dst@,
            ),
        ensures
            final(self).wf(),
            (final(self)@, out.deep_view()) == old(self)@.on_gossip_ok(frame.deep_view(), id),
    {
        let _ = self.gossip.ack(&frame.dst, id);
        proof {
            self.gossip.lemma_inv();
        }
        none()
    }

    /// Records what a peer counted.
    fn do_gossip_cntr(&mut self, frame: Frame, cntr: usize) -> (out: Vec<Msg>)
        requires
            old(self).wf(),
            old(self)@.initialized,
        ensures
            final(self).wf(),
            (final(self)@, out.deep_view()) == old(self)@.on_gossip_cntr(frame.deep_view(), cntr),
            final(self)@.counter.value() == old(self)@.counter.value() - old(self)@.counter.peer(
                frame.dst@,
            ) + cntr,
    {
        self.counter.set_peer(frame.dst, cntr);
        none()
    }

    /// Adds to the counter.
    fn do_add(&mut self, frame: Frame, delta: usize) -> (out: Vec<Msg>)
        requires
            old(self).wf(),
            old(self)@.initialized,
            old(self)@.counter.cntr + delta <= usize::MAX,
        ensures
            final(self).wf(),
            (final(self)@, out.deep_view()) == old(self)@.on_add(frame.deep_view(), delta),
            final(self)@.counter.value() == old(self)@.counter.value() + delta,
    {
        self.counter.add(delta);
        one(frame.carrying(Pl::AddOk))
    }

    /// This frame, addressed to the leader instead.
    fn to_leader(&self, frame: Frame) -> (out: Frame)
        requires
            self.wf(),
            self@.initialized,
        ensures
            out.deep_view() == frame.deep_view().redirected(self@.ids[0]),
    {
        Frame {
            src: frame.src,
            dst: self.ids[0].clone(),
            msg_id: frame.msg_id,
            in_reply_to: frame.in_reply_to,
        }
    }

    /// Appends to a log as the leader, or passes the write on to the leader.
    fn do_send(&mut self, frame: Frame, key: String, msg: usize) -> (out: Vec<Msg>)
        requires
            old(self).wf(),
            old(self)@.initialized,
            old(self)@.msg_id + old(self)@.extra_ids(PlView::Send { key: key@, msg }) <= usize::MAX,
        ensures
            final(self).wf(),
            (final(self)@, out.deep_view()) == old(self)@.on_send(frame.deep_view(), key@, msg),
    {
        if self.leads() {
            let offset = self.logs.append(&key, msg);
            let log = self.logs.log_of(&key);
            let mut out = one(frame.carrying(Pl::SendOk { offset }));
            let pl = Pl::SendMany { key, msgs: log };
            let ghost first = out.deep_view();
            let mut rest = fan_out(&self.id, &self.central, &pl, &mut self.msg_id);
            let ghost more = rest.deep_view();
            out.append(&mut rest);
            out
        } else {
            let fwd = self.to_leader(frame);
            one(fwd.carrying(Pl::Send { key, msg }))
        }
    }

    /// Takes in the leader's log of a key.
    fn do_send_many(&mut self, key: String, msgs: Vec<usize>) -> (out: Vec<Msg>)
        requires
            old(self).wf(),
        ensures
            final(self).wf(),
            (final(self)@, out.deep_view()) == old(self)@.on_send_many(key@, msgs@),
    {
        self.logs.adopt(key, msgs);
        none()
    }

    /// Reports the logs from the offsets asked for.
    fn do_poll(&self, frame: Frame, offsets: Vec<(String, usize)>) -> (out: Vec<Msg>)
        requires
            self.wf(),
        ensures
            (self@, out.deep_view()) == self@.on_poll(frame.deep_view(), offsets.deep_view()),
    {
        let msgs = self.logs.poll(&offsets);
        one(frame.carrying(Pl::PollOk { msgs }))
    }

    /// Commits offsets as the leader, or passes the request on to the leader.
    fn do_commit_offsets(&mut self, frame: Frame, offsets: Vec<(String, usize)>) -> (out: Vec<Msg>)
        requires
            old(self).wf(),
            old(self)@.initialized,
            old(self)@.msg_id + old(self)@.extra_ids(
                PlView::CommitOffsets { offsets: offsets.deep_view() },
            ) <= usize::MAX,
        ensures
            final(self).wf(),
            (final(self)@, out.deep_view()) == old(self)@.on_commit_offsets(
                frame.deep_view(),
                offsets.deep_view(),
            ),
    {
        if self.leads() {
            self.logs.commit(&offsets);
            let mut out = one(frame.carrying(Pl::CommitOffsetsOk));
            let pl = Pl::CommitOffsets { offsets };
            let mut rest = fan_out(&self.id, &self.central, &pl, &mut self.msg_id);
            out.append(&mut rest);
            out
        } else {
            let fwd = self.to_leader(frame);
            one(fwd.carrying(Pl::CommitOffsets { offsets }))
        }
    }

    /// Reports the committed offsets of the keys asked for.
    fn do_list_committed_offsets(&self, frame: Frame, keys: Vec<String>) -> (out: Vec<Msg>)
        requires
            self.wf(),
        ensures
            (self@, out.deep_view()) == self@.on_list_committed_offsets(
                frame.deep_view(),
                keys.deep_view(),
            ),
    {
        let offsets = self.logs.list_committed(&keys);
        one(frame.carrying(Pl::ListCommittedOffsetsOk { offsets }))
    }

    /// Answers a transaction from the store as it is, and queues it for the current epoch.
    fn do_txn(&mut self, frame: Frame, txn: Vec<TxnOp>) -> (out: Vec<Msg>)
        requires
            old(self).wf(),
            crate::kvstore::ops_valid(txn@),
            old(self)@.seq.txn_id < usize::MAX,
        ensures
            final(self).wf(),
            (final(self)@, out.deep_view()) == old(self)@.on_txn(frame.deep_view(), txn@),
    {
        let seq = self.state.next_txn_id();
        let result = self.kvstore.preview(txn.as_slice());
        let queued = SeqTxn { seq, txn };
        let ghost before = self@.buf;
        self.broadcaster.enqueue(self.state.cur_epoch, self.id.clone(), queued);
        proof {
            let epoch = self.state.cur_epoch;
            assert forall|e: usize, k: Seq<char>| #[trigger]
                self@.buf.at(e).contains_key(k) implies crate::kvstore::txns_valid(
                self@.buf.at(e)[k],
            ) by {
                if !(e == epoch && k == self.id@) {
                    assert(before.at(e).contains_key(k));
                }
            }
        }
        one(frame.carrying(Pl::TxnOk { txn: result }))
    }

    /// Records what a peer contributes to the current epoch.
    fn do_broadcast_txn(&mut self, frame: Frame, txns: Vec<SeqTxn>) -> (out: Vec<Msg>)
        requires
            old(self).wf(),
            crate::kvstore::txns_valid(txns.deep_view()),
        ensures
            final(self).wf(),
            (final(self)@, out.deep_view()) == old(self)@.on_broadcast_txn(
                frame.deep_view(),
                txns.deep_view(),
            ),
    {
        let ghost before = self@.buf;
        let ghost epoch = self.state.cur_epoch;
        self.broadcaster.push(self.state.cur_epoch, frame.dst, txns);
        proof {
            assert forall|e: usize, k: Seq<char>| #[trigger]
                self@.buf.at(e).contains_key(k) implies crate::kvstore::txns_valid(
                self@.buf.at(e)[k],
            ) by {
                if !(e == epoch && k == frame.dst@) {
                    assert(before.at(e).contains_key(k));
                }
            }
        }
        none()
    }

    /// Gossips with the star (`star`) or with the mesh.
    fn do_gossip_round(&mut self, star: bool) -> (out: Vec<Msg>)
        requires
            old(self).wf(),
            old(self)@.msg_id + (if star {
                old(self)@.central()
            } else {
                old(self)@.mesh()
            }).len() <= usize::MAX,
        ensures
            final(self).wf(),
            (final(self)@, out.deep_view()) == old(self)@.on_gossip_round(
                if star {
                    old(self)@.central()
                } else {
                    old(self)@.mesh()
                },
            ),
    {
        let ghost peers = if star {
            self@.central()
        } else {
            self@.mesh()
        };
        proof {
            lemma_neighbours_are_nodes(self@.ids, self@.id);
            lemma_sent_in_round(self@.gossip, peers);
            self.gossip.lemma_inv();
            lemma_after_round(self@.gossip, peers, self@.msg_id as int);
        }
        let out = if star {
            self.gossip.round(&self.id, &self.central, &mut self.msg_id)
        } else {
            self.gossip.round(&self.id, &self.mesh, &mut self.msg_id)
        };
        proof {
            self.gossip.lemma_inv();
        }
        out
    }

    /// Tells the mesh what this node counted.
    fn do_counter_round(&mut self) -> (out: Vec<Msg>)
        requires
            old(self).wf(),
            old(self)@.msg_id + old(self)@.mesh().len() <= usize::MAX,
        ensures
            final(self).wf(),
            (final(self)@, out.deep_view()) == old(self)@.on_counter_round(),
    {
        let pl = Pl::GossipCntr { cntr: self.counter.local() };
        fan_out(&self.id, &self.mesh, &pl, &mut self.msg_id)
    }

    /// Changes phase, and flushes the epoch that ends if it is complete.
    fn do_phase_switch(&mut self) -> (out: Vec<Msg>)
        requires
            old(self).wf(),
            old(self)@.task_fault(Task::SwitchPhase) is None,
        ensures
            final(self).wf(),
            (final(self)@, out.deep_view()) == old(self)@.on_phase_switch(),
    {
        let epoch = self.state.cur_epoch;
        let flush = self.state.receiving && self.broadcaster.has_all(epoch);
        self.state.switch_phase();
        if flush {
            let all = self.broadcaster.get_all(epoch);
            proof {
                self.broadcaster.lemma_all_valid(epoch);
            }
            self.kvstore.apply_all(&all);
            let pl = Pl::BroadcastTxn { txns: all };
            fan_out(&self.id, &self.mesh, &pl, &mut self.msg_id)
        } else {
            none()
        }
    }

    /// Carries out a task that the node can carry out.
    fn run(&mut self, task: Task) -> (out: Vec<Msg>)
        requires
            old(self).wf(),
            old(self)@.task_fault(task) is None,
        ensures
            final(self).wf(),
            forall|fresh: Seq<char>|
                (final(self)@, out.deep_view()) == #[trigger] old(self)@.step(
                    crate::message::EvtView::Int(task),
                    fresh,
                ),
            final(self)@.counter == old(self)@.counter,
    {
        match task {
            Task::CentralGossip => self.do_gossip_round(true),
            Task::MeshGossip => self.do_gossip_round(false),
            Task::GossipCntr => self.do_counter_round(),
            Task::SwitchPhase => self.do_phase_switch(),
        }
    }

    /// Acts on a request whose answer is framed already.
    fn respond(&mut self, frame: Frame, pl: Pl, fresh: String) -> (out: Vec<Msg>)
        requires
            old(self).wf(),
            old(self)@.request_fault(frame.dst@, frame.in_reply_to, pl.deep_view()) is None,
            old(self)@.msg_id + old(self)@.extra_ids(pl.deep_view()) <= usize::MAX,
        ensures
            final(self).wf(),
            (final(self)@, out.deep_view()) == old(self)@.on_request(
                frame.deep_view(),
                pl.deep_view(),
                fresh@,
            ),
            final(self)@.counter.value() == old(self)@.counter.value() + old(self)@.request_gain(
                frame.dst@,
                pl.deep_view(),
            ),
    {
        match pl {
            Pl::Init { node_id, node_ids } => self.do_init(frame, node_id, node_ids),
            Pl::Echo { echo } => one(frame.carrying(Pl::EchoOk { echo })),
            Pl::Generate => one(generate_ok(frame, fresh)),
            Pl::Topology { topology } => self.do_topology(frame, topology),
            Pl::Broadcast { msg } => self.do_broadcast(frame, msg),
            Pl::Read => self.do_read(frame),
            Pl::Gossip { msgs } => self.do_gossip(frame, msgs),
            Pl::GossipOk { id } => self.do_gossip_ok(frame, id),
            Pl::GossipCntr { cntr } => self.do_gossip_cntr(frame, cntr),
            Pl::Add { delta } => self.do_add(frame, delta),
            Pl::Send { key, msg } => self.do_send(frame, key, msg),
            Pl::SendMany { key, msgs } => self.do_send_many(key, msgs),
            Pl::Poll { offsets } => self.do_poll(frame, offsets),
            Pl::CommitOffsets { offsets } => self.do_commit_offsets(frame, offsets),
            Pl::ListCommittedOffsets { keys } => self.do_list_committed_offsets(frame, keys),
            Pl::Txn { txn } => self.do_txn(frame, txn),
            Pl::BroadcastTxn { txns } => self.do_broadcast_txn(frame, txns),
            _ => none(),
        }
    }

    /// Takes one event, with `fresh` as the identifier to answer a
    /// `generate` with. An event that the node cannot take leaves it
    /// unchanged; from any other the next state and the messages to send
    /// follow.
    pub fn handle_with(&mut self, evt: Evt, fresh: String) -> (r: Result<Vec<Msg>, Fault>)
        requires
            old(self).wf(),
        ensures
            final(self).wf(),
            final(self)@.inv(),
            match r {
                Ok(out) => old(self)@.fault(evt.deep_view()) is None && (
                    final(self)@,
                    out.deep_view(),
                ) == old(self)@.step(evt.deep_view(), fresh@),
                Err(f) => old(self)@.fault(evt.deep_view()) == Some(f) && final(self)@ == old(
                    self,
                )@,
            },
            r is Ok ==> final(self)@.counter.value() == old(self)@.counter.value() + old(
                self,
            )@.counter_gain(evt.deep_view()),
    {
        match self.check(&evt) {
            Some(f) => {
                return Err(f);
            },
            None => {},
        }
        match evt {
            Evt::Int(task) => Ok(self.run(task)),
            Evt::Ext(msg) => {
                let resp = msg.into_resp(&mut self.msg_id);
                let (frame, pl) = resp.split();
                Ok(self.respond(frame, pl, fresh))
            },
        }
    }

    /// Takes one event. A `generate` is answered with a new identifier;
    /// no other event depends on one.
    pub fn handle(&mut self, evt: Evt) -> (r: Result<Vec<Msg>, Fault>)
        requires
            old(self).wf(),
        ensures
            final(self).wf(),
            final(self)@.inv(),
            r is Ok ==> final(self)@.counter.value() == old(self)@.counter.value() + old(
                self,
            )@.counter_gain(evt.deep_view()),
            match r {
                Ok(out) => old(self)@.fault(evt.deep_view()) is None && exists|fresh: Seq<char>|
                    #![trigger old(self)@.step(evt.deep_view(), fresh)]
                    (asks_identifier(evt.deep_view()) ==> is_hyphenated(fresh)) && (
                        final(self)@,
                        out.deep_view(),
                    ) == old(self)@.step(evt.deep_view(), fresh),
                Err(f) => old(self)@.fault(evt.deep_view()) == Some(f) && final(self)@ == old(
                    self,
                )@,
            },
    {
        let asks = match &evt {
            Evt::Ext(msg) => match &msg.body.pl {
                Pl::Generate => true,
                _ => false,
            },
            Evt::Int(_) => false,
        };
        let fresh = if asks {
            fresh_id()
        } else {
            String::new()
        };
        self.handle_with(evt, fresh)
    }
}

} // verus!
