//! Messages: the envelope, the body and the payloads, with the
//! mathematical value that each of them stands for.

use vstd::prelude::*;

verus! {

/// One operation of a transaction: `'r'` or `'w'`, the key, and the value
/// written or read.
pub type TxnOp = (char, usize, Option<usize>);

/// A transaction with the number its node of origin gave it.
#[derive(Debug, Clone, PartialEq, Eq)]
pub struct SeqTxn {
    pub seq: usize,
    pub txn: Vec<TxnOp>,
}

/// What a `SeqTxn` stands for.
pub ghost struct SeqTxnView {
    pub seq: usize,
    pub txn: Seq<TxnOp>,
}

impl DeepView for SeqTxn {
    type V = SeqTxnView;

    open spec fn deep_view(&self) -> SeqTxnView {
        SeqTxnView { seq: self.seq, txn: self.txn@ }
    }
}

/// The payload of a message, one variant for each `type` of the protocol.
#[derive(Debug, Clone, PartialEq, Eq)]
#[allow(inconsistent_fields)]
pub enum Pl {
    Txn { txn: Vec<TxnOp> },
    TxnOk { txn: Vec<TxnOp> },
    BroadcastTxn { txns: Vec<SeqTxn> },
    Error { code: usize, text: String },
    Init { node_id: String, node_ids: Vec<String> },
    InitOk,
    Echo { echo: String },
    EchoOk { echo: String },
    Generate,
    GenerateOk { id: String },
    Broadcast { msg: usize },
    BroadcastOk,
    Read,
    ReadOk { msgs: Option<Vec<usize>>, value: Option<usize> },
    Topology { topology: Vec<(String, Vec<String>)> },
    TopologyOk,
    Gossip { msgs: Vec<usize> },
    GossipOk { id: usize },
    GossipCntr { cntr: usize },
    Add { delta: usize },
    AddOk,
    Send { key: String, msg: usize },
    SendMany { key: String, msgs: Vec<usize> },
    SendOk { offset: usize },
    Poll { offsets: Vec<(String, usize)> },
    PollOk { msgs: Vec<(String, Vec<(usize, usize)>)> },
    CommitOffsets { offsets: Vec<(String, usize)> },
    CommitOffsetsOk,
    ListCommittedOffsets { keys: Vec<String> },
    ListCommittedOffsetsOk { offsets: Vec<(String, usize)> },
}

/// What a payload stands for: text as its characters, lists as sequences.
#[allow(inconsistent_fields)]
pub ghost enum PlView {
    Txn { txn: Seq<TxnOp> },
    TxnOk { txn: Seq<TxnOp> },
    BroadcastTxn { txns: Seq<SeqTxnView> },
    Error { code: usize, text: Seq<char> },
    Init { node_id: Seq<char>, node_ids: Seq<Seq<char>> },
    InitOk,
    Echo { echo: Seq<char> },
    EchoOk { echo: Seq<char> },
    Generate,
    GenerateOk { id: Seq<char> },
    Broadcast { msg: usize },
    BroadcastOk,
    Read,
    ReadOk { msgs: Option<Seq<usize>>, value: Option<usize> },
    Topology { topology: Seq<(Seq<char>, Seq<Seq<char>>)> },
    TopologyOk,
    Gossip { msgs: Seq<usize> },
    GossipOk { id: usize },
    GossipCntr { cntr: usize },
    Add { delta: usize },
    AddOk,
    Send { key: Seq<char>, msg: usize },
    SendMany { key: Seq<char>, msgs: Seq<usize> },
    SendOk { offset: usize },
    Poll { offsets: Seq<(Seq<char>, usize)> },
    PollOk { msgs: Seq<(Seq<char>, Seq<(usize, usize)>)> },
    CommitOffsets { offsets: Seq<(Seq<char>, usize)> },
    CommitOffsetsOk,
    ListCommittedOffsets { keys: Seq<Seq<char>> },
    ListCommittedOffsetsOk { offsets: Seq<(Seq<char>, usize)> },
}

/// The message lists of a `poll_ok`, key by key.
pub open spec fn polled_view(v: Seq<(String, Vec<(usize, usize)>)>) -> Seq<
    (Seq<char>, Seq<(usize, usize)>),
> {
    Seq::new(v.len(), |i: int| (v[i].0@, v[i].1@))
}

impl DeepView for Pl {
    type V = PlView;

    open spec fn deep_view(&self) -> PlView {
        match *self {
            Pl::Txn { txn } => PlView::Txn { txn: txn@ },
            Pl::TxnOk { txn } => PlView::TxnOk { txn: txn@ },
            Pl::BroadcastTxn { txns } => PlView::BroadcastTxn { txns: txns.deep_view() },
            Pl::Error { code, text } => PlView::Error { code, text: text@ },
            Pl::Init { node_id, node_ids } => PlView::Init {
                node_id: node_id@,
                node_ids: node_ids.deep_view(),
            },
            Pl::InitOk => PlView::InitOk,
            Pl::Echo { echo } => PlView::Echo { echo: echo@ },
            Pl::EchoOk { echo } => PlView::EchoOk { echo: echo@ },
            Pl::Generate => PlView::Generate,
            Pl::GenerateOk { id } => PlView::GenerateOk { id: id@ },
            Pl::Broadcast { msg } => PlView::Broadcast { msg },
            Pl::BroadcastOk => PlView::BroadcastOk,
            Pl::Read => PlView::Read,
            Pl::ReadOk { msgs, value } => PlView::ReadOk {
                msgs: match msgs {
                    Some(m) => Some(m@),
                    None => None,
                },
                value,
            },
            Pl::Topology { topology } => PlView::Topology { topology: topology.deep_view() },
            Pl::TopologyOk => PlView::TopologyOk,
            Pl::Gossip { msgs } => PlView::Gossip { msgs: msgs@ },
            Pl::GossipOk { id } => PlView::GossipOk { id },
            Pl::GossipCntr { cntr } => PlView::GossipCntr { cntr },
            Pl::Add { delta } => PlView::Add { delta },
            Pl::AddOk => PlView::AddOk,
            Pl::Send { key, msg } => PlView::Send { key: key@, msg },
            Pl::SendMany { key, msgs } => PlView::SendMany { key: key@, msgs: msgs@ },
            Pl::SendOk { offset } => PlView::SendOk { offset },
            Pl::Poll { offsets } => PlView::Poll { offsets: offsets.deep_view() },
            Pl::PollOk { msgs } => PlView::PollOk { msgs: polled_view(msgs@) },
            Pl::CommitOffsets { offsets } => PlView::CommitOffsets {
                offsets: offsets.deep_view(),
            },
            Pl::CommitOffsetsOk => PlView::CommitOffsetsOk,
            Pl::ListCommittedOffsets { keys } => PlView::ListCommittedOffsets {
                keys: keys.deep_view(),
            },
            Pl::ListCommittedOffsetsOk { offsets } => PlView::ListCommittedOffsetsOk {
                offsets: offsets.deep_view(),
            },
        }
    }
}

/// The body of a message: its payload, the number its sender gave it, and
/// the number of the message that it answers.
#[derive(Debug, Clone, PartialEq, Eq)]
pub struct Body {
    pub pl: Pl,
    pub msg_id: Option<usize>,
    pub in_reply_to: Option<usize>,
}

/// What a body stands for.
pub ghost struct BodyView {
    pub pl: PlView,
    pub msg_id: Option<usize>,
    pub in_reply_to: Option<usize>,
}

impl DeepView for Body {
    type V = BodyView;

    open spec fn deep_view(&self) -> BodyView {
        BodyView { pl: self.pl.deep_view(), msg_id: self.msg_id, in_reply_to: self.in_reply_to }
    }
}

/// A message from `src` to `dst`.
#[derive(Debug, Clone, PartialEq, Eq)]
pub struct Msg {
    pub src: String,
    pub dst: String,
    pub body: Body,
}

/// What a message stands for.
pub ghost struct MsgView {
    pub src: Seq<char>,
    pub dst: Seq<char>,
    pub body: BodyView,
}

impl DeepView for Msg {
    type V = MsgView;

    open spec fn deep_view(&self) -> MsgView {
        MsgView { src: self.src@, dst: self.dst@, body: self.body.deep_view() }
    }
}

/// A message without its payload.
#[derive(Debug)]
pub struct Frame {
    pub src: String,
    pub dst: String,
    pub msg_id: Option<usize>,
    pub in_reply_to: Option<usize>,
}

/// What a frame stands for.
pub ghost struct FrameView {
    pub src: Seq<char>,
    pub dst: Seq<char>,
    pub msg_id: Option<usize>,
    pub in_reply_to: Option<usize>,
}

impl DeepView for Frame {
    type V = FrameView;

    open spec fn deep_view(&self) -> FrameView {
        FrameView {
            src: self.src@,
            dst: self.dst@,
            msg_id: self.msg_id,
            in_reply_to: self.in_reply_to,
        }
    }
}

impl FrameView {
    /// The message that this frame makes with the payload `pl`.
    pub open spec fn carrying(self, pl: PlView) -> MsgView {
        MsgView {
            src: self.src,
            dst: self.dst,
            body: BodyView { pl, msg_id: self.msg_id, in_reply_to: self.in_reply_to },
        }
    }

    /// This frame, addressed to `dst` instead.
    pub open spec fn redirected(self, dst: Seq<char>) -> FrameView {
        FrameView { dst, ..self }
    }
}

impl Frame {
    /// The message that this frame makes with the payload `pl`.
    pub fn carrying(self, pl: Pl) -> (msg: Msg)
        ensures
            msg.deep_view() == self.deep_view().carrying(pl.deep_view()),
    {
        Msg {
            src: self.src,
            dst: self.dst,
            body: Body { pl, msg_id: self.msg_id, in_reply_to: self.in_reply_to },
        }
    }
}

/// A periodic task of the node.
#[derive(Debug, Clone, Copy, PartialEq, Eq, Structural)]
pub enum Task {
    CentralGossip,
    MeshGossip,
    GossipCntr,
    SwitchPhase,
}

/// What the node is woken by: a message from outside, or a timer.
#[derive(Debug)]
pub enum Evt {
    Ext(Msg),
    Int(Task),
}

/// What an event stands for.
pub ghost enum EvtView {
    Ext(MsgView),
    Int(Task),
}

impl DeepView for Evt {
    type V = EvtView;

    open spec fn deep_view(&self) -> EvtView {
        match *self {
            Evt::Ext(msg) => EvtView::Ext(msg.deep_view()),
            Evt::Int(task) => EvtView::Int(task),
        }
    }
}

impl PlView {
    /// A payload that a node acts on. The others, answers and reports of
    /// errors, it passes over.
    pub open spec fn is_request(self) -> bool {
        match self {
            PlView::Txn { .. }
            | PlView::BroadcastTxn { .. }
            | PlView::Init { .. }
            | PlView::Echo { .. }
            | PlView::Generate
            | PlView::Broadcast { .. }
            | PlView::Read
            | PlView::Topology { .. }
            | PlView::Gossip { .. }
            | PlView::GossipOk { .. }
            | PlView::GossipCntr { .. }
            | PlView::Add { .. }
            | PlView::Send { .. }
            | PlView::SendMany { .. }
            | PlView::Poll { .. }
            | PlView::CommitOffsets { .. }
            | PlView::ListCommittedOffsets { .. } => true,
            _ => false,
        }
    }
}

impl MsgView {
    /// The frame of the answer to this message that carries the number
    /// `msg_id`.
    pub open spec fn answer_frame(self, msg_id: usize) -> FrameView {
        FrameView {
            src: self.dst,
            dst: self.src,
            msg_id: Some(msg_id),
            in_reply_to: self.body.msg_id,
        }
    }

    /// The answer to this message that carries the number `msg_id` and the
    /// payload `pl`: sender and receiver change places, and the answer
    /// names the number of the message it answers.
    pub open spec fn answer(self, msg_id: usize, pl: PlView) -> MsgView {
        MsgView {
            src: self.dst,
            dst: self.src,
            body: BodyView { pl, msg_id: Some(msg_id), in_reply_to: self.body.msg_id },
        }
    }

    /// Whether `reply` answers this message.
    pub open spec fn answered_by(self, reply: MsgView) -> bool {
        &&& reply.src == self.dst
        &&& reply.dst == self.src
        &&& reply.body.in_reply_to == self.body.msg_id
    }
}

/// The message that a node sends of its own accord: numbered, and an
/// answer to nothing.
pub open spec fn unsolicited(src: Seq<char>, dst: Seq<char>, msg_id: usize, pl: PlView) -> MsgView {
    MsgView { src, dst, body: BodyView { pl, msg_id: Some(msg_id), in_reply_to: None } }
}

/// The messages with payload `pl` that `src` sends to each of `peers` of
/// its own accord, numbered from `id` in the order of `peers`.
pub open spec fn fanned(src: Seq<char>, peers: Seq<Seq<char>>, id: int, pl: PlView) -> Seq<
    MsgView,
> {
    Seq::new(peers.len(), |i: int| unsolicited(src, peers[i], (id + i) as usize, pl))
}

/// A copy of a list of operations.
pub fn copy_ops(ops: &Vec<TxnOp>) -> (out: Vec<TxnOp>)
    ensures
        out@ == ops@,
{
    let mut out: Vec<TxnOp> = Vec::new();
    let mut i: usize = 0;
    while i < ops.len()
        invariant
            i <= ops.len(),
            out@ == ops@.take(i as int),
        decreases ops.len() - i,
    {
        out.push(ops[i]);
        i += 1;
    }
    out
}

/// A copy of a list of identifiers.
pub fn copy_ids(ids: &Vec<String>) -> (out: Vec<String>)
    ensures
        out.deep_view() == ids.deep_view(),
{
    let mut out: Vec<String> = Vec::new();
    let mut i: usize = 0;
    while i < ids.len()
        invariant
            i <= ids.len(),
            out.len() == i,
            forall|j: int| 0 <= j < i ==> out@[j]@ == ids@[j]@,
        decreases ids.len() - i,
    {
        out.push(ids[i].clone());
        i += 1;
    }
    out
}

/// A copy of a list of keys with their offsets.
pub fn copy_offsets(offsets: &Vec<(String, usize)>) -> (out: Vec<(String, usize)>)
    ensures
        out.deep_view() == offsets.deep_view(),
{
    let mut out: Vec<(String, usize)> = Vec::new();
    let mut i: usize = 0;
    while i < offsets.len()
        invariant
            i <= offsets.len(),
            out.len() == i,
            forall|j: int| 0 <= j < i ==> out@[j].deep_view() == offsets@[j].deep_view(),
        decreases offsets.len() - i,
    {
        out.push((offsets[i].0.clone(), offsets[i].1));
        i += 1;
    }
    out
}

/// A copy of a topology.
pub fn copy_topology(topology: &Vec<(String, Vec<String>)>) -> (out: Vec<(String, Vec<String>)>)
    ensures
        out.deep_view() == topology.deep_view(),
{
    let mut out: Vec<(String, Vec<String>)> = Vec::new();
    let mut i: usize = 0;
    while i < topology.len()
        invariant
            i <= topology.len(),
            out.len() == i,
            forall|j: int| 0 <= j < i ==> out@[j].deep_view() == topology@[j].deep_view(),
        decreases topology.len() - i,
    {
        out.push((topology[i].0.clone(), copy_ids(&topology[i].1)));
        i += 1;
    }
    out
}

/// A copy of a list of messages with their offsets.
pub fn copy_pairs(pairs: &Vec<(usize, usize)>) -> (out: Vec<(usize, usize)>)
    ensures
        out@ == pairs@,
{
    let mut out: Vec<(usize, usize)> = Vec::new();
    let mut i: usize = 0;
    while i < pairs.len()
        invariant
            i <= pairs.len(),
            out@ == pairs@.take(i as int),
        decreases pairs.len() - i,
    {
        out.push(pairs[i]);
        i += 1;
    }
    out
}

/// A copy of the message lists of a `poll_ok`.
pub fn copy_polled(msgs: &Vec<(String, Vec<(usize, usize)>)>) -> (out: Vec<
    (String, Vec<(usize, usize)>),
>)
    ensures
        polled_view(out@) == polled_view(msgs@),
{
    let mut out: Vec<(String, Vec<(usize, usize)>)> = Vec::new();
    let mut i: usize = 0;
    while i < msgs.len()
        invariant
            i <= msgs.len(),
            out.len() == i,
            forall|j: int|
                0 <= j < i ==> out@[j].0@ == msgs@[j].0@ && out@[j].1@ == msgs@[j].1@,
        decreases msgs.len() - i,
    {
        out.push((msgs[i].0.clone(), copy_pairs(&msgs[i].1)));
        i += 1;
    }
    out
}

/// A copy of a list of transactions.
pub fn copy_txns(txns: &Vec<SeqTxn>) -> (out: Vec<SeqTxn>)
    ensures
        out.deep_view() == txns.deep_view(),
{
    let mut out: Vec<SeqTxn> = Vec::new();
    let mut i: usize = 0;
    while i < txns.len()
        invariant
            i <= txns.len(),
            out.len() == i,
            forall|j: int| 0 <= j < i ==> out@[j].deep_view() == txns@[j].deep_view(),
        decreases txns.len() - i,
    {
        out.push(txns[i].duplicate());
        i += 1;
    }
    out
}

impl SeqTxn {
    /// A copy of the transaction.
    pub fn duplicate(&self) -> (t: SeqTxn)
        ensures
            t.deep_view() == self.deep_view(),
    {
        SeqTxn { seq: self.seq, txn: copy_ops(&self.txn) }
    }
}

impl Pl {
    /// A copy of the payload.
    pub fn duplicate(&self) -> (pl: Pl)
        ensures
            pl.deep_view() == self.deep_view(),
    {
        match self {
            Pl::Txn { txn } => Pl::Txn { txn: copy_ops(txn) },
            Pl::TxnOk { txn } => Pl::TxnOk { txn: copy_ops(txn) },
            Pl::BroadcastTxn { txns } => Pl::BroadcastTxn { txns: copy_txns(txns) },
            Pl::Error { code, text } => Pl::Error { code: *code, text: text.clone() },
            Pl::Init { node_id, node_ids } => Pl::Init {
                node_id: node_id.clone(),
                node_ids: copy_ids(node_ids),
            },
            Pl::InitOk => Pl::InitOk,
            Pl::Echo { echo } => Pl::Echo { echo: echo.clone() },
            Pl::EchoOk { echo } => Pl::EchoOk { echo: echo.clone() },
            Pl::Generate => Pl::Generate,
            Pl::GenerateOk { id } => Pl::GenerateOk { id: id.clone() },
            Pl::Broadcast { msg } => Pl::Broadcast { msg: *msg },
            Pl::BroadcastOk => Pl::BroadcastOk,
            Pl::Read => Pl::Read,
            Pl::ReadOk { msgs, value } => Pl::ReadOk {
                msgs: match msgs {
                    Some(m) => Some(m.clone()),
                    None => None,
                },
                value: *value,
            },
            Pl::Topology { topology } => Pl::Topology { topology: copy_topology(topology) },
            Pl::TopologyOk => Pl::TopologyOk,
            Pl::Gossip { msgs } => Pl::Gossip { msgs: msgs.clone() },
            Pl::GossipOk { id } => Pl::GossipOk { id: *id },
            Pl::GossipCntr { cntr } => Pl::GossipCntr { cntr: *cntr },
            Pl::Add { delta } => Pl::Add { delta: *delta },
            Pl::AddOk => Pl::AddOk,
            Pl::Send { key, msg } => Pl::Send { key: key.clone(), msg: *msg },
            Pl::SendMany { key, msgs } => Pl::SendMany { key: key.clone(), msgs: msgs.clone() },
            Pl::SendOk { offset } => Pl::SendOk { offset: *offset },
            Pl::Poll { offsets } => Pl::Poll { offsets: copy_offsets(offsets) },
            Pl::PollOk { msgs } => Pl::PollOk { msgs: copy_polled(msgs) },
            Pl::CommitOffsets { offsets } => Pl::CommitOffsets { offsets: copy_offsets(offsets) },
            Pl::CommitOffsetsOk => Pl::CommitOffsetsOk,
            Pl::ListCommittedOffsets { keys } => Pl::ListCommittedOffsets { keys: copy_ids(keys) },
            Pl::ListCommittedOffsetsOk { offsets } => Pl::ListCommittedOffsetsOk {
                offsets: copy_offsets(offsets),
            },
        }
    }
}

/// One message with a copy of `pl` from `src` to each of `peers`, each
/// numbered from `id`.
pub fn fan_out(src: &String, peers: &Vec<String>, pl: &Pl, id: &mut usize) -> (out: Vec<Msg>)
    requires
        *old(id) + peers.len() <= usize::MAX,
    ensures
        *final(id) == *old(id) + peers.len(),
        out.deep_view() == fanned(src@, peers.deep_view(), *old(id) as int, pl.deep_view()),
{
    let mut out: Vec<Msg> = Vec::new();
    let mut i: usize = 0;
    while i < peers.len()
        invariant
            i <= peers.len(),
            *old(id) + peers.len() <= usize::MAX,
            *id == *old(id) + i,
            out.len() == i,
            forall|j: int|
                0 <= j < i ==> (#[trigger] out@[j]).deep_view() == unsolicited(
                    src@,
                    peers@[j]@,
                    (*old(id) + j) as usize,
                    pl.deep_view(),
                ),
        decreases peers.len() - i,
    {
        let msg = Msg::fresh(src.clone(), peers[i].clone(), pl.duplicate(), id);
        out.push(msg);
        i += 1;
    }
    proof {
        assert(out.deep_view() =~= fanned(
            src@,
            peers.deep_view(),
            *old(id) as int,
            pl.deep_view(),
        ));
    }
    out
}

impl Msg {
    /// Turns a request into the frame of its answer: sender and receiver
    /// change places, the answer takes the next number from `id`, and
    /// names the request's number. The payload is still the request's.
    pub fn into_resp(self, id: &mut usize) -> (resp: Msg)
        requires
            *old(id) < usize::MAX,
        ensures
            *final(id) == *old(id) + 1,
            resp.deep_view() == self.deep_view().answer(*old(id), self.body.pl.deep_view()),
            self.deep_view().answered_by(resp.deep_view()),
    {
        let msg_id = *id;
        *id += 1;
        Msg {
            src: self.dst,
            dst: self.src,
            body: Body { pl: self.body.pl, msg_id: Some(msg_id), in_reply_to: self.body.msg_id },
        }
    }

    /// The message as its frame and its payload.
    pub fn split(self) -> (parts: (Frame, Pl))
        ensures
            parts.0.deep_view().carrying(parts.1.deep_view()) == self.deep_view(),
            parts.0.deep_view() == (FrameView {
                src: self.src@,
                dst: self.dst@,
                msg_id: self.body.msg_id,
                in_reply_to: self.body.in_reply_to,
            }),
            parts.1.deep_view() == self.body.pl.deep_view(),
    {
        let Msg { src, dst, body } = self;
        let Body { pl, msg_id, in_reply_to } = body;
        (Frame { src, dst, msg_id, in_reply_to }, pl)
    }

    /// The message with payload `pl` that `src` sends to `dst` of its own
    /// accord, numbered from `id`.
    pub fn fresh(src: String, dst: String, pl: Pl, id: &mut usize) -> (msg: Msg)
        requires
            *old(id) < usize::MAX,
        ensures
            *final(id) == *old(id) + 1,
            msg.deep_view() == unsolicited(src@, dst@, *old(id), pl.deep_view()),
    {
        let msg_id = *id;
        *id += 1;
        Msg { src, dst, body: Body { pl, msg_id: Some(msg_id), in_reply_to: None } }
    }
}

} // verus!
