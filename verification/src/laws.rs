//! What holds of every state of a node and of every event that it takes.

use crate::gossip::{lemma_after_round, lemma_round_messages, lemma_sent_in_round};
use crate::kvstore::txns_valid;
use crate::logstore::LogView;
use crate::message::{EvtView, FrameView, MsgView, PlView, SeqTxnView, Task};
use crate::model::NodeView;
use crate::valueset::{lemma_merged, merged, within};
use vstd::prelude::*;

verus! {

/// A payload that answers a request.
pub open spec fn is_answer(pl: PlView) -> bool {
    match pl {
        PlView::InitOk
        | PlView::EchoOk { .. }
        | PlView::GenerateOk { .. }
        | PlView::TopologyOk
        | PlView::BroadcastOk
        | PlView::ReadOk { .. }
        | PlView::GossipOk { .. }
        | PlView::AddOk
        | PlView::SendOk { .. }
        | PlView::PollOk { .. }
        | PlView::CommitOffsetsOk
        | PlView::ListCommittedOffsetsOk { .. }
        | PlView::TxnOk { .. } => true,
        _ => false,
    }
}

/// `a` is a beginning of `b`.
pub open spec fn begins(a: Seq<usize>, b: Seq<usize>) -> bool {
    a.len() <= b.len() && b.take(a.len() as int) == a
}

/// Every answer that a request brings forth goes from the receiver of
/// the request to its sender and names the number of the request.
pub proof fn law_answers_name_their_request(s: NodeView, req: MsgView, fresh: Seq<char>, i: int)
    requires
        s.fault(EvtView::Ext(req)) is None,
        0 <= i < s.step(EvtView::Ext(req), fresh).1.len(),
        is_answer(s.step(EvtView::Ext(req), fresh).1[i].body.pl),
    ensures
        req.answered_by(s.step(EvtView::Ext(req), fresh).1[i]),
{
}

/// Message numbers are handed out in order and never twice: the
/// messages that an event brings forth carry the node's next numbers,
/// one after the other, and afterwards the node's next number lies
/// beyond all of them.
pub proof fn law_messages_are_numbered_in_order(s: NodeView, evt: EvtView, fresh: Seq<char>, i: int)
    requires
        s.fault(evt) is None,
        0 <= i < s.step(evt, fresh).1.len(),
    ensures
        s.step(evt, fresh).1[i].body.msg_id == Some((s.msg_id + i) as usize),
        s.step(evt, fresh).0.msg_id >= s.msg_id + s.step(evt, fresh).1.len(),
{
    crate::neighborhood::lemma_neighbours_are_nodes(s.ids, s.id);
    match evt {
        EvtView::Int(Task::CentralGossip) => {
            lemma_round_messages(s.gossip, s.id, s.central(), s.msg_id as int);
            lemma_sent_in_round(s.gossip, s.central());
        },
        EvtView::Int(Task::MeshGossip) => {
            lemma_round_messages(s.gossip, s.id, s.mesh(), s.msg_id as int);
            lemma_sent_in_round(s.gossip, s.mesh());
        },
        _ => {},
    }
}

/// No event takes a message number back.
pub proof fn law_numbers_never_fall(s: NodeView, evt: EvtView, fresh: Seq<char>)
    requires
        s.fault(evt) is None,
    ensures
        s.step(evt, fresh).0.msg_id >= s.msg_id,
{
    match evt {
        EvtView::Int(Task::CentralGossip) => {
            lemma_sent_in_round(s.gossip, s.central());
        },
        EvtView::Int(Task::MeshGossip) => {
            lemma_sent_in_round(s.gossip, s.mesh());
        },
        _ => {},
    }
}

/// The values that a node holds never leave it: after any event the
/// list of before is the beginning of the list of after.
pub proof fn law_messages_only_grow(s: NodeView, evt: EvtView, fresh: Seq<char>)
    requires
        s.inv(),
        s.fault(evt) is None,
    ensures
        begins(s.gossip.messages, s.step(evt, fresh).0.gossip.messages),
        within(s.gossip.messages, s.step(evt, fresh).0.gossip.messages),
{
    let m = s.gossip.messages;
    assert(m.take(m.len() as int) =~= m);
    match evt {
        EvtView::Ext(req) => {
            match req.body.pl {
                PlView::Broadcast { msg } => {
                    lemma_merged(m, seq![msg]);
                },
                PlView::Gossip { msgs } => {
                    lemma_merged(m, msgs);
                },
                _ => {},
            }
        },
        EvtView::Int(Task::CentralGossip) => {
            lemma_after_round(s.gossip, s.central(), s.msg_id as int);
        },
        EvtView::Int(Task::MeshGossip) => {
            lemma_after_round(s.gossip, s.mesh(), s.msg_id as int);
        },
        _ => {},
    }
}

/// A value whose broadcast was acknowledged is held from then on: the
/// node holds it after the broadcast, and a read of any state that holds
/// what that state held reports it.
pub proof fn law_broadcast_is_read(
    s: NodeView,
    req: MsgView,
    msg: usize,
    later: NodeView,
    read: FrameView,
)
    requires
        req.body.pl == (PlView::Broadcast { msg }),
        s.fault(EvtView::Ext(req)) is None,
        within(s.step(EvtView::Ext(req), Seq::empty()).0.gossip.messages, later.gossip.messages),
    ensures
        s.step(EvtView::Ext(req), Seq::empty()).1[0].body.pl == PlView::BroadcastOk,
        s.step(EvtView::Ext(req), Seq::empty()).0.gossip.messages.contains(msg),
        later.on_read(read).1[0].body.pl matches PlView::ReadOk { msgs: Some(held), .. }
            && held.contains(msg),
{
    lemma_merged(s.gossip.messages, seq![msg]);
    assert(seq![msg].contains(msg));
}

/// What a read reports of the counter is the counter's value, and no
/// event lowers that value but the report of a peer that is lower than
/// the peer's report before.
pub proof fn law_counter_never_falls(s: NodeView, evt: EvtView, read: FrameView)
    requires
        s.with_counter,
        evt matches EvtView::Ext(req) ==> (req.body.pl matches PlView::GossipCntr { cntr }
            ==> cntr >= s.counter.peer(req.src)),
    ensures
        s.counter_gain(evt) >= 0,
        s.on_read(read).1[0].body.pl matches PlView::ReadOk { value: Some(v), .. } && v
            == s.counter.value() as usize,
{
}

/// Committing offsets lowers no committed offset.
pub proof fn lemma_commit_raises(l: LogView, offsets: Seq<(Seq<char>, usize)>, k: Seq<char>)
    requires
        l.committed.contains_key(k),
    ensures
        l.after_commit(offsets).committed.contains_key(k),
        l.after_commit(offsets).committed[k] >= l.committed[k],
        l.after_commit(offsets).logs == l.logs,
    decreases offsets.len(),
{
    if offsets.len() > 0 {
        lemma_commit_raises(l, offsets.drop_last(), k);
    }
}

/// Committing offsets changes no log.
pub proof fn lemma_commit_keeps_logs(l: LogView, offsets: Seq<(Seq<char>, usize)>)
    ensures
        l.after_commit(offsets).logs == l.logs,
    decreases offsets.len(),
{
    if offsets.len() > 0 {
        lemma_commit_keeps_logs(l, offsets.drop_last());
    }
}

/// No log gets shorter: after any event the log of each key is at
/// least as long as it was.
pub proof fn law_logs_never_shrink(s: NodeView, evt: EvtView, fresh: Seq<char>, k: Seq<char>)
    requires
        s.fault(evt) is None,
    ensures
        s.logs.log(k).len() <= s.step(evt, fresh).0.logs.log(k).len(),
{
    match evt {
        EvtView::Ext(req) => {
            match req.body.pl {
                PlView::CommitOffsets { offsets } => {
                    lemma_commit_keeps_logs(s.logs, offsets);
                },
                _ => {},
            }
        },
        _ => {},
    }
}

/// On the leader a send only appends: the log of before is the
/// beginning of the log of after.
pub proof fn law_leader_appends(s: NodeView, frame: FrameView, key: Seq<char>, msg: usize)
    requires
        s.is_leader(),
    ensures
        begins(s.logs.log(key), s.on_send(frame, key, msg).0.logs.log(key)),
{
    let log = s.logs.log(key);
    assert(log.take(log.len() as int) =~= log);
    assert(log.push(msg).take(log.len() as int) =~= log);
}

/// A replica holds the leader's log or lags behind it: when the
/// leader's log of a key arrives and is at least as long as the
/// replica's own, the replica holds it from then on.
pub proof fn law_replica_follows(s: NodeView, key: Seq<char>, msgs: Seq<usize>)
    requires
        s.logs.log(key).len() <= msgs.len(),
    ensures
        s.on_send_many(key, msgs).0.logs.log(key) == msgs,
{
}

/// No committed offset goes down: after any event each committed offset
/// is at least what it was.
pub proof fn law_committed_never_falls(s: NodeView, evt: EvtView, fresh: Seq<char>, k: Seq<char>)
    requires
        s.fault(evt) is None,
        s.logs.committed.contains_key(k),
    ensures
        s.step(evt, fresh).0.logs.committed.contains_key(k),
        s.step(evt, fresh).0.logs.committed[k] >= s.logs.committed[k],
{
    match evt {
        EvtView::Ext(req) => {
            match req.body.pl {
                PlView::CommitOffsets { offsets } => {
                    lemma_commit_raises(s.logs, offsets, k);
                },
                _ => {},
            }
        },
        _ => {},
    }
}

/// Two nodes that hold the same store and the same contributions to the
/// epoch that they flush hold the same store afterwards, and spread the
/// same transactions, whatever else they differ in.
pub proof fn law_flush_is_determined(a: NodeView, b: NodeView)
    requires
        a.kv == b.kv,
        a.flushes(),
        b.flushes(),
        a.buf.at(a.seq.cur_epoch) == b.buf.at(b.seq.cur_epoch),
    ensures
        a.on_phase_switch().0.kv == b.on_phase_switch().0.kv,
        a.buf.all(a.seq.cur_epoch) == b.buf.all(b.seq.cur_epoch),
{
}

/// The same send once more yields the same offset on the leader, as
/// long as the key's log is what the first send left, and leaves the
/// logs as they are.
pub proof fn law_send_again(
    s: NodeView,
    later: NodeView,
    first: FrameView,
    second: FrameView,
    key: Seq<char>,
    msg: usize,
)
    requires
        s.is_leader(),
        later.is_leader(),
        later.logs.log(key) == s.on_send(first, key, msg).0.logs.log(key),
        later.logs.logs.contains_key(key),
    ensures
        ({
            let once = s.on_send(first, key, msg);
            let again = later.on_send(second, key, msg);
            &&& once.1[0].body.pl matches PlView::SendOk { offset: o1 }
            &&& again.1[0].body.pl matches PlView::SendOk { offset: o2 }
            &&& o1 == o2
            &&& again.0.logs == later.logs
        }),
{
    let log = s.logs.log(key);
    if !log.contains(msg) {
        assert(log.push(msg)[log.len() as int] == msg);
    }
    assert(later.logs.log(key).contains(msg));
    assert(later.on_send(second, key, msg).0.logs.logs =~= later.logs.logs);
}

/// The same transactions from the same peer once more leave the buffer
/// and the store as the first left them, and so the store after the
/// flush.
pub proof fn law_broadcast_txn_again(
    s: NodeView,
    first: FrameView,
    second: FrameView,
    txns: Seq<SeqTxnView>,
)
    requires
        first.dst == second.dst,
    ensures
        ({
            let once = s.on_broadcast_txn(first, txns).0;
            let twice = once.on_broadcast_txn(second, txns).0;
            &&& twice.buf == once.buf
            &&& twice.kv == once.kv
            &&& twice.on_phase_switch().0.kv == once.on_phase_switch().0.kv
        }),
{
    let once = s.on_broadcast_txn(first, txns).0;
    let twice = once.on_broadcast_txn(second, txns).0;
    let e = s.seq.cur_epoch;
    assert(once.buf.at(e).insert(first.dst, txns) =~= once.buf.at(e));
    assert(twice.buf.buf =~= once.buf.buf);
}

/// The sequencer's clock never goes back: no event lowers the next
/// transaction number or the epoch.
pub proof fn law_clock_never_falls(s: NodeView, evt: EvtView, fresh: Seq<char>)
    requires
        s.fault(evt) is None,
    ensures
        s.step(evt, fresh).0.seq.txn_id >= s.seq.txn_id,
        s.step(evt, fresh).0.seq.cur_epoch >= s.seq.cur_epoch,
        evt == EvtView::Int(Task::SwitchPhase) ==> s.step(evt, fresh).0.seq.receiving
            != s.seq.receiving,
{
}

/// A node keeps its invariant: what holds of a node before an event
/// that it can take holds of it afterwards. In particular it never
/// claims of a peer, and never has in a digest that waits, a value that
/// it does not hold itself.
pub proof fn law_invariant_is_kept(s: NodeView, evt: EvtView, fresh: Seq<char>)
    requires
        s.inv(),
        s.fault(evt) is None,
    ensures
        s.step(evt, fresh).0.inv(),
{
    let t = s.step(evt, fresh).0;
    let g = s.gossip;
    match evt {
        EvtView::Ext(req) => {
            match req.body.pl {
                PlView::Broadcast { msg } => {
                    lemma_merged(g.messages, seq![msg]);
                },
                PlView::Gossip { msgs } => {
                    lemma_merged(g.messages, msgs);
                    lemma_merged(g.seen[req.src], msgs);
                    assert forall|k: Seq<char>| #[trigger]
                        t.gossip.seen.contains_key(k) implies within(
                        t.gossip.seen[k],
                        t.gossip.messages,
                    ) by {
                        assert(g.seen.contains_key(k));
                        assert(within(g.seen[k], g.messages));
                        assert forall|x: usize| t.gossip.seen[k].contains(x) implies merged(
                            g.messages,
                            msgs,
                        ).contains(x) by {
                            if k == req.src {
                                assert(g.seen[k].contains(x) || msgs.contains(x));
                            }
                        }
                    }
                    assert forall|i: usize| #[trigger]
                        t.gossip.pending.contains_key(i) implies within(
                        t.gossip.pending[i],
                        t.gossip.messages,
                    ) by {
                        assert(g.pending.contains_key(i));
                        assert(within(g.pending[i], g.messages));
                    }
                },
                PlView::GossipOk { id } => {
                    if g.pending.contains_key(id) {
                        lemma_merged(g.seen[req.src], g.pending[id]);
                    }
                },
                PlView::Txn { txn } => {
                    let epoch = s.seq.cur_epoch;
                    assert forall|e: usize, k: Seq<char>| #[trigger]
                        t.buf.at(e).contains_key(k) implies txns_valid(t.buf.at(e)[k]) by {
                        if e == epoch && k == s.id {
                            if s.buf.at(epoch).contains_key(s.id) {
                                assert(txns_valid(s.buf.at(epoch)[s.id]));
                            }
                        } else {
                            assert(s.buf.at(e).contains_key(k));
                        }
                    }
                },
                PlView::BroadcastTxn { txns } => {
                    let epoch = s.seq.cur_epoch;
                    assert forall|e: usize, k: Seq<char>| #[trigger]
                        t.buf.at(e).contains_key(k) implies txns_valid(t.buf.at(e)[k]) by {
                        if !(e == epoch && k == req.src) {
                            assert(s.buf.at(e).contains_key(k));
                        }
                    }
                },
                PlView::Init { node_id, node_ids } => {
                    assert forall|e: usize, k: Seq<char>| #[trigger]
                        t.buf.at(e).contains_key(k) implies txns_valid(t.buf.at(e)[k]) by {
                        assert(s.buf.at(e).contains_key(k));
                    }
                },
                _ => {},
            }
        },
        EvtView::Int(Task::CentralGossip) => {
            lemma_after_round(g, s.central(), s.msg_id as int);
        },
        EvtView::Int(Task::MeshGossip) => {
            lemma_after_round(g, s.mesh(), s.msg_id as int);
        },
        _ => {},
    }
}

} // verus!
