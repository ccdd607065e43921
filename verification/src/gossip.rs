//! Replication of the set of broadcast values: what this node holds,
//! what it knows each peer to hold, and the digests that wait for an
//! acknowledgement.

use crate::idmap::IdMap;
use crate::message::{unsolicited, Msg, MsgView, Pl, PlView};
use crate::valueset::{lemma_merged, merged, within, without, lemma_without, ValueSet};
use std::collections::HashMap;
use vstd::prelude::*;

verus! {

broadcast use vstd::std_specs::hash::group_hash_axioms;

/// Of each node of `ids`, nothing is known.
pub open spec fn nothing_seen(ids: Seq<Seq<char>>) -> Map<Seq<char>, Seq<usize>> {
    Map::new(|k: Seq<char>| ids.contains(k), |k: Seq<char>| Seq::<usize>::empty())
}

/// What the gossip state stands for.
pub ghost struct GossipView {
    /// The values that this node holds, in the order in which they came.
    pub messages: Seq<usize>,
    /// For each peer, values that the peer is known to hold.
    pub seen: Map<Seq<char>, Seq<usize>>,
    /// For each digest that waits for its acknowledgement, under the
    /// number of the message that carried it, its values.
    pub pending: Map<usize, Seq<usize>>,
}

impl GossipView {
    /// The node claims of no peer, and has sent in no digest, a value
    /// that it does not hold itself.
    pub open spec fn inv(self) -> bool {
        &&& self.messages.no_duplicates()
        &&& forall|k: Seq<char>| #[trigger]
            self.seen.contains_key(k) ==> within(self.seen[k], self.messages)
        &&& forall|i: usize| #[trigger]
            self.pending.contains_key(i) ==> within(self.pending[i], self.messages)
    }

    /// The values that peer `p` is not yet known to hold.
    pub open spec fn digest(self, p: Seq<char>) -> Seq<usize> {
        without(self.messages, self.seen[p])
    }

    /// The state after the node has taken in `msgs`.
    pub open spec fn learn(self, msgs: Seq<usize>) -> GossipView {
        GossipView { messages: merged(self.messages, msgs), ..self }
    }

    /// The state after peer `p` has shown that it holds `msgs`.
    pub open spec fn credit(self, p: Seq<char>, msgs: Seq<usize>) -> GossipView {
        GossipView { seen: self.seen.insert(p, merged(self.seen[p], msgs)), ..self }
    }

    /// The state after one round of gossip to `peers`, beginning with the
    /// message number `id`: each peer that lacks something is sent its
    /// digest, which then waits under the number of that message.
    pub open spec fn after_round(self, peers: Seq<Seq<char>>, id: int) -> GossipView
        decreases peers.len(),
    {
        if peers.len() == 0 {
            self
        } else {
            let before = self.after_round(peers.drop_last(), id);
            let digest = self.digest(peers.last());
            if digest.len() == 0 {
                before
            } else {
                GossipView {
                    pending: before.pending.insert(
                        (id + self.sent_in_round(peers.drop_last())) as usize,
                        digest,
                    ),
                    ..before
                }
            }
        }
    }

    /// The number of messages that one round of gossip to `peers` sends.
    pub open spec fn sent_in_round(self, peers: Seq<Seq<char>>) -> int
        decreases peers.len(),
    {
        if peers.len() == 0 {
            0
        } else {
            self.sent_in_round(peers.drop_last()) + (if self.digest(peers.last()).len() == 0 {
                0int
            } else {
                1int
            })
        }
    }

    /// The messages that one round of gossip from `src` to `peers` sends,
    /// numbered from `id`.
    pub open spec fn round_messages(self, src: Seq<char>, peers: Seq<Seq<char>>, id: int) -> Seq<
        MsgView,
    >
        decreases peers.len(),
    {
        if peers.len() == 0 {
            Seq::empty()
        } else {
            let before = self.round_messages(src, peers.drop_last(), id);
            let digest = self.digest(peers.last());
            if digest.len() == 0 {
                before
            } else {
                before.push(
                    unsolicited(
                        src,
                        peers.last(),
                        (id + self.sent_in_round(peers.drop_last())) as usize,
                        PlView::Gossip { msgs: digest },
                    ),
                )
            }
        }
    }
}

/// A round sends each peer at most one message.
pub proof fn lemma_sent_in_round(g: GossipView, peers: Seq<Seq<char>>)
    ensures
        0 <= g.sent_in_round(peers) <= peers.len(),
    decreases peers.len(),
{
    if peers.len() > 0 {
        lemma_sent_in_round(g, peers.drop_last());
    }
}

/// The messages of a round carry the numbers from `id` on, one after
/// the other, and are as many as the round is counted to send.
pub proof fn lemma_round_messages(g: GossipView, src: Seq<char>, peers: Seq<Seq<char>>, id: int)
    requires
        0 <= id,
        id + peers.len() <= usize::MAX,
    ensures
        g.round_messages(src, peers, id).len() == g.sent_in_round(peers),
        forall|k: int|
            0 <= k < g.round_messages(src, peers, id).len() ==> (#[trigger] g.round_messages(
                src,
                peers,
                id,
            )[k]).body.msg_id == Some((id + k) as usize),
    decreases peers.len(),
{
    if peers.len() > 0 {
        lemma_round_messages(g, src, peers.drop_last(), id);
        lemma_sent_in_round(g, peers.drop_last());
    }
}

/// A round of gossip changes neither what the node holds nor what it
/// knows of its peers; and what it sends, it holds.
pub proof fn lemma_after_round(g: GossipView, peers: Seq<Seq<char>>, id: int)
    requires
        g.inv(),
        0 <= id,
        id + peers.len() <= usize::MAX,
    ensures
        g.after_round(peers, id).messages == g.messages,
        g.after_round(peers, id).seen == g.seen,
        g.after_round(peers, id).inv(),
    decreases peers.len(),
{
    if peers.len() > 0 {
        lemma_after_round(g, peers.drop_last(), id);
        lemma_without(g.messages, g.seen[peers.last()]);
    }
}

/// The gossip state of a node.
pub struct Gossip {
    messages: ValueSet,
    seen: IdMap<ValueSet>,
    pending: HashMap<usize, Vec<usize>>,
}

impl View for Gossip {
    type V = GossipView;

    closed spec fn view(&self) -> GossipView {
        GossipView {
            messages: self.messages@,
            seen: Map::new(
                |k: Seq<char>| self.seen.map().contains_key(k),
                |k: Seq<char>| self.seen.map()[k]@,
            ),
            pending: Map::new(
                |i: usize| self.pending@.contains_key(i),
                |i: usize| self.pending@[i]@,
            ),
        }
    }
}

impl Gossip {
    /// The lists repeat nothing, and the state keeps its invariant.
    pub closed spec fn wf(&self) -> bool {
        &&& self.seen.wf()
        &&& forall|k: Seq<char>| #[trigger]
            self.seen.map().contains_key(k) ==> self.seen.map()[k].wf()
        &&& self@.inv()
    }

    /// A well-formed state keeps the invariant of its model.
    pub proof fn lemma_inv(&self)
        requires
            self.wf(),
        ensures
            self@.inv(),
    {
    }

    /// The state at start: nothing held, no peer known, nothing sent.
    pub fn new() -> (g: Self)
        ensures
            g.wf(),
            g@ == (GossipView {
                messages: Seq::empty(),
                seen: Map::empty(),
                pending: Map::empty(),
            }),
    {
        let g = Gossip { messages: ValueSet::new(), seen: IdMap::new(), pending: HashMap::new() };
        proof {
            assert(g@.seen =~= Map::empty());
            assert(g@.pending =~= Map::empty());
        }
        g
    }

    /// Starts anew what is known of the peers: of each node of `ids`,
    /// nothing.
    pub fn init(&mut self, ids: &Vec<String>)
        requires
            old(self).wf(),
        ensures
            final(self).wf(),
            final(self)@ == (GossipView { seen: nothing_seen(ids.deep_view()), ..old(self)@ }),
    {
        let mut seen: IdMap<ValueSet> = IdMap::new();
        let mut i: usize = 0;
        while i < ids.len()
            invariant
                i <= ids.len(),
                seen.wf(),
                forall|k: Seq<char>|
                    seen.map().contains_key(k) <==> ids.deep_view().take(i as int).contains(k),
                forall|k: Seq<char>| #[trigger]
                    seen.map().contains_key(k) ==> seen.map()[k]@ == Seq::<usize>::empty(),
            decreases ids.len() - i,
        {
            seen.put(ids[i].clone(), ValueSet::new());
            proof {
                let k0 = ids@[i as int]@;
                let next = ids.deep_view().take(i + 1);
                assert forall|k: Seq<char>| seen.map().contains_key(k) <==> next.contains(k) by {
                    assert(next[i as int] == k0);
                }
            }
            i += 1;
        }
        self.seen = seen;
        proof {
            assert(ids.deep_view().take(ids.len() as int) =~= ids.deep_view());
            assert(self@.seen =~= nothing_seen(ids.deep_view()));
        }
    }

    /// Whether something is known of peer `p`.
    pub fn knows(&self, p: &String) -> (r: bool)
        requires
            self.wf(),
        ensures
            r == self@.seen.contains_key(p@),
    {
        self.seen.contains_key(p)
    }

    /// Whether a digest waits for its acknowledgement under the number
    /// `id`.
    pub fn awaits(&self, id: usize) -> (r: bool)
        ensures
            r == self@.pending.contains_key(id),
    {
        self.pending.get(&id).is_some()
    }

    /// Takes in a value that a client broadcast.
    pub fn broadcast(&mut self, msg: usize)
        requires
            old(self).wf(),
        ensures
            final(self).wf(),
            final(self)@ == old(self)@.learn(seq![msg]),
    {
        proof {
            lemma_merged(self@.messages, seq![msg]);
        }
        self.messages.insert(msg);
        proof {
            assert(self@.seen =~= old(self)@.seen);
            assert(self@.pending =~= old(self)@.pending);
        }
    }

    /// The values that this node holds: none if there are none.
    pub fn read(&self) -> (r: Option<Vec<usize>>)
        ensures
            match r {
                Some(v) => v@ == self@.messages && v@.len() > 0,
                None => self@.messages.len() == 0,
            },
    {
        if self.messages.is_empty() {
            None
        } else {
            Some(self.messages.to_vec())
        }
    }

    /// Takes in the digest `msgs` that `sender` gossiped: the node now
    /// holds its values, and knows that the sender holds them. Of a
    /// sender that is no peer nothing is taken in.
    pub fn receive(&mut self, sender: &String, msgs: &Vec<usize>) -> (ok: bool)
        requires
            old(self).wf(),
        ensures
            final(self).wf(),
            ok == old(self)@.seen.contains_key(sender@),
            ok ==> final(self)@ == old(self)@.learn(msgs@).credit(sender@, msgs@),
            !ok ==> final(self)@ == old(self)@,
    {
        match self.seen.remove(sender) {
            None => {
                proof {
                    assert(self.seen.map() =~= old(self).seen.map());
                }
                false
            },
            Some(mut known) => {
                let ghost g0 = old(self)@;
                proof {
                    lemma_merged(g0.messages, msgs@);
                    lemma_merged(known@, msgs@);
                }
                self.messages.extend(msgs);
                known.extend(msgs);
                self.seen.put(sender.clone(), known);
                proof {
                    let want = g0.learn(msgs@).credit(sender@, msgs@);
                    assert(self@.seen =~= want.seen);
                    assert forall|k: Seq<char>| #[trigger]
                        self@.seen.contains_key(k) implies within(self@.seen[k], self@.messages) by {
                        if k != sender@ {
                            assert(g0.seen.contains_key(k));
                        }
                    }
                }
                true
            },
        }
    }

    /// Settles the digest that went out under the number `id`, on the
    /// acknowledgement of `sender`: the sender is now known to hold its
    /// values. Where no digest waits under `id`, nothing changes. Of a
    /// sender that is no peer nothing is settled.
    pub fn ack(&mut self, sender: &String, id: usize) -> (ok: bool)
        requires
            old(self).wf(),
        ensures
            final(self).wf(),
            ok == (old(self)@.pending.contains_key(id) ==> old(self)@.seen.contains_key(sender@)),
            ok && old(self)@.pending.contains_key(id) ==> final(self)@ == (GossipView {
                pending: old(self)@.pending.remove(id),
                ..old(self)@.credit(sender@, old(self)@.pending[id])
            }),
            !(ok && old(self)@.pending.contains_key(id)) ==> final(self)@ == old(self)@,
    {
        let ghost g0 = old(self)@;
        if self.pending.get(&id).is_none() {
            return true;
        }
        if !self.seen.contains_key(sender) {
            return false;
        }
        let digest = match self.pending.remove(&id) {
            Some(d) => d,
            None => Vec::new(),
        };
        let mut known = match self.seen.remove(sender) {
            Some(k) => k,
            None => ValueSet::new(),
        };
        proof {
            lemma_merged(known@, digest@);
        }
        known.extend(&digest);
        self.seen.put(sender.clone(), known);
        proof {
            let want = GossipView {
                pending: g0.pending.remove(id),
                ..g0.credit(sender@, g0.pending[id])
            };
            assert(self@.seen =~= want.seen);
            assert(self@.pending =~= want.pending);
        }
        true
    }

    /// One round of gossip from `src` to `peers`: each peer that is not
    /// known to hold everything is sent what it lacks, under the next
    /// number from `id`, and that digest waits for its acknowledgement.
    pub fn round(&mut self, src: &String, peers: &Vec<String>, id: &mut usize) -> (out: Vec<Msg>)
        requires
            old(self).wf(),
            forall|i: int|
                0 <= i < peers.len() ==> old(self)@.seen.contains_key(
                    #[trigger] peers.deep_view()[i],
                ),
            *old(id) + peers.len() <= usize::MAX,
        ensures
            final(self).wf(),
            final(self)@ == old(self)@.after_round(peers.deep_view(), *old(id) as int),
            out.deep_view() == old(self)@.round_messages(
                src@,
                peers.deep_view(),
                *old(id) as int,
            ),
            *final(id) == *old(id) + old(self)@.sent_in_round(peers.deep_view()),
    {
        let ghost g0 = old(self)@;
        let ghost ps = peers.deep_view();
        let ghost id0 = *old(id) as int;
        let mut out: Vec<Msg> = Vec::new();
        let mut i: usize = 0;
        while i < peers.len()
            invariant
                i <= peers.len(),
                self.wf(),
                g0 == old(self)@,
                g0.inv(),
                ps == peers.deep_view(),
                id0 == *old(id) as int,
                id0 + peers.len() <= usize::MAX,
                forall|j: int| 0 <= j < ps.len() ==> g0.seen.contains_key(#[trigger] ps[j]),
                self@ == g0.after_round(ps.take(i as int), id0),
                out.deep_view() == g0.round_messages(src@, ps.take(i as int), id0),
                *id == id0 + g0.sent_in_round(ps.take(i as int)),
                0 <= g0.sent_in_round(ps.take(i as int)) <= i,
            decreases peers.len() - i,
        {
            let ghost p = ps[i as int];
            proof {
                assert(ps.take(i + 1).drop_last() =~= ps.take(i as int));
                lemma_after_round(g0, ps.take(i as int), id0);
                lemma_without(g0.messages, g0.seen[p]);
            }
            let digest = match self.seen.get(&peers[i]) {
                Some(known) => self.messages.minus(known),
                None => Vec::new(),
            };
            if digest.len() > 0 {
                let number = *id;
                let msg = Msg::fresh(
                    src.clone(),
                    peers[i].clone(),
                    Pl::Gossip { msgs: digest.clone() },
                    id,
                );
                self.pending.insert(number, digest);
                out.push(msg);
                proof {
                    let want = g0.after_round(ps.take(i + 1), id0);
                    assert(self@.pending =~= want.pending);
                }
            }
            i += 1;
        }
        proof {
            assert(ps.take(peers.len() as int) =~= ps);
        }
        out
    }
}

} // verus!
