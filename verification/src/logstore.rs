//! The replicated log: for each key the list of its messages, where the
//! place of a message is its offset, and the highest offset committed.

use crate::idmap::IdMap;
use vstd::prelude::*;

verus! {

/// The log with `msg` behind it, unless it holds `msg` already.
pub open spec fn appended(log: Seq<usize>, msg: usize) -> Seq<usize> {
    if log.contains(msg) {
        log
    } else {
        log.push(msg)
    }
}

/// The messages of `log` from the offset `off` on, each with its offset.
pub open spec fn from_offset(log: Seq<usize>, off: usize) -> Seq<(usize, usize)> {
    if off >= log.len() {
        Seq::empty()
    } else {
        Seq::new((log.len() - off) as nat, |j: int| ((off + j) as usize, log[off + j]))
    }
}

/// The greater of two offsets.
pub open spec fn later(a: usize, b: usize) -> usize {
    if a >= b {
        a
    } else {
        b
    }
}

/// What the log store stands for.
pub ghost struct LogView {
    /// The messages of each key, in the order of their offsets.
    pub logs: Map<Seq<char>, Seq<usize>>,
    /// The highest committed offset of each key.
    pub committed: Map<Seq<char>, usize>,
}

impl LogView {
    /// The messages of key `k`: none, if the key is not known.
    pub open spec fn log(self, k: Seq<char>) -> Seq<usize> {
        if self.logs.contains_key(k) {
            self.logs[k]
        } else {
            Seq::empty()
        }
    }

    /// The store after `msg` was sent to key `k`.
    pub open spec fn after_send(self, k: Seq<char>, msg: usize) -> LogView {
        LogView { logs: self.logs.insert(k, appended(self.log(k), msg)), ..self }
    }

    /// Whether a replica takes `msgs` as the log of key `k`: it does,
    /// unless its own log of that key is longer.
    pub open spec fn adopts(self, k: Seq<char>, msgs: Seq<usize>) -> bool {
        !(self.logs.contains_key(k) && self.logs[k].len() > msgs.len())
    }

    /// The store after the leader's log `msgs` of key `k` arrived.
    pub open spec fn after_send_many(self, k: Seq<char>, msgs: Seq<usize>) -> LogView {
        if self.adopts(k, msgs) {
            LogView { logs: self.logs.insert(k, msgs), ..self }
        } else {
            self
        }
    }

    /// What a poll of `offsets` returns: for each pair whose key is
    /// known, in the order of the pairs, the messages of that key from
    /// the pair's offset on.
    pub open spec fn polled(self, offsets: Seq<(Seq<char>, usize)>) -> Seq<
        (Seq<char>, Seq<(usize, usize)>),
    >
        decreases offsets.len(),
    {
        if offsets.len() == 0 {
            Seq::empty()
        } else {
            let before = self.polled(offsets.drop_last());
            let (k, off) = offsets.last();
            if self.logs.contains_key(k) {
                before.push((k, from_offset(self.logs[k], off)))
            } else {
                before
            }
        }
    }

    /// The committed offset of key `k` after `off` was committed for it.
    pub open spec fn raised(self, k: Seq<char>, off: usize) -> usize {
        if self.committed.contains_key(k) {
            later(self.committed[k], off)
        } else {
            off
        }
    }

    /// The store after the offsets of `offsets` were committed, pair by
    /// pair: no committed offset goes down.
    pub open spec fn after_commit(self, offsets: Seq<(Seq<char>, usize)>) -> LogView
        decreases offsets.len(),
    {
        if offsets.len() == 0 {
            self
        } else {
            let before = self.after_commit(offsets.drop_last());
            let (k, off) = offsets.last();
            LogView { committed: before.committed.insert(k, before.raised(k, off)), ..before }
        }
    }

    /// The committed offsets of those keys of `keys` that have one, in
    /// the order of `keys`.
    pub open spec fn listed(self, keys: Seq<Seq<char>>) -> Seq<(Seq<char>, usize)>
        decreases keys.len(),
    {
        if keys.len() == 0 {
            Seq::empty()
        } else {
            let before = self.listed(keys.drop_last());
            let k = keys.last();
            if self.committed.contains_key(k) {
                before.push((k, self.committed[k]))
            } else {
                before
            }
        }
    }
}

/// Whether the list holds `x`.
fn list_contains(list: &Vec<usize>, x: usize) -> (r: bool)
    ensures
        r == list@.contains(x),
{
    let mut i: usize = 0;
    while i < list.len()
        invariant
            i <= list.len(),
            forall|j: int| 0 <= j < i ==> list@[j] != x,
        decreases list.len() - i,
    {
        if list[i] == x {
            return true;
        }
        i += 1;
    }
    false
}

/// The messages of `log` from `off` on, each with its offset.
fn slice_from(log: &Vec<usize>, off: usize) -> (out: Vec<(usize, usize)>)
    ensures
        out@ == from_offset(log@, off),
{
    let mut out: Vec<(usize, usize)> = Vec::new();
    if off >= log.len() {
        return out;
    }
    let mut i: usize = off;
    while i < log.len()
        invariant
            off <= i <= log.len(),
            out.len() == i - off,
            forall|j: int| 0 <= j < i - off ==> out@[j] == ((off + j) as usize, log@[off + j]),
        decreases log.len() - i,
    {
        out.push((i, log[i]));
        i += 1;
    }
    out
}

/// The log store of a node.
pub struct LogStore {
    logs: IdMap<Vec<usize>>,
    committed: IdMap<usize>,
}

impl View for LogStore {
    type V = LogView;

    closed spec fn view(&self) -> LogView {
        LogView {
            logs: Map::new(
                |k: Seq<char>| self.logs.map().contains_key(k),
                |k: Seq<char>| self.logs.map()[k]@,
            ),
            committed: self.committed.map(),
        }
    }
}

impl LogStore {
    /// Both maps are held in ascending order of the keys.
    pub closed spec fn wf(&self) -> bool {
        self.logs.wf() && self.committed.wf()
    }

    /// The empty store.
    pub fn new() -> (s: Self)
        ensures
            s.wf(),
            s@ == (LogView { logs: Map::empty(), committed: Map::empty() }),
    {
        let s = LogStore { logs: IdMap::new(), committed: IdMap::new() };
        proof {
            assert(s@.logs =~= Map::empty());
            assert(s@.committed =~= Map::empty());
        }
        s
    }

    /// Puts `msg` behind the log of `key`, unless the log holds it
    /// already, and returns the last offset of that log.
    pub fn append(&mut self, key: &String, msg: usize) -> (offset: usize)
        requires
            old(self).wf(),
        ensures
            final(self).wf(),
            final(self)@ == old(self)@.after_send(key@, msg),
            offset == final(self)@.log(key@).len() - 1,
    {
        let ghost v0 = old(self)@;
        let mut log = match self.logs.remove(key) {
            Some(l) => l,
            None => Vec::new(),
        };
        if !list_contains(&log, msg) {
            log.push(msg);
        }
        proof {
            assert(log@.contains(msg)) by {
                if !v0.log(key@).contains(msg) {
                    assert(log@[log@.len() - 1] == msg);
                }
            }
        }
        let offset = log.len() - 1;
        self.logs.put(key.clone(), log);
        proof {
            assert(self@.logs =~= v0.after_send(key@, msg).logs);
        }
        offset
    }

    /// A copy of the log of `key`.
    pub fn log_of(&self, key: &String) -> (out: Vec<usize>)
        requires
            self.wf(),
        ensures
            out@ == self@.log(key@),
    {
        match self.logs.get(key) {
            Some(l) => l.clone(),
            None => Vec::new(),
        }
    }

    /// Takes `msgs` as the log of `key`, unless the log held is longer.
    pub fn adopt(&mut self, key: String, msgs: Vec<usize>)
        requires
            old(self).wf(),
        ensures
            final(self).wf(),
            final(self)@ == old(self)@.after_send_many(key@, msgs@),
    {
        let longer = match self.logs.get(&key) {
            Some(l) => l.len() > msgs.len(),
            None => false,
        };
        if !longer {
            self.logs.put(key, msgs);
            proof {
                assert(self@.logs =~= old(self)@.after_send_many(key@, msgs@).logs);
            }
        }
    }

    /// For each pair of `offsets` whose key is known, the messages of
    /// that key from the pair's offset on.
    pub fn poll(&self, offsets: &Vec<(String, usize)>) -> (out: Vec<(String, Vec<(usize, usize)>)>)
        requires
            self.wf(),
        ensures
            crate::message::polled_view(out@) == self@.polled(offsets.deep_view()),
    {
        let ghost os = offsets.deep_view();
        let mut out: Vec<(String, Vec<(usize, usize)>)> = Vec::new();
        let mut i: usize = 0;
        while i < offsets.len()
            invariant
                i <= offsets.len(),
                self.wf(),
                os == offsets.deep_view(),
                crate::message::polled_view(out@) == self@.polled(os.take(i as int)),
            decreases offsets.len() - i,
        {
            proof {
                assert(os.take(i + 1).drop_last() =~= os.take(i as int));
            }
            let ghost prev = crate::message::polled_view(out@);
            match self.logs.get(&offsets[i].0) {
                Some(log) => {
                    let part = slice_from(log, offsets[i].1);
                    out.push((offsets[i].0.clone(), part));
                    proof {
                        assert(crate::message::polled_view(out@) =~= prev.push(
                            (offsets@[i as int].0@, part@),
                        ));
                    }
                },
                None => {},
            }
            i += 1;
        }
        proof {
            assert(os.take(offsets.len() as int) =~= os);
        }
        out
    }

    /// Commits the offsets of `offsets`, pair by pair.
    pub fn commit(&mut self, offsets: &Vec<(String, usize)>)
        requires
            old(self).wf(),
        ensures
            final(self).wf(),
            final(self)@ == old(self)@.after_commit(offsets.deep_view()),
    {
        let ghost os = offsets.deep_view();
        let ghost v0 = old(self)@;
        let mut i: usize = 0;
        while i < offsets.len()
            invariant
                i <= offsets.len(),
                self.wf(),
                os == offsets.deep_view(),
                self@ == v0.after_commit(os.take(i as int)),
            decreases offsets.len() - i,
        {
            proof {
                assert(os.take(i + 1).drop_last() =~= os.take(i as int));
            }
            let off = offsets[i].1;
            let raised = match self.committed.get(&offsets[i].0) {
                Some(c) => if *c >= off {
                    *c
                } else {
                    off
                },
                None => off,
            };
            self.committed.put(offsets[i].0.clone(), raised);
            i += 1;
        }
        proof {
            assert(os.take(offsets.len() as int) =~= os);
        }
    }

    /// The committed offsets of those keys of `keys` that have one.
    pub fn list_committed(&self, keys: &Vec<String>) -> (out: Vec<(String, usize)>)
        requires
            self.wf(),
        ensures
            out.deep_view() == self@.listed(keys.deep_view()),
    {
        let ghost ks = keys.deep_view();
        let mut out: Vec<(String, usize)> = Vec::new();
        let mut i: usize = 0;
        while i < keys.len()
            invariant
                i <= keys.len(),
                self.wf(),
                ks == keys.deep_view(),
                out.deep_view() == self@.listed(ks.take(i as int)),
            decreases keys.len() - i,
        {
            proof {
                assert(ks.take(i + 1).drop_last() =~= ks.take(i as int));
            }
            match self.committed.get(&keys[i]) {
                Some(c) => {
                    out.push((keys[i].clone(), *c));
                },
                None => {},
            }
            i += 1;
        }
        proof {
            assert(ks.take(keys.len() as int) =~= ks);
        }
        out
    }
}

} // verus!
