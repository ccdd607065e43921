//! A set of values that only grows, kept as a list without repeats in
//! the order in which the values came.

use vstd::prelude::*;

verus! {

/// `a` with those values of `xs` behind it that it lacks, each once, in
/// the order of `xs`.
pub open spec fn merged(a: Seq<usize>, xs: Seq<usize>) -> Seq<usize>
    decreases xs.len(),
{
    if xs.len() == 0 {
        a
    } else {
        let m = merged(a, xs.drop_last());
        if m.contains(xs.last()) {
            m
        } else {
            m.push(xs.last())
        }
    }
}

/// The values of `a` that `b` lacks, in the order of `a`.
pub open spec fn without(a: Seq<usize>, b: Seq<usize>) -> Seq<usize>
    decreases a.len(),
{
    if a.len() == 0 {
        Seq::empty()
    } else {
        let rest = without(a.drop_last(), b);
        if b.contains(a.last()) {
            rest
        } else {
            rest.push(a.last())
        }
    }
}

/// Every value of `a` is a value of `b`.
pub open spec fn within(a: Seq<usize>, b: Seq<usize>) -> bool {
    forall|x: usize| a.contains(x) ==> b.contains(x)
}

/// Merging is set union: the result holds the values of both lists and
/// no others, keeps `a` as its beginning, and repeats nothing if `a`
/// repeats nothing.
pub proof fn lemma_merged(a: Seq<usize>, xs: Seq<usize>)
    ensures
        forall|x: usize| merged(a, xs).contains(x) <==> a.contains(x) || xs.contains(x),
        a.no_duplicates() ==> merged(a, xs).no_duplicates(),
        merged(a, xs).len() >= a.len(),
        merged(a, xs).take(a.len() as int) == a,
    decreases xs.len(),
{
    if xs.len() > 0 {
        let rest = xs.drop_last();
        let m = merged(a, rest);
        lemma_merged(a, rest);
        let r = merged(a, xs);
        assert forall|x: usize| r.contains(x) <==> a.contains(x) || xs.contains(x) by {
            if xs.contains(x) {
                let i = choose|i: int| 0 <= i < xs.len() && xs[i] == x;
                if i < xs.len() - 1 {
                    assert(rest[i] == x);
                }
            }
            if rest.contains(x) {
                let i = choose|i: int| 0 <= i < rest.len() && rest[i] == x;
                assert(xs[i] == x);
            }
            if !m.contains(xs.last()) {
                if m.contains(x) {
                    let i = choose|i: int| 0 <= i < m.len() && m[i] == x;
                    assert(r[i] == x);
                }
                assert(r[m.len() as int] == xs.last());
            }
        }
    }
}

/// Taking values away is set difference: the result holds the values of
/// `a` that `b` lacks and no others, and repeats nothing if `a` repeats
/// nothing.
pub proof fn lemma_without(a: Seq<usize>, b: Seq<usize>)
    ensures
        forall|x: usize| without(a, b).contains(x) <==> a.contains(x) && !b.contains(x),
        a.no_duplicates() ==> without(a, b).no_duplicates(),
    decreases a.len(),
{
    if a.len() > 0 {
        let rest = a.drop_last();
        let w = without(rest, b);
        lemma_without(rest, b);
        let r = without(a, b);
        assert forall|x: usize| r.contains(x) <==> a.contains(x) && !b.contains(x) by {
            if a.contains(x) {
                let i = choose|i: int| 0 <= i < a.len() && a[i] == x;
                if i < a.len() - 1 {
                    assert(rest[i] == x);
                }
            }
            if rest.contains(x) {
                let i = choose|i: int| 0 <= i < rest.len() && rest[i] == x;
                assert(a[i] == x);
            }
            if !b.contains(a.last()) {
                if w.contains(x) {
                    let i = choose|i: int| 0 <= i < w.len() && w[i] == x;
                    assert(r[i] == x);
                }
                assert(r[w.len() as int] == a.last());
            }
        }
    }
}

/// One more value: merging the first `i + 1` values of `xs` is merging
/// the first `i` and then the next.
pub proof fn lemma_merged_step(a: Seq<usize>, xs: Seq<usize>, i: int)
    requires
        0 <= i < xs.len(),
    ensures
        merged(a, xs.take(i + 1)) == (if merged(a, xs.take(i)).contains(xs[i]) {
            merged(a, xs.take(i))
        } else {
            merged(a, xs.take(i)).push(xs[i])
        }),
{
    assert(xs.take(i + 1).drop_last() =~= xs.take(i));
}

/// One more value: taking `b` from the first `i + 1` values of `a` is
/// taking it from the first `i` and then looking at the next.
pub proof fn lemma_without_step(a: Seq<usize>, b: Seq<usize>, i: int)
    requires
        0 <= i < a.len(),
    ensures
        without(a.take(i + 1), b) == (if b.contains(a[i]) {
            without(a.take(i), b)
        } else {
            without(a.take(i), b).push(a[i])
        }),
{
    assert(a.take(i + 1).drop_last() =~= a.take(i));
}

/// A set of values.
pub struct ValueSet {
    items: Vec<usize>,
}

impl View for ValueSet {
    type V = Seq<usize>;

    /// The values, in the order in which they came.
    closed spec fn view(&self) -> Seq<usize> {
        self.items@
    }
}

impl ValueSet {
    /// No value stands twice in the list.
    pub open spec fn wf(&self) -> bool {
        self@.no_duplicates()
    }

    /// The empty set.
    pub fn new() -> (s: Self)
        ensures
            s@ == Seq::<usize>::empty(),
            s.wf(),
    {
        ValueSet { items: Vec::new() }
    }

    /// Whether the set holds no value.
    pub fn is_empty(&self) -> (r: bool)
        ensures
            r == (self@.len() == 0),
    {
        self.items.len() == 0
    }

    /// Whether the set holds `x`.
    pub fn contains(&self, x: usize) -> (r: bool)
        ensures
            r == self@.contains(x),
    {
        let mut i: usize = 0;
        while i < self.items.len()
            invariant
                i <= self.items.len(),
                forall|j: int| 0 <= j < i ==> self@[j] != x,
            decreases self.items.len() - i,
        {
            if self.items[i] == x {
                return true;
            }
            i += 1;
        }
        false
    }

    /// Puts `x` into the set.
    pub fn insert(&mut self, x: usize)
        requires
            old(self).wf(),
        ensures
            final(self).wf(),
            final(self)@ == merged(old(self)@, seq![x]),
            final(self)@ == (if old(self)@.contains(x) {
                old(self)@
            } else {
                old(self)@.push(x)
            }),
    {
        proof {
            lemma_merged(self@, seq![x]);
            assert(seq![x].drop_last() =~= Seq::<usize>::empty());
            assert(merged(self@, Seq::<usize>::empty()) == self@);
        }
        if !self.contains(x) {
            self.items.push(x);
        }
    }

    /// Puts every value of `xs` into the set.
    pub fn extend(&mut self, xs: &Vec<usize>)
        requires
            old(self).wf(),
        ensures
            final(self).wf(),
            final(self)@ == merged(old(self)@, xs@),
    {
        let mut i: usize = 0;
        while i < xs.len()
            invariant
                i <= xs.len(),
                self.wf(),
                self@ == merged(old(self)@, xs@.take(i as int)),
            decreases xs.len() - i,
        {
            proof {
                lemma_merged_step(old(self)@, xs@, i as int);
            }
            self.insert(xs[i]);
            i += 1;
        }
        proof {
            assert(xs@.take(xs.len() as int) =~= xs@);
        }
    }

    /// The values of the set that `other` lacks.
    pub fn minus(&self, other: &ValueSet) -> (out: Vec<usize>)
        ensures
            out@ == without(self@, other@),
    {
        let mut out: Vec<usize> = Vec::new();
        let mut i: usize = 0;
        while i < self.items.len()
            invariant
                i <= self.items.len(),
                out@ == without(self@.take(i as int), other@),
            decreases self.items.len() - i,
        {
            proof {
                lemma_without_step(self@, other@, i as int);
            }
            if !other.contains(self.items[i]) {
                out.push(self.items[i]);
            }
            i += 1;
        }
        proof {
            assert(self@.take(self.items.len() as int) =~= self@);
        }
        out
    }

    /// The values of the set as a list.
    pub fn to_vec(&self) -> (out: Vec<usize>)
        ensures
            out@ == self@,
    {
        self.items.clone()
    }
}

} // verus!
