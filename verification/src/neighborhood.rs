//! The neighbourhoods of a node: whom it gossips with.

use crate::ident::same_id;
use vstd::prelude::*;

verus! {

/// The nodes of `ids` other than `me`, in the order of `ids`.
pub open spec fn others(ids: Seq<Seq<char>>, me: Seq<char>) -> Seq<Seq<char>>
    decreases ids.len(),
{
    if ids.len() == 0 {
        Seq::empty()
    } else {
        let rest = others(ids.drop_last(), me);
        if ids.last() == me {
            rest
        } else {
            rest.push(ids.last())
        }
    }
}

/// The star round the leader, the first node of `ids`: the leader's
/// neighbours are all other nodes, and every other node's only neighbour
/// is the leader.
pub open spec fn central(ids: Seq<Seq<char>>, me: Seq<char>) -> Seq<Seq<char>> {
    if ids.len() == 0 {
        Seq::empty()
    } else if me == ids[0] {
        others(ids, me)
    } else {
        seq![ids[0]]
    }
}

/// The full mesh: every other node.
pub open spec fn mesh(ids: Seq<Seq<char>>, me: Seq<char>) -> Seq<Seq<char>> {
    others(ids, me)
}

/// The other nodes are nodes of the cluster, none of them `me`, and at
/// most as many as the cluster has.
pub proof fn lemma_others(ids: Seq<Seq<char>>, me: Seq<char>)
    ensures
        others(ids, me).len() <= ids.len(),
        forall|i: int|
            0 <= i < others(ids, me).len() ==> ids.contains(#[trigger] others(ids, me)[i])
                && others(ids, me)[i] != me,
        forall|k: Seq<char>| ids.contains(k) && k != me ==> others(ids, me).contains(k),
    decreases ids.len(),
{
    if ids.len() > 0 {
        let rest = ids.drop_last();
        lemma_others(rest, me);
        let o = others(ids, me);
        let r = others(rest, me);
        assert forall|k: Seq<char>| ids.contains(k) && k != me implies o.contains(k) by {
            let j = choose|j: int| 0 <= j < ids.len() && ids[j] == k;
            if j < rest.len() {
                assert(rest[j] == k);
                assert(rest.contains(k));
                let c = choose|c: int| 0 <= c < r.len() && r[c] == k;
                assert(o[c] == k);
            } else {
                assert(o[o.len() - 1] == k);
            }
        }
    }
}

/// The neighbours of a node, in the star and in the mesh, are nodes of
/// the cluster.
pub proof fn lemma_neighbours_are_nodes(ids: Seq<Seq<char>>, me: Seq<char>)
    ensures
        central(ids, me).len() <= ids.len(),
        mesh(ids, me).len() <= ids.len(),
        forall|i: int|
            0 <= i < central(ids, me).len() ==> ids.contains(#[trigger] central(ids, me)[i]),
        forall|i: int| 0 <= i < mesh(ids, me).len() ==> ids.contains(#[trigger] mesh(ids, me)[i]),
{
    lemma_others(ids, me);
}

/// The nodes of `ids` other than `me`.
pub fn others_of(ids: &Vec<String>, me: &String) -> (out: Vec<String>)
    ensures
        out.deep_view() == others(ids.deep_view(), me@),
{
    let ghost is = ids.deep_view();
    let mut out: Vec<String> = Vec::new();
    let mut i: usize = 0;
    while i < ids.len()
        invariant
            i <= ids.len(),
            is == ids.deep_view(),
            out.deep_view() == others(is.take(i as int), me@),
        decreases ids.len() - i,
    {
        proof {
            assert(is.take(i + 1).drop_last() =~= is.take(i as int));
        }
        if !same_id(&ids[i], me) {
            out.push(ids[i].clone());
        }
        i += 1;
    }
    proof {
        assert(is.take(ids.len() as int) =~= is);
    }
    out
}

/// The neighbours of `me` in the star round the first node of `ids`.
pub fn central_of(ids: &Vec<String>, me: &String) -> (out: Vec<String>)
    ensures
        out.deep_view() == central(ids.deep_view(), me@),
{
    if ids.len() == 0 {
        let out: Vec<String> = Vec::new();
        out
    } else if same_id(me, &ids[0]) {
        others_of(ids, me)
    } else {
        let mut out: Vec<String> = Vec::new();
        out.push(ids[0].clone());
        out
    }
}

} // verus!
