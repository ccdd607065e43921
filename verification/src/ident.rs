//! Node identifiers: text compared by its characters, ordered by its
//! UTF-8 bytes.

use vstd::prelude::*;
use vstd::utf8::*;

verus! {

/// `a` and `b` hold the same bytes in their first `k` places.
pub open spec fn agree_upto(a: Seq<u8>, b: Seq<u8>, k: int) -> bool {
    &&& 0 <= k <= a.len()
    &&& k <= b.len()
    &&& forall|j: int| 0 <= j < k ==> a[j] == b[j]
}

/// Strict lexicographic order on byte strings: at the first place where
/// the two differ `a` holds the smaller byte, or `a` is a proper prefix
/// of `b`.
pub open spec fn lex_lt(a: Seq<u8>, b: Seq<u8>) -> bool {
    exists|k: int| #[trigger]
        agree_upto(a, b, k) && k < b.len() && (k == a.len() || a[k] < b[k])
}

/// The order of node identifiers: the lexicographic order of their UTF-8
/// encodings, which is also the order of their code points.
pub open spec fn id_lt(a: Seq<char>, b: Seq<char>) -> bool {
    lex_lt(encode_utf8(a), encode_utf8(b))
}

pub proof fn lemma_lex_lt_irreflexive(a: Seq<u8>)
    ensures
        !lex_lt(a, a),
{
}

pub proof fn lemma_lex_lt_transitive(a: Seq<u8>, b: Seq<u8>, c: Seq<u8>)
    requires
        lex_lt(a, b),
        lex_lt(b, c),
    ensures
        lex_lt(a, c),
{
    let k1 = choose|k: int| #[trigger]
        agree_upto(a, b, k) && k < b.len() && (k == a.len() || a[k] < b[k]);
    let k2 = choose|k: int| #[trigger]
        agree_upto(b, c, k) && k < c.len() && (k == b.len() || b[k] < c[k]);
    let k = if k1 <= k2 {
        k1
    } else {
        k2
    };
    assert(agree_upto(a, c, k));
}

pub proof fn lemma_lex_lt_total(a: Seq<u8>, b: Seq<u8>)
    ensures
        a == b || lex_lt(a, b) || lex_lt(b, a),
    decreases a.len(),
{
    if a =~= b {
    } else if exists|d: int| 0 <= d < a.len() && d < b.len() && a[d] != b[d] {
        lemma_first_difference(a, b, a.len() as int);
    } else if a.len() < b.len() {
        assert(agree_upto(a, b, a.len() as int));
    } else {
        assert(agree_upto(b, a, b.len() as int));
    }
}

/// Two byte strings that differ somewhere below `bound` are ordered one
/// way or the other by their first difference.
proof fn lemma_first_difference(a: Seq<u8>, b: Seq<u8>, bound: int)
    requires
        exists|d: int| 0 <= d < bound && d < a.len() && d < b.len() && a[d] != b[d],
    ensures
        lex_lt(a, b) || lex_lt(b, a),
    decreases bound,
{
    let d = choose|d: int| 0 <= d < bound && d < a.len() && d < b.len() && a[d] != b[d];
    if exists|e: int| 0 <= e < d && e < a.len() && e < b.len() && a[e] != b[e] {
        lemma_first_difference(a, b, d);
    } else {
        if a[d] < b[d] {
            assert(agree_upto(a, b, d));
        } else {
            assert(agree_upto(b, a, d));
        }
    }
}

/// No identifier comes before itself.
pub proof fn lemma_id_lt_irreflexive(a: Seq<char>)
    ensures
        !id_lt(a, a),
{
    lemma_lex_lt_irreflexive(encode_utf8(a));
}

/// The order of identifiers is transitive.
pub proof fn lemma_id_lt_transitive(a: Seq<char>, b: Seq<char>, c: Seq<char>)
    requires
        id_lt(a, b),
        id_lt(b, c),
    ensures
        id_lt(a, c),
{
    lemma_lex_lt_transitive(encode_utf8(a), encode_utf8(b), encode_utf8(c));
}

/// Any two different identifiers are ordered one way or the other.
pub proof fn lemma_id_lt_total(a: Seq<char>, b: Seq<char>)
    ensures
        a == b || id_lt(a, b) || id_lt(b, a),
{
    lemma_lex_lt_total(encode_utf8(a), encode_utf8(b));
    if encode_utf8(a) == encode_utf8(b) {
        encode_utf8_decode_utf8(a);
        encode_utf8_decode_utf8(b);
    }
}

/// Whether `x` comes before `y` in the lexicographic order.
fn bytes_less(x: &[u8], y: &[u8]) -> (r: bool)
    ensures
        r == lex_lt(x@, y@),
{
    let mut i: usize = 0;
    while i < x.len() && i < y.len()
        invariant
            agree_upto(x@, y@, i as int),
        decreases x.len() - i,
    {
        if x[i] != y[i] {
            return x[i] < y[i];
        }
        i += 1;
    }
    x.len() < y.len()
}

/// Whether the two identifiers are the same text.
pub fn same_id(a: &String, b: &String) -> (r: bool)
    ensures
        r == (a@ == b@),
{
    *a == *b
}

/// Whether `id` is one of `ids`.
pub fn ids_contain(ids: &Vec<String>, id: &String) -> (r: bool)
    ensures
        r == ids.deep_view().contains(id@),
{
    let mut i: usize = 0;
    while i < ids.len()
        invariant
            i <= ids.len(),
            forall|j: int| 0 <= j < i ==> ids.deep_view()[j] != id@,
        decreases ids.len() - i,
    {
        if same_id(&ids[i], id) {
            assert(ids.deep_view()[i as int] == id@);
            return true;
        }
        i += 1;
    }
    false
}

/// Whether identifier `a` comes before identifier `b`.
pub fn id_less(a: &String, b: &String) -> (r: bool)
    ensures
        r == id_lt(a@, b@),
{
    bytes_less(a.as_str().as_bytes(), b.as_str().as_bytes())
}

} // verus!
