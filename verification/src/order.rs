//! Facts about sequences kept sorted by name and about sequences that hold
//! the same elements as a prefix of another.

use vstd::prelude::*;
use crate::text::{chars_lt, lemma_chars_lt_trans};

verus! {

/// Strictly increasing in the order of `chars_lt`.
pub open spec fn sorted_names(s: Seq<Seq<char>>) -> bool {
    forall|k: int, l: int| 0 <= k < l < s.len() ==> chars_lt(#[trigger] s[k], #[trigger] s[l])
}

/// Every element of `a` is one of the first `n` of `src`, and each of those
/// is in `a`.
pub open spec fn holds_prefix<A>(a: Seq<A>, src: Seq<A>, n: int) -> bool {
    &&& forall|k: int| 0 <= k < a.len() ==> exists|j: int| 0 <= j < n && #[trigger] a[k] == src[j]
    &&& forall|j: int| 0 <= j < n ==> exists|k: int| 0 <= k < a.len() && a[k] == #[trigger] src[j]
}

/// Inserting `x` where everything before it sorts before it and everything
/// after it sorts after it keeps a sequence sorted.
pub proof fn lemma_sorted_insert(o: Seq<Seq<char>>, p: int, x: Seq<char>)
    requires
        sorted_names(o),
        0 <= p <= o.len(),
        forall|q: int| 0 <= q < p ==> chars_lt(#[trigger] o[q], x),
        forall|q: int| p <= q < o.len() ==> chars_lt(x, #[trigger] o[q]),
    ensures
        sorted_names(o.insert(p, x)),
{
    let n = o.insert(p, x);
    assert forall|k: int, l: int| 0 <= k < l < n.len() implies chars_lt(#[trigger] n[k], #[trigger] n[l]) by {
        if k < p && l == p {
        } else if k < p && l > p {
            assert(n[l] == o[l - 1]);
        } else if k == p {
            assert(n[l] == o[l - 1]);
        } else if k > p {
            assert(n[k] == o[k - 1]);
            assert(n[l] == o[l - 1]);
        }
    }
}

/// Where `x` goes: after `p` names that sort before it, and before the
/// rest, all of which differ from it.
pub proof fn lemma_insert_point(o: Seq<Seq<char>>, p: int, x: Seq<char>)
    requires
        sorted_names(o),
        0 <= p <= o.len(),
        forall|q: int| 0 <= q < p ==> chars_lt(#[trigger] o[q], x),
        p < o.len() ==> !chars_lt(o[p], x),
        forall|q: int| 0 <= q < o.len() ==> #[trigger] o[q] != x,
    ensures
        forall|q: int| p <= q < o.len() ==> chars_lt(x, #[trigger] o[q]),
{
    if p < o.len() {
        crate::text::lemma_chars_lt_total(o[p], x);
    }
    assert forall|q: int| p <= q < o.len() implies chars_lt(x, #[trigger] o[q]) by {
        if q > p {
            lemma_chars_lt_trans(x, o[p], o[q]);
        }
    }
}

/// Inserting element `i` of `src` into a sequence that holds the first `i`
/// gives one that holds the first `i + 1`.
pub proof fn lemma_holds_insert<A>(o: Seq<A>, src: Seq<A>, i: int, p: int)
    requires
        holds_prefix(o, src, i),
        0 <= i < src.len(),
        0 <= p <= o.len(),
    ensures
        holds_prefix(o.insert(p, src[i]), src, i + 1),
{
    let n = o.insert(p, src[i]);
    assert forall|k: int| 0 <= k < n.len() implies exists|j: int| 0 <= j < i + 1 && #[trigger] n[k] == src[j] by {
        if k < p {
            let j = choose|j: int| 0 <= j < i && #[trigger] o[k] == src[j];
            assert(n[k] == src[j]);
        } else if k == p {
            assert(n[k] == src[i]);
        } else {
            let j = choose|j: int| 0 <= j < i && #[trigger] o[k - 1] == src[j];
            assert(n[k] == src[j]);
        }
    }
    assert forall|j: int| 0 <= j < i + 1 implies exists|k: int| 0 <= k < n.len() && n[k] == #[trigger] src[j] by {
        if j == i {
            assert(n[p] == src[j]);
        } else {
            let k = choose|k: int| 0 <= k < o.len() && o[k] == #[trigger] src[j];
            if k < p {
                assert(n[k] == src[j]);
            } else {
                assert(n[k + 1] == src[j]);
            }
        }
    }
}

} // verus!
