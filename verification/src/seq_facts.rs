//! Facts about filtering a sequence, in the form that loops over a growing
//! prefix need them.

use vstd::prelude::*;

verus! {

/// Filtering one element more: the element is appended when it passes.
pub proof fn lemma_filter_step<A>(s: Seq<A>, pred: spec_fn(A) -> bool, k: int)
    requires
        0 <= k < s.len(),
    ensures
        s.take(k + 1).filter(pred) == if pred(s[k]) {
            s.take(k).filter(pred).push(s[k])
        } else {
            s.take(k).filter(pred)
        },
{
    reveal(Seq::filter);
    assert(s.take(k + 1).drop_last() == s.take(k));
}

/// The filter of the empty prefix is empty.
pub proof fn lemma_filter_start<A>(s: Seq<A>, pred: spec_fn(A) -> bool)
    ensures
        s.take(0).filter(pred) == Seq::<A>::empty(),
{
    reveal(Seq::filter);
}

/// The filter of the whole prefix is the filter of the sequence.
pub proof fn lemma_filter_end<A>(s: Seq<A>, pred: spec_fn(A) -> bool)
    ensures
        s.take(s.len() as int).filter(pred) == s.filter(pred),
{
    assert(s.take(s.len() as int) == s);
}

/// A stretch in which nothing passes adds nothing to the filter.
pub proof fn lemma_filter_skip<A>(s: Seq<A>, pred: spec_fn(A) -> bool, lo: int, hi: int)
    requires
        0 <= lo <= hi <= s.len(),
        forall|i: int| lo <= i < hi ==> !pred(#[trigger] s[i]),
    ensures
        s.take(hi).filter(pred) == s.take(lo).filter(pred),
    decreases hi - lo,
{
    if lo < hi {
        lemma_filter_skip(s, pred, lo, hi - 1);
        lemma_filter_step(s, pred, hi - 1);
    }
}

/// What a filter holds: the elements of the sequence that pass.
pub proof fn lemma_filter_members<A>(s: Seq<A>, pred: spec_fn(A) -> bool)
    ensures
        forall|x: A| #[trigger] s.filter(pred).contains(x) <==> s.contains(x) && pred(x),
        s.filter(pred).len() <= s.len(),
{
    let out = s.filter(pred);
    s.lemma_filter_len(pred);
    assert forall|x: A| #[trigger] out.contains(x) <==> s.contains(x) && pred(x) by {
        if out.contains(x) {
            let i = choose|i: int| 0 <= i < out.len() && out[i] == x;
            s.lemma_filter_pred(pred, i);
            s.lemma_filter_contains_rev(pred, x);
        }
        if s.contains(x) && pred(x) {
            let j = choose|j: int| 0 <= j < s.len() && s[j] == x;
            s.lemma_filter_contains(pred, j);
        }
    }
}

/// A filter that keeps something is not empty, and one that is not empty
/// keeps something.
pub proof fn lemma_filter_nonempty<A>(s: Seq<A>, pred: spec_fn(A) -> bool)
    ensures
        s.filter(pred).len() > 0 <==> exists|i: int| 0 <= i < s.len() && pred(#[trigger] s[i]),
{
    lemma_filter_members(s, pred);
    let out = s.filter(pred);
    if out.len() > 0 {
        assert(out.contains(out[0]));
        let i = choose|i: int| 0 <= i < s.len() && s[i] == out[0];
        assert(pred(s[i]));
    }
    if exists|i: int| 0 <= i < s.len() && pred(#[trigger] s[i]) {
        let i = choose|i: int| 0 <= i < s.len() && pred(#[trigger] s[i]);
        assert(out.contains(s[i]));
    }
}

} // verus!
