//! General facts about filtered sequences, used to reason about the event
//! store's queries: a filter keeps nothing when no element matches, its first
//! element is the first matching element of the source, and a non-empty
//! filter result always has a matching source element.

use vstd::prelude::*;

verus! {

/// Filtering keeps nothing when no element satisfies the predicate.
pub proof fn lemma_filter_none<A>(s: Seq<A>, pred: spec_fn(A) -> bool)
    requires
        forall|j: int| 0 <= j < s.len() ==> !pred(s[j]),
    ensures
        s.filter(pred) =~= Seq::<A>::empty(),
    decreases s.len(),
{
    reveal(Seq::filter);
    if s.len() > 0 {
        lemma_filter_none(s.drop_last(), pred);
    }
}

/// The first element of `s.filter(pred)` is `s[i]` when `i` is the first
/// index whose element satisfies `pred`.
pub proof fn lemma_filter_first<A>(s: Seq<A>, pred: spec_fn(A) -> bool, i: int)
    requires
        0 <= i < s.len(),
        pred(s[i]),
        forall|j: int| 0 <= j < i ==> !pred(s[j]),
    ensures
        s.filter(pred).len() > 0,
        s.filter(pred)[0] == s[i],
{
    let prefix = s.take(i);
    assert(forall|j: int| 0 <= j < prefix.len() ==> !pred(prefix[j]));
    lemma_filter_none(prefix, pred);
    let upto = s.take(i + 1);
    s.lemma_take_succ_push(i);
    Seq::lemma_filter_push(prefix, s[i], pred);
    assert(upto.filter(pred) == seq![s[i]]) by {
        assert(Seq::<A>::empty().push(s[i]) =~= seq![s[i]]);
    }
    assert(s =~= upto + s.skip(i + 1));
    Seq::filter_distributes_over_add(upto, s.skip(i + 1), pred);
    assert(s.filter(pred)[0] == s[i]);
}

/// Filtering one more element of a prefix extends the filtered prefix by
/// that element exactly when it matches.
pub proof fn lemma_filter_take_step<A>(s: Seq<A>, pred: spec_fn(A) -> bool, i: int)
    requires
        0 <= i < s.len(),
    ensures
        s.take(i + 1).filter(pred) == (if pred(s[i]) {
            s.take(i).filter(pred).push(s[i])
        } else {
            s.take(i).filter(pred)
        }),
{
    s.lemma_take_succ_push(i);
    Seq::lemma_filter_push(s.take(i), s[i], pred);
}

/// A non-empty filter result has a matching element in the source sequence.
pub proof fn lemma_filter_nonempty_has_match<A>(s: Seq<A>, pred: spec_fn(A) -> bool)
    requires
        s.filter(pred).len() > 0,
    ensures
        exists|k: int| 0 <= k < s.len() && pred(s[k]),
{
    let elem = s.filter(pred)[0];
    s.lemma_filter_pred(pred, 0);
    assert(s.filter(pred).contains(elem));
    s.lemma_filter_contains_rev(pred, elem);
    let k = choose|k: int| 0 <= k < s.len() && s[k] == elem;
    assert(pred(s[k]));
}

/// Picks the first index whose element satisfies the predicate, given that
/// some element does.
pub proof fn first_match_index<A>(s: Seq<A>, pred: spec_fn(A) -> bool) -> (i: int)
    requires
        exists|k: int| 0 <= k < s.len() && pred(s[k]),
    ensures
        0 <= i < s.len(),
        pred(s[i]),
        forall|j: int| 0 <= j < i ==> !pred(s[j]),
    decreases s.len(),
{
    if pred(s[0]) {
        0
    } else {
        let sub = s.skip(1);
        let k = choose|k: int| 0 <= k < s.len() && pred(s[k]);
        assert(sub[k - 1] == s[k]);
        let i_sub = first_match_index(sub, pred);
        assert(forall|j: int| 1 <= j < i_sub + 1 ==> s[j] == sub[j - 1] && !pred(sub[j - 1]));
        i_sub + 1
    }
}

} // verus!
