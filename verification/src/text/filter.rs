//! Filtered sequences.

use vstd::prelude::*;

verus! {

/// Every item of a filtered sequence stands in the sequence, and passes the filter.
pub proof fn lemma_filter_origin<A>(s: Seq<A>, pred: spec_fn(A) -> bool, i: int) -> (at: int)
    requires
        0 <= i < s.filter(pred).len(),
    ensures
        0 <= at < s.len(),
        s.filter(pred)[i] == s[at],
        pred(s[at]),
    decreases s.len(),
{
    reveal(Seq::filter);
    let head = s.drop_last();
    if i < head.filter(pred).len() {
        lemma_filter_origin(head, pred, i)
    } else {
        s.len() - 1
    }
}

/// A sequence whose items all pass the filter is left as it is.
pub proof fn lemma_filter_all<A>(s: Seq<A>, pred: spec_fn(A) -> bool)
    requires
        forall|i: int| 0 <= i < s.len() ==> pred(#[trigger] s[i]),
    ensures
        s.filter(pred) == s,
    decreases s.len(),
{
    reveal(Seq::filter);
    if s.len() > 0 {
        let head = s.drop_last();
        assert forall|i: int| 0 <= i < head.len() implies pred(#[trigger] head[i]) by {
            assert(head[i] == s[i]);
        }
        lemma_filter_all(head, pred);
        assert(pred(s[s.len() - 1]));
        assert(head.push(s.last()) =~= s);
    } else {
        assert(s.filter(pred) =~= s);
    }
}

/// Filtering twice is filtering once.
pub proof fn lemma_filter_twice<A>(s: Seq<A>, pred: spec_fn(A) -> bool)
    ensures
        s.filter(pred).filter(pred) == s.filter(pred),
{
    let f = s.filter(pred);
    assert forall|i: int| 0 <= i < f.len() implies pred(#[trigger] f[i]) by {
        let at = lemma_filter_origin(s, pred, i);
    }
    lemma_filter_all(f, pred);
}

/// `idx` lists, in order, the indices of `s` whose items pass `pred`.
pub open spec fn is_selection<A>(idx: Seq<int>, s: Seq<A>, pred: spec_fn(A) -> bool) -> bool {
    &&& forall|j: int, k: int| 0 <= j < k < idx.len() ==> #[trigger] idx[j] < #[trigger] idx[k]
    &&& forall|j: int| 0 <= j < idx.len() ==> 0 <= #[trigger] idx[j] < s.len() && pred(s[idx[j]])
    &&& forall|i: int| 0 <= i < s.len() && pred(#[trigger] s[i]) ==> idx.contains(i)
}

/// A filtered sequence holds the items at the indices that the filter selects, in order.
pub proof fn lemma_filter_selection<A>(s: Seq<A>, pred: spec_fn(A) -> bool) -> (idx: Seq<int>)
    ensures
        is_selection(idx, s, pred),
        s.filter(pred) == Seq::new(idx.len(), |j: int| s[idx[j]]),
    decreases s.len(),
{
    reveal(Seq::filter);
    if s.len() == 0 {
        let idx = Seq::<int>::empty();
        assert(s.filter(pred) =~= Seq::new(idx.len(), |j: int| s[idx[j]]));
        idx
    } else {
        let head = s.drop_last();
        let n = s.len() - 1;
        let before = lemma_filter_selection(head, pred);
        assert forall|j: int| 0 <= j < before.len() implies 0 <= #[trigger] before[j] < n
            && head[before[j]] == s[before[j]] && pred(s[before[j]]) by {}
        let idx = if pred(s[n]) {
            before.push(n)
        } else {
            before
        };
        assert(head.filter(pred) =~= Seq::new(before.len(), |j: int| s[before[j]]));
        assert(s.filter(pred) =~= Seq::new(idx.len(), |j: int| s[idx[j]]));
        assert forall|i: int| 0 <= i < s.len() && pred(#[trigger] s[i]) implies idx.contains(i) by {
            if i < n {
                assert(head[i] == s[i]);
                assert(before.contains(i));
                let k = choose|k: int| 0 <= k < before.len() && before[k] == i;
                assert(idx[k] == i);
            } else {
                assert(idx[idx.len() - 1] == n);
            }
        }
        idx
    }
}

} // verus!
