//! Facts about sequences.

use vstd::prelude::*;

verus! {

/// How filtering a sequence grows with the sequence.
pub proof fn lemma_filter_step<A>(s: Seq<A>, i: int, p: spec_fn(A) -> bool)
    requires
        0 <= i < s.len(),
    ensures
        s.take(i + 1).filter(p) == if p(s[i]) {
            s.take(i).filter(p).push(s[i])
        } else {
            s.take(i).filter(p)
        },
{
    reveal(Seq::filter);
    assert(s.take(i + 1).drop_last() =~= s.take(i));
}

/// Filtering an empty sequence.
pub proof fn lemma_filter_none<A>(s: Seq<A>, p: spec_fn(A) -> bool)
    ensures
        s.take(0).filter(p) == Seq::<A>::empty(),
{
    reveal(Seq::filter);
}

/// A filtered sequence holds the items of the sequence that pass the test.
pub proof fn lemma_filter_contains<A>(s: Seq<A>, p: spec_fn(A) -> bool, x: A)
    ensures
        s.filter(p).contains(x) <==> s.contains(x) && p(x),
{
    let kept = s.filter(p);
    if kept.contains(x) {
        let i = choose|i: int| 0 <= i < kept.len() && kept[i] == x;
        s.lemma_filter_pred(p, i);
        s.lemma_filter_contains_rev(p, x);
    }
    if s.contains(x) && p(x) {
        let i = choose|i: int| 0 <= i < s.len() && s[i] == x;
        s.lemma_filter_contains(p, i);
    }
}

/// Filtering keeps different items apart.
pub proof fn lemma_filter_distinct<A>(s: Seq<A>, p: spec_fn(A) -> bool)
    requires
        s.no_duplicates(),
    ensures
        s.filter(p).no_duplicates(),
    decreases s.len(),
{
    reveal(Seq::filter);
    if s.len() > 0 {
        let init = s.drop_last();
        let kept = init.filter(p);
        lemma_filter_distinct(init, p);
        if kept.contains(s.last()) {
            lemma_filter_contains(init, p, s.last());
            let i = choose|i: int| 0 <= i < init.len() && init[i] == s.last();
            assert(s[i] == s[s.len() - 1]);
        }
        assert forall|i: int, j: int|
            0 <= i < s.filter(p).len() && 0 <= j < s.filter(p).len() && i != j implies s.filter(
            p,
        )[i] != s.filter(p)[j] by {
            if i < kept.len() {
                assert(kept.contains(kept[i]));
            }
            if j < kept.len() {
                assert(kept.contains(kept[j]));
            }
        }
    }
}

/// Filtering a single item.
pub proof fn lemma_filter_one<A>(x: A, p: spec_fn(A) -> bool)
    ensures
        seq![x].filter(p) == if p(x) {
            seq![x]
        } else {
            Seq::<A>::empty()
        },
{
    let s = seq![x];
    lemma_filter_none(s, p);
    lemma_filter_step(s, 0, p);
    assert(s.take(1) =~= s);
    assert(Seq::<A>::empty().push(x) =~= s);
}

/// Filtering keeps the order of the items that pass the test.
pub proof fn lemma_filter_order<A>(s: Seq<A>, p: spec_fn(A) -> bool, i: int, j: int)
    requires
        0 <= i < j < s.len(),
        p(s[i]),
        p(s[j]),
    ensures
        exists|k: int, l: int|
            0 <= k < l < s.filter(p).len() && #[trigger] s.filter(p)[k] == s[i]
                && #[trigger] s.filter(p)[l] == s[j],
{
    let head = s.take(j);
    let tail = s.skip(j);
    assert(head + tail =~= s);
    Seq::filter_distributes_over_add(head, tail, p);
    assert(head[i] == s[i]);
    assert(tail[0] == s[j]);
    lemma_filter_contains(head, p, s[i]);
    lemma_filter_contains(tail, p, s[j]);
    assert(head.contains(s[i]));
    assert(tail.contains(s[j]));
    let a = head.filter(p);
    let b = tail.filter(p);
    let k = choose|k: int| 0 <= k < a.len() && a[k] == s[i];
    let l = choose|l: int| 0 <= l < b.len() && b[l] == s[j];
    assert(s.filter(p)[k] == s[i]);
    assert(s.filter(p)[a.len() + l] == s[j]);
}

} // verus!
