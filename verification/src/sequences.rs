//! Facts about filtered sequences that the proofs of the engine share.

use vstd::prelude::*;

verus! {

/// Filtering keeps nothing where no element passes the test.
pub proof fn lemma_filter_none<A>(s: Seq<A>, pred: spec_fn(A) -> bool)
    requires
        forall|i: int| 0 <= i < s.len() ==> !pred(#[trigger] s[i]),
    ensures
        s.filter(pred) == Seq::<A>::empty(),
    decreases s.len(),
{
    reveal(Seq::filter);
    if s.len() > 0 {
        let front = s.drop_last();
        assert forall|i: int| 0 <= i < front.len() implies !pred(#[trigger] front[i]) by {
            assert(front[i] == s[i]);
        }
        lemma_filter_none(front, pred);
        assert(!pred(s[s.len() - 1]));
    } else {
        assert(s.filter(pred) =~= Seq::<A>::empty());
    }
}

/// Filtering keeps everything where every element passes the test.
pub proof fn lemma_filter_all<A>(s: Seq<A>, pred: spec_fn(A) -> bool)
    requires
        forall|i: int| 0 <= i < s.len() ==> pred(#[trigger] s[i]),
    ensures
        s.filter(pred) == s,
    decreases s.len(),
{
    reveal(Seq::filter);
    if s.len() > 0 {
        let front = s.drop_last();
        assert forall|i: int| 0 <= i < front.len() implies pred(#[trigger] front[i]) by {
            assert(front[i] == s[i]);
        }
        lemma_filter_all(front, pred);
        assert(pred(s[s.len() - 1]));
        assert(front.push(s.last()) =~= s);
    }
}

/// What a filter keeps are the elements that pass the test, and only those.
pub proof fn lemma_filter_members<A>(s: Seq<A>, pred: spec_fn(A) -> bool)
    ensures
        forall|x: A| #[trigger] s.filter(pred).contains(x) <==> s.contains(x) && pred(x),
    decreases s.len(),
{
    reveal(Seq::filter);
    let kept = s.filter(pred);
    if s.len() > 0 {
        let front = s.drop_last();
        let last = s.last();
        lemma_filter_members(front, pred);
        assert forall|x: A| #[trigger] kept.contains(x) <==> s.contains(x) && pred(x) by {
            if kept.contains(x) {
                let i = choose|i: int| 0 <= i < kept.len() && kept[i] == x;
                if pred(last) && i == kept.len() - 1 {
                    assert(s[s.len() - 1] == x);
                } else {
                    assert(front.filter(pred)[i] == x);
                    assert(front.filter(pred).contains(x));
                    let j = choose|j: int| 0 <= j < front.len() && front[j] == x;
                    assert(s[j] == x);
                }
            }
            if s.contains(x) && pred(x) {
                let j = choose|j: int| 0 <= j < s.len() && s[j] == x;
                if j == s.len() - 1 {
                    assert(kept[kept.len() - 1] == x);
                } else {
                    assert(front[j] == x);
                    assert(front.filter(pred).contains(x));
                    let i = choose|i: int| 0 <= i < front.filter(pred).len() && front.filter(pred)[i] == x;
                    assert(kept[i] == x);
                }
            }
        }
    } else {
        assert forall|x: A| #[trigger] kept.contains(x) <==> s.contains(x) && pred(x) by {}
    }
}

/// Filtering twice keeps what passes both tests.
pub proof fn lemma_filter_twice<A>(s: Seq<A>, first: spec_fn(A) -> bool, second: spec_fn(A) -> bool)
    ensures
        s.filter(first).filter(second) == s.filter(|x: A| first(x) && second(x)),
    decreases s.len(),
{
    reveal(Seq::filter);
    let both = |x: A| first(x) && second(x);
    if s.len() > 0 {
        let front = s.drop_last();
        let last = s.last();
        lemma_filter_twice(front, first, second);
        if first(last) {
            front.filter(first).lemma_filter_push(last, second);
        }
    }
}

/// Two tests that agree on every element of a sequence keep the same.
pub proof fn lemma_filter_agree<A>(s: Seq<A>, first: spec_fn(A) -> bool, second: spec_fn(A) -> bool)
    requires
        forall|i: int| 0 <= i < s.len() ==> first(#[trigger] s[i]) == second(s[i]),
    ensures
        s.filter(first) == s.filter(second),
    decreases s.len(),
{
    reveal(Seq::filter);
    if s.len() > 0 {
        let front = s.drop_last();
        assert forall|i: int| 0 <= i < front.len() implies first(#[trigger] front[i]) == second(
            front[i],
        ) by {
            assert(front[i] == s[i]);
        }
        lemma_filter_agree(front, first, second);
        assert(first(s[s.len() - 1]) == second(s[s.len() - 1]));
    }
}

/// `first` stands in `s` at some place before `second`.
pub open spec fn in_order<A>(s: Seq<A>, first: A, second: A) -> bool {
    exists|i: int, j: int|
        #![trigger s[i], s[j]]
        0 <= i && i < j && j < s.len() && s[i] == first && s[j] == second
}

/// A filter keeps the order: of two elements that it keeps, the one that
/// comes first came first before.
pub proof fn lemma_filter_order<A>(s: Seq<A>, pred: spec_fn(A) -> bool)
    ensures
        forall|a: int, b: int|
            0 <= a && a < b && b < s.filter(pred).len() ==> #[trigger] in_order(
                s,
                s.filter(pred)[a],
                s.filter(pred)[b],
            ),
    decreases s.len(),
{
    reveal(Seq::filter);
    let kept = s.filter(pred);
    if s.len() > 0 {
        let front = s.drop_last();
        let last = s.last();
        lemma_filter_order(front, pred);
        lemma_filter_members(front, pred);
        assert forall|a: int, b: int| 0 <= a && a < b && b < kept.len() implies #[trigger] in_order(
            s,
            kept[a],
            kept[b],
        ) by {
            if pred(last) && b == kept.len() - 1 {
                assert(front.filter(pred)[a] == kept[a]);
                assert(front.filter(pred).contains(kept[a]));
                let i = choose|i: int| 0 <= i < front.len() && front[i] == kept[a];
                let j = s.len() - 1;
                assert(s[i] == kept[a] && s[j] == kept[b]);
            } else {
                assert(front.filter(pred)[a] == kept[a]);
                assert(front.filter(pred)[b] == kept[b]);
                assert(in_order(front, front.filter(pred)[a], front.filter(pred)[b]));
                let (i, j) = choose|i: int, j: int|
                    #![trigger front[i], front[j]]
                    0 <= i && i < j && j < front.len() && front[i] == kept[a] && front[j] == kept[b];
                assert(s[i] == kept[a] && s[j] == kept[b]);
            }
        }
    }
}

/// The first element that passes a test is the first that a filter keeps.
pub proof fn lemma_filter_first<A>(s: Seq<A>, pred: spec_fn(A) -> bool, i: int)
    requires
        0 <= i < s.len(),
        pred(s[i]),
        forall|j: int| 0 <= j < i ==> !pred(#[trigger] s[j]),
    ensures
        s.filter(pred).len() > 0,
        s.filter(pred).first() == s[i],
{
    let before = s.take(i);
    let rest = s.skip(i);
    assert(s =~= before + rest);
    Seq::filter_distributes_over_add(before, rest, pred);
    assert forall|j: int| 0 <= j < before.len() implies !pred(#[trigger] before[j]) by {
        assert(before[j] == s[j]);
    }
    lemma_filter_none(before, pred);
    let tail = rest.skip(1);
    assert(rest =~= seq![s[i]] + tail);
    Seq::filter_distributes_over_add(seq![s[i]], tail, pred);
    assert forall|j: int| 0 <= j < seq![s[i]].len() implies pred(#[trigger] seq![s[i]][j]) by {}
    lemma_filter_all(seq![s[i]], pred);
    assert(s.filter(pred) =~= seq![s[i]] + tail.filter(pred));
}

/// Filtering the first `i + 1` elements is filtering the first `i` and then
/// deciding on the next.
pub proof fn lemma_filter_step<A>(s: Seq<A>, pred: spec_fn(A) -> bool, i: int)
    requires
        0 <= i < s.len(),
    ensures
        s.take(i + 1).filter(pred) == if pred(s[i]) {
            s.take(i).filter(pred).push(s[i])
        } else {
            s.take(i).filter(pred)
        },
{
    s.take(i).lemma_filter_push(s[i], pred);
    assert(s.take(i + 1) =~= s.take(i).push(s[i]));
}

/// No two elements of `s` have the same key.
pub open spec fn distinct_by<A, K>(s: Seq<A>, key: spec_fn(A) -> K) -> bool {
    forall|i: int, j: int|
        0 <= i && i < j && j < s.len() ==> key(#[trigger] s[i]) != key(#[trigger] s[j])
}

/// Every element of `s` passes the test.
pub open spec fn all_pass<A>(s: Seq<A>, test: spec_fn(A) -> bool) -> bool {
    forall|i: int| 0 <= i && i < s.len() ==> test(#[trigger] s[i])
}

/// What a filter keeps of elements with distinct keys has distinct keys.
pub proof fn lemma_filter_distinct<A, K>(s: Seq<A>, pred: spec_fn(A) -> bool, key: spec_fn(A) -> K)
    requires
        distinct_by(s, key),
    ensures
        distinct_by(s.filter(pred), key),
{
    let kept = s.filter(pred);
    lemma_filter_order(s, pred);
    assert forall|a: int, b: int| 0 <= a && a < b && b < kept.len() implies key(#[trigger] kept[a])
        != key(#[trigger] kept[b]) by {
        assert(in_order(s, kept[a], kept[b]));
        let (i, j) = choose|i: int, j: int|
            #![trigger s[i], s[j]]
            0 <= i && i < j && j < s.len() && s[i] == kept[a] && s[j] == kept[b];
        assert(key(s[i]) != key(s[j]));
    }
}

/// What a filter keeps of elements that all pass a test passes it too, and
/// passes the filter's own test.
pub proof fn lemma_filter_all_pass<A>(s: Seq<A>, pred: spec_fn(A) -> bool, test: spec_fn(A) -> bool)
    requires
        all_pass(s, test),
    ensures
        all_pass(s.filter(pred), test),
        all_pass(s.filter(pred), pred),
{
    let kept = s.filter(pred);
    lemma_filter_members(s, pred);
    assert forall|a: int| 0 <= a && a < kept.len() implies test(#[trigger] kept[a]) && pred(
        kept[a],
    ) by {
        assert(kept.contains(kept[a]));
        let i = choose|i: int| 0 <= i < s.len() && s[i] == kept[a];
        assert(test(s[i]));
    }
}

/// Where exactly one element passes a test, a filter keeps that element
/// alone.
pub proof fn lemma_filter_only<A>(s: Seq<A>, pred: spec_fn(A) -> bool, k: int)
    requires
        0 <= k < s.len(),
        pred(s[k]),
        forall|j: int| 0 <= j < s.len() && j != k ==> !pred(#[trigger] s[j]),
    ensures
        s.filter(pred) == seq![s[k]],
{
    let before = s.take(k);
    let after = s.skip(k + 1);
    assert(s =~= before + seq![s[k]] + after);
    Seq::filter_distributes_over_add(before + seq![s[k]], after, pred);
    Seq::filter_distributes_over_add(before, seq![s[k]], pred);
    assert forall|j: int| 0 <= j < before.len() implies !pred(#[trigger] before[j]) by {
        assert(before[j] == s[j]);
    }
    assert forall|j: int| 0 <= j < after.len() implies !pred(#[trigger] after[j]) by {
        assert(after[j] == s[k + 1 + j]);
    }
    assert forall|j: int| 0 <= j < seq![s[k]].len() implies pred(#[trigger] seq![s[k]][j]) by {}
    lemma_filter_none(before, pred);
    lemma_filter_none(after, pred);
    lemma_filter_all(seq![s[k]], pred);
    assert(s.filter(pred) =~= seq![s[k]]);
}

} // verus!
