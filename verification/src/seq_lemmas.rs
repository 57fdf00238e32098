//! Facts about filtered sequences that the store's proofs share.

use vstd::prelude::*;

verus! {

/// Filtering after an element was appended.
pub proof fn lemma_filter_push<A>(s: Seq<A>, x: A, pred: spec_fn(A) -> bool)
    ensures
        s.push(x).filter(pred) == if pred(x) {
            s.filter(pred).push(x)
        } else {
            s.filter(pred)
        },
{
    reveal(Seq::filter);
    assert(s.push(x).drop_last() =~= s);
}

/// A filter that every element passes changes nothing.
pub proof fn lemma_filter_all<A>(s: Seq<A>, pred: spec_fn(A) -> bool)
    requires
        forall|i: int| 0 <= i < s.len() ==> pred(#[trigger] s[i]),
    ensures
        s.filter(pred) == s,
    decreases s.len(),
{
    reveal(Seq::filter);
    if s.len() > 0 {
        lemma_filter_all(s.drop_last(), pred);
        assert(s.drop_last().push(s.last()) =~= s);
    }
}

/// A filter that no element passes leaves nothing.
pub proof fn lemma_filter_none<A>(s: Seq<A>, pred: spec_fn(A) -> bool)
    requires
        forall|i: int| 0 <= i < s.len() ==> !pred(#[trigger] s[i]),
    ensures
        s.filter(pred) == Seq::<A>::empty(),
    decreases s.len(),
{
    reveal(Seq::filter);
    if s.len() > 0 {
        lemma_filter_none(s.drop_last(), pred);
    }
}

/// A filter that exactly one element fails removes that element.
pub proof fn lemma_filter_one_out<A>(s: Seq<A>, pred: spec_fn(A) -> bool, k: int)
    requires
        0 <= k < s.len(),
        !pred(s[k]),
        forall|i: int| 0 <= i < s.len() && i != k ==> pred(#[trigger] s[i]),
    ensures
        s.filter(pred) == s.remove(k),
    decreases s.len(),
{
    reveal(Seq::filter);
    if k == s.len() - 1 {
        lemma_filter_all(s.drop_last(), pred);
        assert(s.remove(k) =~= s.drop_last());
    } else {
        lemma_filter_one_out(s.drop_last(), pred, k);
        assert(s.drop_last().remove(k).push(s.last()) =~= s.remove(k));
    }
}

/// Filtering twice is filtering once where every element that passes the
/// second filter passes the first.
pub proof fn lemma_filter_twice<A>(s: Seq<A>, first: spec_fn(A) -> bool, second: spec_fn(A) -> bool)
    requires
        forall|i: int| 0 <= i < s.len() && second(#[trigger] s[i]) ==> first(s[i]),
    ensures
        s.filter(first).filter(second) == s.filter(second),
    decreases s.len(),
{
    reveal(Seq::filter);
    if s.len() > 0 {
        lemma_filter_twice(s.drop_last(), first, second);
        if first(s.last()) {
            lemma_filter_push(s.drop_last().filter(first), s.last(), second);
        }
    }
}

/// Filtering after one element was replaced by another that fails the
/// filter as the first did.
pub proof fn lemma_filter_update_out<A>(s: Seq<A>, k: int, x: A, pred: spec_fn(A) -> bool)
    requires
        0 <= k < s.len(),
        !pred(s[k]),
        !pred(x),
    ensures
        s.update(k, x).filter(pred) == s.filter(pred),
    decreases s.len(),
{
    reveal(Seq::filter);
    if k == s.len() - 1 {
        assert(s.update(k, x).drop_last() =~= s.drop_last());
    } else {
        lemma_filter_update_out(s.drop_last(), k, x, pred);
        assert(s.update(k, x).drop_last() =~= s.drop_last().update(k, x));
    }
}

/// Every element of a filtered sequence stood in the sequence and passes
/// the filter, and the elements keep their order: each stood behind the one
/// before it.
pub proof fn lemma_filter_keeps_order<A>(s: Seq<A>, pred: spec_fn(A) -> bool) -> (at: Seq<int>)
    ensures
        at.len() == s.filter(pred).len(),
        forall|i: int|
            0 <= i < at.len() ==> 0 <= #[trigger] at[i] < s.len() && s.filter(pred)[i] == s[at[i]]
                && pred(s[at[i]]),
        forall|i: int, j: int| 0 <= i < j < at.len() ==> #[trigger] at[i] < #[trigger] at[j],
        forall|k: int|
            0 <= k < s.len() && pred(#[trigger] s[k]) ==> exists|i: int|
                0 <= i < at.len() && at[i] == k,
    decreases s.len(),
{
    reveal(Seq::filter);
    if s.len() == 0 {
        Seq::empty()
    } else {
        let rest = lemma_filter_keeps_order(s.drop_last(), pred);
        let at = if pred(s.last()) {
            rest.push(s.len() - 1)
        } else {
            rest
        };
        assert forall|k: int| 0 <= k < s.len() && pred(#[trigger] s[k]) implies exists|i: int|
            0 <= i < at.len() && at[i] == k by {
            if k < s.len() - 1 {
                assert(s.drop_last()[k] == s[k]);
                let i = choose|i: int| 0 <= i < rest.len() && rest[i] == k;
                assert(at[i] == k);
            } else {
                assert(at[at.len() - 1] == k);
            }
        }
        at
    }
}

/// Each element stands before every later one in the given order.
pub open spec fn sorted_by<A>(s: Seq<A>, before: spec_fn(A, A) -> bool) -> bool {
    forall|p: int, q: int| 0 <= p < q < s.len() ==> before(#[trigger] s[p], #[trigger] s[q])
}

/// Inserting an element behind all that stand before it and in front of all
/// that it stands before keeps a sequence sorted.
pub proof fn lemma_insert_keeps_sorted<A>(
    s: Seq<A>,
    x: A,
    at: int,
    before: spec_fn(A, A) -> bool,
)
    requires
        sorted_by(s, before),
        0 <= at <= s.len(),
        forall|q: int| 0 <= q < at ==> before(#[trigger] s[q], x),
        forall|q: int| at <= q < s.len() ==> before(x, #[trigger] s[q]),
    ensures
        sorted_by(s.insert(at, x), before),
{
    let t = s.insert(at, x);
    assert forall|p: int, q: int| 0 <= p < q < t.len() implies before(
        #[trigger] t[p],
        #[trigger] t[q],
    ) by {
        if p < at {
            assert(t[p] == s[p]);
        } else if p > at {
            assert(t[p] == s[p - 1]);
        }
        if q < at {
            assert(t[q] == s[q]);
        } else if q > at {
            assert(t[q] == s[q - 1]);
        }
    }
}

/// Two sorted sequences that hold the same elements are equal, where the
/// order never puts two elements before each other.
pub proof fn lemma_sorted_is_unique<A>(s1: Seq<A>, s2: Seq<A>, before: spec_fn(A, A) -> bool)
    requires
        sorted_by(s1, before),
        sorted_by(s2, before),
        forall|x: A| s1.contains(x) <==> s2.contains(x),
        forall|a: A, b: A| #[trigger] before(a, b) ==> !before(b, a),
    ensures
        s1 == s2,
    decreases s1.len(),
{
    if s1.len() == 0 {
        if s2.len() > 0 {
            assert(s2.contains(s2[0]));
        }
        assert(s1 =~= s2);
    } else {
        assert(s1.contains(s1[0]));
        assert(s2.len() > 0);
        assert(s2.contains(s2[0]));
        let i = choose|i: int| 0 <= i < s2.len() && s2[i] == s1[0];
        let j = choose|j: int| 0 <= j < s1.len() && s1[j] == s2[0];
        if i > 0 && j > 0 {
            assert(before(s2[0], s2[i]));
            assert(before(s1[0], s1[j]));
        }
        if i > 0 && j == 0 {
            assert(before(s2[0], s2[i]));
        }
        if j > 0 && i == 0 {
            assert(before(s1[0], s1[j]));
        }
        assert(s1[0] == s2[0]);
        let t1 = s1.skip(1);
        let t2 = s2.skip(1);
        assert forall|x: A| t1.contains(x) <==> t2.contains(x) by {
            if t1.contains(x) {
                let k = choose|k: int| 0 <= k < t1.len() && t1[k] == x;
                assert(s1[k + 1] == x);
                assert(before(s1[0], s1[k + 1]));
                assert(s1.contains(x));
                let m = choose|m: int| 0 <= m < s2.len() && s2[m] == x;
                assert(m > 0);
                assert(t2[m - 1] == x);
            }
            if t2.contains(x) {
                let k = choose|k: int| 0 <= k < t2.len() && t2[k] == x;
                assert(s2[k + 1] == x);
                assert(before(s2[0], s2[k + 1]));
                assert(s2.contains(x));
                let m = choose|m: int| 0 <= m < s1.len() && s1[m] == x;
                assert(m > 0);
                assert(t1[m - 1] == x);
            }
        }
        assert(sorted_by(t1, before)) by {
            assert forall|p: int, q: int| 0 <= p < q < t1.len() implies before(
                #[trigger] t1[p],
                #[trigger] t1[q],
            ) by {
                assert(before(s1[p + 1], s1[q + 1]));
            }
        }
        assert(sorted_by(t2, before)) by {
            assert forall|p: int, q: int| 0 <= p < q < t2.len() implies before(
                #[trigger] t2[p],
                #[trigger] t2[q],
            ) by {
                assert(before(s2[p + 1], s2[q + 1]));
            }
        }
        lemma_sorted_is_unique(t1, t2, before);
        assert(s1 =~= seq![s1[0]] + t1);
        assert(s2 =~= seq![s2[0]] + t2);
    }
}

/// What a sequence holds after an insertion: the new element, and what it
/// held before.
pub proof fn lemma_insert_contains<A>(s: Seq<A>, x: A, at: int)
    requires
        0 <= at <= s.len(),
    ensures
        s.insert(at, x).contains(x),
        forall|y: A| s.contains(y) ==> #[trigger] s.insert(at, x).contains(y),
        forall|p: int|
            0 <= p < s.len() + 1 ==> (#[trigger] s.insert(at, x)[p]) == x || s.contains(
                s.insert(at, x)[p],
            ),
{
    let t = s.insert(at, x);
    assert(t[at] == x);
    assert forall|y: A| s.contains(y) implies #[trigger] t.contains(y) by {
        let i = choose|i: int| 0 <= i < s.len() && s[i] == y;
        if i < at {
            assert(t[i] == y);
        } else {
            assert(t[i + 1] == y);
        }
    }
    assert forall|p: int| 0 <= p < s.len() + 1 implies (#[trigger] t[p]) == x || s.contains(
        t[p],
    ) by {
        if p < at {
            assert(s[p] == t[p]);
        } else if p > at {
            assert(s[p - 1] == t[p]);
        }
    }
}

} // verus!
