//! A stable insertion sort, as a specification shared by the span and
//! event ordering of the text engine.

use vstd::prelude::*;

verus! {

/// The sequence `sorted` with `x` inserted after every element `e` with
/// `leq(e, x)` that it follows; on a sorted sequence this places `x` after
/// all elements it does not strictly precede, which keeps elements with
/// equal keys in their original order.
pub open spec fn spec_insert_by<A>(sorted: Seq<A>, x: A, leq: spec_fn(A, A) -> bool) -> Seq<A>
    decreases sorted.len(),
{
    if sorted.len() == 0 {
        seq![x]
    } else if leq(sorted.last(), x) {
        sorted.push(x)
    } else {
        spec_insert_by(sorted.drop_last(), x, leq).push(sorted.last())
    }
}

/// The stable sort of a sequence under `leq`: every element inserted, in
/// order, into the sorted sequence of those before it.
pub open spec fn spec_sort_by<A>(s: Seq<A>, leq: spec_fn(A, A) -> bool) -> Seq<A>
    decreases s.len(),
{
    if s.len() == 0 {
        Seq::empty()
    } else {
        spec_insert_by(spec_sort_by(s.drop_last(), leq), s.last(), leq)
    }
}

/// Non-decreasing under `leq`.
pub open spec fn spec_sorted_by<A>(s: Seq<A>, leq: spec_fn(A, A) -> bool) -> bool {
    forall|i: int, j: int| 0 <= i < j < s.len() ==> leq(#[trigger] s[i], #[trigger] s[j])
}

/// Where every element from position `p` on is strictly above `x` and the
/// element just before `p` (if any) is not, insertion puts `x` at `p`.
pub proof fn lemma_insert_by_at<A>(sorted: Seq<A>, x: A, leq: spec_fn(A, A) -> bool, p: int)
    requires
        0 <= p <= sorted.len(),
        forall|j: int| p <= j < sorted.len() ==> !leq(#[trigger] sorted[j], x),
        p > 0 ==> leq(sorted[p - 1], x),
    ensures
        spec_insert_by(sorted, x, leq) == sorted.take(p) + seq![x] + sorted.skip(p),
    decreases sorted.len(),
{
    if sorted.len() == 0 {
        assert(spec_insert_by(sorted, x, leq) =~= sorted.take(p) + seq![x] + sorted.skip(p));
    } else if p == sorted.len() {
        assert(spec_insert_by(sorted, x, leq) =~= sorted.take(p) + seq![x] + sorted.skip(p));
    } else {
        lemma_insert_by_at(sorted.drop_last(), x, leq, p);
        assert(sorted.drop_last().take(p) =~= sorted.take(p));
        assert(sorted.drop_last().skip(p) =~= sorted.skip(p).drop_last());
        assert(spec_insert_by(sorted, x, leq) =~= sorted.take(p) + seq![x] + sorted.skip(p));
    }
}

/// Inserting into a sorted sequence keeps it sorted, when `leq` is total
/// and transitive.
pub proof fn lemma_insert_by_sorted<A>(sorted: Seq<A>, x: A, leq: spec_fn(A, A) -> bool)
    requires
        spec_sorted_by(sorted, leq),
        forall|a: A, b: A| #[trigger] leq(a, b) || #[trigger] leq(b, a),
        forall|a: A, b: A, c: A| #[trigger] leq(a, b) && #[trigger] leq(b, c) ==> leq(a, c),
    ensures
        spec_sorted_by(spec_insert_by(sorted, x, leq), leq),
    decreases sorted.len(),
{
    if sorted.len() == 0 {
    } else if leq(sorted.last(), x) {
        let r = sorted.push(x);
        assert forall|i: int, j: int| 0 <= i < j < r.len() implies leq(r[i], r[j]) by {
            if j == r.len() - 1 && i < sorted.len() - 1 {
                assert(leq(sorted[i], sorted.last()));
            }
        }
    } else {
        lemma_insert_by_sorted(sorted.drop_last(), x, leq);
        let inner = spec_insert_by(sorted.drop_last(), x, leq);
        let r = inner.push(sorted.last());
        assert forall|i: int, j: int| 0 <= i < j < r.len() implies leq(r[i], r[j]) by {
            if j == r.len() - 1 {
                lemma_insert_by_elements(sorted.drop_last(), x, leq, i);
                if inner[i] == x {
                    assert(leq(x, sorted.last()));
                } else {
                    let w = choose|w: int|
                        0 <= w < sorted.drop_last().len() && sorted.drop_last()[w] == inner[i];
                    assert(leq(sorted[w], sorted.last()));
                }
            }
        }
    }
}

/// Every element of an insertion result is the inserted element or one of
/// the sorted sequence.
pub proof fn lemma_insert_by_elements<A>(
    sorted: Seq<A>,
    x: A,
    leq: spec_fn(A, A) -> bool,
    i: int,
)
    requires
        0 <= i < spec_insert_by(sorted, x, leq).len(),
    ensures
        spec_insert_by(sorted, x, leq)[i] == x || sorted.contains(
            spec_insert_by(sorted, x, leq)[i],
        ),
    decreases sorted.len(),
{
    if sorted.len() == 0 {
    } else if leq(sorted.last(), x) {
    } else {
        if i < spec_insert_by(sorted, x, leq).len() - 1 {
            lemma_insert_by_elements(sorted.drop_last(), x, leq, i);
            if sorted.drop_last().contains(spec_insert_by(sorted, x, leq)[i]) {
                let w = choose|w: int|
                    0 <= w < sorted.drop_last().len() && sorted.drop_last()[w] == spec_insert_by(
                        sorted,
                        x,
                        leq,
                    )[i];
                assert(sorted[w] == spec_insert_by(sorted, x, leq)[i]);
            }
        } else {
            assert(sorted[sorted.len() - 1] == spec_insert_by(sorted, x, leq)[i]);
        }
    }
}

/// Insertion adds exactly the inserted element to the multiset of
/// elements.
pub proof fn lemma_insert_by_multiset<A>(sorted: Seq<A>, x: A, leq: spec_fn(A, A) -> bool)
    ensures
        spec_insert_by(sorted, x, leq).to_multiset() == sorted.to_multiset().insert(x),
    decreases sorted.len(),
{
    broadcast use vstd::seq_lib::group_to_multiset_ensures;

    if sorted.len() == 0 {
        assert(spec_insert_by(sorted, x, leq) =~= Seq::empty().push(x));
        assert(Seq::<A>::empty().push(x).to_multiset() =~= Seq::<A>::empty().to_multiset().insert(
            x,
        ));
        assert(sorted =~= Seq::<A>::empty());
    } else if leq(sorted.last(), x) {
    } else {
        lemma_insert_by_multiset(sorted.drop_last(), x, leq);
        assert(sorted.drop_last().push(sorted.last()) =~= sorted);
        assert(spec_insert_by(sorted, x, leq).to_multiset() =~= sorted.to_multiset().insert(x));
    }
}

/// The stable sort is sorted, when `leq` is total and transitive.
pub proof fn lemma_sort_by_sorted<A>(s: Seq<A>, leq: spec_fn(A, A) -> bool)
    requires
        forall|a: A, b: A| #[trigger] leq(a, b) || #[trigger] leq(b, a),
        forall|a: A, b: A, c: A| #[trigger] leq(a, b) && #[trigger] leq(b, c) ==> leq(a, c),
    ensures
        spec_sorted_by(spec_sort_by(s, leq), leq),
    decreases s.len(),
{
    if s.len() > 0 {
        lemma_sort_by_sorted(s.drop_last(), leq);
        lemma_insert_by_sorted(spec_sort_by(s.drop_last(), leq), s.last(), leq);
    }
}

/// The stable sort permutes the elements: the multisets agree.
pub proof fn lemma_sort_by_multiset<A>(s: Seq<A>, leq: spec_fn(A, A) -> bool)
    ensures
        spec_sort_by(s, leq).to_multiset() == s.to_multiset(),
    decreases s.len(),
{
    broadcast use vstd::seq_lib::group_to_multiset_ensures;

    if s.len() == 0 {
        assert(spec_sort_by(s, leq) =~= s);
    } else {
        lemma_sort_by_multiset(s.drop_last(), leq);
        lemma_insert_by_multiset(spec_sort_by(s.drop_last(), leq), s.last(), leq);
        assert(s.drop_last().push(s.last()) =~= s);
        assert(spec_sort_by(s, leq).to_multiset() =~= s.to_multiset());
    }
}

/// Every element of the stable sort occurs in the original sequence.
pub proof fn lemma_sort_by_contains<A>(s: Seq<A>, leq: spec_fn(A, A) -> bool, x: A)
    ensures
        spec_sort_by(s, leq).contains(x) <==> s.contains(x),
{
    broadcast use vstd::seq_lib::group_to_multiset_ensures;

    lemma_sort_by_multiset(s, leq);
    assert(spec_sort_by(s, leq).contains(x) <==> spec_sort_by(s, leq).to_multiset().count(x) > 0);
    assert(s.contains(x) <==> s.to_multiset().count(x) > 0);
}

} // verus!
