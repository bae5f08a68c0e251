//! Searching a table, modelled as a sequence of rows, for the first row that
//! satisfies a predicate — the shape shared by every lookup the storage
//! engine performs.

use vstd::prelude::*;

verus! {

/// Index of the first row satisfying `pred`, scanning left to right.
pub open spec fn index_of_first_match<T>(rows: Seq<T>, pred: spec_fn(T) -> bool) -> Option<int>
    decreases rows.len(),
{
    if rows.len() == 0 {
        None
    } else if pred(rows[0]) {
        Some(0int)
    } else {
        match index_of_first_match(rows.drop_first(), pred) {
            Some(i) => Some(i + 1),
            None => None,
        }
    }
}

/// The first row satisfying `pred`, if any.
pub open spec fn first_match<T>(rows: Seq<T>, pred: spec_fn(T) -> bool) -> Option<T> {
    match index_of_first_match(rows, pred) {
        Some(i) => Some(rows[i]),
        None => None,
    }
}

/// What `index_of_first_match` returns, spelled out: `None` exactly when no
/// row matches; otherwise the index of a matching row that no earlier row
/// precedes.
pub proof fn lemma_index_of_first_match<T>(rows: Seq<T>, pred: spec_fn(T) -> bool)
    ensures
        match index_of_first_match(rows, pred) {
            None => forall|j: int| 0 <= j < rows.len() ==> !pred(#[trigger] rows[j]),
            Some(i) => {
                &&& 0 <= i < rows.len()
                &&& pred(rows[i])
                &&& forall|j: int| 0 <= j < i ==> !pred(#[trigger] rows[j])
            },
        },
    decreases rows.len(),
{
    if rows.len() > 0 && !pred(rows[0]) {
        let rest = rows.drop_first();
        lemma_index_of_first_match(rest, pred);
        match index_of_first_match(rest, pred) {
            None => {
                assert forall|j: int| 0 <= j < rows.len() implies !pred(#[trigger] rows[j]) by {
                    if j > 0 {
                        assert(rows[j] == rest[j - 1]);
                    }
                }
            },
            Some(i) => {
                assert(rows[i + 1] == rest[i]);
                assert forall|j: int| 0 <= j < i + 1 implies !pred(#[trigger] rows[j]) by {
                    if j > 0 {
                        assert(rows[j] == rest[j - 1]);
                    }
                }
            },
        }
    }
}

/// Converse direction: a matching row that no earlier row precedes is the
/// first match.
pub proof fn lemma_first_match_at<T>(rows: Seq<T>, pred: spec_fn(T) -> bool, i: int)
    requires
        0 <= i < rows.len(),
        pred(rows[i]),
        forall|j: int| 0 <= j < i ==> !pred(#[trigger] rows[j]),
    ensures
        index_of_first_match(rows, pred) == Some(i),
    decreases rows.len(),
{
    if i > 0 {
        assert(forall|j: int|
            0 <= j < rows.drop_first().len() ==> #[trigger] rows.drop_first()[j] == rows[j + 1]);
        lemma_first_match_at(rows.drop_first(), pred, i - 1);
    }
}

/// A table in which no row matches filters to nothing.
pub proof fn lemma_filter_empty<T>(rows: Seq<T>, pred: spec_fn(T) -> bool)
    requires
        forall|j: int| 0 <= j < rows.len() ==> !pred(#[trigger] rows[j]),
    ensures
        rows.filter(pred) == Seq::<T>::empty(),
    decreases rows.len(),
{
    reveal(Seq::filter);
    if rows.len() > 0 {
        lemma_filter_empty(rows.drop_last(), pred);
    }
    assert(rows.filter(pred) =~= Seq::<T>::empty());
}

/// A table in which exactly one row matches filters to exactly that row.
pub proof fn lemma_filter_single_match<T>(rows: Seq<T>, pred: spec_fn(T) -> bool, i: int)
    requires
        0 <= i < rows.len(),
        pred(rows[i]),
        forall|j: int| 0 <= j < rows.len() && j != i ==> !pred(#[trigger] rows[j]),
    ensures
        rows.filter(pred) == seq![rows[i]],
    decreases rows.len(),
{
    reveal(Seq::filter);
    if i == rows.len() - 1 {
        lemma_filter_empty(rows.drop_last(), pred);
    } else {
        lemma_filter_single_match(rows.drop_last(), pred, i);
    }
    assert(rows.filter(pred) =~= seq![rows[i]]);
}

/// Two disjoint listings that together cover a scope split the scope's
/// filtered rows exactly: their lengths add up, every scoped row lands in
/// one of the two, and no row value lands in both.
pub proof fn lemma_filter_split<T>(
    rows: Seq<T>,
    scope: spec_fn(T) -> bool,
    part1: spec_fn(T) -> bool,
    part2: spec_fn(T) -> bool,
)
    requires
        forall|t: T| #[trigger] part1(t) == (scope(t) && !part2(t)),
        forall|t: T| #[trigger] part2(t) ==> scope(t),
    ensures
        rows.filter(part1).len() + rows.filter(part2).len() == rows.filter(scope).len(),
        forall|j: int|
            0 <= j < rows.len() && scope(#[trigger] rows[j]) ==> rows.filter(part1).contains(
                rows[j],
            ) || rows.filter(part2).contains(rows[j]),
        forall|t: T| !(#[trigger] rows.filter(part1).contains(t) && rows.filter(part2).contains(t)),
    decreases rows.len(),
{
    broadcast use Seq::lemma_filter_contains;
    broadcast use Seq::lemma_filter_pred;

    reveal(Seq::filter);
    if rows.len() > 0 {
        lemma_filter_split(rows.drop_last(), scope, part1, part2);
        assert(forall|j: int|
            0 <= j < rows.drop_last().len() ==> #[trigger] rows.drop_last()[j] == rows[j]);
    }
    assert forall|t: T| !(#[trigger] rows.filter(part1).contains(t) && rows.filter(part2).contains(
        t,
    )) by {
        if rows.filter(part1).contains(t) && rows.filter(part2).contains(t) {
            let k1 = choose|k: int|
                0 <= k < rows.filter(part1).len() && rows.filter(part1)[k] == t;
            let k2 = choose|k: int|
                0 <= k < rows.filter(part2).len() && rows.filter(part2)[k] == t;
            assert(part1(rows.filter(part1)[k1]));
            assert(part2(rows.filter(part2)[k2]));
        }
    }
}

/// Converse direction: when no row matches, there is no first match.
pub proof fn lemma_no_match<T>(rows: Seq<T>, pred: spec_fn(T) -> bool)
    requires
        forall|j: int| 0 <= j < rows.len() ==> !pred(#[trigger] rows[j]),
    ensures
        index_of_first_match(rows, pred) is None,
    decreases rows.len(),
{
    if rows.len() > 0 {
        assert(forall|j: int|
            0 <= j < rows.drop_first().len() ==> #[trigger] rows.drop_first()[j] == rows[j + 1]);
        lemma_no_match(rows.drop_first(), pred);
    }
}

} // verus!
