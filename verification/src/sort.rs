//! Stable sorting, stated over sequences.
//!
//! `stable_sort` says what the order of a plan is, for any relation. The
//! lemmas say what that order is worth: it always holds the same items, and
//! where the relation is a total preorder it is ascending and keeps items
//! that tie in the order in which they came.

use vstd::multiset::Multiset;
use vstd::prelude::*;
use vstd::relations::{sorted_by, strongly_connected, transitive};
use vstd::seq_lib::{
    lemma_multiset_commutative, to_multiset_build, to_multiset_contains, to_multiset_len,
    to_multiset_remove,
};

verus! {

/// Any two items compare one way or the other, and the relation is transitive.
pub open spec fn total_preorder<A>(le: spec_fn(A, A) -> bool) -> bool {
    strongly_connected(le) && transitive(le)
}

/// The items that sort neither before nor after `key`.
pub open spec fn ties_with<A>(le: spec_fn(A, A) -> bool, key: A) -> spec_fn(A) -> bool {
    |item: A| le(item, key) && le(key, item)
}

/// Two runs merged into one. Where the last items of both tie, the one of
/// `right` goes last: `left` comes first.
pub open spec fn merge<A>(left: Seq<A>, right: Seq<A>, le: spec_fn(A, A) -> bool) -> Seq<A>
    decreases left.len() + right.len(),
{
    if left.len() == 0 {
        right
    } else if right.len() == 0 {
        left
    } else if le(left.last(), right.last()) {
        merge(left, right.drop_last(), le).push(right.last())
    } else {
        merge(left.drop_last(), right, le).push(left.last())
    }
}

/// The sequence split in two halves, each sorted, the two merged.
pub open spec fn stable_sort<A>(items: Seq<A>, le: spec_fn(A, A) -> bool) -> Seq<A>
    decreases items.len(),
{
    if items.len() <= 1 {
        items
    } else {
        let mid = (items.len() / 2) as int;
        merge(
            stable_sort(items.subrange(0, mid), le),
            stable_sort(items.subrange(mid, items.len() as int), le),
            le,
        )
    }
}

/// Merging loses and invents nothing.
pub proof fn lemma_merge_permutes<A>(left: Seq<A>, right: Seq<A>, le: spec_fn(A, A) -> bool)
    ensures
        merge(left, right, le).len() == left.len() + right.len(),
        merge(left, right, le).to_multiset() =~= left.to_multiset().add(right.to_multiset()),
    decreases left.len() + right.len(),
{
    if left.len() == 0 {
        to_multiset_len(left);
        assert(left.to_multiset() =~= Multiset::empty());
    } else if right.len() == 0 {
        to_multiset_len(right);
        assert(right.to_multiset() =~= Multiset::empty());
    } else if le(left.last(), right.last()) {
        lemma_merge_permutes(left, right.drop_last(), le);
        to_multiset_build(merge(left, right.drop_last(), le), right.last());
        to_multiset_build(right.drop_last(), right.last());
        assert(right.drop_last().push(right.last()) =~= right);
    } else {
        lemma_merge_permutes(left.drop_last(), right, le);
        to_multiset_build(merge(left.drop_last(), right, le), left.last());
        to_multiset_build(left.drop_last(), left.last());
        assert(left.drop_last().push(left.last()) =~= left);
    }
}

/// Every item of a merged run comes from one of the two runs.
pub proof fn lemma_merge_members<A>(left: Seq<A>, right: Seq<A>, le: spec_fn(A, A) -> bool)
    ensures
        forall|k: int|
            0 <= k < merge(left, right, le).len() ==> left.contains(
                #[trigger] merge(left, right, le)[k],
            ) || right.contains(merge(left, right, le)[k]),
    decreases left.len() + right.len(),
{
    let merged = merge(left, right, le);
    if left.len() == 0 || right.len() == 0 {
        assert forall|k: int| 0 <= k < merged.len() implies left.contains(#[trigger] merged[k])
            || right.contains(merged[k]) by {
            if left.len() == 0 {
                assert(right[k] == merged[k]);
            } else {
                assert(left[k] == merged[k]);
            }
        }
    } else if le(left.last(), right.last()) {
        let rest = merge(left, right.drop_last(), le);
        lemma_merge_members(left, right.drop_last(), le);
        assert forall|k: int| 0 <= k < merged.len() implies left.contains(#[trigger] merged[k])
            || right.contains(merged[k]) by {
            if k < rest.len() {
                assert(merged[k] == rest[k]);
                if !left.contains(rest[k]) {
                    let j = choose|j: int|
                        0 <= j < right.drop_last().len() && right.drop_last()[j] == rest[k];
                    assert(right[j] == merged[k]);
                }
            } else {
                assert(right[right.len() - 1] == merged[k]);
            }
        }
    } else {
        let rest = merge(left.drop_last(), right, le);
        lemma_merge_members(left.drop_last(), right, le);
        assert forall|k: int| 0 <= k < merged.len() implies left.contains(#[trigger] merged[k])
            || right.contains(merged[k]) by {
            if k < rest.len() {
                assert(merged[k] == rest[k]);
                if !right.contains(rest[k]) {
                    let j = choose|j: int|
                        0 <= j < left.drop_last().len() && left.drop_last()[j] == rest[k];
                    assert(left[j] == merged[k]);
                }
            } else {
                assert(left[left.len() - 1] == merged[k]);
            }
        }
    }
}

/// No item of an ascending run sorts after the run's last item.
proof fn lemma_last_is_greatest<A>(run: Seq<A>, le: spec_fn(A, A) -> bool, item: A)
    requires
        total_preorder(le),
        sorted_by(run, le),
        run.contains(item),
    ensures
        le(item, run.last()),
{
    let j = choose|j: int| 0 <= j < run.len() && run[j] == item;
    if j == run.len() - 1 {
        assert(le(item, item) || le(item, item));
    }
}

/// Two ascending runs merge into an ascending run.
pub proof fn lemma_merge_sorted<A>(left: Seq<A>, right: Seq<A>, le: spec_fn(A, A) -> bool)
    requires
        total_preorder(le),
        sorted_by(left, le),
        sorted_by(right, le),
    ensures
        sorted_by(merge(left, right, le), le),
    decreases left.len() + right.len(),
{
    let merged = merge(left, right, le);
    if left.len() == 0 || right.len() == 0 {
    } else {
        let from_right = le(left.last(), right.last());
        let last = if from_right {
            right.last()
        } else {
            left.last()
        };
        let (shorter_left, shorter_right) = if from_right {
            (left, right.drop_last())
        } else {
            (left.drop_last(), right)
        };
        let rest = merge(shorter_left, shorter_right, le);
        assert(merged == rest.push(last));
        assert(le(left.last(), right.last()) || le(right.last(), left.last()));
        lemma_merge_sorted(shorter_left, shorter_right, le);
        lemma_merge_members(shorter_left, shorter_right, le);
        assert forall|i: int, j: int| 0 <= i < j < merged.len() implies #[trigger] le(
            merged[i],
            merged[j],
        ) by {
            if j < rest.len() {
                assert(le(rest[i], rest[j]));
            } else {
                let item = rest[i];
                if shorter_left.contains(item) {
                    let k = choose|k: int| 0 <= k < shorter_left.len() && shorter_left[k] == item;
                    assert(left[k] == item);
                    lemma_last_is_greatest(left, le, item);
                    assert(le(item, left.last()));
                } else {
                    let k = choose|k: int|
                        0 <= k < shorter_right.len() && shorter_right[k] == item;
                    assert(right[k] == item);
                    lemma_last_is_greatest(right, le, item);
                    assert(le(item, right.last()));
                }
                assert(le(item, last));
            }
        }
    }
}

/// A run none of whose items passes the test filters to nothing.
proof fn lemma_filter_none<A>(run: Seq<A>, test: spec_fn(A) -> bool)
    requires
        forall|k: int| 0 <= k < run.len() ==> !test(#[trigger] run[k]),
    ensures
        run.filter(test) =~= Seq::empty(),
    decreases run.len(),
{
    reveal(Seq::filter);
    if run.len() > 0 {
        assert forall|k: int| 0 <= k < run.drop_last().len() implies !test(
            #[trigger] run.drop_last()[k],
        ) by {
            assert(run.drop_last()[k] == run[k]);
        }
        lemma_filter_none(run.drop_last(), test);
    }
}

/// Filtering a run with one more item.
proof fn lemma_filter_push<A>(run: Seq<A>, item: A, test: spec_fn(A) -> bool)
    ensures
        run.push(item).filter(test) =~= if test(item) {
            run.filter(test).push(item)
        } else {
            run.filter(test)
        },
{
    reveal(Seq::filter);
    assert(run.push(item).drop_last() =~= run);
}

/// Filtering by a test and then by a narrower one is filtering by the
/// narrower one.
pub proof fn lemma_filter_within<A>(run: Seq<A>, wide: spec_fn(A) -> bool, narrow: spec_fn(A) -> bool)
    requires
        forall|item: A| #[trigger] narrow(item) ==> wide(item),
    ensures
        run.filter(wide).filter(narrow) =~= run.filter(narrow),
    decreases run.len(),
{
    reveal(Seq::filter);
    if run.len() > 0 {
        lemma_filter_within(run.drop_last(), wide, narrow);
        if wide(run.last()) {
            lemma_filter_push(run.drop_last().filter(wide), run.last(), narrow);
        }
    }
}

/// Merging two ascending runs keeps the items that tie with `key` in order:
/// those of `left` first, each run's in the order they had.
pub proof fn lemma_merge_stable<A>(left: Seq<A>, right: Seq<A>, le: spec_fn(A, A) -> bool, key: A)
    requires
        total_preorder(le),
        sorted_by(left, le),
        sorted_by(right, le),
    ensures
        merge(left, right, le).filter(ties_with(le, key)) =~= left.filter(ties_with(le, key))
            + right.filter(ties_with(le, key)),
    decreases left.len() + right.len(),
{
    let ties = ties_with(le, key);
    if left.len() == 0 {
        lemma_filter_none(left, ties);
    } else if right.len() == 0 {
        lemma_filter_none(right, ties);
    } else if le(left.last(), right.last()) {
        lemma_merge_stable(left, right.drop_last(), le, key);
        lemma_filter_push(merge(left, right.drop_last(), le), right.last(), ties);
        lemma_filter_push(right.drop_last(), right.last(), ties);
        assert(right.drop_last().push(right.last()) =~= right);
    } else {
        lemma_merge_stable(left.drop_last(), right, le, key);
        lemma_filter_push(merge(left.drop_last(), right, le), left.last(), ties);
        lemma_filter_push(left.drop_last(), left.last(), ties);
        assert(left.drop_last().push(left.last()) =~= left);
        if ties(left.last()) {
            // Nothing in `right` ties with `key`: it would sort no earlier
            // than `left.last()`, and no later than `right.last()`.
            assert forall|k: int| 0 <= k < right.len() implies !ties(#[trigger] right[k]) by {
                if ties(right[k]) {
                    lemma_last_is_greatest(right, le, right[k]);
                    assert(le(left.last(), key) && le(key, right[k]));
                    assert(le(left.last(), right[k]));
                    assert(le(left.last(), right[k]) && le(right[k], right.last()));
                }
            }
            lemma_filter_none(right, ties);
        }
    }
}

/// Sorting loses and invents nothing, whatever the relation.
pub proof fn lemma_sort_permutes<A>(items: Seq<A>, le: spec_fn(A, A) -> bool)
    ensures
        stable_sort(items, le).len() == items.len(),
        stable_sort(items, le).to_multiset() =~= items.to_multiset(),
    decreases items.len(),
{
    if items.len() > 1 {
        let mid = (items.len() / 2) as int;
        let front = items.subrange(0, mid);
        let back = items.subrange(mid, items.len() as int);
        lemma_sort_permutes(front, le);
        lemma_sort_permutes(back, le);
        lemma_merge_permutes(stable_sort(front, le), stable_sort(back, le), le);
        lemma_multiset_commutative(front, back);
        assert(front + back =~= items);
    }
}

/// The sorted sequence holds an item if and only if the sequence did.
pub proof fn lemma_sort_members<A>(items: Seq<A>, le: spec_fn(A, A) -> bool)
    ensures
        forall|item: A| #[trigger] stable_sort(items, le).contains(item) <==> items.contains(item),
{
    lemma_sort_permutes(items, le);
    assert forall|item: A| #[trigger]
        stable_sort(items, le).contains(item) <==> items.contains(item) by {
        to_multiset_contains(stable_sort(items, le), item);
        to_multiset_contains(items, item);
    }
}

/// Under a total preorder the sorted sequence is ascending.
pub proof fn lemma_sort_sorted<A>(items: Seq<A>, le: spec_fn(A, A) -> bool)
    requires
        total_preorder(le),
    ensures
        sorted_by(stable_sort(items, le), le),
    decreases items.len(),
{
    if items.len() > 1 {
        let mid = (items.len() / 2) as int;
        let front = items.subrange(0, mid);
        let back = items.subrange(mid, items.len() as int);
        lemma_sort_sorted(front, le);
        lemma_sort_sorted(back, le);
        lemma_merge_sorted(stable_sort(front, le), stable_sort(back, le), le);
    }
}

/// Under a total preorder sorting is stable: the items that tie with `key`
/// stand in the sorted sequence in the order in which they stood before.
pub proof fn lemma_sort_stable<A>(items: Seq<A>, le: spec_fn(A, A) -> bool, key: A)
    requires
        total_preorder(le),
    ensures
        stable_sort(items, le).filter(ties_with(le, key)) =~= items.filter(ties_with(le, key)),
    decreases items.len(),
{
    if items.len() > 1 {
        let ties = ties_with(le, key);
        let mid = (items.len() / 2) as int;
        let front = items.subrange(0, mid);
        let back = items.subrange(mid, items.len() as int);
        lemma_sort_stable(front, le, key);
        lemma_sort_stable(back, le, key);
        lemma_sort_sorted(front, le);
        lemma_sort_sorted(back, le);
        lemma_merge_stable(stable_sort(front, le), stable_sort(back, le), le, key);
        Seq::filter_distributes_over_add(front, back, ties);
        assert(front + back =~= items);
    }
}

/// A run in which at most one item passes the test filters to at most one
/// item.
pub proof fn lemma_filter_at_most_one<A>(run: Seq<A>, test: spec_fn(A) -> bool)
    requires
        forall|i: int, j: int| 0 <= i < j < run.len() ==> !(test(run[i]) && test(run[j])),
    ensures
        run.filter(test).len() <= 1,
    decreases run.len(),
{
    reveal(Seq::filter);
    if run.len() > 0 {
        let shorter = run.drop_last();
        assert forall|i: int, j: int| 0 <= i < j < shorter.len() implies !(test(shorter[i])
            && test(shorter[j])) by {
            assert(shorter[i] == run[i] && shorter[j] == run[j]);
        }
        if test(run.last()) {
            assert forall|k: int| 0 <= k < shorter.len() implies !test(#[trigger] shorter[k]) by {
                assert(shorter[k] == run[k]);
                assert(!(test(run[k]) && test(run[run.len() - 1])));
            }
            lemma_filter_none(shorter, test);
        } else {
            lemma_filter_at_most_one(shorter, test);
        }
    }
}

/// A run in which two items pass the test filters to two items at least.
proof fn lemma_filter_at_least_two<A>(run: Seq<A>, test: spec_fn(A) -> bool, i: int, j: int)
    requires
        0 <= i < j < run.len(),
        test(run[i]),
        test(run[j]),
    ensures
        run.filter(test).len() >= 2,
    decreases run.len(),
{
    reveal(Seq::filter);
    let shorter = run.drop_last();
    if j == run.len() - 1 {
        assert(shorter[i] == run[i]);
        shorter.lemma_filter_contains(test, i);
    } else {
        assert(shorter[i] == run[i] && shorter[j] == run[j]);
        lemma_filter_at_least_two(shorter, test, i, j);
    }
}

/// Two ascending runs that hold the same items are the same run, where in
/// one of them no item ties with an earlier one.
pub proof fn lemma_ascending_is_unique<A>(first: Seq<A>, second: Seq<A>, le: spec_fn(A, A) -> bool)
    requires
        sorted_by(first, le),
        sorted_by(second, le),
        forall|i: int, j: int| 0 <= i < j < first.len() ==> !le(first[j], first[i]),
        first.to_multiset() == second.to_multiset(),
    ensures
        first == second,
    decreases first.len(),
{
    to_multiset_len(first);
    to_multiset_len(second);
    if first.len() == 0 {
        assert(first =~= second);
    } else {
        let last = first.len() - 1;
        let x = first.last();
        let y = second.last();
        assert(x == y) by {
            to_multiset_contains(first, y);
            to_multiset_contains(second, y);
            assert(second[last] == y);
            let j = choose|j: int| 0 <= j < first.len() && first[j] == y;
            if j != last {
                to_multiset_contains(first, x);
                to_multiset_contains(second, x);
                assert(first[last] == x);
                let k = choose|k: int| 0 <= k < second.len() && second[k] == x;
                if k != last {
                    assert(le(second[k], second[last]));
                }
                assert(!le(first[last], first[j]));
            }
        }
        to_multiset_remove(first, last);
        to_multiset_remove(second, last);
        assert(first.remove(last) =~= first.drop_last());
        assert(second.remove(last) =~= second.drop_last());
        assert forall|i: int, j: int| 0 <= i < j < first.drop_last().len() implies !le(
            first.drop_last()[j],
            first.drop_last()[i],
        ) by {
            assert(!le(first[j], first[i]));
        }
        lemma_ascending_is_unique(first.drop_last(), second.drop_last(), le);
        assert(first =~= first.drop_last().push(x));
        assert(second =~= second.drop_last().push(y));
    }
}

/// How often an item stands in a filtered run: as often as in the run where
/// it passes the test, and never where it does not.
pub proof fn lemma_filter_count<A>(run: Seq<A>, test: spec_fn(A) -> bool, item: A)
    ensures
        run.filter(test).to_multiset().count(item) == if test(item) {
            run.to_multiset().count(item)
        } else {
            0
        },
    decreases run.len(),
{
    broadcast use vstd::multiset::group_multiset_axioms;

    reveal(Seq::filter);
    if run.len() == 0 {
        to_multiset_len(run);
        assert(run.to_multiset() =~= Multiset::empty());
    } else {
        let shorter = run.drop_last();
        lemma_filter_count(shorter, test, item);
        to_multiset_build(shorter, run.last());
        assert(shorter.push(run.last()) =~= run);
        if test(run.last()) {
            to_multiset_build(shorter.filter(test), run.last());
        }
    }
}

/// Filtering by two tests gives the same whichever comes first.
pub proof fn lemma_filter_commutes<A>(run: Seq<A>, one: spec_fn(A) -> bool, other: spec_fn(A) -> bool)
    ensures
        run.filter(one).filter(other) =~= run.filter(other).filter(one),
    decreases run.len(),
{
    reveal(Seq::filter);
    if run.len() > 0 {
        lemma_filter_commutes(run.drop_last(), one, other);
        if one(run.last()) {
            lemma_filter_push(run.drop_last().filter(one), run.last(), other);
        }
        if other(run.last()) {
            lemma_filter_push(run.drop_last().filter(other), run.last(), one);
        }
    }
}

/// Sorting does not look at the order in which the items came, where no two
/// of them tie: two sequences of the same items sort to the same sequence.
pub proof fn lemma_sort_ignores_order<A>(first: Seq<A>, second: Seq<A>, le: spec_fn(A, A) -> bool)
    requires
        total_preorder(le),
        first.to_multiset() == second.to_multiset(),
        forall|key: A| first.filter(#[trigger] ties_with(le, key)).len() <= 1,
    ensures
        stable_sort(first, le) == stable_sort(second, le),
{
    let one = stable_sort(first, le);
    let other = stable_sort(second, le);
    lemma_sort_sorted(first, le);
    lemma_sort_sorted(second, le);
    lemma_sort_permutes(first, le);
    lemma_sort_permutes(second, le);
    assert forall|i: int, j: int| 0 <= i < j < one.len() implies !le(one[j], one[i]) by {
        if le(one[j], one[i]) {
            let ties = ties_with(le, one[i]);
            assert(le(one[i], one[i]) || le(one[i], one[i]));
            assert(le(one[i], one[j]));
            lemma_filter_at_least_two(one, ties, i, j);
            lemma_sort_stable(first, le, one[i]);
        }
    }
    lemma_ascending_is_unique(one, other, le);
}

} // verus!
