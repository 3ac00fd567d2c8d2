//! Collecting rename requests, and turning them into a plan.

use crate::error::PlanError;
use crate::operation::{views, Rename, RenameView};
use crate::order::{Collation, TargetOrder};
use crate::plan::{by_target, is_plan, lemma_by_target_total_preorder, Plan};
use crate::sort::{
    lemma_filter_at_most_one, lemma_filter_commutes, lemma_filter_count, lemma_filter_within,
    lemma_sort_ignores_order, lemma_sort_members, lemma_sort_permutes, lemma_sort_sorted,
    lemma_sort_stable, merge, stable_sort, ties_with, total_preorder,
};
use vstd::prelude::*;
use vstd::relations::antisymmetric;

verus! {

/// The operations that change something: the source is not the target.
pub open spec fn changes_something() -> spec_fn(RenameView) -> bool {
    |rename: RenameView| rename.source != rename.target
}

/// The plan that a sequence of requests comes to: those that change
/// something, in a stable order by target.
pub open spec fn planned(pending: Seq<RenameView>, collation: Collation) -> Seq<RenameView> {
    stable_sort(pending.filter(changes_something()), by_target(collation))
}

/// The operations that go to `target`.
pub open spec fn goes_to(target: Seq<char>) -> spec_fn(RenameView) -> bool {
    |rename: RenameView| rename.target == target
}

/// Planning is stable: under a total preorder, the operations of the plan
/// that go to one target stand in the order in which they were added.
pub open spec fn keeps_insertion_order(
    plan: Seq<RenameView>,
    pending: Seq<RenameView>,
    collation: Collation,
) -> bool {
    total_preorder(collation.relation()) ==> forall|target: Seq<char>|
        plan.filter(#[trigger] goes_to(target)) == pending.filter(changes_something()).filter(
            goes_to(target),
        )
}

/// The requests that pairs of paths stand for.
pub open spec fn requests(pairs: Seq<(String, String)>) -> Seq<RenameView> {
    pairs.map_values(|pair: (String, String)| RenameView { source: pair.0@, target: pair.1@ })
}

/// Drops the operations whose source is their target.
fn retain_changes(pending: Vec<Rename>) -> (kept: Vec<Rename>)
    ensures
        views(kept@) == views(pending@).filter(changes_something()),
{
    let ghost all = pending@;
    let mut kept: Vec<Rename> = Vec::new();
    proof {
        reveal(Seq::filter);
        assert(views(all.take(0)) =~= Seq::empty());
    }
    for rename in it: pending
        invariant
            it.seq() == all,
            views(kept@) == views(all.take(it.index() as int)).filter(changes_something()),
    {
        proof {
            reveal(Seq::filter);
            let before = views(all.take(it.index() as int));
            let now = views(all.take(it.index() + 1));
            assert(now.drop_last() =~= before);
            assert(now.last() == rename@);
        }
        if rename.source != rename.target {
            let ghost old_kept = kept@;
            kept.push(rename);
            assert(views(kept@) =~= views(old_kept).push(rename@));
        }
    }
    proof {
        assert(all.take(all.len() as int) =~= all);
    }
    kept
}

/// Merges two runs into one, `left` first among equals.
fn merge_runs(left: Vec<Rename>, right: Vec<Rename>, order: &TargetOrder) -> (merged: Vec<Rename>)
    ensures
        views(merged@) == merge(views(left@), views(right@), by_target(order.collation())),
{
    let ghost le = by_target(order.collation());
    let ghost whole = merge(views(left@), views(right@), le);
    let mut left = left;
    let mut right = right;
    // The end of the merged run, its last operation first.
    let mut tail: Vec<Rename> = Vec::new();
    proof {
        assert(views(tail@).reverse() =~= Seq::empty());
        assert(whole + Seq::<RenameView>::empty() =~= whole);
    }
    while left.len() > 0 && right.len() > 0
        invariant
            le == by_target(order.collation()),
            whole == merge(views(left@), views(right@), le) + views(tail@).reverse(),
        decreases left.len() + right.len(),
    {
        let ghost old_left = views(left@);
        let ghost old_right = views(right@);
        let ghost old_tail = views(tail@);
        let from_right = order.precedes(
            &left[left.len() - 1].target,
            &right[right.len() - 1].target,
        );
        let taken = if from_right {
            right.pop()
        } else {
            left.pop()
        };
        if let Some(rename) = taken {
            tail.push(rename);
            proof {
                let rest = merge(views(left@), views(right@), le);
                assert(from_right == le(old_left.last(), old_right.last()));
                if from_right {
                    assert(views(right@) =~= old_right.drop_last());
                    assert(rename@ == old_right.last());
                } else {
                    assert(views(left@) =~= old_left.drop_last());
                    assert(rename@ == old_left.last());
                }
                assert(merge(old_left, old_right, le) == rest.push(rename@));
                assert(views(tail@) =~= old_tail.push(rename@));
                assert(views(tail@).reverse() =~= seq![rename@] + old_tail.reverse());
                assert(rest.push(rename@) + old_tail.reverse() =~= rest + (seq![rename@]
                    + old_tail.reverse()));
            }
        }
    }
    let mut merged = if left.len() > 0 {
        left
    } else {
        right
    };
    while tail.len() > 0
        invariant
            whole == views(merged@) + views(tail@).reverse(),
        decreases tail.len(),
    {
        let ghost old_merged = views(merged@);
        let ghost old_tail = views(tail@);
        if let Some(rename) = tail.pop() {
            merged.push(rename);
            proof {
                assert(views(tail@) =~= old_tail.drop_last());
                assert(views(merged@) =~= old_merged.push(rename@));
                assert(old_tail.reverse() =~= seq![rename@] + views(tail@).reverse());
                assert(old_merged.push(rename@) + views(tail@).reverse() =~= old_merged + (
                seq![rename@] + views(tail@).reverse()));
            }
        }
    }
    proof {
        assert(views(tail@).reverse() =~= Seq::empty());
        assert(views(merged@) + Seq::<RenameView>::empty() =~= views(merged@));
    }
    merged
}

/// Sorts operations by target, keeping those that tie in their order.
fn sort_by_target(items: Vec<Rename>, order: &TargetOrder) -> (sorted: Vec<Rename>)
    ensures
        views(sorted@) == stable_sort(views(items@), by_target(order.collation())),
    decreases items.len(),
{
    if items.len() <= 1 {
        return items;
    }
    let ghost all = views(items@);
    let mut front = items;
    let mid = front.len() / 2;
    let back = front.split_off(mid);
    proof {
        assert(views(front@) =~= all.subrange(0, mid as int));
        assert(views(back@) =~= all.subrange(mid as int, all.len() as int));
    }
    let front = sort_by_target(front, order);
    let back = sort_by_target(back, order);
    merge_runs(front, back, order)
}

/// Prepares a batch file renaming operation.
#[derive(Debug)]
pub struct Renamer {
    renames: Vec<Rename>,
}

impl View for Renamer {
    type V = Seq<RenameView>;

    closed spec fn view(&self) -> Seq<RenameView> {
        views(self.renames@)
    }
}

impl Renamer {
    /// Creates a new `Renamer`, with nothing pending.
    pub fn new() -> (renamer: Self)
        ensures
            renamer@ == Seq::<RenameView>::empty(),
    {
        let renamer = Self { renames: Vec::new() };
        assert(views(renamer.renames@) =~= Seq::empty());
        renamer
    }

    /// Creates a new `Renamer` with room for `capacity` operations.
    pub fn with_capacity(capacity: usize) -> (renamer: Self)
        ensures
            renamer@ == Seq::<RenameView>::empty(),
    {
        let renamer = Self { renames: Vec::with_capacity(capacity) };
        assert(views(renamer.renames@) =~= Seq::empty());
        renamer
    }

    /// Adds a rename operation to the renamer. Nothing is checked yet.
    pub fn add(&mut self, source: String, target: String)
        ensures
            final(self)@ == old(self)@.push(RenameView { source: source@, target: target@ }),
    {
        let rename = Rename::new(source, target);
        self.renames.push(rename);
        assert(views(self.renames@) =~= views(old(self).renames@).push(rename@));
    }

    /// Adds a rename operation for each pair of a source and a target, in
    /// their order.
    pub fn extend(&mut self, pairs: Vec<(String, String)>)
        ensures
            final(self)@ == old(self)@ + requests(pairs@),
    {
        let ghost all = pairs@;
        assert(old(self)@ + requests(all.take(0)) =~= old(self)@);
        for pair in it: pairs
            invariant
                it.seq() == all,
                self@ == old(self)@ + requests(all.take(it.index() as int)),
        {
            let ghost before = self@;
            self.add(pair.0, pair.1);
            assert(self@ =~= old(self)@ + requests(all.take(it.index() + 1))) by {
                assert(requests(all.take(it.index() + 1)) =~= requests(
                    all.take(it.index() as int),
                ).push(RenameView { source: pair.0@, target: pair.1@ }));
            }
        }
        assert(all.take(all.len() as int) =~= all);
    }

    /// Creates a `Renamer` with an operation pending for each pair.
    pub fn from_pairs(pairs: Vec<(String, String)>) -> (renamer: Self)
        ensures
            renamer@ == requests(pairs@),
    {
        let mut renamer = Self::with_capacity(pairs.len());
        renamer.extend(pairs);
        assert(Seq::<RenameView>::empty() + requests(pairs@) =~= requests(pairs@));
        renamer
    }

    /// Consumes the renamer and returns the plan in the given order: the
    /// operations that change something, sorted by target.
    pub fn plan_with(self, order: &TargetOrder) -> (plan: Plan)
        ensures
            plan@ == planned(self@, order.collation()),
            plan.collation() == order.collation(),
            is_plan(plan@, order.collation()),
            plan@.to_multiset() == self@.filter(changes_something()).to_multiset(),
            keeps_insertion_order(plan@, self@, order.collation()),
    {
        let kept = retain_changes(self.renames);
        let sorted = sort_by_target(kept, order);
        proof {
            lemma_planned_is_plan(self@, order.collation());
            lemma_planned_permutes(self@, order.collation());
            lemma_planned_stable(self@, order.collation());
        }
        Plan::from_ordered(sorted, order.collation_of())
    }

    /// Consumes the renamer and returns the plan in the order that was made
    /// ready, or, where none could be, the error that stood in its way.
    /// Nothing that is pending can make planning fail.
    pub fn plan_by(self, order: Result<TargetOrder, PlanError>) -> (made: Result<Plan, PlanError>)
        ensures
            match order {
                Ok(ready) => made matches Ok(plan) && {
                    &&& plan@ == planned(self@, ready.collation())
                    &&& plan.collation() == ready.collation()
                    &&& is_plan(plan@, ready.collation())
                    &&& plan@.to_multiset() == self@.filter(changes_something()).to_multiset()
                    &&& keeps_insertion_order(plan@, self@, ready.collation())
                },
                Err(error) => made == Err::<Plan, PlanError>(error),
            },
    {
        match order {
            Ok(ready) => Ok(self.plan_with(&ready)),
            Err(error) => Err(error),
        }
    }

    /// Consumes the renamer and returns the plan in the natural order: the
    /// operations that change something, sorted by target. Where nothing is
    /// pending the plan is empty and no collator is asked for. Otherwise
    /// planning fails only where the collator for that order cannot be set
    /// up, whatever is pending.
    pub fn plan(self) -> (made: Result<Plan, PlanError>)
        ensures
            self@.len() == 0 ==> made is Ok,
            match made {
                Ok(plan) => {
                    &&& plan@ == planned(self@, Collation::Natural)
                    &&& plan.collation() == Collation::Natural
                    &&& is_plan(plan@, Collation::Natural)
                    &&& plan@.to_multiset() == self@.filter(changes_something()).to_multiset()
                    &&& keeps_insertion_order(plan@, self@, Collation::Natural)
                },
                Err(error) => error is IcuCollator,
            },
    {
        if self.renames.is_empty() {
            proof {
                reveal(Seq::filter);
                assert(planned(self@, Collation::Natural) =~= views(self.renames@));
                lemma_planned_is_plan(self@, Collation::Natural);
                lemma_planned_permutes(self@, Collation::Natural);
                lemma_planned_stable(self@, Collation::Natural);
            }
            return Ok(Plan::from_ordered(self.renames, Collation::Natural));
        }
        self.plan_by(TargetOrder::natural())
    }
}

impl Default for Renamer {
    fn default() -> (renamer: Self)
        ensures
            renamer@ == Seq::<RenameView>::empty(),
    {
        Self::new()
    }
}

/// Planning keeps every operation that changes something, once for each
/// time it was added, and nothing else.
pub proof fn lemma_planned_permutes(pending: Seq<RenameView>, collation: Collation)
    ensures
        planned(pending, collation).to_multiset() == pending.filter(
            changes_something(),
        ).to_multiset(),
        planned(pending, collation).len() <= pending.len(),
{
    lemma_sort_permutes(pending.filter(changes_something()), by_target(collation));
    pending.lemma_filter_len(changes_something());
}

/// Planning is stable.
pub proof fn lemma_planned_stable(pending: Seq<RenameView>, collation: Collation)
    ensures
        keeps_insertion_order(planned(pending, collation), pending, collation),
{
    if total_preorder(collation.relation()) {
        let kept = pending.filter(changes_something());
        let le = by_target(collation);
        lemma_by_target_total_preorder(collation);
        assert forall|target: Seq<char>|
            planned(pending, collation).filter(#[trigger] goes_to(target)) == kept.filter(
                goes_to(target),
            ) by {
            let key = RenameView { source: target, target };
            let ties = ties_with(le, key);
            assert forall|item: RenameView| #[trigger] goes_to(target)(item) implies ties(
                item,
            ) by {
                assert(le(key, key) || le(key, key));
            }
            lemma_sort_stable(kept, le, key);
            lemma_filter_within(stable_sort(kept, le), ties, goes_to(target));
            lemma_filter_within(kept, ties, goes_to(target));
        }
    }
}

/// What planning yields has what every plan has.
pub proof fn lemma_planned_is_plan(pending: Seq<RenameView>, collation: Collation)
    ensures
        is_plan(planned(pending, collation), collation),
{
    let kept = pending.filter(changes_something());
    let plan = planned(pending, collation);
    lemma_sort_members(kept, by_target(collation));
    assert forall|i: int| 0 <= i < plan.len() implies (#[trigger] plan[i]).source
        != plan[i].target by {
        assert(plan.contains(plan[i]));
        let j = choose|j: int| 0 <= j < kept.len() && kept[j] == plan[i];
        pending.lemma_filter_pred(changes_something(), j);
    }
    if total_preorder(collation.relation()) {
        lemma_by_target_total_preorder(collation);
        lemma_sort_sorted(kept, by_target(collation));
    }
}

/// Planning does not look at the order of insertion where all targets
/// differ and the collation tells any two targets apart: the same requests,
/// added in any order, come to the same plan.
pub proof fn lemma_planned_ignores_insertion_order(
    first: Seq<RenameView>,
    second: Seq<RenameView>,
    collation: Collation,
)
    requires
        first.to_multiset() == second.to_multiset(),
        forall|i: int, j: int| 0 <= i < j < first.len() ==> first[i].target != first[j].target,
        total_preorder(collation.relation()),
        antisymmetric(collation.relation()),
    ensures
        planned(first, collation) == planned(second, collation),
{
    let changes = changes_something();
    let le = by_target(collation);
    let relation = collation.relation();
    lemma_by_target_total_preorder(collation);
    assert(first.filter(changes).to_multiset() =~= second.filter(changes).to_multiset()) by {
        assert forall|item: RenameView|
            first.filter(changes).to_multiset().count(item) == second.filter(
                changes,
            ).to_multiset().count(item) by {
            lemma_filter_count(first, changes, item);
            lemma_filter_count(second, changes, item);
        }
    }
    assert forall|key: RenameView|
        first.filter(changes).filter(#[trigger] ties_with(le, key)).len() <= 1 by {
        let ties = ties_with(le, key);
        assert forall|i: int, j: int| 0 <= i < j < first.len() implies !(ties(first[i]) && ties(
            first[j],
        )) by {
            if ties(first[i]) && ties(first[j]) {
                assert(relation(first[i].target, key.target) && relation(
                    key.target,
                    first[j].target,
                ));
                assert(relation(first[j].target, key.target) && relation(
                    key.target,
                    first[i].target,
                ));
                assert(relation(first[i].target, first[j].target) && relation(
                    first[j].target,
                    first[i].target,
                ));
            }
        }
        lemma_filter_at_most_one(first, ties);
        lemma_filter_commutes(first, changes, ties);
        first.filter(ties).lemma_filter_len(changes);
    }
    lemma_sort_ignores_order(first.filter(changes), second.filter(changes), le);
}

} // verus!
