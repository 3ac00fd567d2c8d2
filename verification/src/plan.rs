//! A renaming plan: what is left to do, in the order in which to do it.

use crate::error::{ApplyError, ApplyErrorView};
use crate::operation::{
    action_of, rename_text, step_of, views, Action, ActionView, Event, Rename, RenameView, Stage,
    Step, StepView,
};
use crate::order::Collation;
use crate::sort::total_preorder;
use vstd::prelude::*;
use vstd::relations::sorted_by;

verus! {

/// Operations compared by their targets.
pub open spec fn by_target(collation: Collation) -> spec_fn(RenameView, RenameView) -> bool {
    |left: RenameView, right: RenameView| collation.precedes(left.target, right.target)
}

/// Where targets are totally preordered, so are the operations by target.
pub proof fn lemma_by_target_total_preorder(collation: Collation)
    requires
        total_preorder(collation.relation()),
    ensures
        total_preorder(by_target(collation)),
{
    let le = collation.relation();
    let lifted = by_target(collation);
    assert forall|x: RenameView, y: RenameView| #[trigger]
        lifted(x, y) || #[trigger] lifted(y, x) by {
        assert(le(x.target, y.target) || le(y.target, x.target));
    }
    assert forall|x: RenameView, y: RenameView, z: RenameView| #[trigger]
        lifted(x, y) && #[trigger] lifted(y, z) implies lifted(x, z) by {
        assert(le(x.target, y.target) && le(y.target, z.target));
        assert(le(x.target, z.target));
    }
}

/// What holds of the operations of every plan: none leaves its path where
/// it is, and, where the collation is a total preorder, the targets ascend.
pub open spec fn is_plan(operations: Seq<RenameView>, collation: Collation) -> bool {
    &&& forall|i: int|
        0 <= i < operations.len() ==> (#[trigger] operations[i]).source != operations[i].target
    &&& total_preorder(collation.relation()) ==> sorted_by(operations, by_target(collation))
}

/// How a plan reads: its operations in order, each on a line of its own.
pub open spec fn plan_text(operations: Seq<RenameView>) -> Seq<char>
    decreases operations.len(),
{
    if operations.len() == 0 {
        Seq::empty()
    } else {
        plan_text(operations.drop_last()) + rename_text(operations.last()) + "\n"@
    }
}

/// A renaming plan.
#[derive(Debug)]
pub struct Plan {
    renames: Vec<Rename>,
    collation: Collation,
}

impl View for Plan {
    type V = Seq<RenameView>;

    closed spec fn view(&self) -> Seq<RenameView> {
        views(self.renames@)
    }
}

impl Plan {
    #[verifier::type_invariant]
    spec fn well_formed(&self) -> bool {
        is_plan(views(self.renames@), self.collation)
    }

    /// The collation by which the plan is ordered.
    pub closed spec fn collation(&self) -> Collation {
        self.collation
    }

    /// Makes a plan of operations that are in order.
    pub(crate) fn from_ordered(renames: Vec<Rename>, collation: Collation) -> (plan: Plan)
        requires
            is_plan(views(renames@), collation),
        ensures
            plan@ == views(renames@),
            plan.collation() == collation,
    {
        Plan { renames, collation }
    }

    /// Returns `true` if the plan is empty.
    pub fn is_empty(&self) -> (empty: bool)
        ensures
            empty == (self@.len() == 0),
    {
        self.renames.is_empty()
    }

    /// Returns the number of rename operations in the plan.
    pub fn len(&self) -> (len: usize)
        ensures
            len == self@.len(),
    {
        self.renames.len()
    }

    /// The collation by which the plan is ordered.
    pub fn order(&self) -> (collation: Collation)
        ensures
            collation == self.collation(),
    {
        self.collation
    }

    /// Appends the plan to `out`, one operation on each line.
    pub fn write_to(&self, out: &mut String)
        ensures
            final(out)@ == old(out)@ + plan_text(self@),
    {
        let ghost all = views(self.renames@);
        let mut at: usize = 0;
        assert(all.take(0) =~= Seq::empty());
        assert(out@ =~= old(out)@ + plan_text(all.take(0)));
        while at < self.renames.len()
            invariant
                at <= self.renames.len(),
                all == views(self.renames@),
                out@ == old(out)@ + plan_text(all.take(at as int)),
            decreases self.renames.len() - at,
        {
            let ghost before = out@;
            self.renames[at].write_to(out);
            proof {
                let done = all.take(at + 1);
                assert(done.drop_last() =~= all.take(at as int));
                assert(done.last() == self.renames[at as int]@);
                assert(out@ =~= old(out)@ + plan_text(done));
            }
            at += 1;
        }
        assert(all.take(at as int) =~= all);
    }

    /// The question to put to the user before the plan is applied, or
    /// `None` where the plan is empty and there is nothing to decide.
    pub fn confirm(&self) -> (question: Option<&'static str>)
        ensures
            match question {
                Some(text) => self@.len() > 0 && text@ == "Proceed?"@,
                None => self@.len() == 0,
            },
    {
        if self.renames.is_empty() {
            None
        } else {
            Some("Proceed?")
        }
    }

    /// Starts to execute the plan: consumes it and returns the execution, at
    /// the first request of the first operation.
    pub fn apply(self) -> (execution: Execution)
        ensures
            execution@ == started(self@),
    {
        let execution = Execution {
            renames: self.renames,
            applied: 0,
            stage: Stage::CheckTarget,
            failure: None,
        };
        execution
    }

    /// The operations, in the order in which they will be applied.
    pub fn operations(&self) -> (operations: &Vec<Rename>)
        ensures
            views(operations@) == self@,
            is_plan(self@, self.collation()),
    {
        proof {
            use_type_invariant(self);
        }
        &self.renames
    }
}

/// What an [`Execution`] is: the operations, how many of them are applied,
/// the stage of the operation that is next, and what went wrong, if
/// anything did.
pub struct ExecutionView {
    pub operations: Seq<RenameView>,
    pub applied: nat,
    pub stage: Stage,
    pub failure: Option<ApplyErrorView>,
}

impl ExecutionView {
    /// Nothing is left to do: an operation has failed, or all are applied.
    pub open spec fn finished(self) -> bool {
        self.failure is Some || self.applied >= self.operations.len()
    }

    /// The operation that is being applied.
    pub open spec fn current(self) -> RenameView {
        self.operations[self.applied as int]
    }

    /// The request that is open; `None` where nothing is left to do.
    pub open spec fn action(self) -> Option<ActionView> {
        if self.finished() {
            None
        } else {
            action_of(self.current(), self.stage)
        }
    }

    /// Whether `event` answers the request that is open.
    pub open spec fn accepts(self, event: Event) -> bool {
        !self.finished() && step_of(self.current(), self.stage, event) is Some
    }

    /// The execution after `event`. An answer to no request changes nothing.
    /// Otherwise the current operation goes on to its next stage, or is
    /// applied and the next operation begins, or fails, which ends the
    /// execution with everything applied so far left as it is.
    pub open spec fn after(self, event: Event) -> ExecutionView {
        if !self.accepts(event) {
            self
        } else {
            match step_of(self.current(), self.stage, event)->Some_0 {
                StepView::Next(stage) => ExecutionView { stage, ..self },
                StepView::Applied => ExecutionView {
                    applied: self.applied + 1,
                    stage: Stage::CheckTarget,
                    ..self
                },
                StepView::Failed(error) => ExecutionView { failure: Some(error), ..self },
            }
        }
    }

    /// What holds throughout an execution: no more is applied than there
    /// is, and while something is left to do a request is open.
    pub open spec fn valid(self) -> bool {
        &&& self.applied <= self.operations.len()
        &&& !self.finished() ==> action_of(self.current(), self.stage) is Some
    }
}

/// The execution of a plan before anything is done.
pub open spec fn started(operations: Seq<RenameView>) -> ExecutionView {
    ExecutionView { operations, applied: 0, stage: Stage::CheckTarget, failure: None }
}

/// An execution keeps what holds throughout, whatever it is told.
pub proof fn lemma_after_valid(execution: ExecutionView, event: Event)
    requires
        execution.valid(),
    ensures
        execution.after(event).valid(),
{
}

/// An execution runs in the order of the plan and never goes back: the
/// operations stay as they are, and no fewer are applied after an event
/// than before.
pub proof fn lemma_after_in_order(execution: ExecutionView, event: Event)
    ensures
        execution.after(event).operations == execution.operations,
        execution.after(event).applied >= execution.applied,
        execution.after(event).applied <= execution.applied + 1,
{
}

/// An execution stops at the first failure: from then on no request is
/// open, and no event changes anything.
pub proof fn lemma_failure_is_final(execution: ExecutionView, event: Event)
    requires
        execution.failure is Some,
    ensures
        execution.action() is None,
        execution.after(event) == execution,
{
}

/// A plan being executed: the decisions, with the file system left to the
/// caller. The caller performs the request that [`Execution::next`] gives
/// and hands the answer to [`Execution::advance`], until there is no
/// request left.
#[derive(Debug)]
pub struct Execution {
    renames: Vec<Rename>,
    applied: usize,
    stage: Stage,
    failure: Option<ApplyError>,
}

impl View for Execution {
    type V = ExecutionView;

    closed spec fn view(&self) -> ExecutionView {
        ExecutionView {
            operations: views(self.renames@),
            applied: self.applied as nat,
            stage: self.stage,
            failure: match self.failure {
                Some(error) => Some(error@),
                None => None,
            },
        }
    }
}

impl Execution {
    #[verifier::type_invariant]
    spec fn well_formed(&self) -> bool {
        self@.valid()
    }

    /// The request to perform next, or `None` where nothing is left to do.
    pub fn next(&self) -> (action: Option<Action>)
        ensures
            self@.valid(),
            action is None <==> self@.finished(),
            match action {
                Some(request) => self@.action() == Some(request@),
                None => self@.action() is None,
            },
    {
        proof {
            use_type_invariant(self);
        }
        if self.failure.is_some() || self.applied >= self.renames.len() {
            None
        } else {
            self.renames[self.applied].action(self.stage)
        }
    }

    /// Takes in the answer to the request that is open. Returns whether
    /// `event` was such an answer; if not, nothing has changed.
    pub fn advance(&mut self, event: Event) -> (accepted: bool)
        ensures
            accepted == old(self)@.accepts(event),
            final(self)@ == old(self)@.after(event),
    {
        proof {
            use_type_invariant(&*self);
        }
        if self.failure.is_some() || self.applied >= self.renames.len() {
            return false;
        }
        match self.renames[self.applied].apply(self.stage, event) {
            Some(Step::Next(stage)) => {
                self.stage = stage;
                true
            },
            Some(Step::Applied) => {
                self.stage = Stage::CheckTarget;
                self.applied = self.applied + 1;
                true
            },
            Some(Step::Failed(error)) => {
                self.failure = Some(error);
                true
            },
            None => false,
        }
    }

    /// Whether nothing is left to do.
    pub fn is_finished(&self) -> (finished: bool)
        ensures
            finished == self@.finished(),
    {
        self.failure.is_some() || self.applied >= self.renames.len()
    }

    /// How many operations are applied. They are the first of the plan.
    pub fn applied(&self) -> (applied: usize)
        ensures
            applied == self@.applied,
            applied <= self@.operations.len(),
    {
        proof {
            use_type_invariant(self);
        }
        self.applied
    }

    /// How the execution ended: with every operation applied, or with the
    /// first error. `None` while something is left to do.
    pub fn outcome(self) -> (outcome: Option<Result<(), ApplyError>>)
        ensures
            match outcome {
                Some(Ok(_)) => self@.failure is None && self@.applied == self@.operations.len(),
                Some(Err(error)) => self@.failure == Some(error@),
                None => !self@.finished(),
            },
    {
        proof {
            use_type_invariant(&self);
        }
        match self.failure {
            Some(error) => Some(Err(error)),
            None => if self.applied >= self.renames.len() {
                Some(Ok(()))
            } else {
                None
            },
        }
    }
}

} // verus!
