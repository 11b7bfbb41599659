//! The evaluator's output: an ordered plan of elementary operations.
//!
//! Evaluating a postfix token sequence decides everything except the
//! floating-point arithmetic itself: which operator is applied when, and
//! where each of its operands comes from.  A plan records exactly that.
//! Each step consumes a value — a literal's digit text, or the result of an
//! earlier step — on its right, and for a binary operator a second value on
//! its left; a unary sign or a named function has no left operand.  The
//! steps stand in execution order, so a caller that carries the plan out
//! obtains both the numeric result and the trace of operations in order.

use vstd::prelude::*;
use crate::operator::Operator;

verus! {

/// Where a step's operand comes from: the digit text of a literal token,
/// or the result of the step with the given index.
#[derive(Debug, PartialEq, Eq)]
pub enum ValRef {
    Literal(Vec<char>),
    Step(usize),
}

/// One elementary operation: the operator, its right operand, and — for
/// binary operators only — its left operand.
#[derive(Debug, PartialEq, Eq)]
pub struct Step {
    pub left: Option<ValRef>,
    pub op: Operator,
    pub right: ValRef,
}

/// A full evaluation plan: the operations in execution order, and the value
/// that is the expression's result.
#[derive(Debug, PartialEq, Eq)]
pub struct EvalPlan {
    pub steps: Vec<Step>,
    pub result: ValRef,
}

/// The mathematical image of a [`ValRef`].
pub enum ValView {
    Literal(Seq<char>),
    Step(int),
}

/// The mathematical image of a [`Step`].
pub struct StepView {
    pub left: Option<ValView>,
    pub op: Operator,
    pub right: ValView,
}

/// The mathematical image of an [`EvalPlan`].
pub struct PlanView {
    pub steps: Seq<StepView>,
    pub result: ValView,
}

impl View for ValRef {
    type V = ValView;

    open spec fn view(&self) -> ValView {
        match self {
            ValRef::Literal(text) => ValView::Literal(text@),
            ValRef::Step(i) => ValView::Step(*i as int),
        }
    }
}

impl View for Step {
    type V = StepView;

    open spec fn view(&self) -> StepView {
        StepView {
            left: match self.left {
                Some(v) => Some(v@),
                None => None,
            },
            op: self.op,
            right: self.right@,
        }
    }
}

/// The images of a sequence of operand references, in order.
pub open spec fn views_of_vals(vals: Seq<ValRef>) -> Seq<ValView> {
    vals.map_values(|v: ValRef| v@)
}

/// The images of a sequence of steps, in order.
pub open spec fn views_of_steps(steps: Seq<Step>) -> Seq<StepView> {
    steps.map_values(|s: Step| s@)
}

impl View for EvalPlan {
    type V = PlanView;

    open spec fn view(&self) -> PlanView {
        PlanView { steps: views_of_steps(self.steps@), result: self.result@ }
    }
}

/// Appending an operand reference appends its image.
pub proof fn lemma_views_of_vals_push(vals: Seq<ValRef>, v: ValRef)
    ensures
        views_of_vals(vals.push(v)) == views_of_vals(vals).push(v@),
{
    assert(views_of_vals(vals.push(v)) =~= views_of_vals(vals).push(v@));
}

/// Appending a step appends its image.
pub proof fn lemma_views_of_steps_push(steps: Seq<Step>, s: Step)
    ensures
        views_of_steps(steps.push(s)) == views_of_steps(steps).push(s@),
{
    assert(views_of_steps(steps.push(s)) =~= views_of_steps(steps).push(s@));
}

} // verus!
