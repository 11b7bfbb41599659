//! The converter and the evaluator: infix tokens are reordered into postfix
//! by the operator-precedence stack algorithm, and a postfix sequence is
//! folded into an [`EvalPlan`] by stack evaluation.

use vstd::prelude::*;
use crate::error::{ErrorView, EvaluationError};
use crate::operator::{spec_precedence, Arity, Operator};
use crate::plan::{
    lemma_views_of_steps_push, lemma_views_of_vals_push, views_of_steps, views_of_vals, EvalPlan,
    PlanView, Step, StepView, ValRef, ValView,
};
use crate::token::{
    lemma_views_of_tokens_push, views_of_tokens, Operand, OperandView, Token, TokenView,
};
use crate::tokenizer::{spec_tokenize, tokenize};

verus! {

/// The converter's state: the postfix output so far and the operator stack.
pub struct ConvState {
    pub out: Seq<TokenView>,
    pub ops: Seq<Operator>,
}

/// Pops operators to the output while the stack top has precedence at least
/// `p`.  The tie — equal precedence pops — makes same-precedence chains
/// evaluate left to right.  Brackets rank 0, so they always stop a pop for
/// an incoming operator.
pub open spec fn spec_pop_ge(out: Seq<TokenView>, ops: Seq<Operator>, p: u8) -> (Seq<TokenView>, Seq<
    Operator,
>)
    decreases ops.len(),
{
    if ops.len() == 0 {
        (out, ops)
    } else if spec_precedence(ops.last()) >= p {
        spec_pop_ge(out.push(TokenView::Operator(ops.last())), ops.drop_last(), p)
    } else {
        (out, ops)
    }
}

/// Pops operators to the output until an opening bracket is popped and
/// discarded; an empty stack means the closing bracket had no match.
pub open spec fn spec_pop_to_lbracket(out: Seq<TokenView>, ops: Seq<Operator>) -> Result<
    ConvState,
    ErrorView,
>
    decreases ops.len(),
{
    if ops.len() == 0 {
        Err(ErrorView::UnmatchedClosingBracket)
    } else if ops.last() == Operator::LBracket {
        Ok(ConvState { out, ops: ops.drop_last() })
    } else {
        spec_pop_to_lbracket(out.push(TokenView::Operator(ops.last())), ops.drop_last())
    }
}

/// One converter step: operands go straight to the output, an opening
/// bracket is pushed, a closing bracket pops to its match, and every other
/// operator first pops all stacked operators of precedence at least its
/// own, then is pushed.
pub open spec fn spec_conv_step(st: ConvState, t: TokenView) -> Result<ConvState, ErrorView> {
    match t {
        TokenView::Operand(_) => Ok(ConvState { out: st.out.push(t), ops: st.ops }),
        TokenView::Operator(op) => {
            if op == Operator::LBracket {
                Ok(ConvState { out: st.out, ops: st.ops.push(op) })
            } else if op == Operator::RBracket {
                spec_pop_to_lbracket(st.out, st.ops)
            } else {
                let popped = spec_pop_ge(st.out, st.ops, spec_precedence(op));
                Ok(ConvState { out: popped.0, ops: popped.1.push(op) })
            }
        },
    }
}

/// After the input is exhausted the remaining operators are popped to the
/// output; an opening bracket still on the stack was never matched.
pub open spec fn spec_conv_finish(out: Seq<TokenView>, ops: Seq<Operator>) -> Result<
    Seq<TokenView>,
    ErrorView,
>
    decreases ops.len(),
{
    if ops.len() == 0 {
        Ok(out)
    } else if ops.last() == Operator::LBracket {
        Err(ErrorView::UnmatchedOpeningBracket)
    } else {
        spec_conv_finish(out.push(TokenView::Operator(ops.last())), ops.drop_last())
    }
}

/// The conversion from position `i` onward, started in state `st`.
pub open spec fn spec_conv_from(ts: Seq<TokenView>, i: int, st: ConvState) -> Result<
    Seq<TokenView>,
    ErrorView,
>
    decreases ts.len() - i,
{
    if i < 0 || i >= ts.len() {
        spec_conv_finish(st.out, st.ops)
    } else {
        match spec_conv_step(st, ts[i]) {
            Err(e) => Err(e),
            Ok(st2) => spec_conv_from(ts, i + 1, st2),
        }
    }
}

/// What converting a token sequence to postfix yields.
pub open spec fn spec_to_postfix(ts: Seq<TokenView>) -> Result<Seq<TokenView>, ErrorView> {
    spec_conv_from(ts, 0, ConvState { out: Seq::empty(), ops: Seq::empty() })
}

/// Pops stacked operators to the output while the top has precedence at
/// least `p`.
fn pop_ge(rpn: &mut Vec<Token>, operators: &mut Vec<Operator>, p: u8)
    ensures
        spec_pop_ge(views_of_tokens(old(rpn)@), old(operators)@, p) == (
            views_of_tokens(final(rpn)@),
            final(operators)@,
        ),
{
    while operators.len() > 0 && operators[operators.len() - 1].precedence() >= p
        invariant
            spec_pop_ge(views_of_tokens(rpn@), operators@, p) == spec_pop_ge(
                views_of_tokens(old(rpn)@),
                old(operators)@,
                p,
            ),
        decreases operators.len(),
    {
        let ghost prev = rpn@;
        let top = match operators.pop() {
            Some(op) => op,
            None => {
                proof {
                    assert(false);
                }
                Operator::LBracket
            },
        };
        rpn.push(Token::Operator(top));
        proof {
            lemma_views_of_tokens_push(prev, Token::Operator(top));
        }
    }
}

/// Pops stacked operators to the output until an opening bracket is popped
/// and discarded.
fn pop_to_lbracket(rpn: &mut Vec<Token>, operators: &mut Vec<Operator>) -> (r: Result<
    (),
    EvaluationError,
>)
    ensures
        match r {
            Ok(_) => spec_pop_to_lbracket(views_of_tokens(old(rpn)@), old(operators)@)
                == Ok::<_, ErrorView>(
                ConvState { out: views_of_tokens(final(rpn)@), ops: final(operators)@ },
            ),
            Err(e) => spec_pop_to_lbracket(views_of_tokens(old(rpn)@), old(operators)@) == Err::<
                ConvState,
                _,
            >(e@),
        },
{
    while operators.len() > 0 && operators[operators.len() - 1] != Operator::LBracket
        invariant
            spec_pop_to_lbracket(views_of_tokens(rpn@), operators@) == spec_pop_to_lbracket(
                views_of_tokens(old(rpn)@),
                old(operators)@,
            ),
        decreases operators.len(),
    {
        let ghost prev = rpn@;
        let top = match operators.pop() {
            Some(op) => op,
            None => {
                proof {
                    assert(false);
                }
                Operator::LBracket
            },
        };
        rpn.push(Token::Operator(top));
        proof {
            lemma_views_of_tokens_push(prev, Token::Operator(top));
        }
    }
    match operators.pop() {
        Some(_) => Ok(()),
        None => Err(EvaluationError::UnmatchedClosingBracket),
    }
}

/// Reorders an infix token sequence into postfix (reverse Polish) order.
/// Pure reordering: the only possible faults are a closing bracket with no
/// match and an opening bracket never matched.
#[verifier::loop_isolation(false)]
pub fn infix_to_rpn(tokens: Vec<Token>) -> (r: Result<Vec<Token>, EvaluationError>)
    ensures
        match r {
            Ok(rpn) => spec_to_postfix(views_of_tokens(tokens@)) == Ok::<_, ErrorView>(
                views_of_tokens(rpn@),
            ),
            Err(e) => spec_to_postfix(views_of_tokens(tokens@)) == Err::<Seq<TokenView>, _>(e@),
        },
{
    let ghost orig = tokens@;
    let ghost input = views_of_tokens(orig);
    let mut tokens = tokens;
    let mut operators: Vec<Operator> = Vec::new();
    let mut rpn: Vec<Token> = Vec::new();
    let ghost mut i: int = 0;
    proof {
        assert(views_of_tokens(rpn@) =~= Seq::<TokenView>::empty());
        assert(tokens@ =~= orig.skip(0));
    }
    while tokens.len() > 0
        invariant
            0 <= i <= orig.len(),
            tokens@ == orig.skip(i),
            input == views_of_tokens(orig),
            spec_conv_from(
                input,
                i,
                ConvState { out: views_of_tokens(rpn@), ops: operators@ },
            ) == spec_to_postfix(input),
        decreases tokens.len(),
    {
        let ghost st = ConvState { out: views_of_tokens(rpn@), ops: operators@ };
        let t = tokens.remove(0);
        let ghost tok = t;
        proof {
            assert(orig.skip(i).remove(0) =~= orig.skip(i + 1));
            assert(tok == orig[i]);
            assert(input[i] == tok@);
        }
        match t {
            Token::Operand(operand) => {
                let ghost prev = rpn@;
                rpn.push(Token::Operand(operand));
                proof {
                    lemma_views_of_tokens_push(prev, tok);
                }
            },
            Token::Operator(op) => {
                if op == Operator::LBracket {
                    operators.push(Operator::LBracket);
                } else if op == Operator::RBracket {
                    match pop_to_lbracket(&mut rpn, &mut operators) {
                        Ok(_) => {},
                        Err(e) => {
                            proof {
                                assert(spec_conv_step(st, input[i]) == Err::<ConvState, ErrorView>(
                                    e@,
                                ));
                                assert(spec_conv_from(input, i, st) == Err::<Seq<TokenView>, _>(
                                    e@,
                                ));
                            }
                            return Err(e);
                        },
                    }
                } else {
                    let p = op.precedence();
                    pop_ge(&mut rpn, &mut operators, p);
                    operators.push(op);
                }
            },
        }
        proof {
            let st2 = ConvState { out: views_of_tokens(rpn@), ops: operators@ };
            assert(spec_conv_step(st, input[i]) == Ok::<ConvState, ErrorView>(st2));
            i = i + 1;
        }
    }
    let ghost st = ConvState { out: views_of_tokens(rpn@), ops: operators@ };
    proof {
        assert(i == orig.len());
        assert(spec_conv_from(input, i, st) == spec_conv_finish(st.out, st.ops));
    }
    while operators.len() > 0 && operators[operators.len() - 1] != Operator::LBracket
        invariant
            spec_conv_finish(views_of_tokens(rpn@), operators@) == spec_conv_finish(st.out, st.ops),
        decreases operators.len(),
    {
        let ghost prev = rpn@;
        let top = match operators.pop() {
            Some(op) => op,
            None => {
                proof {
                    assert(false);
                }
                Operator::LBracket
            },
        };
        rpn.push(Token::Operator(top));
        proof {
            lemma_views_of_tokens_push(prev, Token::Operator(top));
        }
    }
    if operators.len() > 0 {
        return Err(EvaluationError::UnmatchedOpeningBracket);
    }
    Ok(rpn)
}

/// The evaluator's state: the value stack and the steps recorded so far.
pub struct EvalState {
    pub stack: Seq<ValView>,
    pub steps: Seq<StepView>,
}

/// Operators that consume one operand: named functions and unary signs.
pub open spec fn is_unary_operator(op: Operator) -> bool {
    op is Function || op == Operator::Add(Arity::Unary) || op == Operator::Substract(Arity::Unary)
}

/// One evaluator step.  A literal pushes its text; a variable is rejected;
/// an operator pops its right operand, pops a left operand too unless it is
/// unary, and pushes the result of the step it records.
pub open spec fn spec_eval_step(st: EvalState, t: TokenView) -> Result<EvalState, ErrorView> {
    match t {
        TokenView::Operand(OperandView::Literal(text)) => Ok(
            EvalState { stack: st.stack.push(ValView::Literal(text)), steps: st.steps },
        ),
        TokenView::Operand(OperandView::Variable(name)) => Err(
            ErrorView::UnsupportedVariable(name),
        ),
        TokenView::Operator(op) => {
            if st.stack.len() == 0 {
                Err(ErrorView::MissingOperand)
            } else {
                let right = st.stack.last();
                if is_unary_operator(op) {
                    Ok(
                        EvalState {
                            stack: st.stack.drop_last().push(
                                ValView::Step(st.steps.len() as int),
                            ),
                            steps: st.steps.push(StepView { left: None, op: op, right: right }),
                        },
                    )
                } else if st.stack.len() == 1 {
                    Err(ErrorView::MissingOperand)
                } else {
                    let left = st.stack.drop_last().last();
                    Ok(
                        EvalState {
                            stack: st.stack.drop_last().drop_last().push(
                                ValView::Step(st.steps.len() as int),
                            ),
                            steps: st.steps.push(
                                StepView { left: Some(left), op: op, right: right },
                            ),
                        },
                    )
                }
            }
        },
    }
}

/// After the last token exactly one value must remain: none at all means an
/// operand was missing, more than one means the expression was malformed.
pub open spec fn spec_eval_finish(st: EvalState) -> Result<PlanView, ErrorView> {
    if st.stack.len() > 1 {
        Err(ErrorView::MalformedExpression)
    } else if st.stack.len() == 0 {
        Err(ErrorView::MissingOperand)
    } else {
        Ok(PlanView { steps: st.steps, result: st.stack[0] })
    }
}

/// The evaluation from position `i` onward, started in state `st`.
pub open spec fn spec_eval_from(ts: Seq<TokenView>, i: int, st: EvalState) -> Result<
    PlanView,
    ErrorView,
>
    decreases ts.len() - i,
{
    if i < 0 || i >= ts.len() {
        spec_eval_finish(st)
    } else {
        match spec_eval_step(st, ts[i]) {
            Err(e) => Err(e),
            Ok(st2) => spec_eval_from(ts, i + 1, st2),
        }
    }
}

/// What evaluating a postfix token sequence yields.
pub open spec fn spec_eval_postfix(ts: Seq<TokenView>) -> Result<PlanView, ErrorView> {
    spec_eval_from(ts, 0, EvalState { stack: Seq::empty(), steps: Seq::empty() })
}

/// Whether the operator consumes one operand.
fn is_unary(op: &Operator) -> (r: bool)
    ensures
        r == is_unary_operator(*op),
{
    match op {
        Operator::Function(_) => true,
        Operator::Add(Arity::Unary) => true,
        Operator::Substract(Arity::Unary) => true,
        _ => false,
    }
}

/// Folds a postfix token sequence into an evaluation plan, or reports the
/// first structural fault: a variable operand, an operator with too few
/// operands, or leftover values at the end.
#[verifier::loop_isolation(false)]
pub fn eval_postfix(tokens: Vec<Token>) -> (r: Result<EvalPlan, EvaluationError>)
    ensures
        match r {
            Ok(plan) => spec_eval_postfix(views_of_tokens(tokens@)) == Ok::<_, ErrorView>(plan@),
            Err(e) => spec_eval_postfix(views_of_tokens(tokens@)) == Err::<PlanView, _>(e@),
        },
{
    let ghost orig = tokens@;
    let ghost input = views_of_tokens(orig);
    let mut tokens = tokens;
    let mut stack: Vec<ValRef> = Vec::new();
    let mut steps: Vec<Step> = Vec::new();
    let ghost mut i: int = 0;
    proof {
        assert(views_of_vals(stack@) =~= Seq::<ValView>::empty());
        assert(views_of_steps(steps@) =~= Seq::<StepView>::empty());
        assert(tokens@ =~= orig.skip(0));
    }
    while tokens.len() > 0
        invariant
            0 <= i <= orig.len(),
            tokens@ == orig.skip(i),
            input == views_of_tokens(orig),
            spec_eval_from(
                input,
                i,
                EvalState { stack: views_of_vals(stack@), steps: views_of_steps(steps@) },
            ) == spec_eval_postfix(input),
        decreases tokens.len(),
    {
        let ghost st = EvalState { stack: views_of_vals(stack@), steps: views_of_steps(steps@) };
        let t = tokens.remove(0);
        let ghost tok = t;
        proof {
            assert(orig.skip(i).remove(0) =~= orig.skip(i + 1));
            assert(tok == orig[i]);
            assert(input[i] == tok@);
        }
        match t {
            Token::Operand(Operand::Literal(text)) => {
                let ghost prev = stack@;
                let ghost tv = text@;
                stack.push(ValRef::Literal(text));
                proof {
                    assert(views_of_vals(stack@) =~= views_of_vals(prev).push(
                        ValView::Literal(tv),
                    ));
                }
            },
            Token::Operand(Operand::Variable(name)) => {
                proof {
                    assert(spec_eval_step(st, input[i]) == Err::<EvalState, ErrorView>(
                        ErrorView::UnsupportedVariable(name),
                    ));
                    assert(spec_eval_from(input, i, st) == Err::<PlanView, _>(
                        ErrorView::UnsupportedVariable(name),
                    ));
                }
                return Err(EvaluationError::UnsupportedVariable(name));
            },
            Token::Operator(op) => {
                let ghost prev_refs = stack@;
                let ghost prev_stack = views_of_vals(stack@);
                let right = match stack.pop() {
                    Some(v) => v,
                    None => {
                        proof {
                            assert(st.stack.len() == 0);
                            assert(spec_eval_from(input, i, st) == Err::<PlanView, _>(
                                ErrorView::MissingOperand,
                            ));
                        }
                        return Err(EvaluationError::MissingOperand);
                    },
                };
                let ghost right_v = right@;
                proof {
                    assert(right_v == prev_stack.last());
                }
                let left: Option<ValRef> = if is_unary(&op) {
                    None
                } else {
                    match stack.pop() {
                        Some(v) => Some(v),
                        None => {
                            proof {
                                assert(st.stack.len() == 1);
                                assert(!is_unary_operator(op));
                                assert(spec_eval_from(input, i, st) == Err::<PlanView, _>(
                                    ErrorView::MissingOperand,
                                ));
                            }
                            return Err(EvaluationError::MissingOperand);
                        },
                    }
                };
                let idx = steps.len();
                let ghost prev_stack2 = stack@;
                let ghost prev_steps = steps@;
                stack.push(ValRef::Step(idx));
                let step = Step { left, op, right };
                let ghost stepg = step;
                steps.push(step);
                proof {
                    lemma_views_of_vals_push(prev_stack2, ValRef::Step(idx));
                    lemma_views_of_steps_push(prev_steps, stepg);
                    if stepg@.left is Some {
                        assert(prev_stack2 == prev_refs.drop_last().drop_last());
                        assert(stepg@.left == Some(prev_refs.drop_last().last()@));
                        assert(prev_stack.drop_last().last() == prev_refs.drop_last().last()@);
                        assert(views_of_vals(prev_stack2) =~= prev_stack.drop_last().drop_last());
                    } else {
                        assert(prev_stack2 == prev_refs.drop_last());
                        assert(views_of_vals(prev_stack2) =~= prev_stack.drop_last());
                    }
                    assert(idx as int == views_of_steps(prev_steps).len());
                }
            },
        }
        proof {
            let st2 = EvalState { stack: views_of_vals(stack@), steps: views_of_steps(steps@) };
            assert(spec_eval_step(st, input[i]) == Ok::<EvalState, ErrorView>(st2));
            i = i + 1;
        }
    }
    proof {
        assert(i == orig.len());
    }
    if stack.len() > 1 {
        return Err(EvaluationError::MalformedExpression);
    }
    let result = match stack.pop() {
        Some(v) => v,
        None => {
            return Err(EvaluationError::MissingOperand);
        },
    };
    Ok(EvalPlan { steps, result })
}

/// What the whole pipeline yields for a text: tokenize, convert to postfix,
/// evaluate, propagating the first error unchanged.
pub open spec fn spec_evaluate(s: Seq<char>) -> Result<PlanView, ErrorView> {
    match spec_tokenize(s) {
        Err(e) => Err(e),
        Ok(ts) => match spec_to_postfix(ts) {
            Err(e) => Err(e),
            Ok(rpn) => spec_eval_postfix(rpn),
        },
    }
}

/// Runs the three-stage pipeline on a text and returns the evaluation plan,
/// or the first error any stage reports.  The plan — and with it the
/// numeric result and the order of every traced operation — is a function
/// of the text alone.
pub fn evaluate_plan(expression: &str) -> (r: Result<EvalPlan, EvaluationError>)
    ensures
        match r {
            Ok(plan) => spec_evaluate(expression@) == Ok::<_, ErrorView>(plan@),
            Err(e) => spec_evaluate(expression@) == Err::<PlanView, _>(e@),
        },
{
    let tokens = match tokenize(expression) {
        Ok(tokens) => tokens,
        Err(e) => {
            return Err(e);
        },
    };
    let rpn = match infix_to_rpn(tokens) {
        Ok(rpn) => rpn,
        Err(e) => {
            return Err(e);
        },
    };
    eval_postfix(rpn)
}

} // verus!
