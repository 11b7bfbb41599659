//! Laws of the pipeline as a whole, stated over the spec-level images that
//! the stage contracts use.
//!
//! The centrepiece: for every well-formed, bracket-balanced infix token
//! sequence, conversion to postfix succeeds and the postfix evaluation
//! terminates with exactly one value on the stack — no operand is missing
//! and none is left over.

use vstd::prelude::*;
use crate::error::ErrorView;
use crate::evaluator::{
    is_unary_operator, spec_conv_finish, spec_conv_from, spec_eval_from, spec_eval_postfix,
    spec_evaluate, spec_pop_ge, spec_pop_to_lbracket, spec_to_postfix, ConvState, EvalState,
};
use crate::tokenizer::spec_tokenize;
use crate::operator::{spec_precedence, Operator};
use crate::plan::PlanView;
use crate::token::{OperandView, TokenView};

verus! {

// ---------------------------------------------------------------------
// Well-formed postfix sequences, by operand counting.
// ---------------------------------------------------------------------
/// Whether the token is a variable operand.
pub open spec fn is_variable_token(t: TokenView) -> bool {
    t matches TokenView::Operand(OperandView::Variable(_))
}

/// The net effect of one postfix token on the evaluator's stack height:
/// an operand pushes one value; a unary operator replaces one value; any
/// other operator replaces two values by one.
pub open spec fn net(t: TokenView) -> int {
    match t {
        TokenView::Operand(_) => 1,
        TokenView::Operator(op) => if is_unary_operator(op) {
            0int
        } else {
            -1int
        },
    }
}

/// The stack height after a postfix sequence is consumed from an empty
/// stack: the sum of the tokens' net effects.
pub open spec fn bal(ts: Seq<TokenView>) -> int
    decreases ts.len(),
{
    if ts.len() == 0 {
        0
    } else {
        bal(ts.drop_last()) + net(ts.last())
    }
}

/// How many operands an operator consumes.
pub open spec fn arity_required(op: Operator) -> int {
    if is_unary_operator(op) {
        1
    } else {
        2
    }
}

/// Whether the token at position `i` finds the operands it consumes.
pub open spec fn ok_at(ts: Seq<TokenView>, i: int) -> bool {
    match ts[i] {
        TokenView::Operator(op) => bal(ts.take(i)) >= arity_required(op),
        _ => true,
    }
}

/// Every operator of the sequence finds its operands on the stack.
pub open spec fn prefix_ok(ts: Seq<TokenView>) -> bool {
    forall|i: int| 0 <= i < ts.len() ==> #[trigger] ok_at(ts, i)
}

/// No variable operand anywhere in the sequence.
pub open spec fn no_variables(ts: Seq<TokenView>) -> bool {
    forall|i: int| 0 <= i < ts.len() ==> !is_variable_token(#[trigger] ts[i])
}

/// A well-formed postfix sequence: free of variables, every operator finds
/// its operands, and exactly one value remains at the end.
pub open spec fn rpn_wf(ts: Seq<TokenView>) -> bool {
    no_variables(ts) && prefix_ok(ts) && bal(ts) == 1
}

/// Extending a prefix of the sequence by one token adds that token's net
/// effect to the stack height.
proof fn lemma_bal_take_succ(ts: Seq<TokenView>, i: int)
    requires
        0 <= i < ts.len(),
    ensures
        bal(ts.take(i + 1)) == bal(ts.take(i)) + net(ts[i]),
{
    assert(ts.take(i + 1).drop_last() =~= ts.take(i));
    assert(ts.take(i + 1).last() == ts[i]);
}

/// Appending a token adds its net effect to the stack height.
proof fn lemma_bal_push(ts: Seq<TokenView>, t: TokenView)
    ensures
        bal(ts.push(t)) == bal(ts) + net(t),
{
    assert(ts.push(t).drop_last() =~= ts);
    assert(ts.push(t).last() == t);
}

/// Appending a token that finds its operands keeps every operator of the
/// sequence supplied.
proof fn lemma_prefix_ok_push(ts: Seq<TokenView>, t: TokenView)
    requires
        prefix_ok(ts),
        t matches TokenView::Operator(op) ==> bal(ts) >= arity_required(op),
    ensures
        prefix_ok(ts.push(t)),
{
    let ts2 = ts.push(t);
    assert forall|i: int| 0 <= i < ts2.len() implies #[trigger] ok_at(ts2, i) by {
        if i < ts.len() {
            assert(ts2.take(i) =~= ts.take(i));
            assert(ts2[i] == ts[i]);
            assert(ok_at(ts, i));
        } else {
            assert(i == ts.len());
            assert(ts2.take(i) =~= ts);
            assert(ts2[i] == t);
        }
    }
}

/// Appending a token that is no variable keeps the sequence variable-free.
proof fn lemma_no_variables_push(ts: Seq<TokenView>, t: TokenView)
    requires
        no_variables(ts),
        !is_variable_token(t),
    ensures
        no_variables(ts.push(t)),
{
    let ts2 = ts.push(t);
    assert forall|i: int| 0 <= i < ts2.len() implies !is_variable_token(#[trigger] ts2[i]) by {
        if i < ts.len() {
            assert(ts2[i] == ts[i]);
        } else {
            assert(ts2[i] == t);
        }
    }
}

// ---------------------------------------------------------------------
// A well-formed postfix sequence evaluates to exactly one value.
// ---------------------------------------------------------------------
proof fn lemma_rpn_wf_evaluates_from(ts: Seq<TokenView>, i: int, st: EvalState)
    requires
        0 <= i <= ts.len(),
        no_variables(ts),
        prefix_ok(ts),
        bal(ts) == 1,
        st.stack.len() == bal(ts.take(i)),
    ensures
        spec_eval_from(ts, i, st) is Ok,
    decreases ts.len() - i,
{
    if i == ts.len() {
        assert(ts.take(i) =~= ts);
    } else {
        lemma_bal_take_succ(ts, i);
        assert(ok_at(ts, i));
        assert(!is_variable_token(ts[i]));
        match ts[i] {
            TokenView::Operand(OperandView::Literal(_)) => {
                let st2 = spec_eval_step_ok(st, ts[i]);
                lemma_rpn_wf_evaluates_from(ts, i + 1, st2);
            },
            TokenView::Operand(OperandView::Variable(_)) => {
                assert(false);
            },
            TokenView::Operator(op) => {
                assert(st.stack.len() >= arity_required(op));
                let st2 = spec_eval_step_ok(st, ts[i]);
                lemma_rpn_wf_evaluates_from(ts, i + 1, st2);
            },
        }
    }
}

/// The state after one successful evaluator step.
spec fn spec_eval_step_ok(st: EvalState, t: TokenView) -> EvalState {
    crate::evaluator::spec_eval_step(st, t)->Ok_0
}

/// Every well-formed postfix sequence evaluates without fault: no operand
/// is missing, no variable turns up, and exactly one value remains.
pub proof fn lemma_rpn_wf_evaluates(ts: Seq<TokenView>)
    requires
        rpn_wf(ts),
    ensures
        spec_eval_postfix(ts) is Ok,
{
    let st = EvalState { stack: Seq::empty(), steps: Seq::empty() };
    assert(ts.take(0) =~= Seq::<TokenView>::empty());
    lemma_rpn_wf_evaluates_from(ts, 0, st);
}

// ---------------------------------------------------------------------
// Bookkeeping over the converter's operator stack.
// ---------------------------------------------------------------------
/// How many extra operands the operator will consume once popped to the
/// output: one for a binary operator, none for a unary operator or the
/// opening bracket (which is discarded, never emitted).
pub open spec fn op_weight(op: Operator) -> int {
    if is_unary_operator(op) || op == Operator::LBracket {
        0int
    } else {
        1int
    }
}

/// The summed weight of a stack of operators.
pub open spec fn ops_weight(ops: Seq<Operator>) -> int
    decreases ops.len(),
{
    if ops.len() == 0 {
        0
    } else {
        ops_weight(ops.drop_last()) + op_weight(ops.last())
    }
}

/// How many opening brackets a stack of operators holds.
pub open spec fn lbracket_count(ops: Seq<Operator>) -> int
    decreases ops.len(),
{
    if ops.len() == 0 {
        0
    } else {
        lbracket_count(ops.drop_last()) + if ops.last() == Operator::LBracket {
            1int
        } else {
            0int
        }
    }
}

proof fn lemma_counts_nonneg(ops: Seq<Operator>)
    ensures
        ops_weight(ops) >= 0,
        lbracket_count(ops) >= 0,
    decreases ops.len(),
{
    if ops.len() > 0 {
        lemma_counts_nonneg(ops.drop_last());
    }
}

/// Popping operators of precedence at least `p` preserves the output's
/// well-formedness bookkeeping.  Brackets rank 0, so no bracket is popped.
proof fn lemma_pop_ge_props(out: Seq<TokenView>, ops: Seq<Operator>, p: u8)
    requires
        p >= 1,
        prefix_ok(out),
        no_variables(out),
        bal(out) == ops_weight(ops) + 1,
    ensures
        ({
            let r = spec_pop_ge(out, ops, p);
            prefix_ok(r.0) && no_variables(r.0) && bal(r.0) == ops_weight(r.1) + 1
                && lbracket_count(r.1) == lbracket_count(ops)
        }),
    decreases ops.len(),
{
    if ops.len() > 0 && spec_precedence(ops.last()) >= p {
        let op = ops.last();
        let t = TokenView::Operator(op);
        assert(op != Operator::LBracket);
        lemma_counts_nonneg(ops.drop_last());
        if !is_unary_operator(op) {
            assert(bal(out) >= 2);
        }
        lemma_prefix_ok_push(out, t);
        lemma_no_variables_push(out, t);
        lemma_bal_push(out, t);
        lemma_pop_ge_props(out.push(t), ops.drop_last(), p);
    }
}

/// Popping to the matching opening bracket succeeds whenever one is on the
/// stack, and preserves the output's well-formedness bookkeeping.
proof fn lemma_pop_to_lbracket_props(out: Seq<TokenView>, ops: Seq<Operator>)
    requires
        prefix_ok(out),
        no_variables(out),
        bal(out) == ops_weight(ops) + 1,
        lbracket_count(ops) >= 1,
    ensures
        spec_pop_to_lbracket(out, ops) is Ok,
        ({
            let st = spec_pop_to_lbracket(out, ops)->Ok_0;
            prefix_ok(st.out) && no_variables(st.out) && bal(st.out) == ops_weight(st.ops) + 1
                && lbracket_count(st.ops) == lbracket_count(ops) - 1
        }),
    decreases ops.len(),
{
    if ops.len() == 0 {
        assert(false);
    } else if ops.last() == Operator::LBracket {
    } else {
        let op = ops.last();
        let t = TokenView::Operator(op);
        lemma_counts_nonneg(ops.drop_last());
        if !is_unary_operator(op) {
            assert(bal(out) >= 2);
        }
        lemma_prefix_ok_push(out, t);
        lemma_no_variables_push(out, t);
        lemma_bal_push(out, t);
        lemma_pop_to_lbracket_props(out.push(t), ops.drop_last());
    }
}

/// Emptying a bracket-free operator stack at the end of the conversion
/// yields a well-formed postfix sequence.
proof fn lemma_conv_finish_props(out: Seq<TokenView>, ops: Seq<Operator>)
    requires
        prefix_ok(out),
        no_variables(out),
        bal(out) == ops_weight(ops) + 1,
        lbracket_count(ops) == 0,
    ensures
        spec_conv_finish(out, ops) is Ok,
        rpn_wf(spec_conv_finish(out, ops)->Ok_0),
    decreases ops.len(),
{
    if ops.len() == 0 {
    } else if ops.last() == Operator::LBracket {
        lemma_counts_nonneg(ops.drop_last());
        assert(false);
    } else {
        let op = ops.last();
        let t = TokenView::Operator(op);
        lemma_counts_nonneg(ops.drop_last());
        if !is_unary_operator(op) {
            assert(bal(out) >= 2);
        }
        lemma_prefix_ok_push(out, t);
        lemma_no_variables_push(out, t);
        lemma_bal_push(out, t);
        lemma_conv_finish_props(out.push(t), ops.drop_last());
    }
}

// ---------------------------------------------------------------------
// Well-formed infix sequences.
// ---------------------------------------------------------------------
/// What the grammar expects next while reading an infix sequence.
pub enum InfixMode {
    /// An operand is owed; any prefix — a sign or a named function — may
    /// still come first.
    Operand,
    /// An operand is owed directly: a prefix operator was just read, and
    /// this converter gives prefixes no room to stack, so only a literal
    /// or an opening bracket may follow.
    Prefixed,
    /// An operand was completed; a binary operator or a closing bracket
    /// may follow.
    Operator,
}

/// One grammar step: what reading the token turns the expectation and the
/// bracket depth into, or `None` when the token is out of place.
pub open spec fn infix_step(m: InfixMode, depth: int, t: TokenView) -> Option<(InfixMode, int)> {
    match t {
        TokenView::Operand(OperandView::Literal(_)) => if m is Operand || m is Prefixed {
            Some((InfixMode::Operator, depth))
        } else {
            None
        },
        TokenView::Operand(OperandView::Variable(_)) => None,
        TokenView::Operator(op) => {
            if op == Operator::LBracket {
                if m is Operand || m is Prefixed {
                    Some((InfixMode::Operand, depth + 1))
                } else {
                    None
                }
            } else if op == Operator::RBracket {
                if m is Operator && depth > 0 {
                    Some((InfixMode::Operator, depth - 1))
                } else {
                    None
                }
            } else if is_unary_operator(op) {
                if m is Operand {
                    Some((InfixMode::Prefixed, depth))
                } else {
                    None
                }
            } else {
                if m is Operator {
                    Some((InfixMode::Operand, depth))
                } else {
                    None
                }
            }
        },
    }
}

/// Whether the rest of the sequence completes a valid expression from the
/// given expectation and bracket depth.
pub open spec fn valid_infix_from(ts: Seq<TokenView>, i: int, m: InfixMode, depth: int) -> bool
    decreases ts.len() - i,
{
    if i < 0 || i >= ts.len() {
        m is Operator && depth == 0
    } else {
        match infix_step(m, depth, ts[i]) {
            None => false,
            Some(md) => valid_infix_from(ts, i + 1, md.0, md.1),
        }
    }
}

/// A well-formed, bracket-balanced infix expression over literal operands:
/// operands and binary operators alternate, every bracket matches, and a
/// prefix operator — a sign or a named function — stands directly before a
/// literal or an opening bracket.
pub open spec fn valid_infix(ts: Seq<TokenView>) -> bool {
    valid_infix_from(ts, 0, InfixMode::Operand, 0)
}

// ---------------------------------------------------------------------
// The converter turns every valid infix sequence into well-formed postfix.
// ---------------------------------------------------------------------
proof fn lemma_conv_from_valid(ts: Seq<TokenView>, i: int, st: ConvState, m: InfixMode, depth: int)
    requires
        0 <= i <= ts.len(),
        valid_infix_from(ts, i, m, depth),
        prefix_ok(st.out),
        no_variables(st.out),
        bal(st.out) == ops_weight(st.ops) + if m is Operator {
            1int
        } else {
            0int
        },
        lbracket_count(st.ops) == depth,
        m is Operand ==> st.ops.len() == 0 || spec_precedence(st.ops.last()) <= 4,
    ensures
        spec_conv_from(ts, i, st) is Ok,
        rpn_wf(spec_conv_from(ts, i, st)->Ok_0),
    decreases ts.len() - i,
{
    if i == ts.len() {
        lemma_conv_finish_props(st.out, st.ops);
    } else {
        let t = ts[i];
        let md = infix_step(m, depth, t)->0;
        match t {
            TokenView::Operand(OperandView::Literal(_)) => {
                lemma_prefix_ok_push(st.out, t);
                lemma_no_variables_push(st.out, t);
                lemma_bal_push(st.out, t);
                let st2 = ConvState { out: st.out.push(t), ops: st.ops };
                lemma_conv_from_valid(ts, i + 1, st2, md.0, md.1);
            },
            TokenView::Operand(OperandView::Variable(_)) => {
                assert(false);
            },
            TokenView::Operator(op) => {
                if op == Operator::LBracket {
                    let ops2 = st.ops.push(op);
                    assert(ops_weight(ops2) == ops_weight(st.ops) + 0) by {
                        assert(ops2.drop_last() =~= st.ops);
                    }
                    assert(lbracket_count(ops2) == lbracket_count(st.ops) + 1) by {
                        assert(ops2.drop_last() =~= st.ops);
                    }
                    let st2 = ConvState { out: st.out, ops: ops2 };
                    lemma_conv_from_valid(ts, i + 1, st2, md.0, md.1);
                } else if op == Operator::RBracket {
                    lemma_pop_to_lbracket_props(st.out, st.ops);
                    let st2 = spec_pop_to_lbracket(st.out, st.ops)->Ok_0;
                    lemma_conv_from_valid(ts, i + 1, st2, md.0, md.1);
                } else if is_unary_operator(op) {
                    let p = spec_precedence(op);
                    assert(p >= 5);
                    assert(spec_pop_ge(st.out, st.ops, p) == (st.out, st.ops));
                    let ops2 = st.ops.push(op);
                    assert(ops_weight(ops2) == ops_weight(st.ops)) by {
                        assert(ops2.drop_last() =~= st.ops);
                    }
                    assert(lbracket_count(ops2) == lbracket_count(st.ops)) by {
                        assert(ops2.drop_last() =~= st.ops);
                    }
                    let st2 = ConvState { out: st.out, ops: ops2 };
                    lemma_conv_from_valid(ts, i + 1, st2, md.0, md.1);
                } else {
                    let p = spec_precedence(op);
                    assert(1 <= p <= 4);
                    lemma_pop_ge_props(st.out, st.ops, p);
                    let popped = spec_pop_ge(st.out, st.ops, p);
                    let ops2 = popped.1.push(op);
                    assert(ops_weight(ops2) == ops_weight(popped.1) + 1) by {
                        assert(ops2.drop_last() =~= popped.1);
                    }
                    assert(lbracket_count(ops2) == lbracket_count(popped.1)) by {
                        assert(ops2.drop_last() =~= popped.1);
                    }
                    let st2 = ConvState { out: popped.0, ops: ops2 };
                    lemma_conv_from_valid(ts, i + 1, st2, md.0, md.1);
                }
            },
        }
    }
}

/// For every valid bracket-balanced infix expression, conversion to
/// postfix succeeds and the postfix evaluation terminates with exactly one
/// value on the stack: the converter reports no bracket fault, and the
/// evaluator — rather than any missing-operand or malformed-expression
/// fault — produces a plan.
pub proof fn theorem_valid_infix_evaluates(ts: Seq<TokenView>)
    requires
        valid_infix(ts),
    ensures
        spec_to_postfix(ts) is Ok,
        spec_eval_postfix(spec_to_postfix(ts)->Ok_0) is Ok,
{
    let st = ConvState { out: Seq::empty(), ops: Seq::empty() };
    lemma_conv_from_valid(ts, 0, st, InfixMode::Operand, 0);
    lemma_rpn_wf_evaluates(spec_to_postfix(ts)->Ok_0);
}

/// The same, lifted to the whole pipeline: a text whose tokens form a
/// valid bracket-balanced infix expression evaluates to a plan, never to a
/// bracket, operand or leftover-value fault.
pub proof fn lemma_valid_text_evaluates(s: Seq<char>)
    requires
        spec_tokenize(s) is Ok,
        valid_infix(spec_tokenize(s)->Ok_0),
    ensures
        spec_evaluate(s) is Ok,
{
    theorem_valid_infix_evaluates(spec_tokenize(s)->Ok_0);
}

// ---------------------------------------------------------------------
// Determinism of the whole pipeline.
// ---------------------------------------------------------------------
/// Evaluation is a pure function of the input text: two runs of the
/// pipeline on the same text — each with its own fresh trace — end the same
/// way, with the same plan (hence the same numeric result and the same
/// trace sequence, step for step) or with the same error.
pub proof fn lemma_evaluate_deterministic(
    s: Seq<char>,
    r1: Result<PlanView, ErrorView>,
    r2: Result<PlanView, ErrorView>,
)
    requires
        r1 == spec_evaluate(s),
        r2 == spec_evaluate(s),
    ensures
        r1 == r2,
{
}

} // verus!
