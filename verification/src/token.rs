//! Tokens: the output shape of the lexer, the input and output shape of the
//! converter, and the input shape of the evaluator.  A numeric literal
//! carries its digit text; the digits are turned into a number only when a
//! caller carries out the plan that the evaluator produces.

use vstd::prelude::*;
use crate::operator::Operator;

verus! {

/// An operand token: a numeric literal carrying its digit-and-dot text, or
/// a one-character variable.  Variables are representable but the evaluator
/// rejects them by design.
#[derive(Debug, PartialEq, Eq, Clone)]
pub enum Operand {
    Literal(Vec<char>),
    Variable(char),
}

/// A token: an operand or an operator.
#[derive(Debug, PartialEq, Eq, Clone)]
pub enum Token {
    Operand(Operand),
    Operator(Operator),
}

/// The mathematical image of an [`Operand`]: literal text as a sequence of
/// characters.
pub enum OperandView {
    Literal(Seq<char>),
    Variable(char),
}

/// The mathematical image of a [`Token`].
pub enum TokenView {
    Operand(OperandView),
    Operator(Operator),
}

impl View for Operand {
    type V = OperandView;

    open spec fn view(&self) -> OperandView {
        match self {
            Operand::Literal(text) => OperandView::Literal(text@),
            Operand::Variable(name) => OperandView::Variable(*name),
        }
    }
}

impl View for Token {
    type V = TokenView;

    open spec fn view(&self) -> TokenView {
        match self {
            Token::Operand(operand) => TokenView::Operand(operand@),
            Token::Operator(op) => TokenView::Operator(*op),
        }
    }
}

/// The images of a sequence of tokens, in order.
pub open spec fn views_of_tokens(tokens: Seq<Token>) -> Seq<TokenView> {
    tokens.map_values(|t: Token| t@)
}

/// Appending a token to a vector appends its image to the vector's image.
pub proof fn lemma_views_of_tokens_push(tokens: Seq<Token>, t: Token)
    ensures
        views_of_tokens(tokens.push(t)) == views_of_tokens(tokens).push(t@),
{
    assert(views_of_tokens(tokens.push(t)) =~= views_of_tokens(tokens).push(t@));
}

} // verus!
