//! The error taxonomy of the pipeline: lexical errors, bracket-matching
//! errors of the converter, and structural errors of the postfix evaluator.
//! Every stage reports the first fault it meets and the pipeline propagates
//! it unchanged.

use vstd::prelude::*;

verus! {

/// An error of the evaluation pipeline.  Each variant carries the context
/// needed to locate the fault in the input: the offending character and its
/// position, the unknown name, or the malformed digit text.
#[derive(Debug, Clone, PartialEq, Eq)]
pub enum EvaluationError {
    /// A character that belongs to no lexical class, with its position in
    /// the whitespace-stripped input.
    InvalidCharacter(char, usize),
    /// A letter run directly before `(` that names no known function.
    UnknownFunction(Vec<char>),
    /// A digit-and-dot run that is not a numeric literal (no digit, or more
    /// than one dot).
    MalformedNumber(Vec<char>),
    /// A `+` or `-` that is licensed neither as a unary nor as a binary
    /// operator at its position.
    InvalidOperatorPlacement(usize),
    /// The input stops where an operand was still owed; carries the length
    /// of the whitespace-stripped input.
    UnexpectedEnd(usize),
    /// A `)` with no `(` left to match.
    UnmatchedClosingBracket,
    /// A `(` still unmatched when the input is exhausted.
    UnmatchedOpeningBracket,
    /// A variable operand reached the evaluator; variables are tokenizable
    /// but deliberately not evaluable.
    UnsupportedVariable(char),
    /// An operator reached the evaluator with too few operands on the
    /// stack, or the stack was empty at the end.
    MissingOperand,
    /// More than one value was left on the stack when the postfix sequence
    /// was exhausted.
    MalformedExpression,
}

/// The mathematical image of an [`EvaluationError`]: digit text becomes a
/// sequence of characters, positions become unbounded integers.
pub enum ErrorView {
    InvalidCharacter(char, int),
    UnknownFunction(Seq<char>),
    MalformedNumber(Seq<char>),
    InvalidOperatorPlacement(int),
    UnexpectedEnd(int),
    UnmatchedClosingBracket,
    UnmatchedOpeningBracket,
    UnsupportedVariable(char),
    MissingOperand,
    MalformedExpression,
}

impl View for EvaluationError {
    type V = ErrorView;

    open spec fn view(&self) -> ErrorView {
        match self {
            EvaluationError::InvalidCharacter(c, i) => ErrorView::InvalidCharacter(*c, *i as int),
            EvaluationError::UnknownFunction(name) => ErrorView::UnknownFunction(name@),
            EvaluationError::MalformedNumber(text) => ErrorView::MalformedNumber(text@),
            EvaluationError::InvalidOperatorPlacement(i) => ErrorView::InvalidOperatorPlacement(
                *i as int,
            ),
            EvaluationError::UnexpectedEnd(i) => ErrorView::UnexpectedEnd(*i as int),
            EvaluationError::UnmatchedClosingBracket => ErrorView::UnmatchedClosingBracket,
            EvaluationError::UnmatchedOpeningBracket => ErrorView::UnmatchedOpeningBracket,
            EvaluationError::UnsupportedVariable(c) => ErrorView::UnsupportedVariable(*c),
            EvaluationError::MissingOperand => ErrorView::MissingOperand,
            EvaluationError::MalformedExpression => ErrorView::MalformedExpression,
        }
    }
}

} // verus!
