//! The closed set of operators, the arity tag that distinguishes prefix
//! sign operators from their binary forms, and the fixed precedence table.

use vstd::prelude::*;
use crate::function::Function;
use crate::text::str_eq;

verus! {

/// Whether a sign operator stands before a single operand (`-5`) or
/// between two (`3-5`).
#[derive(Debug, PartialEq, Eq, Structural, Copy, Clone)]
pub enum Arity {
    Unary,
    Binary,
}

/// An operator token.  Brackets are operators only in the sense that the
/// converter keeps them on its operator stack as delimiters; they never
/// reach the evaluator from the converter.
#[derive(Debug, PartialEq, Eq, Structural, Copy, Clone)]
pub enum Operator {
    Function(Function),
    Add(Arity),
    Substract(Arity),
    Multiply,
    Divide,
    LBracket,
    RBracket,
}

/// The fixed precedence table: higher binds tighter.  Binary `+`/`-` rank 3,
/// `*` and `/` rank 4, named functions rank 5, unary `+`/`-` rank 6.
/// Brackets rank 0: they are never compared, only used as stack delimiters.
pub open spec fn spec_precedence(op: Operator) -> u8 {
    match op {
        Operator::Add(Arity::Binary) => 3,
        Operator::Substract(Arity::Binary) => 3,
        Operator::Multiply => 4,
        Operator::Divide => 4,
        Operator::Function(_) => 5,
        Operator::Add(Arity::Unary) => 6,
        Operator::Substract(Arity::Unary) => 6,
        Operator::LBracket => 0,
        Operator::RBracket => 0,
    }
}

/// The operator written as the given text, if any.  Sign operators read
/// this way are binary; the lexer alone decides when a sign is unary.
pub open spec fn spec_operator_of(text: Seq<char>) -> Option<Operator> {
    if text == "+"@ {
        Some(Operator::Add(Arity::Binary))
    } else if text == "-"@ {
        Some(Operator::Substract(Arity::Binary))
    } else if text == "*"@ {
        Some(Operator::Multiply)
    } else if text == "/"@ {
        Some(Operator::Divide)
    } else if text == "("@ {
        Some(Operator::LBracket)
    } else if text == ")"@ {
        Some(Operator::RBracket)
    } else {
        None
    }
}

impl Operator {
    /// Reads an operator from its one-character spelling; text that spells
    /// no operator yields `None`.
    pub fn from_str(buffer: &str) -> (r: Option<Operator>)
        ensures
            r == spec_operator_of(buffer@),
    {
        if str_eq(buffer, "+") {
            Some(Operator::Add(Arity::Binary))
        } else if str_eq(buffer, "-") {
            Some(Operator::Substract(Arity::Binary))
        } else if str_eq(buffer, "*") {
            Some(Operator::Multiply)
        } else if str_eq(buffer, "/") {
            Some(Operator::Divide)
        } else if str_eq(buffer, "(") {
            Some(Operator::LBracket)
        } else if str_eq(buffer, ")") {
            Some(Operator::RBracket)
        } else {
            None
        }
    }

    /// The operator's rank in the fixed precedence table.
    pub fn precedence(&self) -> (r: u8)
        ensures
            r == spec_precedence(*self),
    {
        match *self {
            Operator::Add(Arity::Binary) => 3,
            Operator::Substract(Arity::Binary) => 3,
            Operator::Multiply => 4,
            Operator::Divide => 4,
            Operator::Function(_) => 5,
            Operator::Add(Arity::Unary) => 6,
            Operator::Substract(Arity::Unary) => 6,
            Operator::LBracket => 0,
            Operator::RBracket => 0,
        }
    }
}

} // verus!
