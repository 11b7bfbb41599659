//! The closed set of named single-argument functions the lexer recognises.

use vstd::prelude::*;
use crate::error::{ErrorView, EvaluationError};
use crate::text::{chars_of, str_eq};

verus! {

/// A named single-argument function.  The set is closed: no further
/// functions can be registered.
#[derive(Debug, PartialEq, Eq, Structural, Copy, Clone)]
pub enum Function {
    Sin,
    Cos,
}

/// The function named by a letter run: `sin` names [`Function::Sin`],
/// `cosin` names [`Function::Cos`], every other name is unknown.
pub open spec fn spec_function_of(name: Seq<char>) -> Option<Function> {
    if name == "sin"@ {
        Some(Function::Sin)
    } else if name == "cosin"@ {
        Some(Function::Cos)
    } else {
        None
    }
}

impl Function {
    /// Looks a name up in the fixed function table; an unknown name is
    /// reported as [`EvaluationError::UnknownFunction`] carrying that name.
    pub fn from_str(buffer: &str) -> (r: Result<Function, EvaluationError>)
        ensures
            match r {
                Ok(f) => spec_function_of(buffer@) == Some(f),
                Err(e) => spec_function_of(buffer@) is None && e@ == ErrorView::UnknownFunction(
                    buffer@,
                ),
            },
    {
        if str_eq(buffer, "sin") {
            Ok(Function::Sin)
        } else if str_eq(buffer, "cosin") {
            Ok(Function::Cos)
        } else {
            Err(EvaluationError::UnknownFunction(chars_of(buffer)))
        }
    }
}

} // verus!
