//! A three-stage arithmetic expression evaluator: a lexer that turns text
//! into tokens, an operator-precedence converter that reorders them into
//! postfix (reverse Polish) form, and a postfix evaluator that turns the
//! postfix sequence into an ordered plan of elementary operations.
//!
//! Numeric literals travel through the pipeline as their digit text; the
//! plan produced by the evaluator names every elementary operation and the
//! operands it consumes, so a caller can carry out the floating-point
//! arithmetic and render one trace line per reportable operation.

pub mod error;
pub mod evaluator;
pub mod function;
pub mod laws;
pub mod operator;
pub mod plan;
pub mod text;
pub mod token;
pub mod tokenizer;
