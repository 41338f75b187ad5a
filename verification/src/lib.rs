//! An arithmetic expression evaluator's verified core.
//!
//! The pipeline turns a character string into a binary expression tree in
//! three verified stages: a tokenizer groups characters into tokens, a
//! shunting-yard pass reorders the infix token stream into postfix form, and
//! a builder assembles the postfix stream into an expression tree. A fourth
//! module classifies each tree node into the operation its evaluator must
//! apply; the floating-point arithmetic itself lives outside this crate.

pub mod token;
pub mod tokenizer;
pub mod rpn;
pub mod tree;
pub mod eval;
