//! A small stack-based word evaluator: integers and booleans on an operand
//! stack, a fixed set of built-in words, and user definitions that are looked
//! up each time they are called.
pub mod builtin;
pub mod dictionary;
pub mod eval;
pub mod laws;
pub mod text;
pub mod word;
