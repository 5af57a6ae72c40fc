//! Values on the operand stack and the ways an evaluation can fail.
use vstd::prelude::*;
use vstd::string::*;
use crate::text::{decimal, decimal_text};

verus! {

/// A value on the operand stack.
#[derive(Clone, Copy, Debug, PartialEq, Eq, Structural)]
pub enum Word {
    I64(i64),
    Bool(bool),
}

/// Why an evaluation stopped.
#[derive(Clone, Copy, Debug, PartialEq, Eq, Structural)]
pub enum EvalError {
    /// A word needed more values than the stack held.
    StackUnderflow,
    /// A word was applied to values of a kind it does not accept.
    TypeMismatch,
    /// A token is no built-in word, no literal and no defined word.
    UnknownWord,
    /// A definition has no body, or its name is a built-in word.
    BadDefinition,
    /// A `;` stood outside a definition.
    StrayTerminator,
    /// Division by zero, a result outside the 64-bit range, or a shift by a
    /// negative amount or by 64 or more.
    Arithmetic,
    /// Calls of defined words nested deeper than the evaluation allows.
    TooDeep,
}

/// The printed form of a value: `true` or `false`, or the integer in decimal.
pub open spec fn rendering(w: Word) -> Seq<char> {
    match w {
        Word::I64(n) => decimal(n as int),
        Word::Bool(b) => if b { "true"@ } else { "false"@ },
    }
}

impl Word {
    /// The printed form of this value.
    pub fn render(&self) -> (r: String)
        ensures
            r@ == rendering(*self),
    {
        match self {
            Word::I64(n) => decimal_text(*n),
            Word::Bool(b) => if *b {
                String::from_str("true")
            } else {
                String::from_str("false")
            },
        }
    }
}

} // verus!
