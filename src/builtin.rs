//! The built-in words: their names and what each does to the operand stack.
use vstd::prelude::*;
use crate::text::same_text;
use crate::word::{EvalError, Word};

verus! {

/// A built-in word.
#[derive(Clone, Copy, Debug, PartialEq, Eq, Structural)]
pub enum Builtin {
    Add,
    Sub,
    Mul,
    Div,
    And,
    Or,
    Xor,
    Lshift,
    Rshift,
    Equal,
    Greater,
    Less,
    Negate,
    Dup,
    Drop,
    Swap,
    Over,
    Print,
    True,
    False,
    Define,
    End,
}

/// The built-in word that a token names, if any.
pub open spec fn builtin_named(t: Seq<char>) -> Option<Builtin> {
    if t == "+"@ {
        Some(Builtin::Add)
    } else if t == "-"@ {
        Some(Builtin::Sub)
    } else if t == "*"@ {
        Some(Builtin::Mul)
    } else if t == "/"@ {
        Some(Builtin::Div)
    } else if t == "and"@ {
        Some(Builtin::And)
    } else if t == "or"@ {
        Some(Builtin::Or)
    } else if t == "xor"@ {
        Some(Builtin::Xor)
    } else if t == "lshift"@ {
        Some(Builtin::Lshift)
    } else if t == "rshift"@ {
        Some(Builtin::Rshift)
    } else if t == "="@ {
        Some(Builtin::Equal)
    } else if t == ">"@ {
        Some(Builtin::Greater)
    } else if t == "<"@ {
        Some(Builtin::Less)
    } else if t == "negate"@ {
        Some(Builtin::Negate)
    } else if t == "dup"@ {
        Some(Builtin::Dup)
    } else if t == "drop"@ {
        Some(Builtin::Drop)
    } else if t == "swap"@ {
        Some(Builtin::Swap)
    } else if t == "over"@ {
        Some(Builtin::Over)
    } else if t == "."@ {
        Some(Builtin::Print)
    } else if t == "true"@ {
        Some(Builtin::True)
    } else if t == "false"@ {
        Some(Builtin::False)
    } else if t == ":"@ {
        Some(Builtin::Define)
    } else if t == ";"@ {
        Some(Builtin::End)
    } else {
        None
    }
}

/// The built-in word that a token names, if any.
pub fn builtin_of(t: &str) -> (r: Option<Builtin>)
    ensures
        r == builtin_named(t@),
{
    if same_text(t, "+") {
        Some(Builtin::Add)
    } else if same_text(t, "-") {
        Some(Builtin::Sub)
    } else if same_text(t, "*") {
        Some(Builtin::Mul)
    } else if same_text(t, "/") {
        Some(Builtin::Div)
    } else if same_text(t, "and") {
        Some(Builtin::And)
    } else if same_text(t, "or") {
        Some(Builtin::Or)
    } else if same_text(t, "xor") {
        Some(Builtin::Xor)
    } else if same_text(t, "lshift") {
        Some(Builtin::Lshift)
    } else if same_text(t, "rshift") {
        Some(Builtin::Rshift)
    } else if same_text(t, "=") {
        Some(Builtin::Equal)
    } else if same_text(t, ">") {
        Some(Builtin::Greater)
    } else if same_text(t, "<") {
        Some(Builtin::Less)
    } else if same_text(t, "negate") {
        Some(Builtin::Negate)
    } else if same_text(t, "dup") {
        Some(Builtin::Dup)
    } else if same_text(t, "drop") {
        Some(Builtin::Drop)
    } else if same_text(t, "swap") {
        Some(Builtin::Swap)
    } else if same_text(t, "over") {
        Some(Builtin::Over)
    } else if same_text(t, ".") {
        Some(Builtin::Print)
    } else if same_text(t, "true") {
        Some(Builtin::True)
    } else if same_text(t, "false") {
        Some(Builtin::False)
    } else if same_text(t, ":") {
        Some(Builtin::Define)
    } else if same_text(t, ";") {
        Some(Builtin::End)
    } else {
        None
    }
}

pub open spec fn fits_i64(v: int) -> bool {
    i64::MIN <= v <= i64::MAX
}

/// An integer result, or a failure where it leaves the 64-bit range.
pub open spec fn int_result(v: int) -> Result<Word, EvalError> {
    if fits_i64(v) {
        Ok(Word::I64(v as i64))
    } else {
        Err(EvalError::Arithmetic)
    }
}

/// Integer division that truncates toward zero (`d != 0`).
pub open spec fn trunc_div(x: int, d: int) -> int {
    if x == 0 {
        0
    } else if x > 0 && d > 0 {
        x / d
    } else if x < 0 && d < 0 {
        (-x) / (-d)
    } else if x < 0 {
        -((-x) / d)
    } else {
        -(x / (-d))
    }
}

/// Whether the word takes two operands and leaves one result.
pub open spec fn is_binary(op: Builtin) -> bool {
    match op {
        Builtin::Add | Builtin::Sub | Builtin::Mul | Builtin::Div | Builtin::And | Builtin::Or
        | Builtin::Xor | Builtin::Lshift | Builtin::Rshift | Builtin::Equal | Builtin::Greater
        | Builtin::Less => true,
        _ => false,
    }
}

/// What a two-operand word makes of `b` (pushed first) and `a` (the top).
pub open spec fn binary_result(op: Builtin, b: Word, a: Word) -> Result<Word, EvalError> {
    match (b, a) {
        (Word::I64(x), Word::I64(y)) => match op {
            Builtin::Add => int_result(x + y),
            Builtin::Sub => int_result(x - y),
            Builtin::Mul => int_result(x * y),
            Builtin::Div => if y == 0 {
                Err(EvalError::Arithmetic)
            } else {
                int_result(trunc_div(x as int, y as int))
            },
            Builtin::And => Ok(Word::I64(x & y)),
            Builtin::Or => Ok(Word::I64(x | y)),
            Builtin::Xor => Ok(Word::I64(x ^ y)),
            Builtin::Lshift => if 0 <= y < 64 {
                Ok(Word::I64(x << y))
            } else {
                Err(EvalError::Arithmetic)
            },
            Builtin::Rshift => if 0 <= y < 64 {
                Ok(Word::I64(x >> y))
            } else {
                Err(EvalError::Arithmetic)
            },
            Builtin::Equal => Ok(Word::Bool(x == y)),
            Builtin::Greater => Ok(Word::Bool(x > y)),
            Builtin::Less => Ok(Word::Bool(x < y)),
            _ => Err(EvalError::TypeMismatch),
        },
        (Word::Bool(x), Word::Bool(y)) => match op {
            Builtin::And => Ok(Word::Bool(x && y)),
            Builtin::Or => Ok(Word::Bool(x || y)),
            Builtin::Xor => Ok(Word::Bool(x != y)),
            Builtin::Equal => Ok(Word::Bool(x == y)),
            _ => Err(EvalError::TypeMismatch),
        },
        _ => Err(EvalError::TypeMismatch),
    }
}

/// What a built-in word does to the stack: the new stack and the value it
/// prints, if any. `:` is handled by the evaluator; here it, like a stray
/// `;`, is a failure.
pub open spec fn step(op: Builtin, s: Seq<Word>) -> Result<(Seq<Word>, Option<Word>), EvalError> {
    let n = s.len();
    if is_binary(op) {
        if n < 2 {
            Err(EvalError::StackUnderflow)
        } else {
            match binary_result(op, s[n - 2], s[n - 1]) {
                Ok(w) => Ok((s.subrange(0, n - 2).push(w), None)),
                Err(e) => Err(e),
            }
        }
    } else {
        match op {
            Builtin::Negate => if n < 1 {
                Err(EvalError::StackUnderflow)
            } else {
                match s[n - 1] {
                    Word::I64(x) => match int_result(-x) {
                        Ok(w) => Ok((s.drop_last().push(w), None)),
                        Err(e) => Err(e),
                    },
                    Word::Bool(x) => Ok((s.drop_last().push(Word::Bool(!x)), None)),
                }
            },
            Builtin::Dup => if n < 1 {
                Err(EvalError::StackUnderflow)
            } else {
                Ok((s.push(s[n - 1]), None))
            },
            Builtin::Drop => if n < 1 {
                Err(EvalError::StackUnderflow)
            } else {
                Ok((s.drop_last(), None))
            },
            Builtin::Swap => if n < 2 {
                Err(EvalError::StackUnderflow)
            } else {
                Ok((s.subrange(0, n - 2).push(s[n - 1]).push(s[n - 2]), None))
            },
            Builtin::Over => if n < 2 {
                Err(EvalError::StackUnderflow)
            } else {
                Ok((s.push(s[n - 2]), None))
            },
            Builtin::Print => if n < 1 {
                Err(EvalError::StackUnderflow)
            } else {
                Ok((s.drop_last(), Some(s[n - 1])))
            },
            Builtin::True => Ok((s.push(Word::Bool(true)), None)),
            Builtin::False => Ok((s.push(Word::Bool(false)), None)),
            _ => Err(EvalError::StrayTerminator),
        }
    }
}

fn checked_result(v: Option<i64>) -> (r: Result<Word, EvalError>)
    ensures
        r == match v {
            Some(x) => Ok(Word::I64(x)),
            None => Err(EvalError::Arithmetic),
        },
{
    match v {
        Some(x) => Ok(Word::I64(x)),
        None => Err(EvalError::Arithmetic),
    }
}

/// What a two-operand word makes of `b` (pushed first) and `a` (the top).
pub fn apply_binary(op: Builtin, b: Word, a: Word) -> (r: Result<Word, EvalError>)
    ensures
        r == binary_result(op, b, a),
{
    match (b, a) {
        (Word::I64(x), Word::I64(y)) => match op {
            Builtin::Add => checked_result(x.checked_add(y)),
            Builtin::Sub => checked_result(x.checked_sub(y)),
            Builtin::Mul => checked_result(x.checked_mul(y)),
            Builtin::Div => {
                if y == 0 {
                    Err(EvalError::Arithmetic)
                } else {
                    checked_result(x.checked_div(y))
                }
            },
            Builtin::And => Ok(Word::I64(x & y)),
            Builtin::Or => Ok(Word::I64(x | y)),
            Builtin::Xor => Ok(Word::I64(x ^ y)),
            Builtin::Lshift => if 0 <= y && y < 64 {
                Ok(Word::I64(x << y))
            } else {
                Err(EvalError::Arithmetic)
            },
            Builtin::Rshift => if 0 <= y && y < 64 {
                Ok(Word::I64(x >> y))
            } else {
                Err(EvalError::Arithmetic)
            },
            Builtin::Equal => Ok(Word::Bool(x == y)),
            Builtin::Greater => Ok(Word::Bool(x > y)),
            Builtin::Less => Ok(Word::Bool(x < y)),
            _ => Err(EvalError::TypeMismatch),
        },
        (Word::Bool(x), Word::Bool(y)) => match op {
            Builtin::And => Ok(Word::Bool(x && y)),
            Builtin::Or => Ok(Word::Bool(x || y)),
            Builtin::Xor => Ok(Word::Bool(x != y)),
            Builtin::Equal => Ok(Word::Bool(x == y)),
            _ => Err(EvalError::TypeMismatch),
        },
        _ => Err(EvalError::TypeMismatch),
    }
}

/// Applies a built-in word to the stack. On success the stack is the one
/// that `step` gives, and the result is the value printed, if any.
pub fn apply(op: Builtin, stack: &mut Vec<Word>) -> (r: Result<Option<Word>, EvalError>)
    ensures
        match r {
            Ok(p) => step(op, old(stack)@) == Ok::<_, EvalError>((final(stack)@, p)),
            Err(e) => step(op, old(stack)@) == Err::<(Seq<Word>, Option<Word>), _>(e)
                && final(stack)@ == old(stack)@,
        },
{
    let n = stack.len();
    if is_binary_word(op) {
        if n < 2 {
            return Err(EvalError::StackUnderflow);
        }
        let a = stack[n - 1];
        let b = stack[n - 2];
        match apply_binary(op, b, a) {
            Ok(w) => {
                stack.pop();
                stack.pop();
                stack.push(w);
                assert(stack@ == old(stack)@.subrange(0, n - 2).push(w));
                Ok(None)
            },
            Err(e) => Err(e),
        }
    } else {
        match op {
            Builtin::Negate => {
                if n < 1 {
                    return Err(EvalError::StackUnderflow);
                }
                let w = match stack[n - 1] {
                    Word::I64(x) => if x == i64::MIN {
                        Err(EvalError::Arithmetic)
                    } else {
                        Ok(Word::I64(-x))
                    },
                    Word::Bool(x) => Ok(Word::Bool(!x)),
                };
                match w {
                    Ok(w) => {
                        stack.pop();
                        stack.push(w);
                        Ok(None)
                    },
                    Err(e) => Err(e),
                }
            },
            Builtin::Dup => {
                if n < 1 {
                    return Err(EvalError::StackUnderflow);
                }
                let w = stack[n - 1];
                stack.push(w);
                Ok(None)
            },
            Builtin::Drop => {
                if n < 1 {
                    return Err(EvalError::StackUnderflow);
                }
                stack.pop();
                Ok(None)
            },
            Builtin::Swap => {
                if n < 2 {
                    return Err(EvalError::StackUnderflow);
                }
                let a = stack[n - 1];
                let b = stack[n - 2];
                stack.pop();
                stack.pop();
                stack.push(a);
                stack.push(b);
                assert(stack@ == old(stack)@.subrange(0, n - 2).push(a).push(b));
                Ok(None)
            },
            Builtin::Over => {
                if n < 2 {
                    return Err(EvalError::StackUnderflow);
                }
                let b = stack[n - 2];
                stack.push(b);
                Ok(None)
            },
            Builtin::Print => {
                if n < 1 {
                    return Err(EvalError::StackUnderflow);
                }
                Ok(stack.pop())
            },
            Builtin::True => {
                stack.push(Word::Bool(true));
                Ok(None)
            },
            Builtin::False => {
                stack.push(Word::Bool(false));
                Ok(None)
            },
            _ => Err(EvalError::StrayTerminator),
        }
    }
}

fn is_binary_word(op: Builtin) -> (r: bool)
    ensures
        r == is_binary(op),
{
    match op {
        Builtin::Add | Builtin::Sub | Builtin::Mul | Builtin::Div | Builtin::And | Builtin::Or
        | Builtin::Xor | Builtin::Lshift | Builtin::Rshift | Builtin::Equal | Builtin::Greater
        | Builtin::Less => true,
        _ => false,
    }
}

} // verus!
