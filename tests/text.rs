use miniforth::builtin::{apply, apply_binary, builtin_of, Builtin};
use miniforth::dictionary::{copy_tokens, Dictionary};
use miniforth::text::{decimal_text, parse_literal, same_text};
use miniforth::word::{EvalError, Word};

#[test]
fn renders_values() {
    assert_eq!(Word::I64(-42).render(), "-42");
    assert_eq!(Word::I64(0).render(), "0");
    assert_eq!(Word::Bool(true).render(), "true");
    assert_eq!(Word::Bool(false).render(), "false");
    assert_eq!(decimal_text(i64::MIN), "-9223372036854775808");
    assert_eq!(decimal_text(i64::MAX), "9223372036854775807");
    assert_eq!(decimal_text(1000), "1000");
}

#[test]
fn parses_literals() {
    assert_eq!(parse_literal("123"), Some(123));
    assert_eq!(parse_literal("-123"), Some(-123));
    assert_eq!(parse_literal("+9"), Some(9));
    assert_eq!(parse_literal("-"), None);
    assert_eq!(parse_literal("+"), None);
    assert_eq!(parse_literal(""), None);
    assert_eq!(parse_literal("12a"), None);
    assert_eq!(parse_literal("9223372036854775807"), Some(i64::MAX));
    assert_eq!(parse_literal("9223372036854775808"), None);
    assert_eq!(parse_literal("-9223372036854775809"), None);
    assert_eq!(parse_literal("99999999999999999999999"), None);
}

#[test]
fn compares_text() {
    assert!(same_text("dup", "dup"));
    assert!(!same_text("dup", "drop"));
    assert!(!same_text("du", "dup"));
    assert!(same_text("", ""));
}

#[test]
fn names_builtins() {
    assert_eq!(builtin_of("+"), Some(Builtin::Add));
    assert_eq!(builtin_of("."), Some(Builtin::Print));
    assert_eq!(builtin_of(";"), Some(Builtin::End));
    assert_eq!(builtin_of("double"), None);
    assert_eq!(builtin_of("5"), None);
}

#[test]
fn applies_words_to_stack() {
    let mut s = vec![Word::I64(1), Word::I64(2)];
    assert_eq!(apply(Builtin::Print, &mut s), Ok(Some(Word::I64(2))));
    assert_eq!(s, vec![Word::I64(1)]);
    assert_eq!(apply(Builtin::Swap, &mut s), Err(EvalError::StackUnderflow));
    assert_eq!(s, vec![Word::I64(1)]);
    assert_eq!(apply(Builtin::End, &mut s), Err(EvalError::StrayTerminator));
    assert_eq!(apply_binary(Builtin::Sub, Word::I64(3), Word::I64(5)), Ok(Word::I64(-2)));
    assert_eq!(
        apply_binary(Builtin::Add, Word::Bool(true), Word::I64(5)),
        Err(EvalError::TypeMismatch)
    );
}

#[test]
fn dictionary_defines_and_replaces() {
    let mut d = Dictionary::new();
    assert_eq!(d.get("sq"), None);
    d.define("sq".to_string(), vec!["dup".to_string(), "*".to_string()]);
    assert_eq!(d.get("sq"), Some(vec!["dup".to_string(), "*".to_string()]));
    d.define("sq".to_string(), vec!["drop".to_string()]);
    assert_eq!(d.get("sq"), Some(vec!["drop".to_string()]));
    let body = vec!["a".to_string(), "b".to_string()];
    assert_eq!(copy_tokens(&body), body);
}
