use miniforth::dictionary::Dictionary;
use miniforth::eval::{eval, evaluate, MAX_DEPTH};
use miniforth::word::{EvalError, Word};

fn tokens(src: &str) -> Vec<String> {
    src.split_whitespace().map(String::from).collect()
}

/// Runs a program; gives the final stack or the error, and the printed lines.
fn run_program(src: &str) -> (Result<Vec<Word>, EvalError>, Vec<String>) {
    let mut out = Vec::new();
    let r = evaluate(&tokens(src), &mut out);
    (r, out.iter().map(|w| w.render()).collect())
}

fn stack_of(src: &str) -> Vec<Word> {
    run_program(src).0.expect("evaluation fails")
}

fn printed(src: &str) -> Vec<String> {
    let (r, out) = run_program(src);
    assert!(r.is_ok(), "evaluation of {:?} fails: {:?}", src, r);
    out
}

fn error_of(src: &str) -> EvalError {
    run_program(src).0.expect_err("evaluation succeeds")
}

#[test]
fn addition_leaves_sum() {
    assert_eq!(stack_of("2 3 +"), vec![Word::I64(5)]);
    assert_eq!(stack_of("-7 3 +"), vec![Word::I64(-4)]);
}

#[test]
fn subtraction_multiplication_division() {
    assert_eq!(stack_of("10 4 -"), vec![Word::I64(6)]);
    assert_eq!(stack_of("6 -7 *"), vec![Word::I64(-42)]);
    assert_eq!(stack_of("7 2 /"), vec![Word::I64(3)]);
}

#[test]
fn division_truncates_toward_zero() {
    assert_eq!(stack_of("-7 2 /"), vec![Word::I64(-3)]);
    assert_eq!(stack_of("7 -2 /"), vec![Word::I64(-3)]);
    assert_eq!(stack_of("-7 -2 /"), vec![Word::I64(3)]);
}

#[test]
fn division_by_zero_fails() {
    assert_eq!(error_of("1 0 /"), EvalError::Arithmetic);
}

#[test]
fn results_outside_64_bits_fail() {
    assert_eq!(error_of("9223372036854775807 1 +"), EvalError::Arithmetic);
    assert_eq!(error_of("-9223372036854775808 1 -"), EvalError::Arithmetic);
    assert_eq!(error_of("-9223372036854775808 -1 /"), EvalError::Arithmetic);
    assert_eq!(error_of("-9223372036854775808 negate"), EvalError::Arithmetic);
    assert_eq!(error_of("4611686018427387904 2 *"), EvalError::Arithmetic);
}

#[test]
fn swap_reverses_order_of_popping() {
    assert_eq!(stack_of("1 2 swap"), vec![Word::I64(2), Word::I64(1)]);
    assert_eq!(printed("1 2 swap . ."), vec!["1", "2"]);
}

#[test]
fn dup_drop_over() {
    assert_eq!(stack_of("4 9 dup"), vec![Word::I64(4), Word::I64(9), Word::I64(9)]);
    assert_eq!(stack_of("4 9 drop"), vec![Word::I64(4)]);
    assert_eq!(stack_of("4 9 over"), vec![Word::I64(4), Word::I64(9), Word::I64(4)]);
    assert_eq!(stack_of("true dup"), vec![Word::Bool(true), Word::Bool(true)]);
}

#[test]
fn defined_word_doubles() {
    assert_eq!(printed(": double dup + ; 5 double ."), vec!["10"]);
}

#[test]
fn redefinition_replaces_body() {
    assert_eq!(printed(": f 1 ; f . : f 2 ; f ."), vec!["1", "2"]);
}

#[test]
fn lookup_happens_at_call_time() {
    assert_eq!(printed(": a 1 ; : b a ; : a 2 ; b ."), vec!["2"]);
}

#[test]
fn definition_in_body_is_visible_to_caller() {
    assert_eq!(printed(": g : h 7 ; g h ."), vec!["7"]);
}

#[test]
fn builtin_name_cannot_be_defined() {
    assert_eq!(error_of(": + dup ;"), EvalError::BadDefinition);
    assert_eq!(error_of(": . 1 ;"), EvalError::BadDefinition);
    assert_eq!(error_of(": ; 1"), EvalError::BadDefinition);
}

#[test]
fn empty_body_fails() {
    assert_eq!(error_of(": foo ;"), EvalError::BadDefinition);
    assert_eq!(error_of(":"), EvalError::BadDefinition);
}

#[test]
fn unterminated_definition_runs_to_end() {
    let mut out = Vec::new();
    let r = eval(&tokens(": f 1 2"), Vec::new(), Dictionary::new(), &mut out, MAX_DEPTH);
    let (stack, dict) = r.expect("evaluation fails");
    assert!(stack.is_empty());
    assert_eq!(dict.get("f"), Some(vec!["1".to_string(), "2".to_string()]));
}

#[test]
fn boolean_and_comparisons_print() {
    assert_eq!(printed("true false and ."), vec!["false"]);
    assert_eq!(printed("3 4 > ."), vec!["false"]);
    assert_eq!(printed("4 3 > ."), vec!["true"]);
    assert_eq!(printed("3 4 < ."), vec!["true"]);
}

#[test]
fn logic_on_both_kinds() {
    assert_eq!(stack_of("12 10 and"), vec![Word::I64(8)]);
    assert_eq!(stack_of("12 10 or"), vec![Word::I64(14)]);
    assert_eq!(stack_of("12 10 xor"), vec![Word::I64(6)]);
    assert_eq!(stack_of("true false or"), vec![Word::Bool(true)]);
    assert_eq!(stack_of("true true xor"), vec![Word::Bool(false)]);
    assert_eq!(stack_of("true negate"), vec![Word::Bool(false)]);
    assert_eq!(stack_of("5 negate"), vec![Word::I64(-5)]);
}

#[test]
fn equality_on_both_kinds() {
    assert_eq!(stack_of("3 3 ="), vec![Word::Bool(true)]);
    assert_eq!(stack_of("3 4 ="), vec![Word::Bool(false)]);
    assert_eq!(stack_of("true false ="), vec![Word::Bool(false)]);
    assert_eq!(error_of("true 1 ="), EvalError::TypeMismatch);
}

#[test]
fn shifts() {
    assert_eq!(stack_of("1 4 lshift"), vec![Word::I64(16)]);
    assert_eq!(stack_of("-16 2 rshift"), vec![Word::I64(-4)]);
    assert_eq!(error_of("1 64 lshift"), EvalError::Arithmetic);
    assert_eq!(error_of("1 -1 rshift"), EvalError::Arithmetic);
}

#[test]
fn empty_stack_fails_without_output() {
    let (r, out) = run_program("+");
    assert_eq!(r, Err(EvalError::StackUnderflow));
    assert!(out.is_empty());
    assert_eq!(error_of("."), EvalError::StackUnderflow);
    assert_eq!(error_of("1 swap"), EvalError::StackUnderflow);
}

#[test]
fn output_before_failure_is_kept() {
    let (r, out) = run_program("1 2 . drop drop");
    assert_eq!(r, Err(EvalError::StackUnderflow));
    assert_eq!(out, vec!["2"]);
}

#[test]
fn mixed_kinds_fail() {
    assert_eq!(error_of("true 1 +"), EvalError::TypeMismatch);
    assert_eq!(error_of("1 true and"), EvalError::TypeMismatch);
    assert_eq!(error_of("false 2 <"), EvalError::TypeMismatch);
}

#[test]
fn endless_recursion_fails() {
    assert_eq!(error_of(": f f ; f"), EvalError::TooDeep);
    assert_eq!(error_of(": g 1 g ; g"), EvalError::TooDeep);
}

#[test]
fn unknown_word_and_stray_terminator() {
    assert_eq!(error_of("1 frob"), EvalError::UnknownWord);
    assert_eq!(error_of("1 ;"), EvalError::StrayTerminator);
}

#[test]
fn literals() {
    assert_eq!(stack_of("+5 -0 007"), vec![Word::I64(5), Word::I64(0), Word::I64(7)]);
    assert_eq!(stack_of("-9223372036854775808"), vec![Word::I64(i64::MIN)]);
    assert_eq!(error_of("9223372036854775808"), EvalError::UnknownWord);
    assert_eq!(error_of("1x"), EvalError::UnknownWord);
}

#[test]
fn empty_program_leaves_empty_stack() {
    assert_eq!(stack_of(""), vec![]);
}
