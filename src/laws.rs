//! General facts about evaluation, proved from the semantics in `eval`.
use vstd::prelude::*;
use crate::builtin::{binary_result, builtin_named, fits_i64, is_binary, step, trunc_div, Builtin};
use crate::eval::{failed, run, span_len, Machine};
use crate::text::{decimal, lemma_decimal_literal, literal_value};
use crate::word::{EvalError, Word};

verus! {

/// The length and the first character of each built-in name.
proof fn lemma_name_shapes()
    ensures
        "+"@.len() == 1 && "+"@[0] == '+',
        "-"@.len() == 1 && "-"@[0] == '-',
        "*"@.len() == 1 && "*"@[0] == '*',
        "/"@.len() == 1 && "/"@[0] == '/',
        "and"@.len() == 3 && "and"@[0] == 'a',
        "or"@.len() == 2 && "or"@[0] == 'o',
        "xor"@.len() == 3 && "xor"@[0] == 'x',
        "lshift"@.len() == 6 && "lshift"@[0] == 'l',
        "rshift"@.len() == 6 && "rshift"@[0] == 'r',
        "="@.len() == 1 && "="@[0] == '=',
        ">"@.len() == 1 && ">"@[0] == '>',
        "<"@.len() == 1 && "<"@[0] == '<',
        "negate"@.len() == 6 && "negate"@[0] == 'n',
        "dup"@.len() == 3 && "dup"@[0] == 'd',
        "drop"@.len() == 4 && "drop"@[0] == 'd',
        "swap"@.len() == 4 && "swap"@[0] == 's',
        "over"@.len() == 4 && "over"@[0] == 'o',
        "."@.len() == 1 && "."@[0] == '.',
        "true"@.len() == 4 && "true"@[0] == 't',
        "false"@.len() == 5 && "false"@[0] == 'f',
        ":"@.len() == 1 && ":"@[0] == ':',
        ";"@.len() == 1 && ";"@[0] == ';',
{
    reveal_strlit("+");
    reveal_strlit("-");
    reveal_strlit("*");
    reveal_strlit("/");
    reveal_strlit("and");
    reveal_strlit("or");
    reveal_strlit("xor");
    reveal_strlit("lshift");
    reveal_strlit("rshift");
    reveal_strlit("=");
    reveal_strlit(">");
    reveal_strlit("<");
    reveal_strlit("negate");
    reveal_strlit("dup");
    reveal_strlit("drop");
    reveal_strlit("swap");
    reveal_strlit("over");
    reveal_strlit(".");
    reveal_strlit("true");
    reveal_strlit("false");
    reveal_strlit(":");
    reveal_strlit(";");
}

/// The built-in word that each name denotes.
pub proof fn lemma_builtin_names()
    ensures
        builtin_named("+"@) == Some(Builtin::Add),
        builtin_named("-"@) == Some(Builtin::Sub),
        builtin_named("*"@) == Some(Builtin::Mul),
        builtin_named("/"@) == Some(Builtin::Div),
        builtin_named("and"@) == Some(Builtin::And),
        builtin_named("or"@) == Some(Builtin::Or),
        builtin_named("xor"@) == Some(Builtin::Xor),
        builtin_named("lshift"@) == Some(Builtin::Lshift),
        builtin_named("rshift"@) == Some(Builtin::Rshift),
        builtin_named("="@) == Some(Builtin::Equal),
        builtin_named(">"@) == Some(Builtin::Greater),
        builtin_named("<"@) == Some(Builtin::Less),
        builtin_named("negate"@) == Some(Builtin::Negate),
        builtin_named("dup"@) == Some(Builtin::Dup),
        builtin_named("drop"@) == Some(Builtin::Drop),
        builtin_named("swap"@) == Some(Builtin::Swap),
        builtin_named("over"@) == Some(Builtin::Over),
        builtin_named("."@) == Some(Builtin::Print),
        builtin_named("true"@) == Some(Builtin::True),
        builtin_named("false"@) == Some(Builtin::False),
        builtin_named(":"@) == Some(Builtin::Define),
        builtin_named(";"@) == Some(Builtin::End),
{
    lemma_name_shapes();
}

/// The span of a definition runs up to the first `;` at or after `from`.
proof fn lemma_span_to(toks: Seq<Seq<char>>, from: int, to: int)
    requires
        0 <= from <= to <= toks.len(),
        forall|k: int| from <= k < to ==> toks[k] != ";"@,
        to == toks.len() || toks[to] == ";"@,
    ensures
        span_len(toks, from) == to - from,
    decreases to - from,
{
    if from < to {
        lemma_span_to(toks, from + 1, to);
    }
}

/// The words that take at least one operand from the stack.
pub open spec fn takes_operands(op: Builtin) -> bool {
    is_binary(op) || op == Builtin::Negate || op == Builtin::Dup || op == Builtin::Drop || op
        == Builtin::Swap || op == Builtin::Over || op == Builtin::Print
}

/// `dup` pushes a copy of the top, `drop` removes exactly the top, and `over`
/// pushes a copy of the value below the top; none of them prints.
pub proof fn law_dup_drop_over(m: Machine, depth: nat)
    ensures
        m.stack.len() >= 1 ==> run(seq!["dup"@], 0, m, depth).result == Ok::<_, EvalError>(
            Machine { stack: m.stack.push(m.stack.last()), dict: m.dict },
        ),
        m.stack.len() >= 1 ==> run(seq!["drop"@], 0, m, depth).result == Ok::<_, EvalError>(
            Machine { stack: m.stack.drop_last(), dict: m.dict },
        ),
        m.stack.len() >= 2 ==> run(seq!["over"@], 0, m, depth).result == Ok::<_, EvalError>(
            Machine { stack: m.stack.push(m.stack[m.stack.len() - 2]), dict: m.dict },
        ),
        run(seq!["dup"@], 0, m, depth).printed.len() == 0,
        run(seq!["drop"@], 0, m, depth).printed.len() == 0,
        run(seq!["over"@], 0, m, depth).printed.len() == 0,
{
    lemma_builtin_names();
    let n = m.stack.len();
    if n >= 1 {
        let dup = Machine { stack: m.stack.push(m.stack[n - 1]), dict: m.dict };
        assert(run(seq!["dup"@], 1, dup, depth).result == Ok::<_, EvalError>(dup));
        let drop = Machine { stack: m.stack.drop_last(), dict: m.dict };
        assert(run(seq!["drop"@], 1, drop, depth).result == Ok::<_, EvalError>(drop));
    }
    if n >= 2 {
        let over = Machine { stack: m.stack.push(m.stack[n - 2]), dict: m.dict };
        assert(run(seq!["over"@], 1, over, depth).result == Ok::<_, EvalError>(over));
    }
}

/// `swap` exchanges the two top values: popping afterwards yields the value
/// pushed last before the one pushed first.
pub proof fn law_swap(m: Machine, a: Word, b: Word, depth: nat)
    ensures
        run(
            seq!["swap"@],
            0,
            Machine { stack: m.stack.push(a).push(b), dict: m.dict },
            depth,
        ).result == Ok::<_, EvalError>(Machine { stack: m.stack.push(b).push(a), dict: m.dict }),
{
    lemma_builtin_names();
    let s = m.stack.push(a).push(b);
    assert(s.subrange(0, s.len() - 2) == m.stack);
    let swapped = Machine { stack: m.stack.push(b).push(a), dict: m.dict };
    assert(run(seq!["swap"@], 1, swapped, depth).result == Ok::<_, EvalError>(swapped));
}

/// A word that takes operands fails on an empty stack before anything is
/// printed, whatever follows it.
pub proof fn law_underflow_on_empty(
    t: Seq<char>,
    rest: Seq<Seq<char>>,
    dict: Map<Seq<char>, Seq<Seq<char>>>,
    depth: nat,
)
    requires
        builtin_named(t) matches Some(op) && takes_operands(op),
    ensures
        run(seq![t] + rest, 0, Machine { stack: Seq::empty(), dict }, depth) == failed(
            EvalError::StackUnderflow,
        ),
{
    assert((seq![t] + rest)[0] == t);
}

/// Every two-operand word fails on an integer and a boolean, in either order.
pub proof fn law_mixed_operands(op: Builtin, s: Seq<Word>, x: i64, y: bool)
    requires
        is_binary(op),
    ensures
        binary_result(op, Word::I64(x), Word::Bool(y)) == Err::<Word, _>(EvalError::TypeMismatch),
        binary_result(op, Word::Bool(y), Word::I64(x)) == Err::<Word, _>(EvalError::TypeMismatch),
        step(op, s.push(Word::I64(x)).push(Word::Bool(y))) == Err::<(Seq<Word>, Option<Word>), _>(
            EvalError::TypeMismatch,
        ),
        step(op, s.push(Word::Bool(y)).push(Word::I64(x))) == Err::<(Seq<Word>, Option<Word>), _>(
            EvalError::TypeMismatch,
        ),
{
}

/// A definition whose name is a built-in word fails, whatever its body.
pub proof fn law_builtin_name_refused(
    m: Machine,
    name: Seq<char>,
    body: Seq<Seq<char>>,
    depth: nat,
)
    requires
        builtin_named(name) is Some,
        forall|k: int| 0 <= k < body.len() ==> body[k] != ";"@,
    ensures
        run(seq![":"@, name] + body + seq![";"@], 0, m, depth) == failed(EvalError::BadDefinition),
{
    lemma_builtin_names();
    let toks = seq![":"@, name] + body + seq![";"@];
    let end = 2 + body.len() as int;
    assert(toks[0] == ":"@);
    assert(toks[end] == ";"@);
    if name == ";"@ {
        lemma_span_to(toks, 1, 1);
    } else {
        assert forall|k: int| 1 <= k < end implies toks[k] != ";"@ by {
            if k >= 2 {
                assert(toks[k] == body[k - 2]);
            }
        }
        lemma_span_to(toks, 1, end);
        assert(toks.subrange(1, end)[0] == name);
    }
}

/// A definition with a name and no body fails.
pub proof fn law_empty_body_refused(m: Machine, name: Seq<char>, depth: nat)
    ensures
        run(seq![":"@, name, ";"@], 0, m, depth) == failed(EvalError::BadDefinition),
{
    lemma_builtin_names();
    let toks = seq![":"@, name, ";"@];
    if name == ";"@ {
        lemma_span_to(toks, 1, 1);
    } else {
        lemma_span_to(toks, 1, 2);
    }
}

/// A word whose body starts by calling the word itself never finishes: each
/// call nests one level deeper until the depth allowed is used up, and the
/// evaluation then fails, with nothing printed.
pub proof fn law_endless_recursion_fails(
    toks: Seq<Seq<char>>,
    i: int,
    m: Machine,
    w: Seq<char>,
    depth: nat,
)
    requires
        0 <= i < toks.len(),
        toks[i] == w,
        builtin_named(w) is None,
        literal_value(w) is None,
        m.dict.contains_key(w),
        m.dict[w].len() > 0,
        m.dict[w][0] == w,
    ensures
        run(toks, i, m, depth) == failed(EvalError::TooDeep),
    decreases depth,
{
    if depth > 0 {
        law_endless_recursion_fails(m.dict[w], 0, m, w, (depth - 1) as nat);
    }
}

/// Defining a word that is already defined replaces its body: a call that
/// follows the new definition runs the new body, with the new definition in
/// the dictionary.
pub proof fn law_redefinition_replaces(
    m: Machine,
    w: Seq<char>,
    body: Seq<Seq<char>>,
    depth: nat,
)
    requires
        m.dict.contains_key(w),
        builtin_named(w) is None,
        literal_value(w) is None,
        body.len() > 0,
        forall|k: int| 0 <= k < body.len() ==> body[k] != ";"@,
    ensures
        ({
            let toks = seq![":"@, w] + body + seq![";"@, w];
            let defined = Machine { stack: m.stack, dict: m.dict.insert(w, body) };
            &&& run(toks, 0, m, depth + 1).result == run(body, 0, defined, depth).result
            &&& run(toks, 0, m, depth + 1).printed == run(body, 0, defined, depth).printed
        }),
{
    lemma_builtin_names();
    let toks = seq![":"@, w] + body + seq![";"@, w];
    let defined = Machine { stack: m.stack, dict: m.dict.insert(w, body) };
    let end = 2 + body.len() as int;
    assert(toks[0] == ":"@);
    assert(toks[1] == w);
    assert(toks[end] == ";"@);
    assert(toks[end + 1] == w);
    assert forall|k: int| 1 <= k < end implies toks[k] != ";"@ by {
        if k >= 2 {
            assert(toks[k] == body[k - 2]);
        }
    }
    lemma_span_to(toks, 1, end);
    let span = toks.subrange(1, end);
    assert(span[0] == w);
    assert(span.drop_first() =~= body);
    let sub = run(body, 0, defined, depth);
    assert(run(toks, 0, m, depth + 1) == run(toks, end + 1, defined, depth + 1));
    match sub.result {
        Ok(m2) => {
            assert(run(toks, end + 2, m2, depth + 1).printed == Seq::<Word>::empty());
            assert(sub.printed + Seq::<Word>::empty() =~= sub.printed);
        },
        Err(_) => {},
    }
}

/// The decimal rendering of an integer is a literal, and no built-in name.
proof fn lemma_decimal_token(n: i64)
    ensures
        builtin_named(decimal(n as int)) is None,
        literal_value(decimal(n as int)) == Some(n),
{
    lemma_name_shapes();
    lemma_decimal_literal(n);
}

/// Two integer literals followed by the token `t`.
pub open spec fn two_literals(a: i64, b: i64, t: Seq<char>) -> Seq<Seq<char>> {
    seq![decimal(a as int), decimal(b as int), t]
}

/// What is left after a program that leaves the integer `v` alone on the stack.
pub open spec fn leaves_int(v: int, dict: Map<Seq<char>, Seq<Seq<char>>>) -> Result<
    Machine,
    EvalError,
> {
    Ok(Machine { stack: seq![Word::I64(v as i64)], dict })
}

proof fn lemma_two_literals(
    a: i64,
    b: i64,
    t: Seq<char>,
    dict: Map<Seq<char>, Seq<Seq<char>>>,
    depth: nat,
)
    ensures
        run(two_literals(a, b, t), 0, Machine { stack: Seq::empty(), dict }, depth) == run(
            two_literals(a, b, t),
            2,
            Machine { stack: seq![Word::I64(a), Word::I64(b)], dict },
            depth,
        ),
{
    lemma_decimal_token(a);
    lemma_decimal_token(b);
    let toks = two_literals(a, b, t);
    assert(Seq::<Word>::empty().push(Word::I64(a)).push(Word::I64(b)) =~= seq![
        Word::I64(a),
        Word::I64(b),
    ]);
    assert(run(toks, 0, Machine { stack: Seq::empty(), dict }, depth) == run(
        toks,
        1,
        Machine { stack: seq![Word::I64(a)], dict },
        depth,
    ));
}

/// `a b +`, `a b -`, `a b *` and `a b /` from an empty stack leave exactly the
/// sum, the difference, the product and the quotient truncated toward zero,
/// where that fits in 64 bits; division by zero fails.
pub proof fn law_arithmetic(a: i64, b: i64, dict: Map<Seq<char>, Seq<Seq<char>>>, depth: nat)
    ensures
        ({
            let m = Machine { stack: Seq::empty(), dict };
            &&& fits_i64(a + b) ==> run(two_literals(a, b, "+"@), 0, m, depth).result
                == leaves_int(a + b, dict)
            &&& fits_i64(a - b) ==> run(two_literals(a, b, "-"@), 0, m, depth).result
                == leaves_int(a - b, dict)
            &&& fits_i64(a * b) ==> run(two_literals(a, b, "*"@), 0, m, depth).result
                == leaves_int(a * b, dict)
            &&& b != 0 && fits_i64(trunc_div(a as int, b as int)) ==> run(
                two_literals(a, b, "/"@),
                0,
                m,
                depth,
            ).result == leaves_int(trunc_div(a as int, b as int), dict)
            &&& b == 0 ==> run(two_literals(a, b, "/"@), 0, m, depth) == failed(
                EvalError::Arithmetic,
            )
        }),
{
    lemma_builtin_names();
    let pair = seq![Word::I64(a), Word::I64(b)];
    assert(pair.subrange(0, 0) =~= Seq::<Word>::empty());
    let ops = seq!["+"@, "-"@, "*"@, "/"@];
    assert forall|k: int| 0 <= k < 4 implies run(
        two_literals(a, b, #[trigger] ops[k]),
        0,
        Machine { stack: Seq::empty(), dict },
        depth,
    ) == run(two_literals(a, b, ops[k]), 2, Machine { stack: pair, dict }, depth) by {
        lemma_two_literals(a, b, ops[k], dict, depth);
    }
    assert(ops[0] == "+"@ && ops[1] == "-"@ && ops[2] == "*"@ && ops[3] == "/"@);
    let vals = seq![a + b, a - b, a * b, trunc_div(a as int, b as int)];
    assert forall|k: int| 0 <= k < 4 && fits_i64(#[trigger] vals[k]) && (k == 3 ==> b != 0) implies run(
        two_literals(a, b, ops[k]),
        3,
        Machine { stack: seq![Word::I64(vals[k] as i64)], dict },
        depth,
    ).result == leaves_int(vals[k], dict) by {}
}

} // verus!
