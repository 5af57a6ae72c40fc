//! The evaluator: tokens run left to right against the operand stack and the
//! dictionary; a defined word runs its body in a nested evaluation that hands
//! the stack and the dictionary back to its caller.
use vstd::prelude::*;
use crate::builtin::{apply, builtin_named, builtin_of, step, Builtin};
use crate::dictionary::{texts, Dictionary};
use crate::text::{literal_value, parse_literal, same_text};
use crate::word::{EvalError, Word};

verus! {

/// How deep calls of defined words may nest in `evaluate`.
pub const MAX_DEPTH: u64 = 200;

/// The state an evaluation works on.
pub struct Machine {
    pub stack: Seq<Word>,
    pub dict: Map<Seq<char>, Seq<Seq<char>>>,
}

/// How an evaluation ends, and the values it printed on the way.
pub struct Run {
    pub result: Result<Machine, EvalError>,
    pub printed: Seq<Word>,
}

pub open spec fn failed(e: EvalError) -> Run {
    Run { result: Err(e), printed: Seq::empty() }
}

/// A run that printed `p` before going on as `r`.
pub open spec fn after(p: Seq<Word>, r: Run) -> Run {
    Run { result: r.result, printed: p + r.printed }
}

/// How many tokens from `from` on come before the next `;` or the end.
pub open spec fn span_len(toks: Seq<Seq<char>>, from: int) -> nat
    decreases toks.len() - from,
{
    if from < 0 || from >= toks.len() || toks[from] == ";"@ {
        0
    } else {
        1 + span_len(toks, from + 1)
    }
}

/// Evaluates `toks` from position `i` on, with calls of defined words nested
/// at most `depth` deep.
pub open spec fn run(toks: Seq<Seq<char>>, i: int, m: Machine, depth: nat) -> Run
    decreases depth, toks.len() - i,
{
    if i < 0 || i >= toks.len() {
        Run { result: Ok(m), printed: Seq::empty() }
    } else {
        let t = toks[i];
        match builtin_named(t) {
            Some(Builtin::Define) => {
                let j = i + 1 + span_len(toks, i + 1);
                let span = toks.subrange(i + 1, j);
                let next = if j < toks.len() { j + 1 } else { toks.len() as int };
                if span.len() < 2 || builtin_named(span[0]) is Some {
                    failed(EvalError::BadDefinition)
                } else {
                    run(
                        toks,
                        next,
                        Machine { stack: m.stack, dict: m.dict.insert(span[0], span.drop_first()) },
                        depth,
                    )
                }
            },
            Some(op) => match step(op, m.stack) {
                Err(e) => failed(e),
                Ok((s, p)) => after(
                    match p {
                        Some(w) => seq![w],
                        None => Seq::empty(),
                    },
                    run(toks, i + 1, Machine { stack: s, dict: m.dict }, depth),
                ),
            },
            None => match literal_value(t) {
                Some(n) => run(
                    toks,
                    i + 1,
                    Machine { stack: m.stack.push(Word::I64(n)), dict: m.dict },
                    depth,
                ),
                None => if !m.dict.contains_key(t) {
                    failed(EvalError::UnknownWord)
                } else if depth == 0 {
                    failed(EvalError::TooDeep)
                } else {
                    let sub = run(m.dict[t], 0, m, (depth - 1) as nat);
                    match sub.result {
                        Err(e) => sub,
                        Ok(m2) => after(sub.printed, run(toks, i + 1, m2, depth)),
                    }
                },
            },
        }
    }
}

proof fn lemma_span_len_bound(toks: Seq<Seq<char>>, from: int)
    requires
        0 <= from <= toks.len(),
    ensures
        from + span_len(toks, from) <= toks.len(),
        from + span_len(toks, from) < toks.len() ==> toks[from + span_len(toks, from)] == ";"@,
    decreases toks.len() - from,
{
    if from < toks.len() && toks[from] != ";"@ {
        lemma_span_len_bound(toks, from + 1);
    }
}

/// The tokens from `from` on up to the next `;` or the end, and where they end.
fn read_span(tokens: &Vec<String>, from: usize) -> (r: (Vec<String>, usize))
    requires
        from <= tokens@.len(),
    ensures
        r.1 == from + span_len(texts(tokens@), from as int),
        texts(r.0@) == texts(tokens@).subrange(from as int, r.1 as int),
{
    let ghost toks = texts(tokens@);
    let n = tokens.len();
    let mut def: Vec<String> = Vec::new();
    let mut j: usize = from;
    while j < n && !same_text(tokens[j].as_str(), ";")
        invariant
            n == tokens@.len(),
            toks == texts(tokens@),
            from <= j <= n,
            def@.len() == j - from,
            forall|k: int| 0 <= k < def@.len() ==> #[trigger] def@[k]@ == toks[from + k],
            span_len(toks, from as int) == (j - from) + span_len(toks, j as int),
        decreases n - j,
    {
        let c = tokens[j].clone();
        def.push(c);
        j = j + 1;
    }
    assert(span_len(toks, j as int) == 0);
    assert(texts(def@) =~= toks.subrange(from as int, j as int));
    (def, j)
}

/// Evaluates `tokens` on `stack` and `dict`, with calls of defined words
/// nested at most `depth` deep. Each value printed is appended to `out`, also
/// where the evaluation fails later on. On success the result is the stack
/// and the dictionary as the evaluation left them.
pub fn eval(
    tokens: &Vec<String>,
    stack: Vec<Word>,
    dict: Dictionary,
    out: &mut Vec<Word>,
    depth: u64,
) -> (r: Result<(Vec<Word>, Dictionary), EvalError>)
    requires
        dict.wf(),
    ensures
        final(out)@ == old(out)@ + run(
            texts(tokens@),
            0,
            Machine { stack: stack@, dict: dict@ },
            depth as nat,
        ).printed,
        match r {
            Ok((s, d)) => d.wf() && run(
                texts(tokens@),
                0,
                Machine { stack: stack@, dict: dict@ },
                depth as nat,
            ).result == Ok::<_, EvalError>(Machine { stack: s@, dict: d@ }),
            Err(e) => run(
                texts(tokens@),
                0,
                Machine { stack: stack@, dict: dict@ },
                depth as nat,
            ).result == Err::<Machine, _>(e),
        },
    decreases depth,
{
    let ghost toks = texts(tokens@);
    let ghost total = run(toks, 0, Machine { stack: stack@, dict: dict@ }, depth as nat);
    let mut cur = stack;
    let mut defs = dict;
    let n = tokens.len();
    let mut i: usize = 0;
    while i < n
        invariant
            n == tokens@.len(),
            toks == texts(tokens@),
            total == run(toks, 0, Machine { stack: stack@, dict: dict@ }, depth as nat),
            i <= n,
            defs.wf(),
            total.result == run(toks, i as int, Machine { stack: cur@, dict: defs@ }, depth as nat).result,
            old(out)@ + total.printed == out@ + run(
                toks,
                i as int,
                Machine { stack: cur@, dict: defs@ },
                depth as nat,
            ).printed,
        decreases n - i,
    {
        let t = tokens[i].as_str();
        assert(t@ == toks[i as int]);
        assert(out@ + Seq::<Word>::empty() =~= out@);
        let ghost out_before = out@;
        match builtin_of(t) {
            Some(Builtin::Define) => {
                let (mut def, j) = read_span(tokens, i + 1);
                proof {
                    lemma_span_len_bound(toks, i + 1);
                }
                if def.len() < 2 {
                    return Err(EvalError::BadDefinition);
                }
                let name = def.remove(0);
                assert(name@ == toks[i + 1]);
                assert(texts(def@) =~= toks.subrange(i + 1, j as int).drop_first());
                if builtin_of(name.as_str()).is_some() {
                    return Err(EvalError::BadDefinition);
                }
                defs.define(name, def);
                i = if j < n { j + 1 } else { n };
            },
            Some(op) => {
                match apply(op, &mut cur) {
                    Ok(p) => {
                        match p {
                            Some(w) => {
                                out.push(w);
                                assert(out_before + (seq![w] + run(
                                    toks,
                                    i + 1,
                                    Machine { stack: cur@, dict: defs@ },
                                    depth as nat,
                                ).printed) =~= out@ + run(
                                    toks,
                                    i + 1,
                                    Machine { stack: cur@, dict: defs@ },
                                    depth as nat,
                                ).printed);
                            },
                            None => {},
                        }
                        i = i + 1;
                    },
                    Err(e) => {
                        return Err(e);
                    },
                }
            },
            None => {
                match parse_literal(t) {
                    Some(v) => {
                        cur.push(Word::I64(v));
                        i = i + 1;
                    },
                    None => {
                        match defs.get(t) {
                            None => {
                                return Err(EvalError::UnknownWord);
                            },
                            Some(body) => {
                                if depth == 0 {
                                    return Err(EvalError::TooDeep);
                                }
                                match eval(&body, cur, defs, out, depth - 1) {
                                    Ok((s, d)) => {
                                        cur = s;
                                        defs = d;
                                        let ghost sub = out@.subrange(out_before.len() as int, out@.len() as int);
                                        assert(out@ =~= out_before + sub);
                                        assert(out_before + (sub + run(
                                            toks,
                                            i + 1,
                                            Machine { stack: cur@, dict: defs@ },
                                            depth as nat,
                                        ).printed) =~= out@ + run(
                                            toks,
                                            i + 1,
                                            Machine { stack: cur@, dict: defs@ },
                                            depth as nat,
                                        ).printed);
                                        i = i + 1;
                                    },
                                    Err(e) => {
                                        return Err(e);
                                    },
                                }
                            },
                        }
                    },
                }
            },
        }
    }
    Ok((cur, defs))
}

/// The state a program starts from: an empty stack and no definitions.
pub open spec fn fresh() -> Machine {
    Machine { stack: Seq::empty(), dict: Map::empty() }
}

/// Evaluates a whole program from an empty stack and an empty dictionary,
/// with calls of defined words nested at most `MAX_DEPTH` deep. Each value
/// printed is appended to `out`, also where the evaluation fails later on.
/// On success the result is the stack that the program left.
pub fn evaluate(tokens: &Vec<String>, out: &mut Vec<Word>) -> (r: Result<Vec<Word>, EvalError>)
    ensures
        final(out)@ == old(out)@ + run(texts(tokens@), 0, fresh(), MAX_DEPTH as nat).printed,
        match r {
            Ok(s) => run(texts(tokens@), 0, fresh(), MAX_DEPTH as nat).result matches Ok(m)
                && m.stack == s@,
            Err(e) => run(texts(tokens@), 0, fresh(), MAX_DEPTH as nat).result == Err::<
                Machine,
                EvalError,
            >(e),
        },
{
    let stack: Vec<Word> = Vec::new();
    let dict = Dictionary::new();
    assert(Machine { stack: stack@, dict: dict@ } == fresh());
    match eval(tokens, stack, dict, out, MAX_DEPTH) {
        Ok((s, _)) => Ok(s),
        Err(e) => Err(e),
    }
}

} // verus!
