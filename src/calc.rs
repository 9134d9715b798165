//! The evaluator: the meaning of a formula, and the code that computes it.

use vstd::prelude::*;
use vstd::string::StrSliceExecFns;

use crate::lexer::{chars_of, span_texts, spans_within, token_spans, words};
use crate::number::{fits_i32, int_token, parse_int};

verus! {

/// The binary operators of a formula.
#[derive(Clone, Copy, Debug, PartialEq, Eq, Structural)]
pub enum Operator {
    Add,
    Sub,
    Mul,
    Div,
    Rem,
}

/// Why a formula has no value.
#[derive(Clone, Debug, PartialEq, Eq)]
pub enum EvalError {
    /// An operator found fewer than two values on the stack (`position` is
    /// its 1-based place among the tokens), or the formula did not leave
    /// exactly one value (`position` is `None`).
    InvalidSyntax { position: Option<usize> },
    /// The token at `position` is neither an integer nor an operator.
    InvalidToken { position: usize, token: String },
    /// The operator at `position` divided by zero, or its result does not
    /// fit in an `i32`.
    ArithmeticFault { position: usize },
}

/// What an [`EvalError`] says, with positions as integers and the offending
/// token as characters: the model that contracts speak of.
pub enum Failure {
    InvalidSyntax { position: Option<int> },
    InvalidToken { position: int, token: Seq<char> },
    ArithmeticFault { position: int },
}

impl View for EvalError {
    type V = Failure;

    open spec fn view(&self) -> Failure {
        match self {
            EvalError::InvalidSyntax { position } => Failure::InvalidSyntax {
                position: match position {
                    Some(p) => Some(*p as int),
                    None => None,
                },
            },
            EvalError::InvalidToken { position, token } => Failure::InvalidToken {
                position: *position as int,
                token: token@,
            },
            EvalError::ArithmeticFault { position } => Failure::ArithmeticFault {
                position: *position as int,
            },
        }
    }
}

/// The result of an evaluation, with its error seen through its view.
pub open spec fn result_view(r: Result<i32, EvalError>) -> Result<i32, Failure> {
    match r {
        Ok(v) => Ok(v),
        Err(e) => Err(e@),
    }
}

/// The operator that the token `t` names, if any.
pub open spec fn operator_of(t: Seq<char>) -> Option<Operator> {
    if t.len() != 1 {
        None
    } else if t[0] == '+' {
        Some(Operator::Add)
    } else if t[0] == '-' {
        Some(Operator::Sub)
    } else if t[0] == '*' {
        Some(Operator::Mul)
    } else if t[0] == '/' {
        Some(Operator::Div)
    } else if t[0] == '%' {
        Some(Operator::Rem)
    } else {
        None
    }
}

/// The magnitude of `x`.
pub open spec fn abs(x: int) -> int {
    if x < 0 {
        -x
    } else {
        x
    }
}

/// Integer division rounding toward zero.
pub open spec fn quotient(x: int, y: int) -> int {
    if (x < 0) == (y < 0) {
        abs(x) / abs(y)
    } else {
        -(abs(x) / abs(y))
    }
}

/// The remainder of [`quotient`]: it takes the sign of the dividend.
pub open spec fn remainder(x: int, y: int) -> int {
    if x < 0 {
        -(abs(x) % abs(y))
    } else {
        abs(x) % abs(y)
    }
}

/// The exact value of `x op y`, or `None` for a zero divisor.
pub open spec fn combine(op: Operator, x: int, y: int) -> Option<int> {
    match op {
        Operator::Add => Some(x + y),
        Operator::Sub => Some(x - y),
        Operator::Mul => Some(x * y),
        Operator::Div => if y == 0 {
            None
        } else {
            Some(quotient(x, y))
        },
        Operator::Rem => if y == 0 {
            None
        } else {
            Some(remainder(x, y))
        },
    }
}

/// The stack after the token `t`, found at 1-based place `pos`, is applied
/// to `stack`: an integer is pushed; any other token needs two values on
/// the stack before it is examined, and an operator replaces the two topmost
/// values `x` (below) and `y` (top) with `x op y`.
pub open spec fn step(stack: Seq<i32>, t: Seq<char>, pos: int) -> Result<Seq<i32>, Failure> {
    match int_token(t) {
        Some(v) => Ok(stack.push(v)),
        None => if stack.len() < 2 {
            Err(Failure::InvalidSyntax { position: Some(pos) })
        } else {
            let x = stack[stack.len() - 2];
            let y = stack[stack.len() - 1];
            match operator_of(t) {
                None => Err(Failure::InvalidToken { position: pos, token: t }),
                Some(op) => match combine(op, x as int, y as int) {
                    Some(v) => if fits_i32(v) {
                        Ok(stack.take(stack.len() - 2).push(v as i32))
                    } else {
                        Err(Failure::ArithmeticFault { position: pos })
                    },
                    None => Err(Failure::ArithmeticFault { position: pos }),
                },
            }
        },
    }
}

/// The stack after the tokens `ts`, the first at place `pos`, are applied in
/// order to `stack`, or the first failure.
pub open spec fn run(ts: Seq<Seq<char>>, stack: Seq<i32>, pos: int) -> Result<Seq<i32>, Failure>
    decreases ts.len(),
{
    if ts.len() == 0 {
        Ok(stack)
    } else {
        match step(stack, ts[0], pos) {
            Ok(next) => run(ts.drop_first(), next, pos + 1),
            Err(e) => Err(e),
        }
    }
}

/// The value of the formula whose tokens are `ts`: the one value left after
/// all tokens are applied to an empty stack.
pub open spec fn value_of_tokens(ts: Seq<Seq<char>>) -> Result<i32, Failure> {
    match run(ts, seq![], 1) {
        Ok(stack) => if stack.len() == 1 {
            Ok(stack[0])
        } else {
            Err(Failure::InvalidSyntax { position: None })
        },
        Err(e) => Err(e),
    }
}

/// The value of the formula `f`.
pub open spec fn outcome(f: Seq<char>) -> Result<i32, Failure> {
    value_of_tokens(words(f))
}

/// Running `a + b` is running `a`, then `b` from where `a` left off.
pub proof fn lemma_run_concat(a: Seq<Seq<char>>, b: Seq<Seq<char>>, stack: Seq<i32>, pos: int)
    ensures
        run(a + b, stack, pos) == match run(a, stack, pos) {
            Ok(mid) => run(b, mid, pos + a.len()),
            Err(e) => Err(e),
        },
    decreases a.len(),
{
    if a.len() == 0 {
        assert(a + b =~= b);
    } else {
        assert((a + b).drop_first() =~= a.drop_first() + b);
        assert((a + b)[0] == a[0]);
        match step(stack, a[0], pos) {
            Ok(next) => lemma_run_concat(a.drop_first(), b, next, pos + 1),
            Err(e) => {},
        }
    }
}


/// The operator that `s[start..end]` names, if any.
fn operator_at(s: &Vec<char>, start: usize, end: usize) -> (r: Option<Operator>)
    requires
        start <= end <= s@.len(),
    ensures
        r == operator_of(s@.subrange(start as int, end as int)),
{
    if end - start != 1 {
        return None;
    }
    let c = s[start];
    if c == '+' {
        Some(Operator::Add)
    } else if c == '-' {
        Some(Operator::Sub)
    } else if c == '*' {
        Some(Operator::Mul)
    } else if c == '/' {
        Some(Operator::Div)
    } else if c == '%' {
        Some(Operator::Rem)
    } else {
        None
    }
}

/// Computes `x op y`: `None` where the divisor is zero or the exact value
/// does not fit in an `i32`.
pub fn apply_operator(op: Operator, x: i32, y: i32) -> (r: Option<i32>)
    ensures
        r == match combine(op, x as int, y as int) {
            Some(v) => if fits_i32(v) {
                Some(v as i32)
            } else {
                None
            },
            None => None,
        },
{
    match op {
        Operator::Add => x.checked_add(y),
        Operator::Sub => x.checked_sub(y),
        Operator::Mul => x.checked_mul(y),
        Operator::Div => x.checked_div(y),
        Operator::Rem => if y == -1 {
            Some(0)
        } else {
            x.checked_rem(y)
        },
    }
}

/// Applies the token `s[start..end]`, at place `pos`, to `stack`.
fn apply_token(
    formula: &str,
    s: &Vec<char>,
    start: usize,
    end: usize,
    pos: usize,
    stack: &mut Vec<i32>,
) -> (r: Result<(), EvalError>)
    requires
        s@ == formula@,
        start <= end <= s@.len(),
    ensures
        match step(old(stack)@, s@.subrange(start as int, end as int), pos as int) {
            Ok(next) => r is Ok && final(stack)@ == next,
            Err(e) => r matches Err(err) && err@ == e,
        },
{
    match parse_int(s, start, end) {
        Some(v) => {
            stack.push(v);
            Ok(())
        },
        None => {
            let n = stack.len();
            if n < 2 {
                return Err(EvalError::InvalidSyntax { position: Some(pos) });
            }
            let y = stack[n - 1];
            let x = stack[n - 2];
            let op = match operator_at(s, start, end) {
                Some(op) => op,
                None => {
                    let token = formula.substring_char(start, end).to_owned();
                    return Err(EvalError::InvalidToken { position: pos, token });
                },
            };
            let v = match apply_operator(op, x, y) {
                Some(v) => v,
                None => {
                    return Err(EvalError::ArithmeticFault { position: pos });
                },
            };
            let ghost before = stack@;
            stack.pop();
            stack.pop();
            stack.push(v);
            assert(stack@ =~= before.take(n - 2).push(v));
            Ok(())
        },
    }
}


/// The stack after a token of a formula has been applied.
pub struct Snapshot {
    /// How many tokens have been applied so far.
    pub consumed: usize,
    /// The operand stack, bottom first.
    pub stack: Vec<i32>,
}

/// `trace` holds one snapshot for each token of `ts` that was applied
/// without failure, in order, and stops at the first failure.
pub open spec fn is_trace_of(ts: Seq<Seq<char>>, trace: Seq<Snapshot>) -> bool {
    &&& trace.len() <= ts.len()
    &&& forall|k: int| 0 <= k < trace.len() ==> snapshot_after(ts, k, #[trigger] trace[k])
    &&& trace.len() < ts.len() ==> run(ts.take(trace.len() + 1 as int), seq![], 1) is Err
}

/// `snap` is the state after the first `k + 1` tokens of `ts`.
pub open spec fn snapshot_after(ts: Seq<Seq<char>>, k: int, snap: Snapshot) -> bool {
    &&& snap.consumed == k + 1
    &&& run(ts.take(k + 1), seq![], 1) == Ok::<Seq<i32>, Failure>(snap.stack@)
}

/// An evaluator of formulas in reverse Polish notation.
pub struct RpnCalculator {
    /// Whether [`RpnCalculator::eval_traced`] records the stack after each token.
    pub verbose: bool,
}

impl RpnCalculator {
    pub fn new(verbose: bool) -> (r: Self)
        ensures
            r.verbose == verbose,
    {
        RpnCalculator { verbose }
    }

    /// The value of `formula`: its whitespace-separated tokens are applied
    /// left to right to an empty stack, and exactly one value must be left.
    pub fn eval(&self, formula: &str) -> (r: Result<i32, EvalError>)
        ensures
            result_view(r) == outcome(formula@),
    {
        self.eval_inner(formula, false).0
    }

    /// As [`RpnCalculator::eval`], with the snapshots that a verbose
    /// calculator records (none for a quiet one).
    pub fn eval_traced(&self, formula: &str) -> (r: (Result<i32, EvalError>, Vec<Snapshot>))
        ensures
            result_view(r.0) == outcome(formula@),
            self.verbose ==> is_trace_of(words(formula@), r.1@),
            !self.verbose ==> r.1@.len() == 0,
    {
        self.eval_inner(formula, self.verbose)
    }

    fn eval_inner(&self, formula: &str, record: bool) -> (r: (Result<i32, EvalError>, Vec<Snapshot>))
        ensures
            result_view(r.0) == outcome(formula@),
            record ==> is_trace_of(words(formula@), r.1@),
            !record ==> r.1@.len() == 0,
    {
        let s = chars_of(formula);
        let spans = token_spans(&s);
        let ghost ts = words(s@);
        let mut stack: Vec<i32> = Vec::new();
        let mut trace: Vec<Snapshot> = Vec::new();
        let mut k: usize = 0;
        assert(ts.take(0) =~= Seq::<Seq<char>>::empty());
        while k < spans.len()
            invariant
                s@ == formula@,
                ts == words(s@),
                span_texts(s@, spans@) == ts,
                spans_within(spans@, s@.len()),
                k <= spans@.len(),
                run(ts.take(k as int), seq![], 1) == Ok::<Seq<i32>, Failure>(stack@),
                record ==> trace@.len() == k,
                !record ==> trace@.len() == 0,
                forall|j: int| 0 <= j < trace@.len() ==> snapshot_after(ts, j, #[trigger] trace@[j]),
            decreases spans.len() - k,
        {
            let (start, end) = spans[k];
            assert(spans_within(spans@, s@.len()) ==> spans@[k as int].0 < spans@[k as int].1
                <= s@.len());
            let ghost t = s@.subrange(start as int, end as int);
            assert(ts[k as int] == t);
            let ghost before = stack@;
            let res = apply_token(formula, &s, start, end, k + 1, &mut stack);
            proof {
                assert(ts.take(k as int + 1) =~= ts.take(k as int) + seq![t]);
                lemma_run_concat(ts.take(k as int), seq![t], seq![], 1);
                assert(seq![t].drop_first() =~= Seq::<Seq<char>>::empty());
                reveal_with_fuel(run, 2);
                assert(run(ts.take(k as int + 1), seq![], 1) == match step(before, t, k + 1) {
                    Ok(next) => Ok(next),
                    Err(e) => Err::<Seq<i32>, Failure>(e),
                });
                assert(ts =~= ts.take(k as int + 1) + ts.skip(k as int + 1));
                lemma_run_concat(ts.take(k as int + 1), ts.skip(k as int + 1), seq![], 1);
            }
            match res {
                Ok(()) => {},
                Err(e) => {
                    assert(run(ts.take(k as int + 1), seq![], 1) is Err);
                    return (Err(e), trace);
                },
            }
            assert(run(ts.take(k as int + 1), seq![], 1) == Ok::<Seq<i32>, Failure>(stack@));
            if record {
                let copy = stack.clone();
                assert(copy@ == stack@);
                let ghost old_trace = trace@;
                trace.push(Snapshot { consumed: k + 1, stack: copy });
                assert forall|j: int| 0 <= j < trace@.len() implies snapshot_after(
                    ts,
                    j,
                    #[trigger] trace@[j],
                ) by {
                    if j < k {
                        assert(trace@[j] == old_trace[j]);
                    }
                }
            }
            k = k + 1;
        }
        assert(ts.take(k as int) =~= ts);
        if stack.len() == 1 {
            (Ok(stack[0]), trace)
        } else {
            (Err(EvalError::InvalidSyntax { position: None }), trace)
        }
    }
}


/// What a failing line does to the lines after it.
#[derive(Clone, Copy, Debug, PartialEq, Eq, Structural)]
pub enum Mode {
    /// The first failing line ends the run.
    Strict,
    /// A failing line is reported and the next lines are still evaluated.
    Recoverable,
}

/// The whitespace-separated tokens of `formula`, left to right.
pub fn tokens(formula: &str) -> (r: Vec<String>)
    ensures
        r@.len() == words(formula@).len(),
        forall|k: int| 0 <= k < r@.len() ==> #[trigger] r@[k]@ == words(formula@)[k],
{
    let s = chars_of(formula);
    let spans = token_spans(&s);
    let mut r: Vec<String> = Vec::new();
    let mut k: usize = 0;
    while k < spans.len()
        invariant
            s@ == formula@,
            span_texts(s@, spans@) == words(formula@),
            spans_within(spans@, s@.len()),
            k <= spans@.len(),
            r@.len() == k,
            forall|j: int| 0 <= j < k ==> #[trigger] r@[j]@ == words(formula@)[j],
        decreases spans.len() - k,
    {
        let (start, end) = spans[k];
        assert(spans_within(spans@, s@.len()) ==> spans@[k as int].0 < spans@[k as int].1
            <= s@.len());
        r.push(formula.substring_char(start, end).to_owned());
        k = k + 1;
    }
    r
}

impl RpnCalculator {
    /// Evaluates each line on its own, in order. In strict mode the results
    /// end with the first failure.
    pub fn eval_lines(&self, lines: &Vec<String>, mode: Mode) -> (r: Vec<Result<i32, EvalError>>)
        ensures
            r@.len() <= lines@.len(),
            forall|k: int| 0 <= k < r@.len() ==> result_view(#[trigger] r@[k]) == outcome(lines@[k]@),
            mode == Mode::Recoverable ==> r@.len() == lines@.len(),
            mode == Mode::Strict ==> forall|k: int| 0 <= k < r@.len() - 1 ==> #[trigger] r@[k] is Ok,
            mode == Mode::Strict && r@.len() < lines@.len() ==> r@.len() > 0 && r@.last() is Err,
    {
        let mut r: Vec<Result<i32, EvalError>> = Vec::new();
        let mut k: usize = 0;
        while k < lines.len()
            invariant
                k <= lines@.len(),
                r@.len() == k,
                forall|j: int| 0 <= j < k ==> result_view(#[trigger] r@[j]) == outcome(lines@[j]@),
                mode == Mode::Strict ==> forall|j: int| 0 <= j < k ==> #[trigger] r@[j] is Ok,
            decreases lines.len() - k,
        {
            let res = self.eval(lines[k].as_str());
            let failed = res.is_err();
            r.push(res);
            if failed && mode == Mode::Strict {
                return r;
            }
            k = k + 1;
        }
        r
    }
}

} // verus!
