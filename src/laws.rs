//! Properties of evaluation that hold for every formula of a given shape.

use vstd::prelude::*;

use crate::calc::{
    combine, lemma_run_concat, operator_of, outcome, result_view, run, step, value_of_tokens,
    EvalError, Failure,
};
use crate::lexer::{is_space, pending, words, words_after};
use crate::number::{fits_i32, int_token, is_digit, literal_value};

verus! {

/// A run of characters without whitespace extends the token being read.
proof fn lemma_words_solid(s: Seq<char>, cur: Seq<char>)
    requires
        forall|k: int| 0 <= k < s.len() ==> !is_space(#[trigger] s[k]),
    ensures
        words_after(s, cur) == pending(cur + s),
    decreases s.len(),
{
    if s.len() == 0 {
        assert(cur + s =~= cur);
    } else {
        assert(!is_space(s[0]));
        assert(cur.push(s[0]) + s.drop_first() =~= cur + s);
        lemma_words_solid(s.drop_first(), cur.push(s[0]));
    }
}

/// If the tokens before place `k + 1` apply without failure and the token
/// there fails, the formula fails with that token's failure.
proof fn lemma_fails_at(ts: Seq<Seq<char>>, k: int, stack: Seq<i32>, e: Failure)
    requires
        0 <= k < ts.len(),
        run(ts.take(k), seq![], 1) == Ok::<Seq<i32>, Failure>(stack),
        step(stack, ts[k], k + 1) == Err::<Seq<i32>, Failure>(e),
    ensures
        value_of_tokens(ts) == Err::<i32, Failure>(e),
{
    assert(ts =~= ts.take(k) + ts.skip(k));
    lemma_run_concat(ts.take(k), ts.skip(k), seq![], 1);
    assert(ts.skip(k)[0] == ts[k]);
}

/// A formula that is one integer literal evaluates to that integer.
pub proof fn lemma_single_literal(f: Seq<char>, n: i32)
    requires
        literal_value(f) == Some(n as int),
    ensures
        outcome(f) == Ok::<i32, Failure>(n),
{
    assert forall|k: int| 0 <= k < f.len() implies !is_space(#[trigger] f[k]) by {
        if f[0] == '-' || f[0] == '+' {
            if k > 0 {
                assert(is_digit(f.drop_first()[k - 1]));
            }
        } else {
            assert(is_digit(f[k]));
        }
    }
    lemma_words_solid(f, seq![]);
    assert(Seq::<char>::empty() + f =~= f);
    assert(words(f) == seq![f]);
    assert(int_token(f) == Some(n));
    reveal_with_fuel(run, 2);
    assert(seq![f].drop_first() =~= Seq::<Seq<char>>::empty());
}

/// The formula `a b op` of two integers and an operator evaluates to the
/// exact value of `a op b`, or fails with an arithmetic fault at the
/// operator where the divisor is zero or the value does not fit in an `i32`.
pub proof fn lemma_binary_operation(f: Seq<char>, a: Seq<char>, b: Seq<char>, o: Seq<char>)
    requires
        words(f) == seq![a, b, o],
        int_token(a) is Some,
        int_token(b) is Some,
        operator_of(o) is Some,
    ensures
        outcome(f) == match combine(operator_of(o)->0, int_token(a)->0 as int, int_token(b)->0 as int) {
            Some(v) => if fits_i32(v) {
                Ok::<i32, Failure>(v as i32)
            } else {
                Err(Failure::ArithmeticFault { position: 3 })
            },
            None => Err(Failure::ArithmeticFault { position: 3 }),
        },
{
    let ts = seq![a, b, o];
    assert(int_token(o) is None);
    reveal_with_fuel(run, 4);
    assert(ts.drop_first() =~= seq![b, o]);
    assert(ts.drop_first().drop_first() =~= seq![o]);
    assert(seq![o].drop_first() =~= Seq::<Seq<char>>::empty());
    let x = int_token(a)->0;
    let y = int_token(b)->0;
    let s2 = seq![x, y];
    assert(seq![].push(x).push(y) =~= s2);
    assert(s2.take(0) =~= Seq::<i32>::empty());
}

/// An operator that finds fewer than two values on the stack makes the
/// formula fail with a syntax error at the operator's place.
pub proof fn lemma_operator_underflow(f: Seq<char>, k: int, stack: Seq<i32>)
    requires
        0 <= k < words(f).len(),
        run(words(f).take(k), seq![], 1) == Ok::<Seq<i32>, Failure>(stack),
        stack.len() < 2,
        int_token(words(f)[k]) is None,
    ensures
        outcome(f) == Err::<i32, Failure>(Failure::InvalidSyntax { position: Some(k + 1) }),
{
    lemma_fails_at(words(f), k, stack, Failure::InvalidSyntax { position: Some(k + 1) });
}

/// A token that is neither an integer nor an operator, reached with two
/// values on the stack, makes the formula fail at that token.
pub proof fn lemma_unknown_token(f: Seq<char>, k: int, stack: Seq<i32>)
    requires
        0 <= k < words(f).len(),
        run(words(f).take(k), seq![], 1) == Ok::<Seq<i32>, Failure>(stack),
        stack.len() >= 2,
        int_token(words(f)[k]) is None,
        operator_of(words(f)[k]) is None,
    ensures
        outcome(f) == Err::<i32, Failure>(
            Failure::InvalidToken { position: k + 1, token: words(f)[k] },
        ),
{
    lemma_fails_at(words(f), k, stack, Failure::InvalidToken { position: k + 1, token: words(f)[k] });
}

/// Integers pushed minus operators applied.
pub open spec fn balance(ts: Seq<Seq<char>>) -> int
    decreases ts.len(),
{
    if ts.len() == 0 {
        0
    } else {
        (if int_token(ts[0]) is Some {
            1int
        } else {
            -1int
        }) + balance(ts.drop_first())
    }
}

/// Each integer adds one value to the stack and each operator takes one away.
pub proof fn lemma_stack_height(ts: Seq<Seq<char>>, stack: Seq<i32>, pos: int)
    requires
        run(ts, stack, pos) is Ok,
    ensures
        run(ts, stack, pos)->Ok_0.len() == stack.len() + balance(ts),
    decreases ts.len(),
{
    if ts.len() > 0 {
        let next = step(stack, ts[0], pos)->Ok_0;
        lemma_stack_height(ts.drop_first(), next, pos + 1);
    }
}

/// A formula whose tokens all apply but whose integers do not outnumber its
/// operators by exactly one fails with a syntax error that names no place.
pub proof fn lemma_unbalanced(f: Seq<char>)
    requires
        run(words(f), seq![], 1) is Ok,
        balance(words(f)) != 1,
    ensures
        outcome(f) == Err::<i32, Failure>(Failure::InvalidSyntax { position: None }),
{
    lemma_stack_height(words(f), seq![], 1);
}

/// Evaluation keeps no state: any two results that `RpnCalculator::eval`
/// returns for the same formula, from any calculators, are the same value
/// or the same failure.
pub proof fn lemma_repeatable(f: Seq<char>, r1: Result<i32, EvalError>, r2: Result<i32, EvalError>)
    requires
        result_view(r1) == outcome(f),
        result_view(r2) == outcome(f),
    ensures
        result_view(r1) == result_view(r2),
        r1 is Ok <==> r2 is Ok,
        r1 is Ok ==> r1->Ok_0 == r2->Ok_0,
{
}

} // verus!
