//! Reading a token as an `i32` decimal literal.

use vstd::prelude::*;

verus! {

/// Whether `c` is an ASCII decimal digit.
pub open spec fn is_digit(c: char) -> bool {
    '0' <= c && c <= '9'
}

/// The value of the digit `c`.
pub open spec fn digit_value(c: char) -> int {
    (c as u32) - ('0' as u32)
}

/// Every character of `d` is a decimal digit.
pub open spec fn all_digits(d: Seq<char>) -> bool {
    forall|k: int| 0 <= k < d.len() ==> is_digit(#[trigger] d[k])
}

/// The value of the decimal numeral `d`, most significant digit first.
pub open spec fn digits_value(d: Seq<char>) -> int
    decreases d.len(),
{
    if d.len() == 0 {
        0
    } else {
        10 * digits_value(d.drop_last()) + digit_value(d.last())
    }
}

/// The value of `t` read as a decimal integer literal: an optional `+` or
/// `-` sign followed by at least one digit and nothing else.
pub open spec fn literal_value(t: Seq<char>) -> Option<int> {
    if t.len() > 0 && (t[0] == '-' || t[0] == '+') {
        let d = t.drop_first();
        if d.len() > 0 && all_digits(d) {
            Some(if t[0] == '-' { -digits_value(d) } else { digits_value(d) })
        } else {
            None
        }
    } else if t.len() > 0 && all_digits(t) {
        Some(digits_value(t))
    } else {
        None
    }
}

/// Whether `v` fits in an `i32`.
pub open spec fn fits_i32(v: int) -> bool {
    i32::MIN <= v <= i32::MAX
}

/// The `i32` that the token `t` denotes, if it is an integer literal in range.
pub open spec fn int_token(t: Seq<char>) -> Option<i32> {
    match literal_value(t) {
        Some(v) => if fits_i32(v) {
            Some(v as i32)
        } else {
            None
        },
        None => None,
    }
}

/// Magnitudes are tracked up to this bound, one past the largest that an
/// `i32` literal can have.
const MAGNITUDE_CAP: i64 = 2147483649;

/// Reads `s[start..end]` as an `i32` literal.
pub fn parse_int(s: &Vec<char>, start: usize, end: usize) -> (r: Option<i32>)
    requires
        start <= end <= s@.len(),
    ensures
        r == int_token(s@.subrange(start as int, end as int)),
{
    let ghost t = s@.subrange(start as int, end as int);
    if start == end {
        return None;
    }
    let first = s[start];
    let signed = first == '-' || first == '+';
    let ds: usize = if signed { start + 1 } else { start };
    let ghost d = s@.subrange(ds as int, end as int);
    assert(t[0] == first);
    assert(signed ==> d =~= t.drop_first());
    assert(!signed ==> d =~= t);
    if ds == end {
        return None;
    }
    let mut acc: i64 = 0;
    let mut k: usize = ds;
    assert(s@.subrange(ds as int, ds as int) =~= Seq::<char>::empty());
    while k < end
        invariant
            ds <= k <= end <= s@.len(),
            d == s@.subrange(ds as int, end as int),
            t == s@.subrange(start as int, end as int),
            t.len() > 0 && t[0] == first,
            signed == (first == '-' || first == '+'),
            signed ==> d == t.drop_first(),
            !signed ==> d == t,
            all_digits(s@.subrange(ds as int, k as int)),
            0 <= digits_value(s@.subrange(ds as int, k as int)),
            acc == if digits_value(s@.subrange(ds as int, k as int)) < MAGNITUDE_CAP {
                digits_value(s@.subrange(ds as int, k as int))
            } else {
                MAGNITUDE_CAP as int
            },
        decreases end - k,
    {
        let c = s[k];
        let ghost prev = s@.subrange(ds as int, k as int);
        let ghost next = s@.subrange(ds as int, k as int + 1);
        assert(next.drop_last() =~= prev);
        assert(next.last() == c);
        if !('0' <= c && c <= '9') {
            assert(d[k - ds] == c);
            assert(!all_digits(d));
            return None;
        }
        let dv: i64 = (c as u32 - '0' as u32) as i64;
        if acc < MAGNITUDE_CAP {
            acc = acc * 10 + dv;
            if acc > MAGNITUDE_CAP {
                acc = MAGNITUDE_CAP;
            }
        }
        assert(all_digits(next)) by {
            assert forall|j: int| 0 <= j < next.len() implies is_digit(#[trigger] next[j]) by {
                if j < prev.len() {
                    assert(next[j] == prev[j]);
                }
            }
        }
        k = k + 1;
    }
    assert(s@.subrange(ds as int, k as int) =~= d);
    if first == '-' {
        if acc <= 2147483648 {
            Some((0 - acc) as i32)
        } else {
            None
        }
    } else {
        if acc <= 2147483647 {
            Some(acc as i32)
        } else {
            None
        }
    }
}

} // verus!
