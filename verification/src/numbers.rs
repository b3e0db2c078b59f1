//! Decimal integers read the way `str::parse` reads them for Rust's integer
//! types: an optional sign, then ASCII digits, with the first error met
//! while reading from the left reported.

use vstd::prelude::*;
use crate::text::chars_of;

verus! {

/// Why a text is not an integer of the requested type.
#[derive(Debug, Clone, Copy, PartialEq, Eq, Structural)]
pub enum IntErrorKind {
    /// The text is empty.
    Empty,
    /// A character is not a digit, or a sign stands alone.
    InvalidDigit,
    /// The value is above the type's maximum.
    PosOverflow,
    /// The value is below the type's minimum.
    NegOverflow,
}

pub open spec fn is_digit(c: char) -> bool {
    '0' <= c && c <= '9'
}

/// Number of leading digits of `s`.
pub open spec fn digit_run(s: Seq<char>) -> nat
    decreases s.len(),
{
    if s.len() > 0 && is_digit(s[0]) {
        1 + digit_run(s.drop_first())
    } else {
        0
    }
}

/// The value of a run of digits.
pub open spec fn digits_value(s: Seq<char>) -> nat
    decreases s.len(),
{
    if s.len() == 0 {
        0
    } else {
        digits_value(s.drop_last()) * 10 + ((s.last() as u32) - ('0' as u32)) as nat
    }
}

/// Reads `s` as an integer in `[min, max]`; a leading `-` is accepted only
/// when `signed`.
pub open spec fn parse_integer(s: Seq<char>, signed: bool, min: int, max: int) -> Result<int, IntErrorKind> {
    if s.len() == 0 {
        Err(IntErrorKind::Empty)
    } else {
        let negative = signed && s[0] == '-';
        let body = if s[0] == '+' || negative { s.drop_first() } else { s };
        let run = digit_run(body);
        let value = digits_value(body.subrange(0, run as int));
        if body.len() == 0 {
            Err(IntErrorKind::InvalidDigit)
        } else if !negative && value > max {
            Err(IntErrorKind::PosOverflow)
        } else if negative && -value < min {
            Err(IntErrorKind::NegOverflow)
        } else if run < body.len() {
            Err(IntErrorKind::InvalidDigit)
        } else if negative {
            Ok(-value)
        } else {
            Ok(value as int)
        }
    }
}

proof fn lemma_digit_run_props(s: Seq<char>)
    ensures
        digit_run(s) <= s.len(),
        forall|i: int| 0 <= i < digit_run(s) ==> is_digit(#[trigger] s[i]),
        digit_run(s) < s.len() ==> !is_digit(s[digit_run(s) as int]),
    decreases s.len(),
{
    if s.len() > 0 && is_digit(s[0]) {
        lemma_digit_run_props(s.drop_first());
        assert forall|i: int| 0 <= i < digit_run(s) implies is_digit(#[trigger] s[i]) by {
            if i > 0 {
                assert(s[i] == s.drop_first()[i - 1]);
            }
        }
    }
}

proof fn lemma_digit_run_exact(s: Seq<char>, n: nat)
    requires
        n <= s.len(),
        forall|i: int| 0 <= i < n ==> is_digit(#[trigger] s[i]),
        n < s.len() ==> !is_digit(s[n as int]),
    ensures
        digit_run(s) == n,
    decreases n,
{
    if n > 0 {
        let t = s.drop_first();
        assert forall|i: int| 0 <= i < n - 1 implies is_digit(#[trigger] t[i]) by {
            assert(t[i] == s[i + 1]);
        }
        if n < s.len() {
            assert(t[n - 1] == s[n as int]);
        }
        assert(is_digit(s[0]));
        lemma_digit_run_exact(t, (n - 1) as nat);
    }
}

proof fn lemma_digits_value_monotone(s: Seq<char>, i: int, j: int)
    requires
        0 <= i <= j <= s.len(),
        forall|k: int| 0 <= k < j ==> is_digit(#[trigger] s[k]),
    ensures
        digits_value(s.subrange(0, i)) <= digits_value(s.subrange(0, j)),
    decreases j - i,
{
    if i < j {
        lemma_digits_value_monotone(s, i, j - 1);
        assert(s.subrange(0, j).drop_last() =~= s.subrange(0, j - 1));
    }
}

/// Reads `s` as an integer in `[min, max]`, as `str::parse` does for an
/// integer type with those bounds (`signed` when it has negative values).
pub fn parse_integer_text(s: &str, signed: bool, min: i64, max: u64) -> (r: Result<i128, IntErrorKind>)
    requires
        min <= 0,
    ensures
        match parse_integer(s@, signed, min as int, max as int) {
            Ok(v) => r == Ok::<i128, IntErrorKind>(v as i128),
            Err(e) => r == Err::<i128, IntErrorKind>(e),
        },
{
    let v = chars_of(s);
    if v.len() == 0 {
        return Err(IntErrorKind::Empty);
    }
    let negative = signed && v[0] == '-';
    let start: usize = if v[0] == '+' || negative { 1 } else { 0 };
    let ghost body = if v@[0] == '+' || negative { s@.drop_first() } else { s@ };
    assert(body =~= v@.subrange(start as int, v@.len() as int));
    if start == v.len() {
        return Err(IntErrorKind::InvalidDigit);
    }
    let limit: u128 = if negative { (-(min as i128)) as u128 } else { max as u128 };
    let mut value: u128 = 0;
    let mut i: usize = start;
    while i < v.len() && '0' <= v[i] && v[i] <= '9'
        invariant
            start <= i <= v@.len(),
            v@ == s@,
            s@.len() > 0,
            negative == (signed && s@[0] == '-'),
            body == (if s@[0] == '+' || negative { s@.drop_first() } else { s@ }),
            limit == (if negative { -(min as int) } else { max as int }),
            body =~= v@.subrange(start as int, v@.len() as int),
            forall|k: int| 0 <= k < i - start ==> is_digit(#[trigger] body[k]),
            value == digits_value(body.subrange(0, i - start)),
            value <= limit,
            limit <= u64::MAX,
        decreases v.len() - i,
    {
        let d = (v[i] as u32 - '0' as u32) as u128;
        assert(body.subrange(0, i - start + 1).drop_last() =~= body.subrange(0, i - start));
        assert(body[i - start] == v@[i as int]);
        let next = value * 10 + d;
        assert(next == digits_value(body.subrange(0, i - start + 1)));
        if next > limit {
            proof {
                assert forall|k: int| 0 <= k < i - start + 1 implies is_digit(#[trigger] body[k]) by {
                    if k == i - start {
                        assert(body[k] == v@[i as int]);
                    }
                }
                lemma_digit_run_props(body);
                let run = digit_run(body);
                assert(run >= i - start + 1) by {
                    if run < i - start + 1 {
                        assert(is_digit(body[run as int]));
                    }
                }
                assert(body.subrange(0, run as int).subrange(0, i - start + 1) =~= body.subrange(0, i - start + 1));
                assert forall|k: int| 0 <= k < run implies is_digit(#[trigger] body.subrange(0, run as int)[k]) by {
                    assert(body.subrange(0, run as int)[k] == body[k]);
                }
                lemma_digits_value_monotone(body.subrange(0, run as int), i - start + 1, run as int);
                assert(body.subrange(0, run as int).subrange(0, run as int) =~= body.subrange(0, run as int));
                assert(digits_value(body.subrange(0, run as int)) >= next);
            }
            if negative {
                return Err(IntErrorKind::NegOverflow);
            } else {
                return Err(IntErrorKind::PosOverflow);
            }
        }
        value = next;
        i = i + 1;
    }
    proof {
        let n = (i - start) as nat;
        if i < v.len() {
            assert(body[n as int] == v@[i as int]);
        }
        lemma_digit_run_exact(body, n);
    }
    if i < v.len() {
        return Err(IntErrorKind::InvalidDigit);
    }
    assert(body.subrange(0, (i - start) as int) =~= body);
    if negative {
        Ok(-(value as i128))
    } else {
        Ok(value as i128)
    }
}

} // verus!
