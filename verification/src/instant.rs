//! Instants as signed milliseconds since the Unix epoch, and the calendar
//! arithmetic done on them.

use vstd::prelude::*;

verus! {

pub const SECOND_MS: i64 = 1_000;
pub const MINUTE_MS: i64 = 60_000;
pub const HOUR_MS: i64 = 3_600_000;
pub const DAY_MS: i64 = 86_400_000;

/// A span of milliseconds, whole in days, beyond which no instant handled here lies.
pub const SPAN_MS: i64 = 8_640_000_000_000_000;

/// Earliest second that `chrono::DateTime<Utc>` represents (-262143-01-01T00:00:00Z).
pub const CHRONO_MIN_SECS: i64 = -8_334_601_228_800;

/// Latest second that `chrono::DateTime<Utc>` represents (+262142-12-31T23:59:59Z).
pub const CHRONO_MAX_SECS: i64 = 8_210_266_876_799;

/// Instants that `chrono::DateTime<Utc>` can hold, in milliseconds.
pub open spec fn representable(t: int) -> bool {
    CHRONO_MIN_SECS * 1000 <= t <= CHRONO_MAX_SECS * 1000 + 999
}

/// Instants within the span that calendar arithmetic here works on.
pub open spec fn in_span(t: int) -> bool {
    -SPAN_MS <= t <= SPAN_MS
}

/// `t` rounded down to a multiple of `unit`.
pub open spec fn floor_to(t: int, unit: int) -> int {
    (t / unit) * unit
}

/// Rounds `t` down to a multiple of `unit`.
pub fn floor_to_multiple(t: i64, unit: i64) -> (r: i64)
    requires
        in_span(t as int),
        0 < unit,
        SPAN_MS % unit == 0,
    ensures
        r == floor_to(t as int, unit as int),
        t - unit < r <= t,
{
    let shifted: u64 = (t as i128 + SPAN_MS as i128) as u64;
    let q: u64 = shifted / (unit as u64);
    proof {
        let k = SPAN_MS / unit;
        assert(SPAN_MS == k * unit) by {
            vstd::arithmetic::div_mod::lemma_fundamental_div_mod(SPAN_MS as int, unit as int);
        }
        let qq = (t as int) / (unit as int);
        let rr = (t as int) % (unit as int);
        vstd::arithmetic::div_mod::lemma_fundamental_div_mod(t as int, unit as int);
        assert(shifted as int == (qq + k) * unit + rr) by (nonlinear_arith)
            requires
                shifted as int == t as int + SPAN_MS,
                t as int == unit * qq + rr,
                SPAN_MS == k * unit,
        ;
        vstd::arithmetic::div_mod::lemma_fundamental_div_mod_converse(shifted as int, unit as int, qq + k, rr);
        assert(q as int == qq + k);
        assert(q as int * unit == qq * unit + SPAN_MS) by (nonlinear_arith)
            requires
                q as int == qq + k,
                SPAN_MS == k * unit,
        ;
        assert(q as int * unit == (qq + k) * unit);
        assert(0 <= q as int * unit) by (nonlinear_arith)
            requires
                0 <= q,
                0 < unit,
        ;
    }
    let m: u64 = q * (unit as u64);
    (m as i128 - SPAN_MS as i128) as i64
}

} // verus!
