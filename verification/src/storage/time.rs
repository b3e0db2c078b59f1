//! Stored instants are whole Unix seconds.

use vstd::prelude::*;
use crate::error::AppError;
use crate::instant::{CHRONO_MAX_SECS, CHRONO_MIN_SECS, SECOND_MS, floor_to, in_span, representable};
use crate::text::signed_decimal;

verus! {

/// `DateTime::<Utc>::from_timestamp(secs, 0)` in milliseconds. By chrono's
/// source, it gives a value exactly when `secs` lies between
/// -262143-01-01T00:00:00Z and +262142-12-31T23:59:59Z, and that value is
/// `secs` seconds after the epoch.
#[verifier::external_body]
fn chrono_from_timestamp(secs: i64) -> (r: Option<i64>)
    ensures
        r is Some <==> CHRONO_MIN_SECS <= secs <= CHRONO_MAX_SECS,
        r matches Some(ms) ==> ms == secs * 1000,
{
    chrono::DateTime::<chrono::Utc>::from_timestamp(secs, 0).map(|d| d.timestamp_millis())
}

/// The Unix second that holds the instant `t` (rounded down).
pub fn to_timestamp_seconds(t: i64) -> (secs: i64)
    requires
        in_span(t as int),
    ensures
        secs == floor_to(t as int, 1000) / 1000,
        secs == (t as int) / 1000,
{
    let r = crate::instant::floor_to_multiple(t, SECOND_MS);
    proof {
        vstd::arithmetic::div_mod::lemma_fundamental_div_mod(t as int, 1000);
        assert((((t as int) / 1000) * 1000) / 1000 == (t as int) / 1000) by (nonlinear_arith);
    }
    r / 1000
}

/// The instant of a stored Unix second; a second outside chrono's range is refused.
pub fn from_timestamp_seconds(secs: i64) -> (r: Result<i64, AppError>)
    ensures
        r is Ok <==> CHRONO_MIN_SECS <= secs <= CHRONO_MAX_SECS,
        r matches Ok(t) ==> t == secs * 1000,
        r matches Err(e) ==> e matches AppError::BadRequest(m)
            && m@ == "invalid unix timestamp seconds: "@ + signed_decimal(secs as int),
{
    match chrono_from_timestamp(secs) {
        Some(ms) => Ok(ms),
        None => {
            let digits = crate::text::signed_decimal_string(secs);
            Err(AppError::BadRequest(crate::text::join2("invalid unix timestamp seconds: ", digits.as_str())))
        },
    }
}

/// Storing and loading agree: a stored second loads as that second's
/// instant, which stores as the same second; and an instant stores as the
/// second that holds it, which loads as the instant rounded down to the
/// second.
pub proof fn lemma_timestamp_round_trip(secs: i64, t: i64)
    ensures
        CHRONO_MIN_SECS <= secs <= CHRONO_MAX_SECS ==> in_span(secs * 1000) && (secs * 1000) / 1000 == secs,
        representable(t as int) ==> {
            let s = (t as int) / 1000;
            &&& in_span(t as int)
            &&& CHRONO_MIN_SECS <= s <= CHRONO_MAX_SECS
            &&& s * 1000 == floor_to(t as int, 1000)
        },
{
    vstd::arithmetic::div_mod::lemma_fundamental_div_mod(t as int, 1000);
}

} // verus!
