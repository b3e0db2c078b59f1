//! What may be stored.

use vstd::prelude::*;
use crate::domain::check::{CheckResult, CheckStatus};
use crate::error::AppError;
use crate::text::copy_str;

verus! {

/// Unknown results are virtual points of a series and are never stored;
/// every other result may be.
pub fn check_storable(result: &CheckResult) -> (r: Result<(), AppError>)
    ensures
        r is Ok <==> result.status != CheckStatus::Unknown,
        r matches Err(e) ==> e matches AppError::BadRequest(m)
            && m@ == "unknown check results are virtual and must not be persisted"@,
{
    if result.status == CheckStatus::Unknown {
        return Err(AppError::BadRequest(copy_str("unknown check results are virtual and must not be persisted")));
    }
    Ok(())
}

} // verus!
