//! Validation of posted payloads before they are stored.

use vstd::prelude::*;

use crate::error::{ApiError, ErrorDetail};
use crate::report::PostReport;

verus! {

/// The longest message a report may carry, in bytes of its UTF-8 encoding.
pub open spec fn max_message_len() -> int {
    500
}

/// Accepts a posted report exactly when its message encodes to at most 500
/// bytes.
pub fn validate_post_report(post_report: &PostReport) -> (r: Result<(), ApiError>)
    ensures
        r is Ok <==> vstd::utf8::encode_utf8(post_report@.message).len() <= max_message_len(),
        r matches Err(e) ==> e@ is BadRequest && e@->BadRequest_0.tag == "VALIDATION_ERROR"@,
{
    let bytes = post_report.message.as_str().as_bytes();
    let len = bytes.len();
    proof {
        broadcast use vstd::slice::group_slice_axioms;

        assert(bytes@ == vstd::utf8::encode_utf8(post_report@.message));
    }
    if len <= 500 {
        Ok(())
    } else {
        Err(
            ApiError::BadRequest(
                ErrorDetail::new(
                    "VALIDATION_ERROR",
                    "message exceeds the maximum length",
                    "validate",
                    "validate_post_report",
                ),
            ),
        )
    }
}

} // verus!
