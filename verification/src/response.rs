//! The response envelope handed to HTTP callers.

use crate::error::{message_spec, status_code_spec, Error};
use vstd::prelude::*;

verus! {

/// The error half of an envelope.
pub struct ErrorResponse {
    pub code: u16,
    pub message: String,
}

/// Standard envelope around every endpoint's payload.
pub struct ApiResponse<T> {
    pub success: bool,
    pub data: Option<T>,
    pub error: Option<ErrorResponse>,
}

impl<T> ApiResponse<T> {
    /// A successful envelope around `data`.
    pub fn success(data: T) -> (r: Self)
        ensures
            r.success,
            r.data == Some(data),
            r.error is None,
    {
        Self { success: true, data: Some(data), error: None }
    }

    /// A failed envelope with a code and a message.
    pub fn error(code: u16, message: String) -> (r: Self)
        ensures
            !r.success,
            r.data is None,
            r.error matches Some(e) && e.code == code && e.message == message,
    {
        Self { success: false, data: None, error: Some(ErrorResponse { code, message }) }
    }

    /// The envelope reported for a run-level error.
    pub fn of_error(e: &Error) -> (r: Self)
        ensures
            !r.success,
            r.data is None,
            r.error matches Some(body) && body.code == status_code_spec(*e) && body.message@
                == message_spec(*e),
    {
        let parts = e.response_parts();
        Self::error(parts.0, parts.1)
    }
}

} // verus!
