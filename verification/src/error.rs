//! The one shape of every answer that is not a success.

use crate::models::ErrorResponse;
use crate::text::opt_text;
use axum::http::StatusCode;
use vstd::prelude::*;

verus! {

/// The standard reason phrase of a status code, where it has one.
pub uninterp spec fn reason_phrase(status: u16) -> Option<Seq<char>>;

/// Calls `StatusCode::canonical_reason` on the status code that
/// `StatusCode::from_u16` makes of `status`. The phrase is looked up in a
/// fixed table, so it is a function of the code alone; the contract gives it
/// the name `reason_phrase`.
#[verifier::external_body]
fn canonical_reason(status: u16) -> (r: Option<String>)
    ensures
        opt_text(r) == reason_phrase(status),
{
    match StatusCode::from_u16(status) {
        Ok(code) => code.canonical_reason().map(str::to_owned),
        Err(_) => None,
    }
}

/// Whether a status code stands for a client's error.
pub open spec fn is_client_error(status: u16) -> bool {
    400 <= status < 500
}

/// Whether a status code stands for the server's error.
pub open spec fn is_server_error(status: u16) -> bool {
    500 <= status < 600
}

/// The kind of error that a status code is reported as.
pub open spec fn error_kind_of(status: u16) -> Seq<char> {
    if status == 400 {
        "BAD_REQUEST"@
    } else if status == 401 {
        "UNAUTHORIZED"@
    } else if status == 403 {
        "FORBIDDEN"@
    } else if status == 404 {
        "NOT_FOUND"@
    } else if status == 409 {
        "CONFLICT"@
    } else if status == 500 {
        "INTERNAL_ERROR"@
    } else if is_client_error(status) {
        "CLIENT_ERROR"@
    } else if is_server_error(status) {
        "SERVER_ERROR"@
    } else {
        "ERROR"@
    }
}

/// The kind of error that a status code is reported as.
pub fn error_kind(status: u16) -> (r: &'static str)
    ensures
        r@ == error_kind_of(status),
{
    if status == 400 {
        "BAD_REQUEST"
    } else if status == 401 {
        "UNAUTHORIZED"
    } else if status == 403 {
        "FORBIDDEN"
    } else if status == 404 {
        "NOT_FOUND"
    } else if status == 409 {
        "CONFLICT"
    } else if status == 500 {
        "INTERNAL_ERROR"
    } else if 400 <= status && status < 500 {
        "CLIENT_ERROR"
    } else if 500 <= status && status < 600 {
        "SERVER_ERROR"
    } else {
        "ERROR"
    }
}

/// The message of an error answer: what the handler wrote, or, where it wrote
/// nothing, the status code's reason phrase, or a fixed text where it has
/// none.
pub open spec fn error_message_of(body: Seq<char>, reason: Option<Seq<char>>) -> Seq<char> {
    if body.len() > 0 {
        body
    } else {
        match reason {
            Some(phrase) => phrase,
            None => "Unknown error"@,
        }
    }
}

/// The body of an error answer, from what the handler wrote and the status
/// code's reason phrase.
pub fn error_body(status: u16, body: String, reason: Option<String>) -> (r: ErrorResponse)
    ensures
        r.error@ == error_kind_of(status),
        r.message@ == error_message_of(body@, opt_text(reason)),
        r.field is None,
{
    let message: String = if !body.as_str().is_empty() {
        body
    } else {
        match reason {
            Some(phrase) => phrase,
            None => "Unknown error".to_owned(),
        }
    };
    ErrorResponse { error: error_kind(status).to_owned(), message, field: None }
}

/// Brings an answer into the shape of an error, where its status is one: a
/// client's or the server's error. Any other answer is left as it is.
pub fn normalize_error(status: u16, body: String) -> (r: Option<ErrorResponse>)
    ensures
        r is Some <==> is_client_error(status) || is_server_error(status),
        r matches Some(e) ==> {
            &&& e.error@ == error_kind_of(status)
            &&& e.message@ == error_message_of(body@, reason_phrase(status))
            &&& e.field is None
        },
{
    if status < 400 || status >= 600 {
        return None;
    }
    let reason = canonical_reason(status);
    Some(error_body(status, body, reason))
}

/// The answer to a request whose handler panicked.
pub fn internal_error() -> (r: ErrorResponse)
    ensures
        r.error@ == "INTERNAL_ERROR"@,
        r.message@ == "An unexpected error occurred"@,
        r.field is None,
{
    ErrorResponse {
        error: "INTERNAL_ERROR".to_owned(),
        message: "An unexpected error occurred".to_owned(),
        field: None,
    }
}

} // verus!
