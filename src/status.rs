//! HTTP statuses that the upload path answers with.

use vstd::prelude::*;
use crate::fmt::{bytes_text, Bytes};

verus! {

/// A refusal of the upload handler.
#[derive(Debug, Clone, Copy, PartialEq, Eq, Structural)]
pub enum Status {
    /// 400: bad headers, a missing or unsafe file name, bad framing.
    BadRequest,
    /// 413: the declared size is over the limit.
    PayloadTooLarge,
    /// 500: the file system failed.
    InternalServerError,
}

pub open spec fn status_code(s: Status) -> u16 {
    match s {
        Status::BadRequest => 400,
        Status::PayloadTooLarge => 413,
        Status::InternalServerError => 500,
    }
}

impl Status {
    /// The numeric HTTP status.
    pub fn code(&self) -> (r: u16)
        ensures
            r == status_code(*self),
    {
        match self {
            Status::BadRequest => 400,
            Status::PayloadTooLarge => 413,
            Status::InternalServerError => 500,
        }
    }
}

/// The standard reason phrase of an HTTP status code, if it has one.
pub uninterp spec fn reason_of(code: u16) -> Option<Seq<char>>;

/// Relies on http's `StatusCode::canonical_reason` (reached through
/// `StatusCode::from_u16`, which accepts every code in `100..=999`): the
/// registered reason phrase of the code, or `None` for an unregistered one.
#[verifier::external_body]
fn canonical_reason(code: u16) -> (r: Option<&'static str>)
    requires
        100 <= code <= 999,
    ensures
        r matches Some(s) ==> reason_of(code) == Some(s@),
        r is None ==> reason_of(code) is None,
{
    match axum::http::StatusCode::from_u16(code) {
        Ok(status) => status.canonical_reason(),
        Err(_) => None,
    }
}

/// The reason phrase shown for `code`: empty where there is none.
pub open spec fn reason_text(code: u16) -> Seq<char> {
    if 100 <= code <= 999 {
        match reason_of(code) {
            Some(s) => s,
            None => Seq::empty(),
        }
    } else {
        Seq::empty()
    }
}

pub open spec fn is_success(code: u16) -> bool {
    200 <= code <= 299
}

pub open spec fn is_server_error(code: u16) -> bool {
    500 <= code <= 599
}

/// A response with a status in `500..=599` shuts the server down, so that the
/// operator sees what went wrong.
pub fn closes_server(code: u16) -> (r: bool)
    ensures
        r == is_server_error(code),
{
    500 <= code && code <= 599
}

/// What the page for a payload over the limit explains.
pub open spec fn limit_explanation(limit: usize) -> Seq<char> {
    "The recipient set the upload limit to "@ + bytes_text(limit as nat)
}

/// The parameters of the error page.
pub struct ErrorTemplate {
    pub code: u16,
    pub reason: &'static str,
    pub explanation: Option<String>,
}

impl ErrorTemplate {
    /// The error page that replaces a response with status `code`; none for
    /// a success. Only a payload over the limit gets an explanation.
    pub fn for_status(code: u16, limit: usize) -> (r: Option<ErrorTemplate>)
        ensures
            is_success(code) <==> r is None,
            r matches Some(t) ==> {
                &&& t.code == code
                &&& t.reason@ == reason_text(code)
                &&& code == 413 ==> (t.explanation matches Some(e) && e@ == limit_explanation(
                    limit,
                ))
                &&& code != 413 ==> t.explanation is None
            },
    {
        if 200 <= code && code <= 299 {
            return None;
        }
        let reason: &'static str = if 100 <= code && code <= 999 {
            match canonical_reason(code) {
                Some(s) => s,
                None => {
                    proof { reveal_strlit(""); }
                    ""
                },
            }
        } else {
            proof { reveal_strlit(""); }
            ""
        };
        let explanation = if code == 413 {
            let mut e = String::from_str("The recipient set the upload limit to ");
            let shown = Bytes(limit).render();
            e.append(shown.as_str());
            Some(e)
        } else {
            None
        };
        Some(ErrorTemplate { code, reason, explanation })
    }
}

} // verus!
