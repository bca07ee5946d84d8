//! A read-only proxy core for a national school-information API.
//!
//! The library normalizes the upstream service's two-element `[head, row]`
//! response envelope into a uniform success/empty/error result, aggregates
//! flat per-period timetable rows into a subject-keyed schedule, computes the
//! Monday-to-Friday week window used to query a single academic week, and
//! shapes the decoded records into the outward success/error envelope.
//! The HTTP transport and JSON (de)serialization live outside the library.

pub mod client;
pub mod clock;
pub mod date;
pub mod envelope;
pub mod meal;
pub mod numeric;
pub mod split;
pub mod subjects;
pub mod timetable;

use vstd::prelude::*;
use vstd::string::StringExecFns;

verus! {

/// The outward-facing error object: an integer code and a human-readable
/// message.
#[derive(Clone, PartialEq, Eq, Debug)]
pub struct AppResponseError {
    pub code: u32,
    pub message: String,
}

/// A failure while shaping a decoded result into the outward envelope:
/// the upstream reported a status-only result whose code is not numeric,
/// or sent a timetable row whose date or period cannot be read.
#[derive(Clone, Copy, PartialEq, Eq, Structural, Debug)]
pub enum ShapeError {
    NonNumericStatusCode,
    MalformedRow,
}

/// The outward-facing envelope of both endpoints: exactly one of `content`
/// and `error` is present, according to `result`.
#[derive(Debug)]
pub struct AppResponse<T> {
    pub result: bool,
    pub content: Option<T>,
    pub error: Option<AppResponseError>,
}

impl<T> AppResponse<T> {
    /// Exactly one of `content`/`error` is present when `result` is
    /// true/false respectively.
    pub open spec fn well_formed(&self) -> bool {
        &&& self.result <==> self.content is Some
        &&& self.result <==> self.error is None
    }

    /// A success envelope carrying `content`.
    pub fn success(content: T) -> (r: Self)
        ensures
            r.well_formed(),
            r.result,
            r.content == Some(content),
    {
        AppResponse { result: true, content: Some(content), error: None }
    }

    /// An error envelope carrying `error`.
    pub fn error(error: AppResponseError) -> (r: Self)
        ensures
            r.well_formed(),
            !r.result,
            r.error matches Some(e) && e == error,
    {
        AppResponse { result: false, content: None, error: Some(error) }
    }

    /// The generic internal-error envelope: a fixed code and a message that
    /// embeds the underlying cause's description.
    pub fn error_with_message(message: &str) -> (r: Self)
        ensures
            r.well_formed(),
            !r.result,
            r.error matches Some(e) && e.code == 1500 && e.message@ == "Something went wrong: "@
                + message@,
    {
        let prefix = String::from_str("Something went wrong: ");
        AppResponse {
            result: false,
            content: None,
            error: Some(AppResponseError { code: 1500, message: prefix.concat(message) }),
        }
    }
}

} // verus!
