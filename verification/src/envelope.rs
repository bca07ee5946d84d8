//! The upstream API's two-element `[head, row]` response envelope and its
//! normalization into a uniform success/empty/error result.
//!
//! The upstream reuses one envelope shape both for "data found" and for
//! "no data / error", telling them apart only through the status inside the
//! head; the decoder centralizes that interpretation.

use crate::numeric::{parse_u32, parsed_u32};
use crate::AppResponseError;
use vstd::prelude::*;

verus! {

/// The upstream-reported outcome: a numeric code carried as a string, and
/// a human-readable message.
#[derive(Clone, PartialEq, Eq, Debug)]
pub struct StatusResult {
    pub code: String,
    pub message: String,
}

impl StatusResult {
    /// The outward error that surfaces this status verbatim. The code must
    /// be numeric; [`StatusResult::try_to_app_response_error`] checks that
    /// first.
    pub fn to_app_response_error(&self) -> (r: AppResponseError)
        requires
            parsed_u32(self.code@) is Some,
        ensures
            parsed_u32(self.code@) == Some(r.code),
            r.message@ == self.message@,
    {
        let code = parse_u32(self.code.as_str()).unwrap();
        AppResponseError { code, message: self.message.clone() }
    }

    /// Like [`StatusResult::to_app_response_error`], but rejects a status
    /// whose code is not numeric instead of demanding it up front.
    pub fn try_to_app_response_error(&self) -> (r: Option<AppResponseError>)
        ensures
            r is Some <==> parsed_u32(self.code@) is Some,
            r matches Some(e) ==> parsed_u32(self.code@) == Some(e.code) && e.message@
                == self.message@,
    {
        match parse_u32(self.code.as_str()) {
            Some(code) => Some(AppResponseError { code, message: self.message.clone() }),
            None => None,
        }
    }
}

/// One element of the envelope's head: the record count, or the status.
#[derive(Clone, PartialEq, Eq, Debug)]
pub enum HeadElement {
    Count(u64),
    Status(StatusResult),
}

/// One of the two elements of the upstream envelope: the head, or the list
/// of records.
#[derive(Debug)]
pub enum RawResponseContent<T> {
    Head(Vec<HeadElement>),
    Row(Vec<T>),
}

/// Decoding failure: the upstream body does not match the expected
/// two-element, ordered head/row shape.
#[derive(Clone, Copy, PartialEq, Eq, Structural, Debug)]
pub enum DecodeError {
    MalformedEnvelope,
}

/// The status sub-element of an envelope, which the upstream keeps at the
/// fixed second position of the head; `None` when the envelope has no head
/// first or the head is too short or holds no status there.
pub open spec fn envelope_status<T>(raw: Seq<RawResponseContent<T>>) -> Option<StatusResult> {
    if raw.len() >= 1 {
        match raw[0] {
            RawResponseContent::Head(h) => if h@.len() >= 2 {
                match h@[1] {
                    HeadElement::Status(s) => Some(s),
                    _ => None,
                }
            } else {
                None
            },
            _ => None,
        }
    } else {
        None
    }
}

/// The records of an envelope whose second element is a row element.
pub open spec fn envelope_rows<T>(raw: Seq<RawResponseContent<T>>) -> Seq<T> {
    if raw.len() >= 2 {
        match raw[1] {
            RawResponseContent::Row(r) => r@,
            _ => Seq::empty(),
        }
    } else {
        Seq::empty()
    }
}

/// The shape the upstream promises: exactly two elements, head before row,
/// with the status at the head's second position.
pub open spec fn envelope_well_formed<T>(raw: Seq<RawResponseContent<T>>) -> bool {
    &&& raw.len() == 2
    &&& raw[0] is Head
    &&& raw[1] is Row
    &&& envelope_status(raw) is Some
}

/// The normalized upstream result. `result` is present exactly when the
/// upstream body carried a row element, even an empty one; a caller that
/// finds it absent must read `status` to tell "no data" from an upstream
/// error.
#[derive(Debug)]
pub struct Response<T> {
    pub status: StatusResult,
    pub result: Option<Vec<T>>,
}

impl<T> Response<T> {
    /// Decodes the two-element envelope. Every well-formed envelope
    /// decodes to its status and all of its rows (which may be an empty
    /// list); every other shape is rejected as malformed.
    pub fn from_raw(raw: Vec<RawResponseContent<T>>) -> (r: Result<Response<T>, DecodeError>)
        ensures
            r is Ok <==> envelope_well_formed(raw@),
            r matches Ok(resp) ==> {
                &&& Some(resp.status) == envelope_status(raw@)
                &&& resp.result matches Some(rows) && rows@ == envelope_rows(raw@)
            },
            r matches Err(e) ==> e == DecodeError::MalformedEnvelope,
    {
        if raw.len() != 2 {
            return Err(DecodeError::MalformedEnvelope);
        }
        let mut raw = raw;
        let second = raw.pop().unwrap();
        let first = raw.pop().unwrap();
        match (first, second) {
            (RawResponseContent::Head(head), RawResponseContent::Row(row)) => {
                if head.len() >= 2 {
                    let mut head = head;
                    match head.remove(1) {
                        HeadElement::Status(status) => Ok(
                            Response { status, result: Some(row) },
                        ),
                        _ => Err(DecodeError::MalformedEnvelope),
                    }
                } else {
                    Err(DecodeError::MalformedEnvelope)
                }
            },
            _ => Err(DecodeError::MalformedEnvelope),
        }
    }

    /// Wraps a status-only upstream body: a response with a status and no
    /// rows.
    pub fn from_status(status: StatusResult) -> (r: Response<T>)
        ensures
            r.status == status,
            r.result is None,
    {
        Response { status, result: None }
    }

    /// The upstream status of this response.
    pub fn status(&self) -> (r: &StatusResult)
        ensures
            r == self.status,
    {
        &self.status
    }

    /// The decoded records, present exactly when the upstream body carried
    /// a row element.
    pub fn result(&self) -> (r: Option<&Vec<T>>)
        ensures
            r is Some <==> self.result is Some,
            r matches Some(v) ==> self.result matches Some(w) && v == w,
    {
        self.result.as_ref()
    }
}

} // verus!
