//! The request-scoped error taxonomy and the centralized responder.
//!
//! Every recoverable failure is captured as a typed rejection and
//! routed through one exhaustive mapping to an HTTP status code and a
//! plain-text body.  No handler builds a response on the error path
//! itself, and an unrecognized rejection degrades to the generic
//! not-found answer rather than leaking internals.

use vstd::prelude::*;

verus! {

/// Why a query parameter failed to parse as a non-negative integer.
#[derive(Clone, Copy, Debug, PartialEq, Eq, Structural)]
pub enum ParseIssue {
    /// The parameter value was the empty string.
    Empty,
    /// The value held a character that is no decimal digit.
    InvalidDigit,
    /// The value is a number too large for the index type.
    Overflow,
}

/// The request-scoped errors this core can raise.
#[derive(Clone, Copy, Debug, PartialEq, Eq, Structural)]
pub enum Error {
    /// A pagination parameter did not parse as a non-negative integer.
    ParseError(ParseIssue),
    /// Pagination was requested but `start` or `end` is missing.
    MissingParameters,
    /// Reserved for a future lookup by id; no current endpoint raises it.
    QuestionNotFound,
    /// The pagination window does not fit the collection:
    /// `end` exceeds its size or `start` exceeds `end`.
    RangeInvalid,
}

/// A rejected request, as the centralized responder sees it.
#[derive(Debug)]
pub enum Rejection {
    /// A typed error raised by this core's own handlers.
    Service(Error),
    /// The CORS layer refused the request; the payload is its message.
    CorsForbidden(String),
    /// No route matched, or the rejection kind is not a recognized one.
    Unmatched,
}

/// HTTP status owed to each error kind.  Range troubles answer
/// 416 Range Not Satisfiable; the reserved lookup failure answers 404.
pub open spec fn error_status(e: Error) -> u16 {
    match e {
        Error::ParseError(_) => 416,
        Error::MissingParameters => 416,
        Error::RangeInvalid => 416,
        Error::QuestionNotFound => 404,
    }
}

/// The human-readable message owed to each error kind.
pub open spec fn error_message(e: Error) -> Seq<char> {
    match e {
        Error::ParseError(ParseIssue::Empty) => "Cannot parse parameter: cannot parse integer from empty string"@,
        Error::ParseError(ParseIssue::InvalidDigit) => "Cannot parse parameter: invalid digit found in string"@,
        Error::ParseError(ParseIssue::Overflow) => "Cannot parse parameter: number too large to fit in target type"@,
        Error::MissingParameters => "Missing parameter"@,
        Error::QuestionNotFound => "Question not found"@,
        Error::RangeInvalid => "Pagination range is out of bounds"@,
    }
}

/// HTTP status owed to each rejection.
pub open spec fn rejection_status(r: Rejection) -> u16 {
    match r {
        Rejection::Service(e) => error_status(e),
        Rejection::CorsForbidden(_) => 403,
        Rejection::Unmatched => 404,
    }
}

/// Response body owed to each rejection.
pub open spec fn rejection_body(r: Rejection) -> Seq<char> {
    match r {
        Rejection::Service(e) => error_message(e),
        Rejection::CorsForbidden(m) => m@,
        Rejection::Unmatched => "Route not found"@,
    }
}

impl Error {
    /// The status code of this error, per the taxonomy's table.
    pub fn status(&self) -> (s: u16)
        ensures
            s == error_status(*self),
    {
        match self {
            Error::ParseError(_) => 416,
            Error::MissingParameters => 416,
            Error::RangeInvalid => 416,
            Error::QuestionNotFound => 404,
        }
    }

    /// The display string of this error.
    pub fn message(&self) -> (m: String)
        ensures
            m@ == error_message(*self),
    {
        match self {
            Error::ParseError(ParseIssue::Empty) => "Cannot parse parameter: cannot parse integer from empty string".to_owned(),
            Error::ParseError(ParseIssue::InvalidDigit) => "Cannot parse parameter: invalid digit found in string".to_owned(),
            Error::ParseError(ParseIssue::Overflow) => "Cannot parse parameter: number too large to fit in target type".to_owned(),
            Error::MissingParameters => "Missing parameter".to_owned(),
            Error::QuestionNotFound => "Question not found".to_owned(),
            Error::RangeInvalid => "Pagination range is out of bounds".to_owned(),
        }
    }
}

/// A request for an unmapped route — or any rejection of no recognized
/// kind — is answered 404 with the fixed body "Route not found".
pub proof fn lemma_unmatched_route()
    ensures
        rejection_status(Rejection::Unmatched) == 404,
        rejection_body(Rejection::Unmatched) == "Route not found"@,
{
}

/// The centralized responder: maps any rejection to the status and
/// body of the HTTP answer.  The mapping is exhaustive, so no rejection
/// can escape as an unhandled internal error.
pub fn respond(r: &Rejection) -> (res: (u16, String))
    ensures
        res.0 == rejection_status(*r),
        res.1@ == rejection_body(*r),
{
    match r {
        Rejection::Service(e) => (e.status(), e.message()),
        Rejection::CorsForbidden(m) => (403, m.clone()),
        Rejection::Unmatched => (404, "Route not found".to_owned()),
    }
}

} // verus!
