//! The query handler: from raw query parameters and the store to the
//! JSON response body, or to a typed rejection.
//!
//! The handler takes a snapshot of the store, runs the pagination
//! extractor when parameters are present, refuses a window that does
//! not fit the snapshot, and serializes the selected records.  No
//! partial body is ever produced: any failure short-circuits to the
//! error responder.

use vstd::prelude::*;

use crate::error::Error;
use crate::error::error_message;
use crate::error::error_status;
use crate::json::json_questions;
use crate::json::serialize_questions;
use crate::json::serialize_range;
use crate::pagination::Pagination;
use crate::pagination::lookup;
use crate::pagination::parse_outcome;
use crate::pagination::spec_extract;
use crate::pagination::extract;
use crate::question::QuestionView;
use crate::store::Store;

verus! {

/// What the handler answers on given parameters and records: the whole
/// collection when no pagination was requested, the stable-order slice
/// `[start, end)` when a valid window was, and otherwise the error the
/// extractor raised — or `RangeInvalid` for a window that does not fit.
pub open spec fn spec_handle(
    params: Seq<(Seq<char>, Seq<char>)>,
    questions: Seq<QuestionView>,
) -> Result<Seq<char>, Error> {
    match spec_extract(params) {
        Err(e) => Err(e),
        Ok(None) => Ok(json_questions(questions)),
        Ok(Some(p)) => if p.start > p.end || p.end > questions.len() {
            Err(Error::RangeInvalid)
        } else {
            Ok(json_questions(questions.subrange(p.start as int, p.end as int)))
        },
    }
}

/// Handles `GET /questions`: parses the parameters, reads the store,
/// and returns the JSON body — or the error owed to exactly these
/// parameters and this store.
pub fn handle(params: &Vec<(String, String)>, store: &Store) -> (r: Result<String, Error>)
    ensures
        match r {
            Ok(body) => spec_handle(params.deep_view(), store@) == Ok::<Seq<char>, Error>(body@),
            Err(e) => spec_handle(params.deep_view(), store@) == Err::<Seq<char>, Error>(e),
        },
{
    let snapshot = store.snapshot();
    match extract(params) {
        Err(e) => Err(e),
        Ok(None) => Ok(serialize_questions(snapshot)),
        Ok(Some(p)) => {
            if p.start > p.end || p.end > snapshot.len() {
                Err(Error::RangeInvalid)
            } else {
                Ok(serialize_range(snapshot, p.start, p.end))
            }
        },
    }
}

/// With no query parameters the handler succeeds and answers the whole
/// collection, serialized in the store's stable order.
pub proof fn lemma_no_params_full_collection(
    params: Seq<(Seq<char>, Seq<char>)>,
    questions: Seq<QuestionView>,
)
    requires
        params.len() == 0,
    ensures
        spec_handle(params, questions) == Ok::<Seq<char>, Error>(json_questions(questions)),
{
}

/// A window with `start < end <= size` succeeds and answers exactly the
/// stable-order slice `[start, end)`, which holds `end - start` records.
pub proof fn lemma_valid_window_slice(
    params: Seq<(Seq<char>, Seq<char>)>,
    questions: Seq<QuestionView>,
    p: Pagination,
)
    requires
        params.len() > 0,
        spec_extract(params) == Ok::<Option<Pagination>, Error>(Some(p)),
        p.start < p.end <= questions.len(),
    ensures
        spec_handle(params, questions) == Ok::<Seq<char>, Error>(
            json_questions(questions.subrange(p.start as int, p.end as int)),
        ),
        questions.subrange(p.start as int, p.end as int).len() == p.end - p.start,
{
}

/// A pagination request with `start` or `end` missing — but not both —
/// is rejected with `MissingParameters`: status 416, with the fixed
/// message that a parameter is missing.
pub proof fn lemma_missing_parameter(
    params: Seq<(Seq<char>, Seq<char>)>,
    questions: Seq<QuestionView>,
)
    requires
        params.len() > 0,
        (lookup(params, "start"@) is None) != (lookup(params, "end"@) is None),
    ensures
        spec_handle(params, questions) == Err::<Seq<char>, Error>(Error::MissingParameters),
        error_status(Error::MissingParameters) == 416,
        error_message(Error::MissingParameters) == "Missing parameter"@,
{
}

/// A `start` or `end` value that does not parse as a non-negative
/// integer is rejected with a `ParseError`, answered 416.
pub proof fn lemma_unparsable_parameter(
    params: Seq<(Seq<char>, Seq<char>)>,
    questions: Seq<QuestionView>,
    sv: Seq<char>,
    ev: Seq<char>,
)
    requires
        params.len() > 0,
        lookup(params, "start"@) == Some(sv),
        lookup(params, "end"@) == Some(ev),
        parse_outcome(sv) is Err || parse_outcome(ev) is Err,
    ensures
        spec_handle(params, questions) matches Err(e) && e is ParseError && error_status(e)
            == 416,
{
}

/// An extracted window that does not fit the collection — `end` past
/// its size, or `start` past `end` — is rejected with `RangeInvalid`,
/// deterministically, rather than sliced out of bounds.  This service
/// answers such a window 416, like the other range troubles.
pub proof fn lemma_unfit_window_rejected(
    params: Seq<(Seq<char>, Seq<char>)>,
    questions: Seq<QuestionView>,
    p: Pagination,
)
    requires
        params.len() > 0,
        spec_extract(params) == Ok::<Option<Pagination>, Error>(Some(p)),
        p.end > questions.len() || p.start > p.end,
    ensures
        spec_handle(params, questions) == Err::<Seq<char>, Error>(Error::RangeInvalid),
        error_status(Error::RangeInvalid) == 416,
{
}

/// Identical requests against an unchanged store are answered
/// identically: the response is a function of the parameters and the
/// record sequence alone.
pub proof fn lemma_identical_requests(
    params1: Seq<(Seq<char>, Seq<char>)>,
    params2: Seq<(Seq<char>, Seq<char>)>,
    questions1: Seq<QuestionView>,
    questions2: Seq<QuestionView>,
)
    requires
        params1 == params2,
        questions1 == questions2,
    ensures
        spec_handle(params1, questions1) == spec_handle(params2, questions2),
{
}

} // verus!
