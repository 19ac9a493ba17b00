use questions::error::{respond, Error, ParseIssue, Rejection};
use questions::handler::handle;
use questions::question::{Question, QuestionId};
use questions::store::{LoadError, Store};

fn q(id: &str, title: &str, content: &str, tags: Option<Vec<&str>>) -> Question {
    let qid = QuestionId::from_str(id).unwrap();
    Question::new(
        qid,
        title.to_string(),
        content.to_string(),
        tags.map(|ts| ts.into_iter().map(|t| t.to_string()).collect()),
    )
}

fn store3() -> Store {
    Store::load(vec![
        q("1", "First", "Alpha content", Some(vec!["faq"])),
        q("2", "Second", "Beta content", None),
        q("3", "Third", "Gamma content", Some(vec![])),
    ])
    .unwrap()
}

fn params(pairs: &[(&str, &str)]) -> Vec<(String, String)> {
    pairs
        .iter()
        .map(|(k, v)| (k.to_string(), v.to_string()))
        .collect()
}

const FULL_BODY: &str = "[{\"id\":\"1\",\"title\":\"First\",\"content\":\"Alpha content\",\"tags\":[\"faq\"]},{\"id\":\"2\",\"title\":\"Second\",\"content\":\"Beta content\",\"tags\":null},{\"id\":\"3\",\"title\":\"Third\",\"content\":\"Gamma content\",\"tags\":[]}]";

#[test]
fn no_params_returns_full_collection() {
    let store = store3();
    let body = handle(&Vec::new(), &store).unwrap();
    assert_eq!(body, FULL_BODY);
}

#[test]
fn valid_window_returns_slice_of_matching_length() {
    let store = store3();
    let body = handle(&params(&[("start", "1"), ("end", "3")]), &store).unwrap();
    assert_eq!(
        body,
        "[{\"id\":\"2\",\"title\":\"Second\",\"content\":\"Beta content\",\"tags\":null},{\"id\":\"3\",\"title\":\"Third\",\"content\":\"Gamma content\",\"tags\":[]}]"
    );
    let parsed: Vec<serde_json::Value> = serde_json::from_str(&body).unwrap();
    assert_eq!(parsed.len(), 2);
}

#[test]
fn empty_window_returns_empty_array() {
    let store = store3();
    let body = handle(&params(&[("start", "1"), ("end", "1")]), &store).unwrap();
    assert_eq!(body, "[]");
}

#[test]
fn window_at_full_size_returns_everything() {
    let store = store3();
    let body = handle(&params(&[("start", "0"), ("end", "3")]), &store).unwrap();
    assert_eq!(body, FULL_BODY);
}

#[test]
fn missing_end_is_rejected_416() {
    let store = store3();
    let err = handle(&params(&[("start", "1")]), &store).unwrap_err();
    assert_eq!(err, Error::MissingParameters);
    let (status, body) = respond(&Rejection::Service(err));
    assert_eq!(status, 416);
    assert_eq!(body, "Missing parameter");
}

#[test]
fn missing_start_is_rejected_416() {
    let store = store3();
    let err = handle(&params(&[("end", "2")]), &store).unwrap_err();
    assert_eq!(err, Error::MissingParameters);
    assert_eq!(respond(&Rejection::Service(err)).0, 416);
}

#[test]
fn unrelated_params_alone_are_rejected() {
    let store = store3();
    let err = handle(&params(&[("order", "desc")]), &store).unwrap_err();
    assert_eq!(err, Error::MissingParameters);
}

#[test]
fn non_numeric_start_is_rejected_416() {
    let store = store3();
    let err = handle(&params(&[("start", "abc"), ("end", "2")]), &store).unwrap_err();
    assert_eq!(err, Error::ParseError(ParseIssue::InvalidDigit));
    let (status, body) = respond(&Rejection::Service(err));
    assert_eq!(status, 416);
    assert_eq!(body, "Cannot parse parameter: invalid digit found in string");
}

#[test]
fn empty_start_value_is_rejected_416() {
    let store = store3();
    let err = handle(&params(&[("start", ""), ("end", "2")]), &store).unwrap_err();
    assert_eq!(err, Error::ParseError(ParseIssue::Empty));
    let (status, body) = respond(&Rejection::Service(err));
    assert_eq!(status, 416);
    assert_eq!(
        body,
        "Cannot parse parameter: cannot parse integer from empty string"
    );
}

#[test]
fn oversized_number_is_rejected_416() {
    let store = store3();
    let err = handle(
        &params(&[("start", "0"), ("end", "99999999999999999999999999")]),
        &store,
    )
    .unwrap_err();
    assert_eq!(err, Error::ParseError(ParseIssue::Overflow));
    let (status, body) = respond(&Rejection::Service(err));
    assert_eq!(status, 416);
    assert_eq!(
        body,
        "Cannot parse parameter: number too large to fit in target type"
    );
}

#[test]
fn end_past_size_is_rejected_not_a_crash() {
    let store = store3();
    let err = handle(&params(&[("start", "0"), ("end", "4")]), &store).unwrap_err();
    assert_eq!(err, Error::RangeInvalid);
    let (status, body) = respond(&Rejection::Service(err));
    assert_eq!(status, 416);
    assert_eq!(body, "Pagination range is out of bounds");
}

#[test]
fn start_past_end_is_rejected_not_a_crash() {
    let store = store3();
    let err = handle(&params(&[("start", "3"), ("end", "1")]), &store).unwrap_err();
    assert_eq!(err, Error::RangeInvalid);
    assert_eq!(respond(&Rejection::Service(err)).0, 416);
}

#[test]
fn repeated_key_later_occurrence_wins() {
    let store = store3();
    let body = handle(
        &params(&[("start", "0"), ("end", "2"), ("start", "1")]),
        &store,
    )
    .unwrap();
    assert_eq!(
        body,
        "[{\"id\":\"2\",\"title\":\"Second\",\"content\":\"Beta content\",\"tags\":null}]"
    );
}

#[test]
fn unmatched_route_answers_404_route_not_found() {
    let (status, body) = respond(&Rejection::Unmatched);
    assert_eq!(status, 404);
    assert_eq!(body, "Route not found");
}

#[test]
fn cors_rejection_answers_403_with_its_message() {
    let msg = "CORS request forbidden".to_string();
    let (status, body) = respond(&Rejection::CorsForbidden(msg.clone()));
    assert_eq!(status, 403);
    assert_eq!(body, msg);
}

#[test]
fn question_not_found_answers_404() {
    let (status, body) = respond(&Rejection::Service(Error::QuestionNotFound));
    assert_eq!(status, 404);
    assert_eq!(body, "Question not found");
}

#[test]
fn identical_requests_get_byte_identical_bodies() {
    let store = store3();
    let ps = params(&[("start", "0"), ("end", "2")]);
    let first = handle(&ps, &store).unwrap();
    let second = handle(&ps, &store).unwrap();
    assert_eq!(first.as_bytes(), second.as_bytes());
}

#[test]
fn many_reads_of_one_store_all_agree() {
    let store = store3();
    let reference = handle(&Vec::new(), &store).unwrap();
    for _ in 0..100 {
        let body = handle(&Vec::new(), &store).unwrap();
        assert_eq!(body.as_bytes(), reference.as_bytes());
    }
}

#[test]
fn question_id_rejects_empty_string() {
    let err = QuestionId::from_str("").unwrap_err();
    assert_eq!(err.message(), "QuestionId cannot be empty");
}

#[test]
fn question_id_keeps_its_string_without_normalization() {
    let id = QuestionId::from_str("  Q-7 ").unwrap();
    assert_eq!(id.as_str(), "  Q-7 ");
    assert_eq!(id, QuestionId::from_str("  Q-7 ").unwrap());
}

#[test]
fn load_rejects_duplicate_ids() {
    let err = Store::load(vec![q("1", "A", "a", None), q("1", "B", "b", None)]).unwrap_err();
    assert_eq!(err, LoadError::DuplicateId);
    assert_eq!(err.message(), "Dataset records share an id");
}

#[test]
fn new_store_is_empty() {
    let store = Store::new();
    assert_eq!(store.len(), 0);
    assert_eq!(handle(&Vec::new(), &store).unwrap(), "[]");
}

#[test]
fn snapshot_keeps_load_order() {
    let store = store3();
    let snap = store.snapshot();
    assert_eq!(snap.len(), 3);
    assert_eq!(snap[0].id.as_str(), "1");
    assert_eq!(snap[1].title, "Second");
    assert_eq!(snap[2].content, "Gamma content");
    let cloned = store.clone();
    assert_eq!(handle(&Vec::new(), &cloned).unwrap(), FULL_BODY);
}
