use questions::handler::handle;
use questions::pagination::parse_usize;
use questions::question::{Question, QuestionId};
use questions::store::Store;

fn q(id: &str, title: &str, content: &str, tags: Option<Vec<&str>>) -> Question {
    let qid = QuestionId::from_str(id).unwrap();
    Question::new(
        qid,
        title.to_string(),
        content.to_string(),
        tags.map(|ts| ts.into_iter().map(|t| t.to_string()).collect()),
    )
}

fn value_of(id: &str, title: &str, content: &str, tags: Option<Vec<&str>>) -> serde_json::Value {
    let mut obj = serde_json::Map::new();
    obj.insert(
        "id".to_string(),
        serde_json::Value::String(id.to_string()),
    );
    obj.insert(
        "title".to_string(),
        serde_json::Value::String(title.to_string()),
    );
    obj.insert(
        "content".to_string(),
        serde_json::Value::String(content.to_string()),
    );
    let tags_value = match tags {
        None => serde_json::Value::Null,
        Some(ts) => serde_json::Value::Array(
            ts.into_iter()
                .map(|t| serde_json::Value::String(t.to_string()))
                .collect(),
        ),
    };
    obj.insert("tags".to_string(), tags_value);
    serde_json::Value::Object(obj)
}

fn body_of(records: Vec<(&str, &str, &str, Option<Vec<&str>>)>) -> String {
    let store = Store::load(
        records
            .into_iter()
            .map(|(id, title, content, tags)| q(id, title, content, tags))
            .collect(),
    )
    .unwrap();
    handle(&Vec::new(), &store).unwrap()
}

fn serde_value_of(records: Vec<(&str, &str, &str, Option<Vec<&str>>)>) -> serde_json::Value {
    serde_json::Value::Array(
        records
            .into_iter()
            .map(|(id, title, content, tags)| value_of(id, title, content, tags))
            .collect(),
    )
}

#[test]
fn plain_records_agree_with_serde_json() {
    let records = vec![
        ("1", "First", "Alpha", Some(vec!["faq", "intro"])),
        ("2", "Second", "Beta", None),
        ("3", "Third", "Gamma", Some(vec![])),
    ];
    let body = body_of(records.clone());
    let parsed: serde_json::Value = serde_json::from_str(&body).unwrap();
    assert_eq!(parsed, serde_value_of(records));
}

#[test]
fn quotes_and_backslashes_agree_with_serde_json() {
    let records = vec![(
        "q\"1\"",
        "A \"quoted\" title",
        "back\\slash and \\\"mix\\\"",
        Some(vec!["a\"b", "c\\d"]),
    )];
    let body = body_of(records.clone());
    let parsed: serde_json::Value = serde_json::from_str(&body).unwrap();
    assert_eq!(parsed, serde_value_of(records));
}

#[test]
fn control_characters_agree_with_serde_json() {
    let records = vec![(
        "ctl",
        "tab\there newline\nthere",
        "cr\rbs\u{8}ff\u{c}nul\u{0}esc\u{1b}unit\u{1f}",
        None,
    )];
    let body = body_of(records.clone());
    let parsed: serde_json::Value = serde_json::from_str(&body).unwrap();
    assert_eq!(parsed, serde_value_of(records));
}

#[test]
fn control_characters_use_short_and_unicode_escapes() {
    let body = body_of(vec![(
        "ctl",
        "tab\there",
        "cr\rbs\u{8}ff\u{c}nul\u{0}esc\u{1b}unit\u{1f}",
        None,
    )]);
    assert_eq!(
        body,
        "[{\"id\":\"ctl\",\"title\":\"tab\\there\",\"content\":\"cr\\rbs\\bff\\fnul\\u0000esc\\u001bunit\\u001f\",\"tags\":null}]"
    );
}

#[test]
fn non_ascii_text_agrees_with_serde_json() {
    let records = vec![(
        "café",
        "Grüße aus München",
        "日本語のテキスト — emoji ☕",
        Some(vec!["naïve", "Ωmega"]),
    )];
    let body = body_of(records.clone());
    let parsed: serde_json::Value = serde_json::from_str(&body).unwrap();
    assert_eq!(parsed, serde_value_of(records));
    assert!(body.contains("Grüße aus München"));
}

#[test]
fn absent_tags_serialize_as_null_not_empty_array() {
    let absent = body_of(vec![("1", "T", "C", None)]);
    let empty = body_of(vec![("1", "T", "C", Some(vec![]))]);
    assert!(absent.contains("\"tags\":null"));
    assert!(empty.contains("\"tags\":[]"));
    assert_ne!(absent, empty);
}

#[test]
fn parse_accepts_plain_digits() {
    assert_eq!(parse_usize("0"), Ok(0));
    assert_eq!(parse_usize("42"), Ok(42));
    assert_eq!(parse_usize("007"), Ok(7));
}

#[test]
fn parse_accepts_a_leading_plus() {
    assert_eq!(parse_usize("+13"), Ok(13));
}

#[test]
fn parse_agrees_with_std_on_samples() {
    let samples = [
        "", "0", "7", "42", "007", "+", "+0", "+42", "-1", " 5", "5 ", "4.2", "abc", "1e3",
        "18446744073709551615", "18446744073709551616", "99999999999999999999999999x",
    ];
    for s in samples {
        assert_eq!(
            parse_usize(s).ok(),
            s.parse::<usize>().ok(),
            "disagreement on {:?}",
            s
        );
    }
}

#[test]
fn parse_reports_the_largest_value_exactly() {
    assert_eq!(parse_usize("18446744073709551615"), Ok(usize::MAX));
}
