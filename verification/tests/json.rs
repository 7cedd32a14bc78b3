use invidious::json::{parse_json, parse_json_bytes, Json, JsonNumber, EXACT_LIMIT};

fn number(text: &str) -> JsonNumber {
    match parse_json(text) {
        Some(Json::Number(n)) => n,
        other => panic!("{:?}", other),
    }
}

#[test]
fn numbers_are_read_in_both_ways() {
    let read = |unsigned, truncated| JsonNumber { unsigned, truncated };
    assert_eq!(number("12"), read(Some(12), Some(12)));
    assert_eq!(number("12.9"), read(None, Some(12)));
    assert_eq!(number("-3"), read(None, Some(0)));
    assert_eq!(number("-3.5"), read(None, Some(0)));
    assert_eq!(number("1e30"), read(None, Some(u64::MAX)));
    assert_eq!(number("9007199254740992"), read(Some(EXACT_LIMIT), Some(EXACT_LIMIT)));
    assert_eq!(number("9007199254740993"), read(Some(EXACT_LIMIT + 1), Some(EXACT_LIMIT)));
    assert_eq!(number("18446744073709551615"), read(Some(u64::MAX), Some(u64::MAX)));
}

#[test]
fn documents_are_read_whole() {
    let expected = Json::Object(vec![
        ("a".to_owned(), Json::List(vec![Json::Null, Json::Bool(true)])),
        (
            "b".to_owned(),
            Json::Object(vec![("c".to_owned(), Json::Text("d".to_owned()))]),
        ),
    ]);
    let text = r#" {"b": {"c": "d"}, "a": [null, true]} "#;
    assert_eq!(parse_json(text), Some(expected));
    assert_eq!(parse_json_bytes(text.as_bytes()), parse_json(text));
}

#[test]
fn what_is_no_document_is_not_read() {
    for text in ["", " ", "{", "[1,]", "nul", "\"a", "1 2", "{'a': 1}"] {
        assert_eq!(parse_json(text), None, "{:?}", text);
        assert_eq!(parse_json_bytes(text.as_bytes()), None, "{:?}", text);
    }
    assert_eq!(parse_json_bytes(b"\"\xff\""), None);
}

#[test]
fn white_space_after_a_document_does_not_count() {
    for text in ["", "{", "nul", "7", "\"a \"", "[1, \"b\"]", "{\"k\": null}", "1 2"] {
        for white in [" ", "\t", "\n", "\r", " \r\n\t"] {
            assert_eq!(parse_json(&format!("{text}{white}")), parse_json(text));
        }
    }
    assert_eq!(parse_json("7\r"), parse_json("7"));
    assert!(parse_json("7\r").is_some());
    assert_eq!(parse_json("7\u{b}"), None);
    assert_eq!(parse_json("7\u{a0}"), None);
}

#[test]
fn an_object_has_no_key_twice() {
    let json = parse_json(r#"{"k": 1, "k": 2}"#).unwrap();
    assert_eq!(json.unsigned_field("k"), Some(2));
    match json {
        Json::Object(fields) => assert_eq!(fields.len(), 1),
        other => panic!("{:?}", other),
    }
}

#[test]
fn fields_are_found_by_their_keys() {
    let json = parse_json(r#"{"t": "x", "n": 5, "f": 1.5, "l": [1], "z": null}"#).unwrap();
    assert_eq!(json.text_field("t"), Some("x"));
    assert_eq!(json.text_field("n"), None);
    assert_eq!(json.text_field("missing"), None);
    assert_eq!(json.unsigned_field("n"), Some(5));
    assert_eq!(json.unsigned_field("f"), None);
    assert_eq!(json.unsigned_field("missing"), None);
    assert_eq!(json.get("f").and_then(|f| f.as_truncated()), Some(1));
    assert_eq!(json.get("l").and_then(|l| l.as_array()).map(|l| l.len()), Some(1));
    assert_eq!(json.get("z"), Some(&Json::Null));
    assert!(json.as_array().is_none());
    assert!(json.as_str().is_none());
    assert!(json.as_u64().is_none());
    assert!(json.as_truncated().is_none());
    assert!(Json::Null.get("t").is_none());
}

#[test]
fn the_first_of_two_fields_is_found() {
    let json = Json::Object(vec![
        ("k".to_owned(), Json::Bool(true)),
        ("k".to_owned(), Json::Bool(false)),
    ]);
    assert_eq!(json.get("k"), Some(&Json::Bool(true)));
}
