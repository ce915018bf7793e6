use aiflow::util::parse_incomplete_json;

#[test]
fn parses_valid_json() {
    let input = r#"{"key": "value", "num": 42}"#;
    let result = parse_incomplete_json(input);
    let text = result.expect("valid JSON should parse");
    let value: serde_json::Value = serde_json::from_str(&text).expect("round-trip");
    assert_eq!(
        value.get("key"),
        Some(&serde_json::Value::String(String::from("value")))
    );
    assert_eq!(value.get("num"), Some(&serde_json::Value::from(42_i64)));
}

#[test]
fn repairs_and_parses_incomplete_json() {
    let input = r#"{"key": "value", "num": 42"#; // missing closing brace
    let result = parse_incomplete_json(input);
    let text = result.expect("repairable JSON should parse");
    let value: serde_json::Value = serde_json::from_str(&text).expect("round-trip");
    assert_eq!(
        value.get("key"),
        Some(&serde_json::Value::String(String::from("value")))
    );
    assert_eq!(value.get("num"), Some(&serde_json::Value::from(42_i64)));
}

#[test]
fn fails_on_unrepairable_json() {
    let input = r#"{\"key": [1, 2]"#; // Completely invalid JSON
    let result = parse_incomplete_json(input);
    assert!(result.is_err(), "Unrepairable JSON should return an error");
}

#[test]
fn repair_completes_truncated_argument_stream() {
    // A deliberately truncated argument stream becomes a valid structured
    // value as soon as a repairable prefix is present.
    let fragments = ["{\"a\"", "{\"a\":1", "{\"a\":1,\"b\":2}"];
    let mut seen_valid = false;
    for fragment in fragments {
        if let Ok(text) = parse_incomplete_json(fragment) {
            let value: serde_json::Value = serde_json::from_str(&text).expect("valid");
            assert!(value.is_object());
            seen_valid = true;
        }
    }
    assert!(seen_valid);
    let repaired = parse_incomplete_json("{\"a\":1").expect("repairable");
    let value: serde_json::Value = serde_json::from_str(&repaired).expect("valid");
    assert_eq!(value.get("a"), Some(&serde_json::Value::from(1_i64)));
}
