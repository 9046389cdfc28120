use crypto_broker::json::{extract_price, locate_price, take_member, JsonValue, PriceError, PriceText};

fn key(s: &str) -> Vec<char> {
    s.chars().collect()
}

#[test]
fn price_as_string() {
    match extract_price(r#"{"symbol":"BTCUSDT","price":"68000.50"}"#, "price") {
        Ok(PriceText::Text(t)) => assert_eq!(t, "68000.50"),
        other => panic!("unexpected {:?}", other),
    }
}

#[test]
fn price_as_number_at_nested_path() {
    match extract_price(r#"{"data":{"last":123.5,"bid":1}}"#, "data.last") {
        Ok(PriceText::Number(n)) => assert_eq!(n.as_f64(), Some(123.5)),
        other => panic!("unexpected {:?}", other),
    }
    match extract_price(r#"{"data":{"last":42}}"#, "data.last") {
        Ok(PriceText::Number(n)) => assert_eq!(n.as_f64(), Some(42.0)),
        other => panic!("unexpected {:?}", other),
    }
}

#[test]
fn missing_key_is_path_not_found() {
    assert!(matches!(extract_price(r#"{"data":{}}"#, "data.last"), Err(PriceError::PathNotFound)));
    assert!(matches!(extract_price(r#"{"price":"1"}"#, "Price"), Err(PriceError::PathNotFound)));
    assert!(matches!(extract_price(r#"{"price":"1"}"#, ""), Err(PriceError::PathNotFound)));
    assert!(matches!(extract_price(r#"[1,2]"#, "0"), Err(PriceError::PathNotFound)));
    assert!(matches!(extract_price(r#"{"a":"x"}"#, "a.b"), Err(PriceError::PathNotFound)));
}

#[test]
fn empty_key_found_when_present() {
    assert!(matches!(extract_price(r#"{"":"5"}"#, ""), Ok(PriceText::Text(_))));
    assert!(matches!(extract_price(r#"{"a":{"":{"b":7}}}"#, "a..b"), Ok(PriceText::Number(_))));
}

#[test]
fn other_values_are_not_prices() {
    for doc in [r#"{"p":null}"#, r#"{"p":true}"#, r#"{"p":[1]}"#, r#"{"p":{"q":1}}"#] {
        assert!(matches!(extract_price(doc, "p"), Err(PriceError::NotNumberOrString)));
    }
}

#[test]
fn text_that_is_not_json() {
    match extract_price("not json", "price") {
        Err(PriceError::JsonDecode(reason)) => assert!(!reason.is_empty()),
        other => panic!("unexpected {:?}", other),
    }
    assert!(matches!(extract_price("", "price"), Err(PriceError::JsonDecode(_))));
}

#[test]
fn refusal_reason_is_serde_json_message() {
    for text in ["not json", "{\"price\": }", "", "[1,"] {
        let expected = serde_json::from_str::<serde_json::Value>(text).unwrap_err().to_string();
        match extract_price(text, "price") {
            Err(PriceError::JsonDecode(reason)) => assert_eq!(reason, expected),
            other => panic!("unexpected {:?}", other),
        }
    }
}

#[test]
fn error_messages() {
    assert_eq!(PriceError::PathNotFound.message("data.last"), "price path not found: data.last");
    assert_eq!(
        PriceError::NotNumberOrString.message("p"),
        "price path is not number/string: p"
    );
    assert_eq!(
        PriceError::JsonDecode("bad".to_string()).message("p"),
        "JSON decode failed: bad"
    );
}

#[test]
fn locate_in_built_document() {
    let doc = JsonValue::Object(vec![
        ("x".to_string(), JsonValue::Bool(true)),
        (
            "data".to_string(),
            JsonValue::Object(vec![("last".to_string(), JsonValue::Str("9.5".to_string()))]),
        ),
    ]);
    match locate_price(doc, "data.last") {
        Ok(PriceText::Text(t)) => assert_eq!(t, "9.5"),
        other => panic!("unexpected {:?}", other),
    }
}

#[test]
fn first_member_of_a_name_wins() {
    let doc = JsonValue::Object(vec![
        ("k".to_string(), JsonValue::Str("first".to_string())),
        ("k".to_string(), JsonValue::Str("second".to_string())),
    ]);
    match take_member(doc, &key("k")) {
        Some(JsonValue::Str(s)) => assert_eq!(s, "first"),
        other => panic!("unexpected {:?}", other),
    }
    assert!(take_member(JsonValue::Array(vec![JsonValue::Null]), &key("k")).is_none());
    assert!(take_member(JsonValue::Str("k".to_string()), &key("k")).is_none());
}
