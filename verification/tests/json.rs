use monitor_hub::json::{tree, value_of, JsonNumber, JsonObject, JsonValue};

#[test]
fn text_that_is_json_is_read() {
    assert_eq!(JsonValue::parse("null"), Some(JsonValue::Null));
    assert_eq!(JsonValue::parse(" true "), Some(JsonValue::Bool(true)));
    assert_eq!(JsonValue::parse("\"a\\n\\u00e9\""), Some(JsonValue::text("a\né")));
    assert_eq!(
        JsonValue::parse("[1, -1, 0.5]"),
        Some(JsonValue::Array(vec![
            JsonValue::Number(JsonNumber::PosInt(1)),
            JsonValue::Number(JsonNumber::NegInt(-1)),
            JsonValue::Number(JsonNumber::Double(0.5f64.to_bits())),
        ]))
    );
}

#[test]
fn text_that_is_not_json_is_not_read() {
    for text in ["", "{", "[1,]", "nul", "1 2", "NaN", "'x'"] {
        assert_eq!(JsonValue::parse(text), None);
    }
}

#[test]
fn integers_keep_their_value() {
    assert_eq!(
        JsonValue::parse("18446744073709551615"),
        Some(JsonValue::Number(JsonNumber::PosInt(u64::MAX)))
    );
    assert_eq!(
        JsonValue::parse("-9223372036854775808"),
        Some(JsonValue::Number(JsonNumber::NegInt(i64::MIN)))
    );
    assert_eq!(
        JsonValue::parse("18446744073709551616"),
        Some(JsonValue::Number(JsonNumber::Double(18446744073709551616.0f64.to_bits())))
    );
    assert_eq!(
        JsonValue::parse("-0"),
        Some(JsonValue::Number(JsonNumber::Double((-0.0f64).to_bits())))
    );
}

#[test]
fn numbers_read_as_integers_where_they_fit() {
    assert_eq!(JsonNumber::PosInt(7).as_i64(), Some(7));
    assert_eq!(JsonNumber::PosInt(i64::MAX as u64).as_i64(), Some(i64::MAX));
    assert_eq!(JsonNumber::PosInt(i64::MAX as u64 + 1).as_i64(), None);
    assert_eq!(JsonNumber::NegInt(-7).as_i64(), Some(-7));
    assert_eq!(JsonNumber::Double(7.0f64.to_bits()).as_i64(), None);
    assert_eq!(JsonNumber::from_i64(0), JsonNumber::PosInt(0));
    assert_eq!(JsonNumber::from_i64(-1), JsonNumber::NegInt(-1));
}

#[test]
fn numbers_read_as_the_double_next_to_them() {
    assert_eq!(JsonNumber::PosInt(3).as_double(), 3.0f64.to_bits());
    assert_eq!(JsonNumber::PosInt(u64::MAX).as_double(), (u64::MAX as f64).to_bits());
    assert_eq!(JsonNumber::NegInt(i64::MIN).as_double(), (i64::MIN as f64).to_bits());
    assert_eq!(JsonNumber::NegInt(-3).as_double(), (-3.0f64).to_bits());
    assert_eq!(JsonNumber::Double(0.1f64.to_bits()).as_double(), 0.1f64.to_bits());
}

#[test]
fn the_later_of_two_members_counts() {
    let v = JsonValue::parse(r#"{"a": 1, "b": 2, "a": 3}"#).unwrap();
    assert_eq!(v.get("a").and_then(|v| v.as_i64()), Some(3));
    assert_eq!(v.get("b").and_then(|v| v.as_i64()), Some(2));
    let o = JsonObject {
        members: vec![
            ("a".to_string(), JsonValue::Bool(false)),
            ("a".to_string(), JsonValue::Bool(true)),
        ],
    };
    assert_eq!(o.get("a"), Some(&JsonValue::Bool(true)));
}

#[test]
fn a_member_is_set_in_place() {
    let mut o = JsonObject::new();
    assert_eq!(o.get("a"), None);
    o.insert("a", JsonValue::Null);
    o.insert("b", JsonValue::Bool(true));
    o.insert("a", JsonValue::text("x"));
    assert_eq!(o.members.len(), 2);
    assert_eq!(o.get("a"), Some(&JsonValue::text("x")));
    assert_eq!(o.get("b"), Some(&JsonValue::Bool(true)));
}

#[test]
fn a_value_is_read_as_what_it_is() {
    assert_eq!(JsonValue::text("x").as_str(), Some("x"));
    assert_eq!(JsonValue::text("1").as_i64(), None);
    assert_eq!(JsonValue::Bool(false).as_bool(), Some(false));
    assert_eq!(JsonValue::Null.as_bool(), None);
    assert_eq!(JsonValue::Null.as_str(), None);
    assert_eq!(JsonValue::Null.get("a"), None);
    assert_eq!(JsonValue::Array(vec![]).get("0"), None);
}

#[test]
fn nested_values_are_read_to_the_bottom() {
    let v = JsonValue::parse(r#"{"a": [{"b": [null, {"c": "d"}]}]}"#).unwrap();
    let inner = match v.get("a") {
        Some(JsonValue::Array(items)) => items[0].get("b"),
        _ => panic!("no array"),
    };
    match inner {
        Some(JsonValue::Array(items)) => {
            assert_eq!(items[0], JsonValue::Null);
            assert_eq!(items[1].get("c"), Some(&JsonValue::text("d")));
        }
        _ => panic!("no array"),
    }
}

#[test]
fn a_parsed_value_is_kept_as_a_tree() {
    let mut members = serde_json::Map::new();
    members.insert("a".to_string(), serde_json::Value::from(-2));
    members.insert("b".to_string(), serde_json::Value::from(vec![0.5, 1.0]));
    let v = tree(&serde_json::Value::Object(members));
    assert_eq!(v.get("a"), Some(&JsonValue::Number(JsonNumber::NegInt(-2))));
    assert_eq!(
        v.get("b"),
        Some(&JsonValue::Array(vec![
            JsonValue::Number(JsonNumber::Double(0.5f64.to_bits())),
            JsonValue::Number(JsonNumber::Double(1.0f64.to_bits())),
        ]))
    );
}

#[test]
fn a_value_without_doubles_is_handed_over() {
    let text = r#"{"a": [null, true, -3, 18446744073709551615], "b": {"c": "é"}, "a2": []}"#;
    let expected: serde_json::Value = serde_json::from_str(text).unwrap();
    let v = JsonValue::parse(text).unwrap();
    assert_eq!(value_of(&v), Some(expected.clone()));
    assert_eq!(value_of(&tree(&expected)), Some(expected));
}

#[test]
fn a_value_with_a_double_is_not_handed_over() {
    for text in ["0.5", "[1, 2.0]", r#"{"a": {"b": [1.5]}}"#] {
        assert_eq!(value_of(&JsonValue::parse(text).unwrap()), None);
    }
    assert_eq!(value_of(&JsonValue::Number(JsonNumber::NegInt(5))), None);
}

#[test]
fn a_member_that_does_not_count_is_not_handed_over() {
    let o = JsonObject {
        members: vec![
            ("a".to_string(), JsonValue::Number(JsonNumber::Double(0.5f64.to_bits()))),
            ("b".to_string(), JsonValue::Null),
            ("a".to_string(), JsonValue::Bool(true)),
        ],
    };
    let expected: serde_json::Value = serde_json::from_str(r#"{"a": true, "b": null}"#).unwrap();
    assert_eq!(value_of(&JsonValue::Object(o)), Some(expected));
}
