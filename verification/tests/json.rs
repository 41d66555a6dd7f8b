use serde_json::{Number, Value};
use slack_deputy::json::{
    json_of_value, parse, parse_or_null, to_text, value_of_json, Fraction, Json,
};

fn value(text: &str) -> Value {
    serde_json::from_str(text).unwrap()
}

fn round_trip(text: &str) {
    let read = parse(text).ok().unwrap();
    assert_eq!(value_of_json(&read), value(text));
    assert_eq!(value(&to_text(&read)), value(text));
    assert_eq!(value_of_json(&json_of_value(value(text))), value(text));
}

#[test]
fn json_is_read_and_written_back() {
    round_trip("null");
    round_trip("true");
    round_trip("false");
    round_trip("0");
    round_trip("-9223372036854775808");
    round_trip("9223372036854775807");
    round_trip("18446744073709551615");
    round_trip("1.5");
    round_trip("-2e300");
    round_trip("18446744073709551616");
    round_trip("\"\\u6295\\u7a3f \\\"x\\\" \\n\"");
    round_trip("[]");
    round_trip("[1, [2, {\"a\": null}], \"b\"]");
    round_trip("{}");
    round_trip("{\"b\": {\"c\": [true]}, \"a\": -1, \"\": 2.25}");
}

#[test]
fn numbers_keep_their_kind() {
    assert!(matches!(parse("7"), Ok(Json::Int(7))));
    assert!(matches!(parse("-7"), Ok(Json::Int(-7))));
    assert!(matches!(parse("9223372036854775807"), Ok(Json::Int(i64::MAX))));
    assert!(matches!(parse("9223372036854775808"), Ok(Json::Uint(9223372036854775808))));
    assert!(matches!(parse("7.0"), Ok(Json::Float(_))));
    assert_eq!(to_text(&Json::Uint(3)), "3");
    let half = Fraction::new(Number::from_f64(0.5).unwrap()).unwrap();
    assert_eq!(half.number(), Number::from_f64(0.5).unwrap());
    assert_eq!(to_text(&Json::Float(half.copy())), "0.5");
    assert_eq!(to_text(&Json::Float(half)), "0.5");
    // An integer beyond `u64` is no integer to the parser.
    assert!(matches!(parse("18446744073709551616"), Ok(Json::Float(_))));
}

#[test]
fn an_integer_is_no_fraction() {
    assert!(Fraction::new(Number::from(5u64)).is_none());
    assert!(Fraction::new(Number::from(-5i64)).is_none());
    assert!(Fraction::new(Number::from(u64::MAX)).is_none());
    assert!(Fraction::new(Number::from_f64(5.0).unwrap()).is_some());
    assert!(matches!(json_of_value(Value::from(5u64)), Json::Int(5)));
}

#[test]
fn the_last_of_equal_keys_counts() {
    let j = parse("{\"a\": 1, \"a\": 2}").ok().unwrap();
    assert!(matches!(j.get("a"), Some(Json::Int(2))));
}

#[test]
fn bad_json_is_an_error_in_the_words_of_the_parser() {
    let e = parse("{oops").err().unwrap();
    assert_eq!(e, serde_json::from_str::<Value>("{oops").err().unwrap().to_string());
    assert!(parse("").is_err());
    assert!(parse("1 2").is_err());
    assert!(parse_or_null("{oops").is_null());
    assert!(parse_or_null("").is_null());
    assert!(!parse_or_null("[]").is_null());
}

#[test]
fn nesting_beyond_the_parser_limit_is_an_error() {
    let deep = |n: usize| format!("{}{}", "[".repeat(n), "]".repeat(n));
    assert!(parse(&deep(127)).is_ok());
    assert!(parse(&deep(128)).is_err());
}

#[test]
fn fields_are_found_by_key() {
    let j = parse("{\"s\": \"t\", \"n\": 3, \"a\": [1, 2]}").ok().unwrap();
    assert_eq!(j.text_at("s"), Some("t"));
    assert_eq!(j.text_at("n"), None);
    assert_eq!(j.text_at("x"), None);
    assert!(j.get("x").is_none());
    assert_eq!(j.get("n").unwrap().as_i64(), Some(3));
    assert_eq!(j.get("s").unwrap().as_i64(), None);
    assert_eq!(j.get("a").unwrap().as_array().unwrap().len(), 2);
    assert!(j.as_array().is_none());
    assert!(j.as_str().is_none());
    assert!(Json::text("q").get("s").is_none());
    assert_eq!(Json::text("q").as_str(), Some("q"));
    assert_eq!(Json::Uint(5).as_i64(), Some(5));
    assert_eq!(Json::Uint(u64::MAX).as_i64(), None);
}

#[test]
fn objects_are_built_field_by_field() {
    let j = Json::object()
        .with("a", Json::Int(1))
        .with("b", Json::opt(&None))
        .with("c", Json::opt(&Some("x".to_string())))
        .with("d", Json::opt_int(None))
        .with("e", Json::opt_int(Some(4)))
        .with("f", Json::text_array(&vec!["p".to_string(), "q".to_string()]))
        .with("a", Json::Int(2));
    let want = value("{\"a\":2,\"b\":null,\"c\":\"x\",\"d\":null,\"e\":4,\"f\":[\"p\",\"q\"]}");
    assert_eq!(value_of_json(&j), want);
    assert_eq!(value_of_json(&j.copy()), want);
    assert_eq!(value(&to_text(&j)), want);
}
