use apitester::json::{copy_json, json_equal, member_position, number_equal, JsonFloat, JsonNumber, JsonValue};
use apitester::http::find_header;
use apitester::span::Span;
use apitester::text::{
    chars_of, decimal_string, digit_to_char, join_strings, str_contains, string_of_chars, text_eq,
};

fn float(x: f64) -> JsonNumber {
    JsonNumber::Float(JsonFloat::from_number(serde_json::Number::from_f64(x).unwrap()).unwrap())
}

fn obj(members: Vec<(&str, JsonValue)>) -> JsonValue {
    JsonValue::Object(members.into_iter().map(|(k, v)| (k.to_string(), v)).collect())
}

fn num(n: u64) -> JsonValue {
    JsonValue::Number(JsonNumber::PosInt(n))
}

#[test]
fn span_conversions() {
    assert_eq!(Span::from_millis(1_500), Span { secs: 1, nanos: 500_000_000 });
    assert_eq!(Span::from_micros(2_000_001), Span { secs: 2, nanos: 1_000 });
    assert_eq!(Span::from_secs(7), Span { secs: 7, nanos: 0 });
    assert_eq!(Span::zero(), Span { secs: 0, nanos: 0 });
    assert_eq!(Span::from_millis(1_500).as_millis(), 1_500);
    assert_eq!(Span { secs: 1, nanos: 999_999 }.as_millis(), 1_000);
    assert_eq!(Span { secs: 3, nanos: 1_999 }.as_micros(), 3_000_001);
    assert!(Span::from_millis(999).lt(&Span::from_secs(1)));
    assert!(!Span::from_secs(1).lt(&Span::from_millis(1_000)));
}

#[test]
fn decimal_text() {
    assert_eq!(decimal_string(0), "0");
    assert_eq!(decimal_string(42), "42");
    assert_eq!(decimal_string(u128::MAX), u128::MAX.to_string());
    assert_eq!(digit_to_char(7), '7');
}

#[test]
fn text_helpers() {
    assert!(str_contains("hello world", "lo w"));
    assert!(str_contains("abc", ""));
    assert!(!str_contains("abc", "abcd"));
    assert!(!str_contains("abc", "ac"));
    assert_eq!(apitester::text::concat("ab", "cd"), "abcd");
    assert_eq!(join_strings(&vec!["a".to_string(), "b".to_string(), "c".to_string()], ", "), "a, b, c");
    assert_eq!(join_strings(&vec![], ", "), "");
    assert!(text_eq("tap", "tap"));
    assert!(!text_eq("tap", "TAP"));
    let cs = chars_of("héllo");
    assert_eq!(cs, vec!['h', 'é', 'l', 'l', 'o']);
    assert_eq!(string_of_chars(&cs), "héllo");
}

#[test]
fn header_lookup_takes_last_pair() {
    let hs = vec![
        ("a".to_string(), "1".to_string()),
        ("b".to_string(), "2".to_string()),
        ("a".to_string(), "3".to_string()),
    ];
    assert_eq!(find_header(&hs, &"a".to_string()).map(|s| s.as_str()), Some("3"));
    assert_eq!(find_header(&hs, &"b".to_string()).map(|s| s.as_str()), Some("2"));
    assert_eq!(find_header(&hs, &"c".to_string()), None);
}

#[test]
fn numbers_compare_as_serde_json_does() {
    assert!(number_equal(&JsonNumber::PosInt(5), &JsonNumber::NegInt(5)));
    assert!(!number_equal(&JsonNumber::PosInt(5), &JsonNumber::PosInt(6)));
    assert!(!number_equal(&JsonNumber::PosInt(1), &float(1.0)));
    assert!(number_equal(&float(0.5), &float(0.5)));
    assert!(number_equal(&float(0.0), &float(-0.0)));
    assert!(!number_equal(&float(0.1), &float(0.2)));
}

#[test]
fn objects_compare_as_maps() {
    let a = obj(vec![("x", num(1)), ("y", num(2))]);
    let b = obj(vec![("y", num(2)), ("x", num(1))]);
    let c = obj(vec![("x", num(1)), ("y", num(3))]);
    let d = obj(vec![("x", num(9)), ("y", num(2)), ("x", num(1))]);
    assert!(json_equal(&a, &b));
    assert!(json_equal(&b, &a));
    assert!(!json_equal(&a, &c));
    assert!(!json_equal(&c, &a));
    assert!(json_equal(&a, &d));
    assert!(json_equal(&d, &a));
    assert!(!json_equal(&a, &obj(vec![("x", num(1))])));
    assert!(json_equal(&JsonValue::Null, &JsonValue::Null));
    assert!(!json_equal(&JsonValue::Array(vec![num(1)]), &JsonValue::Array(vec![num(1), num(1)])));
}

#[test]
fn every_value_equals_itself_and_its_copy() {
    let v = JsonValue::Array(vec![
        obj(vec![("k", JsonValue::String("v".into())), ("f", JsonValue::Number(float(2.5)))]),
        JsonValue::Bool(true),
        JsonValue::Null,
        JsonValue::Number(JsonNumber::NegInt(-3)),
    ]);
    assert!(json_equal(&v, &v));
    let w = copy_json(&v);
    assert!(json_equal(&v, &w));
    assert_eq!(format!("{:?}", v), format!("{:?}", w));
}

#[test]
fn member_lookup() {
    let d = obj(vec![("x", num(9)), ("y", num(2)), ("x", num(1))]);
    match &d {
        JsonValue::Object(es) => {
            assert_eq!(member_position(es, &"x".to_string()), Some(2));
            assert_eq!(member_position(es, &"y".to_string()), Some(1));
            assert_eq!(member_position(es, &"z".to_string()), None);
        }
        _ => unreachable!(),
    }
    assert!(matches!(d.get(&"x".to_string()), Some(JsonValue::Number(JsonNumber::PosInt(1)))));
    assert!(d.get(&"z".to_string()).is_none());
    assert!(num(1).get(&"x".to_string()).is_none());
}

#[test]
fn float_keeps_serde_json_text() {
    let f = JsonFloat::from_number(serde_json::Number::from_f64(0.1).unwrap()).unwrap();
    assert_eq!(f.text(), "0.1");
    assert_eq!(f.number().as_f64(), Some(0.1));
    let big = JsonFloat::from_number(serde_json::Number::from_f64(1e16).unwrap()).unwrap();
    assert_eq!(big.text(), &serde_json::Number::from_f64(1e16).unwrap().to_string());
    assert!(JsonFloat::from_number(serde_json::Number::from(3u64)).is_none());
}
