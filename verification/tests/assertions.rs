use apitester::assertions::{check_all, check_parsed_json};
use apitester::config::ValidatedAssert;
use apitester::http::ResponseData;
use apitester::json::{JsonNumber, JsonValue};
use apitester::span::Span;

fn no_assertions() -> ValidatedAssert {
    ValidatedAssert {
        status: None,
        headers: None,
        body_contains: None,
        body_json: None,
        latency_lt: None,
    }
}

fn response(status: u16, headers: Vec<(String, String)>, body: &str, latency_ms: u64) -> ResponseData {
    ResponseData {
        status,
        headers,
        body: body.into(),
        latency: Span::from_millis(latency_ms),
    }
}

fn json_header() -> Vec<(String, String)> {
    vec![("content-type".to_string(), "application/json".to_string())]
}

fn status_ok_count_42() -> JsonValue {
    JsonValue::Object(vec![
        ("status".to_string(), JsonValue::String("ok".to_string())),
        ("count".to_string(), JsonValue::Number(JsonNumber::PosInt(42))),
    ])
}

#[test]
fn status_check_passes() {
    let assert = ValidatedAssert { status: Some(200), ..no_assertions() };
    let response_data = response(200, vec![], "Ok", 100);
    let results = check_all(&assert, &response_data);
    assert!(results[0].passed);
}

#[test]
fn status_check_failed() {
    let assert = ValidatedAssert { status: Some(200), ..no_assertions() };
    let response_data = response(404, vec![], "Ok", 100);
    let results = check_all(&assert, &response_data);
    assert!(!results[0].passed);
}

#[test]
fn body_contains_passes() {
    let assert = ValidatedAssert {
        status: Some(200),
        body_contains: Some("Ok".into()),
        ..no_assertions()
    };
    let response_data = response(200, vec![], "Ok", 100);
    let results = check_all(&assert, &response_data);
    assert!(results[0].passed);
}

#[test]
fn body_contains_failed() {
    let assert = ValidatedAssert { body_contains: Some("Ok".into()), ..no_assertions() };
    let response_data = response(502, vec![], "Error", 100);
    let results = check_all(&assert, &response_data);
    assert!(!results[0].passed);
}

#[test]
fn latency_lt_passes() {
    let assert = ValidatedAssert { latency_lt: Some(Span::from_millis(100)), ..no_assertions() };
    let response_data = response(200, vec![], "Ok", 50);
    let results = check_all(&assert, &response_data);
    assert!(results[0].passed);
}

#[test]
fn latency_lt_fails() {
    let assert = ValidatedAssert { latency_lt: Some(Span::from_millis(100)), ..no_assertions() };
    let response_data = response(200, vec![], "Ok", 500);
    let results = check_all(&assert, &response_data);
    assert!(!results[0].passed);
}

#[test]
fn header_check_passes() {
    let assert = ValidatedAssert { headers: Some(json_header()), ..no_assertions() };
    let response_data = response(200, json_header(), "Ok", 50);
    let results = check_all(&assert, &response_data);
    assert!(results[0].passed);
}

#[test]
fn header_check_failed() {
    let assert = ValidatedAssert { headers: Some(json_header()), ..no_assertions() };
    let response_data = response(
        200,
        vec![("content-type".to_string(), "application/xml".to_string())],
        "Ok",
        50,
    );
    let results = check_all(&assert, &response_data);
    assert!(!results[0].passed);
}

#[test]
fn header_check_missing_key() {
    let assert = ValidatedAssert { headers: Some(json_header()), ..no_assertions() };
    let response_data = response(200, vec![], "Ok", 50);
    let results = check_all(&assert, &response_data);
    assert!(!results[0].passed);
}

#[test]
fn body_json_passes() {
    let assert = ValidatedAssert { body_json: Some(status_ok_count_42()), ..no_assertions() };
    let response_data = response(200, json_header(), r#"{"status":"ok","count":42}"#, 50);
    let results = check_all(&assert, &response_data);
    assert!(results[0].passed);
}

#[test]
fn body_json_passes_subset() {
    let assert = ValidatedAssert { body_json: Some(status_ok_count_42()), ..no_assertions() };
    let response_data = response(
        200,
        json_header(),
        r#"{"status":"ok","count":42, "response":"hello","proto":"mtls"}"#,
        50,
    );
    let results = check_all(&assert, &response_data);
    assert!(results[0].passed);
}

#[test]
fn body_json_fails() {
    let assert = ValidatedAssert { body_json: Some(status_ok_count_42()), ..no_assertions() };
    let response_data = response(200, json_header(), r#"{"status":"not ok","count":0}"#, 50);
    let results = check_all(&assert, &response_data);
    assert!(!results[0].passed);
}

// --- further cases ---

#[test]
fn checks_come_in_order_with_exact_messages() {
    let assert = ValidatedAssert {
        status: Some(200),
        headers: Some(vec![
            ("content-type".to_string(), "application/json".to_string()),
            ("x-id".to_string(), "7".to_string()),
        ]),
        body_contains: Some("ok".into()),
        body_json: Some(status_ok_count_42()),
        latency_lt: Some(Span::from_millis(100)),
    };
    let response_data = response(404, json_header(), r#"{"status":"ok","count":41}"#, 250);
    let results = check_all(&assert, &response_data);
    let rules: Vec<&str> = results.iter().map(|r| r.rule_name.as_str()).collect();
    assert_eq!(
        rules,
        vec!["Status", "Body Contains", "Latency", "Header 'content-type'", "Header 'x-id'", "Body JSON"]
    );
    assert_eq!(results[0].message, "expected 200, got 404");
    assert!(!results[0].passed);
    assert_eq!(results[1].message, "Expected body to contain 'ok'");
    assert!(results[1].passed);
    assert_eq!(results[2].message, "Expected latency to be less than 100ms but was 250ms");
    assert!(!results[2].passed);
    assert_eq!(results[3].message, "Expected header 'content-type' to be 'application/json'");
    assert!(results[3].passed);
    assert!(!results[4].passed);
    assert_eq!(results[5].message, "keys did not match: count");
    assert!(!results[5].passed);
}

#[test]
fn no_assertions_no_checks() {
    let results = check_all(&no_assertions(), &response(200, vec![], "", 1));
    assert!(results.is_empty());
}

#[test]
fn body_json_unparsable_body() {
    let assert = ValidatedAssert { body_json: Some(status_ok_count_42()), ..no_assertions() };
    let results = check_all(&assert, &response(200, vec![], "not json", 1));
    assert!(!results[0].passed);
    assert_eq!(results[0].message, "Failed to parse body as JSON");
}

#[test]
fn body_json_non_object_compares_whole_value() {
    let expected = JsonValue::Array(vec![
        JsonValue::Number(JsonNumber::PosInt(1)),
        JsonValue::Bool(true),
    ]);
    let assert = ValidatedAssert { body_json: Some(expected), ..no_assertions() };
    let pass = check_all(&assert, &response(200, vec![], "[1, true]", 1));
    assert!(pass[0].passed);
    assert_eq!(pass[0].message, "body matched");
    let fail = check_all(&assert, &response(200, vec![], "[1,false]", 1));
    assert!(!fail[0].passed);
    assert_eq!(fail[0].message, "expected [1,true], got [1,false]");
}

#[test]
fn body_json_all_keys_matched_message() {
    let assert = ValidatedAssert { body_json: Some(status_ok_count_42()), ..no_assertions() };
    let results = check_all(&assert, &response(200, vec![], r#"{"count":42,"status":"ok"}"#, 1));
    assert_eq!(results[0].message, "all expected keys matched");
}

#[test]
fn body_json_nested_objects_compare_as_maps() {
    let expected = JsonValue::Object(vec![(
        "inner".to_string(),
        JsonValue::Object(vec![
            ("b".to_string(), JsonValue::Null),
            ("a".to_string(), JsonValue::Number(JsonNumber::NegInt(-3))),
        ]),
    )]);
    let assert = ValidatedAssert { body_json: Some(expected), ..no_assertions() };
    let pass = check_all(&assert, &response(200, vec![], r#"{"inner":{"a":-3,"b":null}}"#, 1));
    assert!(pass[0].passed);
    let fail = check_all(&assert, &response(200, vec![], r#"{"inner":{"a":-3,"b":null,"c":1}}"#, 1));
    assert!(!fail[0].passed);
    assert_eq!(fail[0].message, "keys did not match: inner");
}

#[test]
fn body_json_floats_compare_by_value() {
    let expected = JsonValue::Object(vec![(
        "x".to_string(),
        JsonValue::Number(JsonNumber::Float(
            apitester::json::JsonFloat::from_number(serde_json::Number::from_f64(1.5).unwrap()).unwrap(),
        )),
    )]);
    let assert = ValidatedAssert { body_json: Some(expected), ..no_assertions() };
    assert!(check_all(&assert, &response(200, vec![], r#"{"x":1.50}"#, 1))[0].passed);
    assert!(!check_all(&assert, &response(200, vec![], r#"{"x":1.25}"#, 1))[0].passed);
    assert!(!check_all(&assert, &response(200, vec![], r#"{"x":2}"#, 1))[0].passed);
}

#[test]
fn body_contains_empty_text_always_passes() {
    let assert = ValidatedAssert { body_contains: Some(String::new()), ..no_assertions() };
    assert!(check_all(&assert, &response(200, vec![], "", 1))[0].passed);
}

#[test]
fn latency_equal_to_bound_fails() {
    let assert = ValidatedAssert { latency_lt: Some(Span::from_millis(100)), ..no_assertions() };
    assert!(!check_all(&assert, &response(200, vec![], "", 100))[0].passed);
}

#[test]
fn header_last_pair_counts() {
    let assert = ValidatedAssert {
        headers: Some(vec![("a".to_string(), "2".to_string())]),
        ..no_assertions()
    };
    let hs = vec![("a".to_string(), "1".to_string()), ("a".to_string(), "2".to_string())];
    assert!(check_all(&assert, &response(200, hs, "", 1))[0].passed);
}

#[test]
fn body_json_failed_keys_listed_in_ascending_order() {
    let expected = JsonValue::Object(vec![
        ("zeta".to_string(), JsonValue::Bool(true)),
        ("beta".to_string(), JsonValue::Null),
        ("Alpha".to_string(), JsonValue::Number(JsonNumber::PosInt(1))),
        ("mid".to_string(), JsonValue::Number(JsonNumber::PosInt(5))),
    ]);
    let assert = ValidatedAssert { body_json: Some(expected), ..no_assertions() };
    let results = check_all(&assert, &response(200, vec![], r#"{"mid":5,"beta":0}"#, 1));
    assert!(!results[0].passed);
    assert_eq!(results[0].message, "keys did not match: Alpha, beta, zeta");
}

#[test]
fn expected_header_names_are_checked_once_with_the_last_value() {
    let assert = ValidatedAssert {
        headers: Some(vec![
            ("content-type".to_string(), "text/plain".to_string()),
            ("x-id".to_string(), "7".to_string()),
            ("content-type".to_string(), "application/json".to_string()),
        ]),
        ..no_assertions()
    };
    let results = check_all(&assert, &response(200, json_header(), "{}", 1));
    assert_eq!(results.len(), 2);
    assert_eq!(results[0].rule_name, "Header 'x-id'");
    assert!(!results[0].passed);
    assert_eq!(results[1].rule_name, "Header 'content-type'");
    assert!(results[1].passed);
    assert_eq!(results[1].message, "Expected header 'content-type' to be 'application/json'");
}

#[test]
fn parsed_json_check_on_given_values() {
    let parsed = JsonValue::Object(vec![
        ("status".to_string(), JsonValue::String("ok".to_string())),
        ("count".to_string(), JsonValue::Number(JsonNumber::PosInt(41))),
    ]);
    let c = check_parsed_json(&status_ok_count_42(), &parsed);
    assert!(!c.passed);
    assert_eq!(c.rule_name, "Body JSON");
    assert_eq!(c.message, "keys did not match: count");
    let same = check_parsed_json(&JsonValue::Bool(true), &JsonValue::Bool(true));
    assert!(same.passed);
    assert_eq!(same.message, "body matched");
}
