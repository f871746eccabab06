use apitester::assertions::CheckResult;
use apitester::http::{HttpError, ResponseData};
use apitester::json::{JsonFloat, JsonNumber, JsonValue};
use apitester::report::{
    format_load_results, format_test_results, render_load_terminal, render_terminal, results_to_json,
    LoadReport, TerminalStyles,
};
use apitester::runner::RequestResult;
use apitester::span::Span;

fn make_response(status: u16) -> ResponseData {
    ResponseData {
        status,
        headers: vec![],
        body: "ok".into(),
        latency: Span::from_millis(42),
    }
}

fn make_result(name: &str, status: u16, assertions: Vec<CheckResult>) -> RequestResult {
    RequestResult {
        name: name.to_string(),
        response: Ok(make_response(status)),
        assertions,
    }
}

fn passing_check() -> CheckResult {
    CheckResult {
        passed: true,
        rule_name: "Status".into(),
        message: "expected 200, got 200".into(),
    }
}

fn failing_check() -> CheckResult {
    CheckResult {
        passed: false,
        rule_name: "Status".into(),
        message: "expected 200, got 404".into(),
    }
}

fn rps_json(rps: f64) -> JsonValue {
    match serde_json::Number::from_f64(rps) {
        Some(n) => JsonValue::Number(JsonNumber::Float(JsonFloat::from_number(n).unwrap())),
        None => JsonValue::Null,
    }
}

fn make_load_result(total: u64, errors: u64) -> LoadReport {
    let rps = total as f64 / 5.0;
    LoadReport {
        total_reqs: total,
        error_count: errors,
        rps_text: format!("{:.2}", rps),
        rps_json: rps_json(rps),
        p50: Span::zero(),
        p90: Span::zero(),
        p99: Span::zero(),
    }
}

fn plain_styles(results: &[RequestResult]) -> TerminalStyles {
    TerminalStyles {
        names: results.iter().map(|r| r.name.clone()).collect(),
        error: "ERROR".into(),
        ok: "OK".into(),
        pass: "PASS".into(),
        fail: "FAIL".into(),
    }
}

// --- terminal ---

#[test]
fn terminal_shows_request_name() {
    colored::control::set_override(false);
    let results = vec![make_result("my request", 200, vec![])];
    let out = format_test_results(&results, "terminal");
    assert!(out.contains("my request"));
}

#[test]
fn terminal_shows_pass_for_passing_assertion() {
    colored::control::set_override(false);
    let results = vec![make_result("req", 200, vec![passing_check()])];
    let out = format_test_results(&results, "terminal");
    assert!(out.contains("PASS"));
}

#[test]
fn terminal_shows_fail_for_failing_assertion() {
    colored::control::set_override(false);
    let results = vec![make_result("req", 404, vec![failing_check()])];
    let out = format_test_results(&results, "terminal");
    assert!(out.contains("FAIL"));
}

#[test]
fn terminal_shows_no_assertions_when_empty() {
    colored::control::set_override(false);
    let results = vec![make_result("req", 200, vec![])];
    let out = format_test_results(&results, "terminal");
    assert!(out.contains("no assertions"));
}

#[test]
fn terminal_listing_is_exact_with_plain_styles() {
    let results = vec![
        make_result("a", 200, vec![passing_check(), failing_check()]),
        RequestResult {
            name: "b".into(),
            response: Err(HttpError::Timeout),
            assertions: vec![],
        },
        make_result("c", 200, vec![]),
    ];
    let out = render_terminal(&results, &plain_styles(&results));
    assert_eq!(
        out,
        "\na\n  duration: 42ms\n  PASS [Status] expected 200, got 200\n  FAIL [Status] expected 200, got 404\n\
         \nb\n  ERROR network error: request timed out\n\
         \nc\n  duration: 42ms\n  OK (no assertions)\n"
    );
}

// --- json ---

#[test]
fn json_output_is_valid_json() {
    let results = vec![make_result("req", 200, vec![passing_check()])];
    let out = format_test_results(&results, "json");
    let parsed: serde_json::Value = serde_json::from_str(&out).unwrap();
    assert!(parsed.is_array());
    assert_eq!(parsed[0]["name"], "req");
    assert_eq!(parsed[0]["status"], 200);
}

#[test]
fn json_includes_assertions() {
    let results = vec![make_result("req", 200, vec![passing_check()])];
    let out = format_test_results(&results, "json");
    let parsed: serde_json::Value = serde_json::from_str(&out).unwrap();
    assert_eq!(parsed[0]["assertions"][0]["passed"], true);
}

#[test]
fn json_empty_results_produces_empty_array() {
    let out = format_test_results(&[], "json");
    let parsed: serde_json::Value = serde_json::from_str(&out).unwrap();
    assert_eq!(parsed, serde_json::Value::Array(vec![]));
}

#[test]
fn json_records_latency_and_error() {
    let results = vec![
        make_result("ok", 201, vec![]),
        RequestResult {
            name: "down".into(),
            response: Err(HttpError::Network("connection refused".into())),
            assertions: vec![],
        },
    ];
    let out = format_test_results(&results, "json");
    let parsed: serde_json::Value = serde_json::from_str(&out).unwrap();
    assert_eq!(parsed[0]["status"], 201);
    assert_eq!(parsed[0]["latency_ms"], 42);
    assert!(parsed[0]["error"].is_null());
    assert_eq!(parsed[1]["status"], 0);
    assert_eq!(parsed[1]["latency_ms"], 0);
    assert_eq!(parsed[1]["error"], "network error: connection refused");
    assert_eq!(parsed[1]["assertions"], serde_json::Value::Array(vec![]));
}

#[test]
fn json_document_lists_members_in_order() {
    let results = vec![make_result("req", 200, vec![failing_check()])];
    let doc = results_to_json(&results);
    match doc {
        JsonValue::Array(items) => {
            assert_eq!(items.len(), 1);
            match &items[0] {
                JsonValue::Object(members) => {
                    let keys: Vec<&str> = members.iter().map(|(k, _)| k.as_str()).collect();
                    assert_eq!(keys, vec!["name", "status", "latency_ms", "error", "assertions"]);
                }
                other => panic!("expected an object, got {:?}", other),
            }
        }
        other => panic!("expected an array, got {:?}", other),
    }
}

// --- tap ---

#[test]
fn tap_starts_with_version_line() {
    let results = vec![make_result("req", 200, vec![passing_check()])];
    let out = format_test_results(&results, "tap");
    assert!(out.starts_with("TAP version 14"));
}

#[test]
fn tap_ok_for_passing_result() {
    let results = vec![make_result("req", 200, vec![passing_check()])];
    let out = format_test_results(&results, "tap");
    assert!(out.contains("ok 1 - req"));
}

#[test]
fn tap_not_ok_for_failing_result() {
    let results = vec![make_result("req", 404, vec![failing_check()])];
    let out = format_test_results(&results, "tap");
    assert!(out.contains("not ok 1 - req"));
}

#[test]
fn tap_plan_line_matches_result_count() {
    let results = vec![
        make_result("a", 200, vec![]),
        make_result("b", 200, vec![]),
        make_result("c", 200, vec![]),
    ];
    let out = format_test_results(&results, "tap");
    assert!(out.contains("1..3"));
}

#[test]
fn tap_report_is_exact() {
    let results = vec![
        make_result("a", 200, vec![passing_check()]),
        make_result("b", 404, vec![passing_check(), failing_check()]),
        RequestResult {
            name: "c".into(),
            response: Err(HttpError::UnsupportedMethod("BREW".into())),
            assertions: vec![],
        },
    ];
    let out = format_test_results(&results, "tap");
    assert_eq!(
        out,
        "TAP version 14\n1..3\nok 1 - a\nnot ok 2 - b\n  # FAIL [Status] expected 200, got 404\n\
         not ok 3 - c\n  # ERROR unsupported HTTP method: BREW\n"
    );
}

// --- unknown format ---

#[test]
fn unknown_format_returns_error_message() {
    let results = vec![make_result("req", 200, vec![])];
    let out = format_test_results(&results, "xml");
    assert!(out.contains("unknown format"));
}

#[test]
fn unknown_format_names_the_format() {
    let out = format_test_results(&[], "xml");
    assert_eq!(out, "unknown format xml");
    let load = format_load_results(&make_load_result(1, 0), "yaml");
    assert_eq!(load, "unknown format yaml");
}

// --- load results ---

#[test]
fn load_json_is_valid_json() {
    let result = make_load_result(100, 0);
    let out = format_load_results(&result, "json");
    let parsed: serde_json::Value = serde_json::from_str(&out).unwrap();
    assert_eq!(parsed["total_requests"], 100);
    assert_eq!(parsed["errors"], 0);
}

#[test]
fn load_json_shows_rate_and_percentiles() {
    let mut result = make_load_result(100, 3);
    result.p50 = Span::from_millis(12);
    result.p90 = Span::from_micros(45_900);
    result.p99 = Span::from_secs(2);
    let out = format_load_results(&result, "json");
    let parsed: serde_json::Value = serde_json::from_str(&out).unwrap();
    assert_eq!(parsed["rps"], 20.0);
    assert_eq!(parsed["p50_ms"], 12);
    assert_eq!(parsed["p90_ms"], 45);
    assert_eq!(parsed["p99_ms"], 2000);
    assert!(out.contains("\"rps\": 20.0"));
}

#[test]
fn load_tap_ok_when_no_errors() {
    let result = make_load_result(100, 0);
    let out = format_load_results(&result, "tap");
    assert!(out.contains("ok 1"));
}

#[test]
fn load_tap_not_ok_when_errors() {
    let result = make_load_result(100, 10);
    let out = format_load_results(&result, "tap");
    assert!(out.contains("not ok 1"));
    assert!(out.contains("10 errors"));
}

#[test]
fn load_tap_is_exact() {
    assert_eq!(
        format_load_results(&make_load_result(100, 0), "tap"),
        "TAP version 14\n1..1\nok 1 - load test (100 requests, 20.00 rps)"
    );
    assert_eq!(
        format_load_results(&make_load_result(100, 10), "tap"),
        "TAP version 14\n1..1\nnot ok 1 - load test (10 errors out of 100 requests)"
    );
}

#[test]
fn load_terminal_shows_stats() {
    colored::control::set_override(false);
    let result = make_load_result(50, 2);
    let out = format_load_results(&result, "terminal");
    assert!(out.contains("total requests: 50"));
    assert!(out.contains("errors:         2"));
}

#[test]
fn load_terminal_listing_is_exact() {
    let mut result = make_load_result(50, 2);
    result.p50 = Span::from_millis(12);
    result.p90 = Span::from_micros(1_500);
    result.p99 = Span::from_secs(1);
    let out = render_load_terminal(&result, &"Load Test Results".to_string());
    assert_eq!(
        out,
        "\nLoad Test Results\n  total requests: 50\n  errors:         2\n  rps:            10.00\n  \
         p50:            12ms\n  p90:            1.5ms\n  p99:            1s"
    );
}
