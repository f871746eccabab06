use apitester::cli::{Commands, LoadArgs, RunArgs, TestArgs};
use apitester::assertions::CheckResult;
use apitester::config::{HttpMethod, ValidatedAssert, ValidatedLoadConfig, ValidatedRequest, ValidatedTestConfig};
use apitester::http::{HttpError, ResponseData};
use apitester::runner::{
    into_request_result, keep_sending, load_config_of, next_request_index, LoadError, LoadTally,
};
use apitester::span::Span;

fn response(status: u16, body: &str, millis: u64) -> ResponseData {
    ResponseData {
        status,
        headers: vec![],
        body: body.to_string(),
        latency: Span::from_millis(millis),
    }
}

fn status_assert(status: u16) -> ValidatedAssert {
    ValidatedAssert {
        status: Some(status),
        headers: None,
        body_contains: None,
        body_json: None,
        latency_lt: None,
    }
}

fn load(requests: Vec<usize>) -> ValidatedLoadConfig {
    ValidatedLoadConfig {
        concurrency: 4,
        duration: Span::from_secs(1),
        ramp_up: None,
        requests,
    }
}

fn config(load: Option<ValidatedLoadConfig>) -> ValidatedTestConfig {
    ValidatedTestConfig {
        base_url: "https://example.com/".to_string(),
        timeout: Span::from_secs(30),
        requests: vec![ValidatedRequest {
            name: "req".to_string(),
            method: HttpMethod::Get,
            url: "https://example.com/any".to_string(),
            headers: vec![],
            body: None,
            assert: None,
        }],
        load,
    }
}

#[test]
fn response_is_checked_against_assertions() {
    let a = status_assert(200);
    let out = into_request_result("ping".into(), Some(&a), Ok(response(404, "", 5)));
    assert_eq!(out.name, "ping");
    assert_eq!(out.assertions.len(), 1);
    assert!(!out.assertions[0].passed);
    assert_eq!(out.assertions[0].rule_name, "Status");
    assert_eq!(out.assertions[0].message, "expected 200, got 404");
    assert_eq!(out.response.unwrap().status, 404);
}

#[test]
fn response_without_assertions_records_no_checks() {
    let out = into_request_result("ping".into(), None, Ok(response(200, "ok", 5)));
    assert!(out.assertions.is_empty());
    assert!(out.response.is_ok());
}

#[test]
fn error_records_no_checks() {
    let a = status_assert(200);
    let out = into_request_result("ping".into(), Some(&a), Err(HttpError::Timeout));
    assert!(out.assertions.is_empty());
    assert!(matches!(out.response, Err(HttpError::Timeout)));
}

#[test]
fn load_needs_a_load_section() {
    let err = load_config_of(&config(None)).unwrap_err();
    assert_eq!(err, LoadError::NoLoadConfig);
    assert_eq!(err.message(), "no load config");
    let with_load = config(Some(load(vec![0])));
    assert_eq!(load_config_of(&with_load).unwrap().requests, vec![0]);
}

#[test]
fn load_keeps_sending_until_the_duration() {
    assert!(keep_sending(Span::from_millis(999), Span::from_secs(1)));
    assert!(!keep_sending(Span::from_secs(1), Span::from_secs(1)));
    assert!(!keep_sending(Span::from_millis(1001), Span::from_secs(1)));
    assert!(keep_sending(Span::zero(), Span::from_micros(1)));
}

#[test]
fn load_requests_are_taken_in_turn() {
    let l = load(vec![2, 0, 1]);
    let picked: Vec<usize> = (0..7).map(|i| next_request_index(&l, i)).collect();
    assert_eq!(picked, vec![2, 0, 1, 2, 0, 1, 2]);
    assert_eq!(next_request_index(&l, usize::MAX), 2);
}

#[test]
fn tally_counts_requests_and_errors() {
    let mut t = LoadTally::new();
    t.record_outcome(&Ok(response(200, "", 10)));
    t.record_outcome(&Err(HttpError::Network("refused".into())));
    t.record_outcome(&Ok(response(500, "", 20)));
    t.record_outcome(&Err(HttpError::Timeout));
    assert_eq!(t.total_reqs, 4);
    assert_eq!(t.error_count, 2);
    assert_eq!(t.stats.histogram().histogram.len(), 2);
    assert!(t.error_count <= t.total_reqs);
}

#[test]
fn tally_records_latency_in_microseconds() {
    let mut t = LoadTally::new();
    t.record_outcome(&Ok(response(200, "", 250)));
    let h = &t.stats.histogram().histogram;
    assert_eq!(h.len(), 1);
    assert!(h.max() >= 249_000 && h.max() <= 251_000);
}

#[test]
fn check_result_fields_are_public() {
    let c = CheckResult { passed: true, rule_name: "Status".into(), message: "m".into() };
    assert!(c.passed);
}

#[test]
fn commands_plan_their_steps() {
    let t = Commands::Test(TestArgs {
        config: "a.yaml".into(),
        parallel: true,
        output: "tap".into(),
        verbose: false,
    })
    .plan();
    assert!(t.functional && !t.load && t.parallel);
    assert!(t.concurrency.is_none() && t.duration.is_none());
    assert_eq!((t.config.as_str(), t.output.as_str()), ("a.yaml", "tap"));
    let l = Commands::Load(LoadArgs {
        config: "b.yaml".into(),
        concurrency: Some(3),
        duration: None,
        output: "json".into(),
        verbose: true,
    })
    .plan();
    assert!(!l.functional && l.load && !l.parallel);
    assert_eq!(l.concurrency, Some(3));
    assert_eq!(l.duration, None);
    assert_eq!((l.config.as_str(), l.output.as_str()), ("b.yaml", "json"));
    let r = Commands::Run(RunArgs {
        config: "c.yaml".into(),
        parallel: false,
        output: "terminal".into(),
        verbose: false,
    })
    .plan();
    assert!(r.functional && r.load && !r.parallel);
    assert_eq!((r.config.as_str(), r.output.as_str()), ("c.yaml", "terminal"));
}
