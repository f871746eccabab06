use apitester::config::{
    AssertConfig, ConfigError, HttpMethod, LoadConfig, RequestConfig, TestConfig,
};
use apitester::config::parse_duration;
use apitester::config::duration::duration_fits;
use apitester::config::ValidatedLoadConfig;
use apitester::json::{JsonNumber, JsonValue, YamlValue};
use apitester::span::Span;

fn request(name: &str, path: &str) -> RequestConfig {
    RequestConfig {
        name: name.to_string(),
        method: HttpMethod::default(),
        path: path.to_string(),
        headers: vec![],
        body: None,
        assert: None,
    }
}

fn no_asserts() -> AssertConfig {
    AssertConfig {
        status: None,
        headers: None,
        body_contains: None,
        body_json: None,
        latency_lt: None,
    }
}

fn yaml_str(s: &str) -> YamlValue {
    YamlValue::String(s.to_string())
}

#[test]
fn parses_basic_yaml() {
    let config = TestConfig {
        base_url: "https://api.example.com".to_string(),
        timeout: Some("10s".to_string()),
        requests: vec![RequestConfig {
            method: HttpMethod::Get,
            assert: Some(AssertConfig { status: Some(200), ..no_asserts() }),
            ..request("health", "/health")
        }],
        load: None,
    };
    let validated = config.validate().unwrap();
    assert_eq!(validated.base_url.as_str(), "https://api.example.com/");
    assert_eq!(validated.timeout, Span::from_secs(10));
    assert_eq!(validated.requests.len(), 1);
    assert_eq!(validated.requests[0].name, "health");
    assert_eq!(validated.requests[0].url.as_str(), "https://api.example.com/health");
}

#[test]
fn defaults_method_to_get() {
    let config = TestConfig {
        base_url: "https://example.com".to_string(),
        timeout: None,
        requests: vec![request("x", "/x")],
        load: None,
    };
    let validated = config.validate().unwrap();
    assert!(matches!(validated.requests[0].method, HttpMethod::Get));
}

#[test]
fn defaults_timeout_to_30s() {
    let config = TestConfig {
        base_url: "https://example.com".to_string(),
        timeout: None,
        requests: vec![request("x", "/x")],
        load: None,
    };
    let validated = config.validate().unwrap();
    assert_eq!(validated.timeout, Span::from_secs(30));
}

#[test]
fn rejects_invalid_url() {
    let config = TestConfig {
        base_url: "not-a-url".to_string(),
        timeout: None,
        requests: vec![request("x", "/x")],
        load: None,
    };
    let err = config.validate().unwrap_err();
    assert!(matches!(err, ConfigError::InvalidUrl(..)));
}

#[test]
fn rejects_unknown_load_request() {
    let config = TestConfig {
        base_url: "https://x.com".to_string(),
        timeout: None,
        requests: vec![request("a", "/a")],
        load: Some(LoadConfig {
            concurrency: 1,
            duration: Span::from_secs(5),
            ramp_up: None,
            requests: Some(vec!["nonexistent".to_string()]),
        }),
    };
    let err = config.validate().unwrap_err();
    assert!(matches!(err, ConfigError::UnknownLoadRequest(..)));
    assert!(err.message().contains("nonexistent"));
}

#[test]
fn load_defaults_to_all_requests() {
    let config = TestConfig {
        base_url: "https://x.com".to_string(),
        timeout: None,
        requests: vec![request("a", "/a"), request("b", "/b")],
        load: Some(LoadConfig {
            concurrency: 1,
            duration: Span::from_secs(5),
            ramp_up: None,
            requests: None,
        }),
    };
    let validated = config.validate().unwrap();
    assert_eq!(validated.load.unwrap().requests, vec![0, 1]);
}

#[test]
fn parses_latency_assertion() {
    let config = TestConfig {
        base_url: "https://example.com".to_string(),
        timeout: None,
        requests: vec![RequestConfig {
            assert: Some(AssertConfig { latency_lt: Some("500ms".to_string()), ..no_asserts() }),
            ..request("fast", "/fast")
        }],
        load: None,
    };
    let validated = config.validate().unwrap();
    let assert = validated.requests[0].assert.as_ref().unwrap();
    assert_eq!(assert.latency_lt, Some(Span::from_millis(500)));
}

#[test]
fn parses_body_json_assertion() {
    let body_json = YamlValue::Mapping(vec![
        (yaml_str("status"), yaml_str("ok")),
        (yaml_str("count"), YamlValue::Number(serde_yaml::Number::from(42))),
    ]);
    let config = TestConfig {
        base_url: "https://example.com".to_string(),
        timeout: None,
        requests: vec![RequestConfig {
            assert: Some(AssertConfig { body_json: Some(body_json), ..no_asserts() }),
            ..request("check", "/check")
        }],
        load: None,
    };
    let validated = config.validate().unwrap();
    let assert = validated.requests[0].assert.as_ref().unwrap();
    let json = assert.body_json.as_ref().unwrap();
    assert!(matches!(json.get(&"status".to_string()), Some(JsonValue::String(s)) if s == "ok"));
    assert!(matches!(
        json.get(&"count".to_string()),
        Some(JsonValue::Number(JsonNumber::PosInt(42)))
    ));
}

// --- further cases ---

#[test]
fn load_names_resolve_to_first_position() {
    let config = TestConfig {
        base_url: "https://x.com/api/".to_string(),
        timeout: Some("1s".to_string()),
        requests: vec![request("a", "a"), request("b", "/b"), request("a", "c")],
        load: Some(LoadConfig {
            concurrency: 4,
            duration: Span::from_secs(2),
            ramp_up: Some(Span::from_millis(100)),
            requests: Some(vec!["b".to_string(), "a".to_string(), "b".to_string()]),
        }),
    };
    let validated = config.validate().unwrap();
    assert_eq!(validated.requests[0].url, "https://x.com/api/a");
    assert_eq!(validated.requests[1].url, "https://x.com/b");
    let load = validated.load.unwrap();
    assert_eq!(load.requests, vec![1, 0, 1]);
    assert_eq!(load.concurrency, 4);
    assert_eq!(load.ramp_up, Some(Span::from_millis(100)));
}

#[test]
fn rejects_bad_timeout() {
    let config = TestConfig {
        base_url: "https://x.com".to_string(),
        timeout: Some("soon".to_string()),
        requests: vec![],
        load: None,
    };
    let err = config.validate().unwrap_err();
    assert!(matches!(&err, ConfigError::InvalidDuration(t) if t == "soon"));
    assert_eq!(err.message(), "invalid duration 'soon'");
}

#[test]
fn rejects_bad_latency_bound() {
    let config = TestConfig {
        base_url: "https://x.com".to_string(),
        timeout: None,
        requests: vec![RequestConfig {
            assert: Some(AssertConfig { latency_lt: Some("fast".to_string()), ..no_asserts() }),
            ..request("x", "/x")
        }],
        load: None,
    };
    assert!(matches!(config.validate(), Err(ConfigError::InvalidDuration(t)) if t == "fast"));
}

#[test]
fn rejects_unconvertible_body_json() {
    let body_json = YamlValue::Mapping(vec![(YamlValue::Null, yaml_str("v"))]);
    let config = TestConfig {
        base_url: "https://x.com".to_string(),
        timeout: None,
        requests: vec![RequestConfig {
            assert: Some(AssertConfig { body_json: Some(body_json), ..no_asserts() }),
            ..request("x", "/x")
        }],
        load: None,
    };
    let err = config.validate().unwrap_err();
    assert!(matches!(err, ConfigError::InvalidBodyJson(_)));
    assert!(err.message().starts_with("invalid body_json value: "));
}

#[test]
fn first_fault_is_reported() {
    let config = TestConfig {
        base_url: "https://x.com".to_string(),
        timeout: None,
        requests: vec![
            RequestConfig {
                assert: Some(AssertConfig { latency_lt: Some("later".to_string()), ..no_asserts() }),
                ..request("x", "/x")
            },
            RequestConfig {
                assert: Some(AssertConfig { latency_lt: Some("never".to_string()), ..no_asserts() }),
                ..request("y", "/y")
            },
        ],
        load: None,
    };
    assert!(matches!(config.validate(), Err(ConfigError::InvalidDuration(t)) if t == "later"));
}

#[test]
fn invalid_url_message_names_url() {
    let config = TestConfig {
        base_url: "not-a-url".to_string(),
        timeout: None,
        requests: vec![],
        load: None,
    };
    let err = config.validate().unwrap_err();
    assert_eq!(err.message(), "invalid URL 'not-a-url': relative URL without a base");
}

#[test]
fn parse_duration_formats() {
    assert_eq!(parse_duration("1m 30s").unwrap(), Span::from_secs(90));
    assert_eq!(parse_duration("250us").unwrap(), Span::from_micros(250));
    assert!(matches!(parse_duration("abc"), Err(ConfigError::InvalidDuration(t)) if t == "abc"));
}

#[test]
fn method_default_is_get() {
    assert_eq!(HttpMethod::default(), HttpMethod::Get);
}

#[test]
fn duration_texts_fit_unless_they_reach_the_largest_duration() {
    assert!(duration_fits("30s"));
    assert!(duration_fits("2 hours 30 minutes"));
    assert!(duration_fits("100000000000ms"));
    assert!(duration_fits("1234567890123ns"));
    assert!(duration_fits("18446744073709551615ns"));
    assert!(duration_fits("100000000000s"));
    assert!(duration_fits("1000000000000m 5.5h"));
    assert!(!duration_fits("18446744073709551615s 1000000000ns"));
    assert!(!duration_fits("584542046091y"));
    assert!(!duration_fits("9 2 2 3 3 7 2 0 3 6 8 5 4 7 7 5 8 0 7s 9223372036854775807s 1000ms"));
    assert_eq!(parse_duration("100000000000ms").unwrap(), Span::from_secs(100_000_000));
    assert_eq!(parse_duration("1234567890123ns").unwrap(), Span { secs: 1234, nanos: 567_890_123 });
    let mut config = TestConfig {
        base_url: "https://x.com".to_string(),
        timeout: None,
        requests: vec![RequestConfig {
            assert: Some(AssertConfig { latency_lt: Some("18446744073709551615s 1s".into()), ..no_asserts() }),
            ..request("a", "/a")
        }],
        load: None,
    };
    assert!(!config.durations_fit());
    config.requests[0].assert = Some(AssertConfig { latency_lt: Some("123456789012345ms".into()), ..no_asserts() });
    assert!(config.durations_fit());
    config.timeout = Some("99999999999999999999y".into());
    assert!(!config.durations_fit());
}

fn load_section() -> ValidatedLoadConfig {
    ValidatedLoadConfig {
        concurrency: 10,
        duration: Span::from_secs(30),
        ramp_up: Some(Span::from_secs(5)),
        requests: vec![0, 1],
    }
}

#[test]
fn load_overrides_replace_concurrency_and_duration() {
    let l = load_section().with_overrides(Some(3), Some("2m")).unwrap();
    assert_eq!(l.concurrency, 3);
    assert_eq!(l.duration, Span::from_secs(120));
    assert_eq!(l.ramp_up, Some(Span::from_secs(5)));
    assert_eq!(l.requests, vec![0, 1]);
    let same = load_section().with_overrides(None, None).unwrap();
    assert_eq!(same.concurrency, 10);
    assert_eq!(same.duration, Span::from_secs(30));
    let err = load_section().with_overrides(Some(3), Some("soon")).unwrap_err();
    assert!(matches!(err, ConfigError::InvalidDuration(t) if t == "soon"));
}

#[test]
fn load_overrides_apply_to_the_configuration() {
    let config = TestConfig {
        base_url: "https://x.com".to_string(),
        timeout: None,
        requests: vec![request("a", "/a")],
        load: Some(LoadConfig {
            concurrency: 8,
            duration: Span::from_secs(5),
            ramp_up: None,
            requests: None,
        }),
    };
    let v = config.validate().unwrap().with_load_overrides(Some(2), Some("750ms")).unwrap();
    let l = v.load.unwrap();
    assert_eq!(l.concurrency, 2);
    assert_eq!(l.duration, Span::from_millis(750));
    assert_eq!(v.requests.len(), 1);
    let no_load = TestConfig {
        base_url: "https://x.com".to_string(),
        timeout: None,
        requests: vec![],
        load: None,
    };
    let kept = no_load.validate().unwrap().with_load_overrides(Some(2), Some("bad")).unwrap();
    assert!(kept.load.is_none());
}
