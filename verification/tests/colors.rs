use apitester::assertions::CheckResult;
use apitester::http::ResponseData;
use apitester::report::format_test_results;
use apitester::runner::RequestResult;
use apitester::span::Span;

#[test]
fn terminal_colors_name_and_labels_when_forced() {
    colored::control::set_override(true);
    let results = vec![RequestResult {
        name: "req".into(),
        response: Ok(ResponseData {
            status: 200,
            headers: vec![],
            body: "ok".into(),
            latency: Span::from_millis(7),
        }),
        assertions: vec![
            CheckResult { passed: true, rule_name: "Status".into(), message: "fine".into() },
            CheckResult { passed: false, rule_name: "Body Contains".into(), message: "bad".into() },
        ],
    }];
    let out = format_test_results(&results, "terminal");
    assert_eq!(
        out,
        "\n\u{1b}[1mreq\u{1b}[0m\n  duration: 7ms\n  \u{1b}[1;32mPASS\u{1b}[0m [Status] fine\n  \
         \u{1b}[1;31mFAIL\u{1b}[0m [Body Contains] bad\n"
    );
}

#[test]
fn terminal_restyles_after_a_reset_inside_a_name() {
    colored::control::set_override(true);
    let results = vec![RequestResult {
        name: "a\u{1b}[0mb".into(),
        response: Err(apitester::http::HttpError::Timeout),
        assertions: vec![],
    }];
    let out = format_test_results(&results, "terminal");
    assert!(out.starts_with("\n\u{1b}[1ma\u{1b}[0m\u{1b}[1mb\u{1b}[0m\n"));
}
