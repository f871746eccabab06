//! Rendering results: a colored terminal listing, a JSON document, or TAP
//! version 14, for functional tests and for load tests.

use vstd::prelude::*;
use vstd::string::StringExecFns;
use colored::Colorize;
use crate::assertions::{checks_view, Check, CheckResult};
use crate::json::{pretty_json, json_pretty_text, JsonNumber, JsonValue, JsonView, MemberView, NumberView};
use crate::runner::RequestResult;
use crate::span::{duration_debug_text, Span};
use crate::text::{decimal, decimal_string, text_eq};

verus! {

/// The escape sequence that ends a colored span.
pub open spec fn reset_code() -> Seq<char> {
    seq!['\u{1b}', '[', '0', 'm']
}

/// The escape sequence that starts bold text.
pub open spec fn bold_code() -> Seq<char> {
    seq!['\u{1b}', '[', '1', 'm']
}

/// The escape sequence that starts bold red text.
pub open spec fn red_bold_code() -> Seq<char> {
    seq!['\u{1b}', '[', '1', ';', '3', '1', 'm']
}

/// The escape sequence that starts bold green text.
pub open spec fn green_bold_code() -> Seq<char> {
    seq!['\u{1b}', '[', '1', ';', '3', '2', 'm']
}

/// The escape sequence that starts cyan text.
pub open spec fn cyan_code() -> Seq<char> {
    seq!['\u{1b}', '[', '3', '6', 'm']
}

/// `text` with the style that `code` starts put back after each reset
/// sequence inside it, so that a styled text nested in it does not end the
/// outer style early.
pub open spec fn restyle(text: Seq<char>, code: Seq<char>) -> Seq<char>
    decreases text.len(),
{
    if text.len() == 0 {
        Seq::empty()
    } else if text.len() >= 4 && text.take(4) == reset_code() {
        reset_code() + code + restyle(text.skip(4), code)
    } else {
        seq![text[0]] + restyle(text.skip(1), code)
    }
}

/// `out` shows `text` in the style that `code` starts: either plain (colors
/// are off) or wrapped in the style's escape sequences, with the style put
/// back after each reset inside the text (colors are on).
pub open spec fn styled(out: Seq<char>, text: Seq<char>, code: Seq<char>) -> bool {
    out == text || out == code + restyle(text, code) + reset_code()
}

/// A text without escape characters is left as it is by `restyle`, so it is
/// shown either plain or between the style's code and the reset.
pub proof fn lemma_restyle_plain(text: Seq<char>, code: Seq<char>)
    requires
        !text.contains('\u{1b}'),
    ensures
        restyle(text, code) == text,
    decreases text.len(),
{
    if text.len() > 0 {
        if text.len() >= 4 && text.take(4) == reset_code() {
            assert(text[0] == '\u{1b}');
        }
        assert(!text.skip(1).contains('\u{1b}')) by {
            if text.skip(1).contains('\u{1b}') {
                let j = choose|j: int| 0 <= j < text.skip(1).len() && text.skip(1)[j] == '\u{1b}';
                assert(text[j + 1] == '\u{1b}');
            }
        }
        lemma_restyle_plain(text.skip(1), code);
        assert(text =~= seq![text[0]] + text.skip(1));
    }
}

/// `text` in bold (`colored`'s `bold`). Whether colors are on depends on the
/// terminal, the environment and a global override, so either outcome may
/// come; both are stated.
#[verifier::external_body]
fn style_bold(text: &str) -> (res: String)
    ensures
        styled(res@, text@, bold_code()),
{
    text.bold().to_string()
}

/// `text` in bold red (`colored`'s `red`, then `bold`).
#[verifier::external_body]
fn style_red_bold(text: &str) -> (res: String)
    ensures
        styled(res@, text@, red_bold_code()),
{
    text.red().bold().to_string()
}

/// `text` in bold green (`colored`'s `green`, then `bold`).
#[verifier::external_body]
fn style_green_bold(text: &str) -> (res: String)
    ensures
        styled(res@, text@, green_bold_code()),
{
    text.green().bold().to_string()
}

/// `text` in cyan (`colored`'s `cyan`).
#[verifier::external_body]
fn style_cyan(text: &str) -> (res: String)
    ensures
        styled(res@, text@, cyan_code()),
{
    text.cyan().to_string()
}

/// The styled pieces of a terminal listing: each request name in bold, and
/// the labels `ERROR`, `OK`, `PASS` and `FAIL` in their colors.
pub struct TerminalStyles {
    pub names: Vec<String>,
    pub error: String,
    pub ok: String,
    pub pass: String,
    pub fail: String,
}

/// The styles are those that `colored` gives for these results.
pub open spec fn styles_fit(rs: Seq<RequestResult>, st: TerminalStyles) -> bool {
    &&& st.names@.len() == rs.len()
    &&& forall|i: int| 0 <= i < rs.len() ==> styled(st.names@[i]@, (#[trigger] rs[i]).name@, bold_code())
    &&& styled(st.error@, "ERROR"@, red_bold_code())
    &&& styled(st.ok@, "OK"@, cyan_code())
    &&& styled(st.pass@, "PASS"@, green_bold_code())
    &&& styled(st.fail@, "FAIL"@, red_bold_code())
}

/// One check in the terminal listing.
pub open spec fn check_line(c: Check, pass: Seq<char>, fail: Seq<char>) -> Seq<char> {
    "  "@ + (if c.passed {
        pass
    } else {
        fail
    }) + " ["@ + c.rule + "] "@ + c.message + "\n"@
}

/// The checks in the terminal listing, one line each.
pub open spec fn check_lines(cs: Seq<Check>, pass: Seq<char>, fail: Seq<char>) -> Seq<char>
    decreases cs.len(),
{
    if cs.len() == 0 {
        Seq::empty()
    } else {
        check_lines(cs.drop_last(), pass, fail) + check_line(cs.last(), pass, fail)
    }
}

/// One request in the terminal listing: its styled name, then either the
/// network error, or the duration followed by its checks (or a note that it
/// has none).
pub open spec fn terminal_section(r: RequestResult, name: Seq<char>, st: TerminalStyles) -> Seq<char> {
    "\n"@ + name + "\n"@ + outcome_text(r, st)
}

/// The lines of one request after its name.
pub open spec fn outcome_text(r: RequestResult, st: TerminalStyles) -> Seq<char> {
    match r.response {
        Err(e) => "  "@ + st.error@ + " network error: "@ + e.message_spec() + "\n"@,
        Ok(resp) => "  duration: "@ + duration_debug_text(resp.latency.secs, resp.latency.nanos)
            + "\n"@ + if r.assertions@.len() == 0 {
            "  "@ + st.ok@ + " (no assertions)\n"@
        } else {
            check_lines(checks_view(r.assertions@), st.pass@, st.fail@)
        },
    }
}

/// The terminal listing of the first `n` results.
pub open spec fn terminal_text(rs: Seq<RequestResult>, st: TerminalStyles, n: int) -> Seq<char>
    decreases n,
{
    if n <= 0 {
        Seq::empty()
    } else {
        terminal_text(rs, st, n - 1) + terminal_section(rs[n - 1], st.names@[n - 1]@, st)
    }
}

/// Every response in the results has a well-formed latency.
pub open spec fn latencies_wf(rs: Seq<RequestResult>) -> bool {
    forall|i: int| 0 <= i < rs.len() ==> ((#[trigger] rs[i]).response matches Ok(r) ==> r.latency.wf())
}

/// The terminal lines of a list of checks.
fn render_checks(checks: &Vec<CheckResult>, pass: &String, fail: &String) -> (res: String)
    ensures
        res@ == check_lines(checks_view(checks@), pass@, fail@),
{
    let mut out = String::new();
    let mut j: usize = 0;
    while j < checks.len()
        invariant
            j <= checks.len(),
            out@ == check_lines(checks_view(checks@.take(j as int)), pass@, fail@),
        decreases checks.len() - j,
    {
        let check = &checks[j];
        out.append("  ");
        if check.passed {
            out.append(pass.as_str());
        } else {
            out.append(fail.as_str());
        }
        out.append(" [");
        out.append(check.rule_name.as_str());
        out.append("] ");
        out.append(check.message.as_str());
        out.append("\n");
        proof {
            let cs = checks@;
            assert(checks_view(cs.take(j + 1)).drop_last() =~= checks_view(cs.take(j as int)));
            assert(checks_view(cs.take(j + 1)).last() == cs[j as int].view());
        }
        j += 1;
    }
    assert(checks@.take(checks.len() as int) =~= checks@);
    out
}

/// The terminal lines of one request, after its styled name.
fn render_outcome(result: &RequestResult, styles: &TerminalStyles) -> (res: String)
    requires
        result.response matches Ok(r) ==> r.latency.wf(),
    ensures
        res@ == outcome_text(*result, *styles),
{
    let mut out = String::new();
    match &result.response {
        Err(e) => {
            out.append("  ");
            out.append(styles.error.as_str());
            out.append(" network error: ");
            out.append(e.message().as_str());
            out.append("\n");
        },
        Ok(response) => {
            out.append("  duration: ");
            out.append(response.latency.debug_text().as_str());
            out.append("\n");
            if result.assertions.len() == 0 {
                out.append("  ");
                out.append(styles.ok.as_str());
                out.append(" (no assertions)\n");
            } else {
                let lines = render_checks(&result.assertions, &styles.pass, &styles.fail);
                out.append(lines.as_str());
            }
        },
    }
    out
}

/// The terminal listing of `results`, with the styled pieces given.
pub fn render_terminal(results: &[RequestResult], styles: &TerminalStyles) -> (res: String)
    requires
        styles.names@.len() == results@.len(),
        latencies_wf(results@),
    ensures
        res@ == terminal_text(results@, *styles, results@.len() as int),
{
    let mut out = String::new();
    let mut i: usize = 0;
    while i < results.len()
        invariant
            i <= results.len(),
            styles.names@.len() == results@.len(),
            latencies_wf(results@),
            out@ == terminal_text(results@, *styles, i as int),
        decreases results.len() - i,
    {
        assert(results@[i as int].response matches Ok(r) ==> r.latency.wf());
        let rest = render_outcome(&results[i], styles);
        let ghost before = out@;
        out.append("\n");
        out.append(styles.names[i].as_str());
        out.append("\n");
        out.append(rest.as_str());
        proof {
            let r = results@[i as int];
            let name = styles.names@[i as int]@;
            assert(out@ =~= before + terminal_section(r, name, *styles));
        }
        i += 1;
    }
    out
}

/// The terminal listing of `results`: each request's bold name, then its
/// network error, or its duration and its checks (PASS or FAIL with the rule
/// and message), or a note that it has no assertions.
fn format_terminal(results: &[RequestResult]) -> (res: String)
    requires
        latencies_wf(results@),
    ensures
        exists|st: TerminalStyles| styles_fit(results@, st) && res@ == terminal_text(results@, st, results@.len() as int),
{
    let mut names: Vec<String> = Vec::new();
    let mut i: usize = 0;
    while i < results.len()
        invariant
            i <= results.len(),
            names@.len() == i,
            forall|k: int| 0 <= k < i ==> styled(names@[k]@, (#[trigger] results@[k]).name@, bold_code()),
        decreases results.len() - i,
    {
        names.push(style_bold(results[i].name.as_str()));
        i += 1;
    }
    let error = style_red_bold("ERROR");
    let ok = style_cyan("OK");
    let pass = style_green_bold("PASS");
    let fail = style_red_bold("FAIL");
    let styles = TerminalStyles { names, error, ok, pass, fail };
    assert(styles_fit(results@, styles));
    render_terminal(results, &styles)
}

/// A member of a JSON object, as the specification sees it.
pub open spec fn member(k: Seq<char>, v: JsonView) -> MemberView {
    MemberView { key: k, value: v }
}

/// A non-negative JSON integer, as the specification sees it.
pub open spec fn json_uint(n: u64) -> JsonView {
    JsonView::Number(NumberView::PosInt(n))
}

/// The JSON object of one check: its rule, whether it passed, its message.
pub open spec fn check_json_view(c: Check) -> JsonView {
    JsonView::Object(
        seq![
            member("rule"@, JsonView::String(c.rule)),
            member("passed"@, JsonView::Bool(c.passed)),
            member("message"@, JsonView::String(c.message)),
        ],
    )
}

/// The whole milliseconds of a span.
pub open spec fn millis(s: Span) -> int {
    s.total_nanos() / 1_000_000
}

/// The JSON object of one request: its name, status and latency in
/// milliseconds (0 and 0 when no response came), its error (null when a
/// response came) and its checks (none when no response came).
pub open spec fn result_json_view(r: RequestResult) -> JsonView {
    JsonView::Object(
        seq![
            member("name"@, JsonView::String(r.name@)),
            member(
                "status"@,
                json_uint(
                    match r.response {
                        Ok(resp) => resp.status as u64,
                        Err(_) => 0,
                    },
                ),
            ),
            member(
                "latency_ms"@,
                json_uint(
                    match r.response {
                        Ok(resp) => millis(resp.latency) as u64,
                        Err(_) => 0,
                    },
                ),
            ),
            member(
                "error"@,
                match r.response {
                    Ok(_) => JsonView::Null,
                    Err(e) => JsonView::String(e.message_spec()),
                },
            ),
            member(
                "assertions"@,
                JsonView::Array(
                    match r.response {
                        Ok(_) => Seq::new(
                            r.assertions@.len(),
                            |i: int| check_json_view(r.assertions@[i].view()),
                        ),
                        Err(_) => Seq::empty(),
                    },
                ),
            ),
        ],
    )
}

/// The JSON array of all requests.
pub open spec fn results_json_view(rs: Seq<RequestResult>) -> JsonView {
    JsonView::Array(Seq::new(rs.len(), |i: int| result_json_view(rs[i])))
}

/// Every response's latency is well formed and its whole milliseconds fit a
/// `u64` (`serde_json` refuses larger integers, and the report then panics).
pub open spec fn latencies_fit(rs: Seq<RequestResult>) -> bool {
    forall|i: int|
        0 <= i < rs.len() ==> ((#[trigger] rs[i]).response matches Ok(r) ==> r.latency.wf() && millis(
            r.latency,
        ) <= u64::MAX)
}

/// A JSON string holding a copy of `s`.
fn json_string(s: &String) -> (res: JsonValue)
    ensures
        res@ == JsonView::String(s@),
{
    JsonValue::String(s.clone())
}

/// A JSON object with members `es`, in order.
fn json_object(es: Vec<(String, JsonValue)>) -> (res: JsonValue)
    ensures
        res@ == JsonView::Object(crate::json::members_view(es@)),
{
    let res = JsonValue::Object(es);
    proof {
        crate::json::lemma_object_view(res);
    }
    res
}

/// The JSON object of one check.
fn check_to_json(c: &CheckResult) -> (res: JsonValue)
    ensures
        res@ == check_json_view(c.view()),
{
    let es = vec![
        ("rule".to_owned(), json_string(&c.rule_name)),
        ("passed".to_owned(), JsonValue::Bool(c.passed)),
        ("message".to_owned(), json_string(&c.message)),
    ];
    let res = json_object(es);
    assert(crate::json::members_view(es@) =~= check_json_view(c.view())->Object_0);
    res
}

/// The JSON object of one request.
fn result_to_json(r: &RequestResult) -> (res: JsonValue)
    requires
        r.response matches Ok(resp) ==> resp.latency.wf() && millis(resp.latency) <= u64::MAX,
    ensures
        res@ == result_json_view(*r),
{
    let (status, latency_ms, checks): (u64, u64, Vec<JsonValue>) = match &r.response {
        Ok(resp) => {
            let mut checks: Vec<JsonValue> = Vec::new();
            let mut i: usize = 0;
            while i < r.assertions.len()
                invariant
                    i <= r.assertions.len(),
                    checks@.len() == i,
                    forall|k: int| 0 <= k < i ==> (#[trigger] checks@[k])@ == check_json_view(r.assertions@[k].view()),
                decreases r.assertions.len() - i,
            {
                checks.push(check_to_json(&r.assertions[i]));
                i += 1;
            }
            (resp.status as u64, resp.latency.as_millis() as u64, checks)
        },
        Err(_) => (0, 0, Vec::new()),
    };
    let error = match &r.response {
        Ok(_) => JsonValue::Null,
        Err(e) => JsonValue::String(e.message()),
    };
    let assertions = JsonValue::Array(checks);
    proof {
        crate::json::lemma_array_view(assertions);
        let expected = result_json_view(*r)->Object_0[4].value;
        assert(assertions@->Array_0 =~= expected->Array_0);
    }
    let es = vec![
        ("name".to_owned(), json_string(&r.name)),
        ("status".to_owned(), JsonValue::Number(JsonNumber::PosInt(status))),
        ("latency_ms".to_owned(), JsonValue::Number(JsonNumber::PosInt(latency_ms))),
        ("error".to_owned(), error),
        ("assertions".to_owned(), assertions),
    ];
    let res = json_object(es);
    assert(crate::json::members_view(es@) =~= result_json_view(*r)->Object_0);
    res
}

/// The JSON array of all requests, as the JSON report shows them.
pub fn results_to_json(results: &[RequestResult]) -> (res: JsonValue)
    requires
        latencies_fit(results@),
    ensures
        res@ == results_json_view(results@),
{
    let mut items: Vec<JsonValue> = Vec::new();
    let mut i: usize = 0;
    while i < results.len()
        invariant
            i <= results.len(),
            latencies_fit(results@),
            items@.len() == i,
            forall|k: int| 0 <= k < i ==> (#[trigger] items@[k])@ == result_json_view(results@[k]),
        decreases results.len() - i,
    {
        assert(results@[i as int].response matches Ok(r) ==> r.latency.wf() && millis(r.latency) <= u64::MAX);
        items.push(result_to_json(&results[i]));
        i += 1;
    }
    let res = JsonValue::Array(items);
    proof {
        crate::json::lemma_array_view(res);
        assert(res@->Array_0 =~= results_json_view(results@)->Array_0);
    }
    res
}

/// The JSON report of `results`: an array with one object per request.
fn format_json(results: &[RequestResult]) -> (res: String)
    requires
        latencies_fit(results@),
    ensures
        res@ == json_pretty_text(results_json_view(results@)),
{
    pretty_json(&results_to_json(results))
}

/// A request passes when a response came and every check passed.
pub open spec fn all_passed(r: RequestResult) -> bool {
    r.response is Ok && forall|i: int| 0 <= i < r.assertions@.len() ==> (#[trigger] r.assertions@[i]).passed
}

/// The TAP diagnostics of the failed checks, in order.
pub open spec fn tap_failures(cs: Seq<Check>) -> Seq<char>
    decreases cs.len(),
{
    if cs.len() == 0 {
        Seq::empty()
    } else {
        tap_failures(cs.drop_last()) + if cs.last().passed {
            Seq::empty()
        } else {
            "  # FAIL ["@ + cs.last().rule + "] "@ + cs.last().message + "\n"@
        }
    }
}

/// The TAP lines of request `r`, test point number `n`: `ok` when it passed;
/// otherwise `not ok`, with a diagnostic per failed check and one for the
/// network error.
pub open spec fn tap_entry(r: RequestResult, n: nat) -> Seq<char> {
    if all_passed(r) {
        "ok "@ + decimal(n) + " - "@ + r.name@ + "\n"@
    } else {
        "not ok "@ + decimal(n) + " - "@ + r.name@ + "\n"@ + tap_failures(checks_view(r.assertions@)) + match r.response {
            Err(e) => "  # ERROR "@ + e.message_spec() + "\n"@,
            Ok(_) => Seq::empty(),
        }
    }
}

/// The TAP lines of the first `k` requests, numbered from 1.
pub open spec fn tap_entries(rs: Seq<RequestResult>, k: int) -> Seq<char>
    decreases k,
{
    if k <= 0 {
        Seq::empty()
    } else {
        tap_entries(rs, k - 1) + tap_entry(rs[k - 1], k as nat)
    }
}

/// The TAP report: the version line, the plan `1..n`, then one test point per
/// request.
pub open spec fn tap_text(rs: Seq<RequestResult>) -> Seq<char> {
    "TAP version 14\n1.."@ + decimal(rs.len()) + "\n"@ + tap_entries(rs, rs.len() as int)
}

/// Whether every check passed and a response came.
fn passed_all(r: &RequestResult) -> (res: bool)
    ensures
        res == all_passed(*r),
{
    if r.response.is_err() {
        return false;
    }
    let mut i: usize = 0;
    while i < r.assertions.len()
        invariant
            i <= r.assertions.len(),
            forall|k: int| 0 <= k < i ==> (#[trigger] r.assertions@[k]).passed,
        decreases r.assertions.len() - i,
    {
        if !r.assertions[i].passed {
            return false;
        }
        i += 1;
    }
    true
}

/// The TAP diagnostics of the failed checks.
fn render_tap_failures(checks: &Vec<CheckResult>) -> (res: String)
    ensures
        res@ == tap_failures(checks_view(checks@)),
{
    let mut out = String::new();
    let mut j: usize = 0;
    while j < checks.len()
        invariant
            j <= checks.len(),
            out@ == tap_failures(checks_view(checks@.take(j as int))),
        decreases checks.len() - j,
    {
        let check = &checks[j];
        if !check.passed {
            out.append("  # FAIL [");
            out.append(check.rule_name.as_str());
            out.append("] ");
            out.append(check.message.as_str());
            out.append("\n");
        }
        proof {
            let cs = checks@;
            assert(checks_view(cs.take(j + 1)).drop_last() =~= checks_view(cs.take(j as int)));
            assert(checks_view(cs.take(j + 1)).last() == cs[j as int].view());
        }
        j += 1;
    }
    assert(checks@.take(checks.len() as int) =~= checks@);
    out
}

/// The TAP lines of one request, numbered `n`.
fn render_tap_entry(r: &RequestResult, n: usize) -> (res: String)
    ensures
        res@ == tap_entry(*r, n as nat),
{
    let number = decimal_string(n as u128);
    if passed_all(r) {
        let mut out = "ok ".to_owned();
        out.append(number.as_str());
        out.append(" - ");
        out.append(r.name.as_str());
        out.append("\n");
        out
    } else {
        let mut out = "not ok ".to_owned();
        out.append(number.as_str());
        out.append(" - ");
        out.append(r.name.as_str());
        out.append("\n");
        out.append(render_tap_failures(&r.assertions).as_str());
        if let Err(e) = &r.response {
            out.append("  # ERROR ");
            out.append(e.message().as_str());
            out.append("\n");
        }
        out
    }
}

/// The TAP report of `results`.
fn format_tap(results: &[RequestResult]) -> (res: String)
    ensures
        res@ == tap_text(results@),
{
    let mut out = "TAP version 14\n1..".to_owned();
    out.append(decimal_string(results.len() as u128).as_str());
    out.append("\n");
    let ghost head = out@;
    let mut i: usize = 0;
    while i < results.len()
        invariant
            i <= results.len(),
            out@ == head + tap_entries(results@, i as int),
        decreases results.len() - i,
    {
        assert(i + 1 <= usize::MAX);
        let entry = render_tap_entry(&results[i], i + 1);
        out.append(entry.as_str());
        i += 1;
    }
    out
}

/// The report of `results` in `format`: `json`, `tap` or `terminal`; for
/// any other format, a line saying that the format is unknown.
pub open spec fn test_report(results: Seq<RequestResult>, format: Seq<char>, out: Seq<char>) -> bool {
    if format == "json"@ {
        out == json_pretty_text(results_json_view(results))
    } else if format == "tap"@ {
        out == tap_text(results)
    } else if format == "terminal"@ {
        exists|st: TerminalStyles| styles_fit(results, st) && out == terminal_text(results, st, results.len() as int)
    } else {
        out == "unknown format "@ + format
    }
}

/// Renders the results of a functional test in `format`: `json`, `tap` or
/// `terminal`; any other format gives `unknown format <format>`.
pub fn format_test_results(results: &[RequestResult], format: &str) -> (res: String)
    requires
        latencies_wf(results@),
        format@ == "json"@ ==> latencies_fit(results@),
    ensures
        test_report(results@, format@, res@),
{
    if text_eq(format, "json") {
        format_json(results)
    } else if text_eq(format, "tap") {
        format_tap(results)
    } else if text_eq(format, "terminal") {
        format_terminal(results)
    } else {
        let mut out = "unknown format ".to_owned();
        out.append(format);
        out
    }
}

/// What a load-test report shows: the request and error counts, the request
/// rate (as text with two decimals, and as a JSON number, or null when it is
/// not finite) and the latency percentiles.
pub struct LoadReport {
    pub total_reqs: u64,
    pub error_count: u64,
    pub rps_text: String,
    pub rps_json: JsonValue,
    pub p50: Span,
    pub p90: Span,
    pub p99: Span,
}

/// The percentiles are well formed.
pub open spec fn percentiles_wf(r: LoadReport) -> bool {
    r.p50.wf() && r.p90.wf() && r.p99.wf()
}

/// The percentiles are well formed and their whole milliseconds fit a `u64`.
pub open spec fn percentiles_fit(r: LoadReport) -> bool {
    &&& r.p50.wf() && millis(r.p50) <= u64::MAX
    &&& r.p90.wf() && millis(r.p90) <= u64::MAX
    &&& r.p99.wf() && millis(r.p99) <= u64::MAX
}

/// The terminal listing of a load test, under the given styled heading.
pub open spec fn load_terminal_text(r: LoadReport, heading: Seq<char>) -> Seq<char> {
    "\n"@ + heading + "\n  total requests: "@ + decimal(r.total_reqs as nat) + "\n  errors:         "@
        + decimal(r.error_count as nat) + "\n  rps:            "@ + r.rps_text@ + "\n  p50:            "@
        + duration_debug_text(r.p50.secs, r.p50.nanos) + "\n  p90:            "@ + duration_debug_text(
        r.p90.secs,
        r.p90.nanos,
    ) + "\n  p99:            "@ + duration_debug_text(r.p99.secs, r.p99.nanos)
}

/// The JSON object of a load test.
pub open spec fn load_json_view(r: LoadReport) -> JsonView {
    JsonView::Object(
        seq![
            member("total_requests"@, json_uint(r.total_reqs)),
            member("errors"@, json_uint(r.error_count)),
            member("rps"@, r.rps_json@),
            member("p50_ms"@, json_uint(millis(r.p50) as u64)),
            member("p90_ms"@, json_uint(millis(r.p90) as u64)),
            member("p99_ms"@, json_uint(millis(r.p99) as u64)),
        ],
    )
}

/// The TAP report of a load test: one test point, which passes when there
/// were no errors.
pub open spec fn load_tap_text(r: LoadReport) -> Seq<char> {
    if r.error_count == 0 {
        "TAP version 14\n1..1\nok 1 - load test ("@ + decimal(r.total_reqs as nat) + " requests, "@ + r.rps_text@
            + " rps)"@
    } else {
        "TAP version 14\n1..1\nnot ok 1 - load test ("@ + decimal(r.error_count as nat) + " errors out of "@
            + decimal(r.total_reqs as nat) + " requests)"@
    }
}

/// The terminal listing of a load test, under the given styled heading.
pub fn render_load_terminal(r: &LoadReport, heading: &String) -> (res: String)
    requires
        percentiles_wf(*r),
    ensures
        res@ == load_terminal_text(*r, heading@),
{
    let mut out = "\n".to_owned();
    out.append(heading.as_str());
    out.append("\n  total requests: ");
    out.append(decimal_string(r.total_reqs as u128).as_str());
    out.append("\n  errors:         ");
    out.append(decimal_string(r.error_count as u128).as_str());
    out.append("\n  rps:            ");
    out.append(r.rps_text.as_str());
    out.append("\n  p50:            ");
    out.append(r.p50.debug_text().as_str());
    out.append("\n  p90:            ");
    out.append(r.p90.debug_text().as_str());
    out.append("\n  p99:            ");
    out.append(r.p99.debug_text().as_str());
    out
}

/// The terminal listing of a load test, under a bold heading.
fn format_load_terminal(r: &LoadReport) -> (res: String)
    requires
        percentiles_wf(*r),
    ensures
        exists|h: Seq<char>| styled(h, "Load Test Results"@, bold_code()) && res@ == load_terminal_text(*r, h),
{
    let heading = style_bold("Load Test Results");
    render_load_terminal(r, &heading)
}

/// A JSON integer.
fn json_uint_value(n: u64) -> (res: JsonValue)
    ensures
        res@ == json_uint(n),
{
    JsonValue::Number(JsonNumber::PosInt(n))
}

/// The JSON report of a load test.
fn format_load_json(r: &LoadReport) -> (res: String)
    requires
        percentiles_fit(*r),
    ensures
        res@ == json_pretty_text(load_json_view(*r)),
{
    let rps = crate::json::copy_json(&r.rps_json);
    let es = vec![
        ("total_requests".to_owned(), json_uint_value(r.total_reqs)),
        ("errors".to_owned(), json_uint_value(r.error_count)),
        ("rps".to_owned(), rps),
        ("p50_ms".to_owned(), json_uint_value(r.p50.as_millis() as u64)),
        ("p90_ms".to_owned(), json_uint_value(r.p90.as_millis() as u64)),
        ("p99_ms".to_owned(), json_uint_value(r.p99.as_millis() as u64)),
    ];
    let doc = json_object(es);
    assert(crate::json::members_view(es@) =~= load_json_view(*r)->Object_0);
    pretty_json(&doc)
}

/// The TAP report of a load test.
fn format_load_tap(r: &LoadReport) -> (res: String)
    ensures
        res@ == load_tap_text(*r),
{
    if r.error_count == 0 {
        let mut out = "TAP version 14\n1..1\nok 1 - load test (".to_owned();
        out.append(decimal_string(r.total_reqs as u128).as_str());
        out.append(" requests, ");
        out.append(r.rps_text.as_str());
        out.append(" rps)");
        out
    } else {
        let mut out = "TAP version 14\n1..1\nnot ok 1 - load test (".to_owned();
        out.append(decimal_string(r.error_count as u128).as_str());
        out.append(" errors out of ");
        out.append(decimal_string(r.total_reqs as u128).as_str());
        out.append(" requests)");
        out
    }
}

/// The report of a load test in `format`: `json`, `tap` or `terminal`; for
/// any other format, a line saying that the format is unknown.
pub open spec fn load_report(r: LoadReport, format: Seq<char>, out: Seq<char>) -> bool {
    if format == "json"@ {
        out == json_pretty_text(load_json_view(r))
    } else if format == "tap"@ {
        out == load_tap_text(r)
    } else if format == "terminal"@ {
        exists|h: Seq<char>| styled(h, "Load Test Results"@, bold_code()) && out == load_terminal_text(r, h)
    } else {
        out == "unknown format "@ + format
    }
}

/// Renders the results of a load test in `format`: `json`, `tap` or
/// `terminal`; any other format gives `unknown format <format>`.
pub fn format_load_results(result: &LoadReport, format: &str) -> (res: String)
    requires
        format@ == "json"@ ==> percentiles_fit(*result),
        format@ == "terminal"@ ==> percentiles_wf(*result),
    ensures
        load_report(*result, format@, res@),
{
    if text_eq(format, "json") {
        format_load_json(result)
    } else if text_eq(format, "tap") {
        format_load_tap(result)
    } else if text_eq(format, "terminal") {
        format_load_terminal(result)
    } else {
        let mut out = "unknown format ".to_owned();
        out.append(format);
        out
    }
}

} // verus!
