//! The assertion engine: checks a response against the assertions of its
//! request and reports, for each check, whether it passed and why.

use vstd::prelude::*;
use vstd::string::StringExecFns;
use crate::config::ValidatedAssert;
use crate::http::{find_header, header_index, header_position, header_value, ResponseData};
use crate::json::{
    display_json, json_display_text, json_eq, json_equal, json_get, json_parse_text,
    member_index, member_position, members_view, lemma_object_view, parse_json, JsonValue, JsonView, MemberView,
};
use crate::span::duration_debug_text;
use crate::text::{
    contains_seq, decimal, decimal_string, join_seq, join_strings, sort_texts, str_contains, text_order, texts_view,
};

verus! {

/// The outcome of one check.
#[derive(Debug)]
pub struct CheckResult {
    pub passed: bool,
    pub rule_name: String,
    pub message: String,
}

/// The outcome of one check, as a value of the specification.
pub struct Check {
    pub passed: bool,
    pub rule: Seq<char>,
    pub message: Seq<char>,
}

impl CheckResult {
    /// The outcome as a value of the specification.
    pub open spec fn view(self) -> Check {
        Check { passed: self.passed, rule: self.rule_name@, message: self.message@ }
    }
}

/// The outcomes of a list of checks.
pub open spec fn checks_view(rs: Seq<CheckResult>) -> Seq<Check> {
    rs.map_values(|r: CheckResult| r.view())
}

/// The status check: the response status must equal the expected one.
pub open spec fn status_check(expected: u16, got: u16) -> Check {
    Check {
        passed: got == expected,
        rule: "Status"@,
        message: "expected "@ + decimal(expected as nat) + ", got "@ + decimal(got as nat),
    }
}

/// The body check: the body must contain the expected text.
pub open spec fn contains_check(expected: Seq<char>, body: Seq<char>) -> Check {
    Check {
        passed: contains_seq(body, expected),
        rule: "Body Contains"@,
        message: "Expected body to contain '"@ + expected + "'"@,
    }
}

/// The latency check: the latency must be strictly below the bound.
pub open spec fn latency_check(bound: crate::span::Span, latency: crate::span::Span) -> Check {
    Check {
        passed: latency.total_nanos() < bound.total_nanos(),
        rule: "Latency"@,
        message: "Expected latency to be less than "@ + duration_debug_text(bound.secs, bound.nanos)
            + " but was "@ + duration_debug_text(latency.secs, latency.nanos),
    }
}

/// The check of one expected header `k: v`.
pub open spec fn header_check(k: Seq<char>, v: Seq<char>, hs: Seq<(String, String)>) -> Check {
    Check {
        passed: header_value(hs, k) == Some(v),
        rule: "Header '"@ + k + "'"@,
        message: "Expected header '"@ + k + "' to be '"@ + v + "'"@,
    }
}

/// The checks of the expected headers among the first `n` pairs of
/// `expected`, in order: one per header name, for the pair that counts (the
/// last pair with that name, as when the pairs are inserted one by one into
/// a map).
pub open spec fn header_checks_upto(expected: Seq<(String, String)>, n: int, hs: Seq<(String, String)>) -> Seq<
    Check,
>
    decreases n,
{
    if n <= 0 {
        Seq::empty()
    } else {
        header_checks_upto(expected, n - 1, hs) + if header_index(expected, expected[n - 1].0@) == n - 1 {
            seq![header_check(expected[n - 1].0@, expected[n - 1].1@, hs)]
        } else {
            Seq::empty()
        }
    }
}

/// A header name with a position is found there.
pub proof fn lemma_header_index_bounds(hs: Seq<(String, String)>, k: Seq<char>)
    ensures
        -1 <= header_index(hs, k) < hs.len(),
        header_index(hs, k) >= 0 ==> hs[header_index(hs, k)].0@ == k,
    decreases hs.len(),
{
    if hs.len() > 0 && hs.last().0@ != k {
        lemma_header_index_bounds(hs.drop_last(), k);
    }
}

/// The checks of the expected headers: one per header name, in order.
pub open spec fn header_checks(expected: Seq<(String, String)>, hs: Seq<(String, String)>) -> Seq<Check> {
    header_checks_upto(expected, expected.len() as int, hs)
}

/// Whether expected member `i` of `es` is one that counts and fails to match
/// the parsed body: the body has no such key or a different value for it.
pub open spec fn member_fails(es: Seq<MemberView>, i: int, parsed: JsonView) -> bool {
    &&& i == member_index(es, es[i].key)
    &&& match json_get(parsed, es[i].key) {
        Some(x) => !json_eq(x, es[i].value),
        None => true,
    }
}

/// The keys among the first `n` expected members that fail to match, in order.
pub open spec fn failed_keys(es: Seq<MemberView>, n: int, parsed: JsonView) -> Seq<
    Seq<char>,
>
    decreases n,
{
    if n <= 0 {
        Seq::empty()
    } else if member_fails(es, n - 1, parsed) {
        failed_keys(es, n - 1, parsed).push(es[n - 1].key)
    } else {
        failed_keys(es, n - 1, parsed)
    }
}

/// The JSON body check. When the expected value is an object, each of its
/// keys must be present in the parsed body with an equal value (other keys
/// of the body are ignored), and the keys that fail are listed in ascending
/// order, as a `serde_json::Map` walks them; otherwise the parsed body must
/// equal the expected value.
pub open spec fn json_check(expected: JsonView, body: Seq<char>) -> Check {
    match json_parse_text(body) {
        None => Check {
            passed: false,
            rule: "Body JSON"@,
            message: "Failed to parse body as JSON"@,
        },
        Some(parsed) => parsed_json_check(expected, parsed),
    }
}

/// The JSON body check of a body that parsed to `parsed`.
pub open spec fn parsed_json_check(expected: JsonView, parsed: JsonView) -> Check {
    match expected {
        JsonView::Object(es) => {
            let failed = failed_keys(es, es.len() as int, parsed);
            if failed.len() == 0 {
                Check { passed: true, rule: "Body JSON"@, message: "all expected keys matched"@ }
            } else {
                Check {
                    passed: false,
                    rule: "Body JSON"@,
                    message: "keys did not match: "@ + join_seq(failed.sort_by(text_order()), ", "@),
                }
            }
        },
        _ => if json_eq(parsed, expected) {
            Check { passed: true, rule: "Body JSON"@, message: "body matched"@ }
        } else {
            Check {
                passed: false,
                rule: "Body JSON"@,
                message: "expected "@ + json_display_text(expected) + ", got "@ + json_display_text(parsed),
            }
        },
    }
}

/// The status part of the checks.
pub open spec fn status_part(a: ValidatedAssert, r: ResponseData) -> Seq<Check> {
    match a.status {
        Some(s) => seq![status_check(s, r.status)],
        None => Seq::empty(),
    }
}

/// The body-text part of the checks.
pub open spec fn contains_part(a: ValidatedAssert, r: ResponseData) -> Seq<Check> {
    match a.body_contains {
        Some(t) => seq![contains_check(t@, r.body@)],
        None => Seq::empty(),
    }
}

/// The latency part of the checks.
pub open spec fn latency_part(a: ValidatedAssert, r: ResponseData) -> Seq<Check> {
    match a.latency_lt {
        Some(b) => seq![latency_check(b, r.latency)],
        None => Seq::empty(),
    }
}

/// The header part of the checks.
pub open spec fn headers_part(a: ValidatedAssert, r: ResponseData) -> Seq<Check> {
    match a.headers {
        Some(hs) => header_checks(hs@, r.headers@),
        None => Seq::empty(),
    }
}

/// The JSON-body part of the checks.
pub open spec fn json_part(a: ValidatedAssert, r: ResponseData) -> Seq<Check> {
    match a.body_json {
        Some(j) => seq![json_check(j@, r.body@)],
        None => Seq::empty(),
    }
}

/// The checks that assertion block `a` makes on response `r`, in order:
/// status, body text, latency, each expected header, JSON body; a check is
/// made only when its assertion is present.
pub open spec fn all_checks(a: ValidatedAssert, r: ResponseData) -> Seq<Check> {
    status_part(a, r) + contains_part(a, r) + latency_part(a, r) + headers_part(a, r) + json_part(a, r)
}

/// Builds a check outcome.
fn make_check(passed: bool, rule_name: String, message: String) -> (res: CheckResult)
    ensures
        res.view() == (Check { passed, rule: rule_name@, message: message@ }),
{
    CheckResult { passed, rule_name, message }
}

/// The JSON body check of `expected` against `body`.
fn check_json(expected: &JsonValue, body: &String) -> (res: CheckResult)
    ensures
        res.view() == json_check(expected@, body@),
{
    match parse_json(body.as_str()) {
        None => make_check(false, "Body JSON".to_owned(), "Failed to parse body as JSON".to_owned()),
        Some(parsed) => check_parsed_json(expected, &parsed),
    }
}

/// The JSON body check of `expected` against a body that parsed to
/// `parsed`: for an expected object, each of its keys must be in `parsed`
/// with an equal value; otherwise `parsed` must equal `expected`.
pub fn check_parsed_json(expected: &JsonValue, parsed: &JsonValue) -> (res: CheckResult)
    ensures
        res.view() == parsed_json_check(expected@, parsed@),
{
    match expected {
        JsonValue::Object(es) => {
            let ghost ev = members_view(es@);
            proof {
                lemma_object_view(*expected);
            }
            let mut failed: Vec<String> = Vec::new();
            let mut i: usize = 0;
            while i < es.len()
                invariant
                    i <= es.len(),
                    ev == members_view(es@),
                    texts_view(failed@) == failed_keys(ev, i as int, parsed@),
                decreases es.len() - i,
            {
                let key = &es[i].0;
                let counts = match member_position(es, key) {
                    Some(p) => p == i,
                    None => false,
                };
                if counts {
                    let fails = match parsed {
                        JsonValue::Object(ps) => {
                            proof {
                                lemma_object_view(*parsed);
                            }
                            match member_position(ps, key) {
                                Some(q) => !json_equal(&ps[q].1, &es[i].1),
                                None => true,
                            }
                        },
                        _ => true,
                    };
                    assert(fails == member_fails(ev, i as int, parsed@));
                    if fails {
                        let ghost before = failed@;
                        failed.push(key.clone());
                        assert(texts_view(failed@) =~= texts_view(before).push(key@));
                    }
                }
                i += 1;
            }
            if failed.len() == 0 {
                make_check(true, "Body JSON".to_owned(), "all expected keys matched".to_owned())
            } else {
                let mut m = "keys did not match: ".to_owned();
                let ordered = sort_texts(failed);
                let joined = join_strings(&ordered, ", ");
                m.append(joined.as_str());
                make_check(false, "Body JSON".to_owned(), m)
            }
        },
        _ => {
            if json_equal(parsed, expected) {
                make_check(true, "Body JSON".to_owned(), "body matched".to_owned())
            } else {
                let mut m = "expected ".to_owned();
                m.append(display_json(expected).as_str());
                m.append(", got ");
                m.append(display_json(parsed).as_str());
                make_check(false, "Body JSON".to_owned(), m)
            }
        },
    }
}

/// Checks `response` against every assertion of `assert`, in order: status,
/// body text, latency, each expected header, JSON body.
pub fn check_all(assert: &ValidatedAssert, response: &ResponseData) -> (res: Vec<CheckResult>)
    requires
        assert.wf(),
        response.latency.wf(),
    ensures
        checks_view(res@) == all_checks(*assert, *response),
{
    let mut results: Vec<CheckResult> = Vec::new();
    let ghost mut expect: Seq<Check> = Seq::empty();
    if let Some(expected) = assert.status {
        let mut m = "expected ".to_owned();
        m.append(decimal_string(expected as u128).as_str());
        m.append(", got ");
        m.append(decimal_string(response.status as u128).as_str());
        results.push(make_check(response.status == expected, "Status".to_owned(), m));
    }
    proof {
        expect = status_part(*assert, *response);
        assert(checks_view(results@) =~= expect);
    }
    if let Some(expected) = &assert.body_contains {
        let mut m = "Expected body to contain '".to_owned();
        m.append(expected.as_str());
        m.append("'");
        let passed = str_contains(response.body.as_str(), expected.as_str());
        results.push(make_check(passed, "Body Contains".to_owned(), m));
    }
    proof {
        expect = expect + contains_part(*assert, *response);
        assert(checks_view(results@) =~= expect);
    }
    if let Some(expected) = &assert.latency_lt {
        let mut m = "Expected latency to be less than ".to_owned();
        m.append(expected.debug_text().as_str());
        m.append(" but was ");
        m.append(response.latency.debug_text().as_str());
        let passed = response.latency.lt(expected);
        results.push(make_check(passed, "Latency".to_owned(), m));
    }
    proof {
        expect = expect + latency_part(*assert, *response);
        assert(checks_view(results@) =~= expect);
    }
    if let Some(headers) = &assert.headers {
        let mut i: usize = 0;
        while i < headers.len()
            invariant
                i <= headers.len(),
                checks_view(results@) == expect + header_checks_upto(headers@, i as int, response.headers@),
            decreases headers.len() - i,
        {
            let k = &headers[i].0;
            let v = &headers[i].1;
            let counts = match header_position(headers, k) {
                Some(p) => p == i,
                None => false,
            };
            if counts {
                let passed = match find_header(&response.headers, k) {
                    Some(got) => *got == *v,
                    None => false,
                };
                let mut rule = "Header '".to_owned();
                rule.append(k.as_str());
                rule.append("'");
                let mut m = "Expected header '".to_owned();
                m.append(k.as_str());
                m.append("' to be '");
                m.append(v.as_str());
                m.append("'");
                let c = make_check(passed, rule, m);
                assert(c.view() == header_check(k@, v@, response.headers@));
                let ghost before = results@;
                results.push(c);
                assert(checks_view(results@) =~= checks_view(before).push(c.view()));
            } else {
                proof {
                    lemma_header_index_bounds(headers@, k@);
                }
            }
            assert(checks_view(results@) =~= expect + header_checks_upto(headers@, i + 1, response.headers@));
            i += 1;
        }
    }
    proof {
        expect = expect + headers_part(*assert, *response);
        assert(checks_view(results@) =~= expect);
    }
    if let Some(expected) = &assert.body_json {
        results.push(check_json(expected, &response.body));
    }
    proof {
        expect = expect + json_part(*assert, *response);
        assert(checks_view(results@) =~= expect);
        assert(expect =~= all_checks(*assert, *response));
    }
    results
}

} // verus!
