//! Properties of the library as a whole, proved over the specifications that
//! the functions' contracts use.

use vstd::prelude::*;
use crate::assertions::{all_checks, header_checks_upto};
use crate::span::{duration_debug_text, Span};
use crate::text::{contains_seq, decimal};
use crate::assertions::{
    checks_view, contains_part, failed_keys, header_check, headers_part, json_part, latency_part, member_fails, status_part,
    Check,
};
use crate::report::{all_passed, load_json_view, tap_entry, tap_failures, LoadReport};
use crate::runner::RequestResult;
use crate::config::{TestConfig, ValidatedAssert, ValidatedTestConfig};
use crate::config::validate::{
    config_checked, config_fault, load_checked, load_fault, name_position, request_checked,
    request_names, unknown_name, url_join_text,
};
use crate::http::{header_index, header_value, ResponseData};
use crate::json::{json_eq, json_get, json_parse_text, member_index, number_eq, JsonView, MemberView, NumberView};
use crate::runner::LoadTally;

verus! {

/// A name's position, when there is one, is within the list and holds that
/// name.
proof fn lemma_name_position_bounds(names: Seq<Seq<char>>, n: Seq<char>)
    ensures
        -1 <= name_position(names, n) < names.len(),
        name_position(names, n) >= 0 ==> names[name_position(names, n)] == n,
    decreases names.len(),
{
    if names.len() > 0 {
        lemma_name_position_bounds(names.drop_last(), n);
    }
}

/// When no load-test name is unknown, every name has a position.
proof fn lemma_no_unknown_name(ns: Seq<String>, names: Seq<Seq<char>>, j: int)
    requires
        unknown_name(ns, names) is None,
        0 <= j < ns.len(),
    ensures
        name_position(names, ns[j]@) >= 0,
    decreases ns.len(),
{
    if j < ns.len() - 1 {
        assert(ns.drop_last()[j] == ns[j]);
        lemma_no_unknown_name(ns.drop_last(), names, j);
    }
}

/// Every request that a checked load section uses exists: each of its
/// indices is a position in the checked request list, and names a request
/// of the name the load section gave.
pub proof fn law_load_requests_exist(c: TestConfig, v: ValidatedTestConfig)
    requires
        config_fault(c) is None,
        config_checked(c, v),
        v.load is Some,
    ensures
        forall|j: int|
            0 <= j < v.load->0.requests@.len() ==> (#[trigger] v.load->0.requests@[j]) < v.requests@.len(),
{
    let l = c.load->0;
    let vl = v.load->0;
    let names = request_names(c.requests@);
    assert(names.len() == v.requests@.len());
    assert(load_fault(l, names) is None);
    assert(load_checked(l, names, vl));
    assert forall|j: int| 0 <= j < vl.requests@.len() implies (#[trigger] vl.requests@[j]) < v.requests@.len() by {
        match l.requests {
            Some(ns) => {
                lemma_no_unknown_name(ns@, names, j);
                lemma_name_position_bounds(names, ns@[j]@);
            },
            None => {},
        }
    }
}

/// The request that a load test sends at its `k`-th turn is the load
/// section's request at position `k` modulo their number, and it exists: its
/// position is within the checked request list.
pub proof fn law_scheduled_request_exists(c: TestConfig, v: ValidatedTestConfig, k: int)
    requires
        config_fault(c) is None,
        config_checked(c, v),
        v.load is Some,
        v.load->0.requests@.len() > 0,
        0 <= k,
    ensures
        0 <= k % (v.load->0.requests@.len() as int) < v.load->0.requests@.len(),
        v.load->0.requests@[k % (v.load->0.requests@.len() as int)] < v.requests@.len(),
{
    law_load_requests_exist(c, v);
    let n = v.load->0.requests@.len() as int;
    assert(0 <= k % n < n) by (nonlinear_arith)
        requires
            n > 0,
            0 <= k,
    ;
    assert(v.load->0.requests@[k % n] < v.requests@.len());
}

/// A member's key has a position, and the member at that position holds it.
proof fn lemma_member_index_found(es: Seq<MemberView>, i: int)
    requires
        0 <= i < es.len(),
    ensures
        i <= member_index(es, es[i].key) < es.len(),
        es[member_index(es, es[i].key)].key == es[i].key,
    decreases es.len(),
{
    if i < es.len() - 1 && es.last().key != es[i].key {
        assert(es.drop_last()[i] == es[i]);
        lemma_member_index_found(es.drop_last(), i);
    }
}

/// Every JSON value equals itself.
pub proof fn law_json_eq_reflexive(v: JsonView)
    ensures
        json_eq(v, v),
    decreases v,
{
    match v {
        JsonView::Number(n) => {
            assert(number_eq(n, n));
        },
        JsonView::Array(xs) => {
            assert forall|i: int| 0 <= i < xs.len() implies json_eq(#[trigger] xs[i], xs[i]) by {
                law_json_eq_reflexive(xs[i]);
            }
        },
        JsonView::Object(es) => {
            assert forall|j: int| 0 <= j < es.len() implies member_index(es, #[trigger] es[j].key) >= 0 by {
                lemma_member_index_found(es, j);
            }
            assert forall|i: int| 0 <= i < es.len() implies member_index(es, #[trigger] es[i].key) >= 0 && (i
                == member_index(es, es[i].key) ==> json_eq(es[i].value, es[member_index(es, es[i].key)].value)) by {
                lemma_member_index_found(es, i);
                law_json_eq_reflexive(es[i].value);
            }
            crate::json::lemma_object_eq(es, es);
        },
        _ => {},
    }
}

/// A key with a position is found there: the position is within the list
/// and the member at it has that key.
proof fn lemma_member_index_bounds(es: Seq<MemberView>, k: Seq<char>)
    ensures
        -1 <= member_index(es, k) < es.len(),
        member_index(es, k) >= 0 ==> es[member_index(es, k)].key == k,
    decreases es.len(),
{
    if es.len() > 0 && es.last().key != k {
        lemma_member_index_bounds(es.drop_last(), k);
    }
}

/// Equality of JSON values is symmetric: if `a` equals `b`, then `b` equals
/// `a`.
pub proof fn law_json_eq_symmetric(a: JsonView, b: JsonView)
    requires
        json_eq(a, b),
    ensures
        json_eq(b, a),
    decreases a,
{
    match a {
        JsonView::Array(xs) => {
            let ys = b->Array_0;
            assert forall|i: int| 0 <= i < ys.len() implies json_eq(#[trigger] ys[i], xs[i]) by {
                law_json_eq_symmetric(xs[i], ys[i]);
            }
        },
        JsonView::Object(es) => {
            let fs = b->Object_0;
            assert forall|j: int| 0 <= j < fs.len() implies member_index(es, #[trigger] fs[j].key) >= 0 && (j
                == member_index(fs, fs[j].key) ==> json_eq(fs[j].value, es[member_index(es, fs[j].key)].value)) by {
                let k = fs[j].key;
                let i = member_index(es, k);
                lemma_member_index_bounds(es, k);
                if j == member_index(fs, k) {
                    assert(es[i].key == k);
                    assert(member_index(fs, es[i].key) >= 0);
                    law_json_eq_symmetric(es[i].value, fs[j].value);
                }
            }
            crate::json::lemma_object_eq(fs, es);
        },
        _ => {},
    }
}

/// The number of header names among the first `n` expected pairs: the
/// pairs that count, each the last one with its name.
pub open spec fn header_name_count(hs: Seq<(String, String)>, n: int) -> int
    decreases n,
{
    if n <= 0 {
        0
    } else {
        header_name_count(hs, n - 1) + if header_index(hs, hs[n - 1].0@) == n - 1 {
            1int
        } else {
            0
        }
    }
}

/// One header check is made per header name.
proof fn lemma_header_checks_len(hs: Seq<(String, String)>, n: int, got: Seq<(String, String)>)
    ensures
        header_checks_upto(hs, n, got).len() == header_name_count(hs, n),
    decreases n,
{
    if n > 0 {
        lemma_header_checks_len(hs, n - 1, got);
    }
}

/// The number of checks made on a response: one for each of the status,
/// body-text, latency and JSON-body assertions that are present, and one per
/// expected header name.
pub open spec fn check_count(a: ValidatedAssert) -> int {
    (if a.status is Some { 1int } else { 0 }) + (if a.body_contains is Some { 1int } else { 0 }) + (
    if a.latency_lt is Some { 1int } else { 0 }) + (match a.headers {
        Some(hs) => header_name_count(hs@, hs@.len() as int),
        None => 0,
    }) + (if a.body_json is Some { 1int } else { 0 })
}

/// Each present assertion yields exactly its checks, whatever the response.
pub proof fn law_check_count(a: ValidatedAssert, r: ResponseData)
    ensures
        all_checks(a, r).len() == check_count(a),
{
    if let Some(hs) = a.headers {
        lemma_header_checks_len(hs@, hs@.len() as int, r.headers@);
    }
}

/// A load tally never counts more errors than requests.
pub proof fn law_tally_errors_bounded(t: LoadTally)
    requires
        t.wf(),
    ensures
        t.error_count <= t.total_reqs,
        t.stats.samples().len() <= t.total_reqs,
{
}

/// The status check: when an assertion block expects status `s`, the first
/// check made on any response is the status check; it passes exactly when
/// the response's status is `s`, and its message names both statuses.
pub proof fn law_status_check(a: ValidatedAssert, r: ResponseData, s: u16)
    requires
        a.status == Some(s),
    ensures
        all_checks(a, r).len() >= 1,
        all_checks(a, r)[0].passed <==> r.status == s,
        all_checks(a, r)[0].rule == "Status"@,
        all_checks(a, r)[0].message == "expected "@ + decimal(s as nat) + ", got "@ + decimal(r.status as nat),
{
    law_check_count(a, r);
}

/// The body-text check: when an assertion block expects the body to contain
/// `t`, the check made right after the status check (if any) passes exactly
/// when `t` occurs somewhere in the response body.
pub proof fn law_body_contains_check(a: ValidatedAssert, r: ResponseData, t: String)
    requires
        a.body_contains == Some(t),
    ensures
        ({
            let k = if a.status is Some { 1int } else { 0int };
            &&& all_checks(a, r).len() > k
            &&& all_checks(a, r)[k].rule == "Body Contains"@
            &&& all_checks(a, r)[k].message == "Expected body to contain '"@ + t@ + "'"@
            &&& (all_checks(a, r)[k].passed <==> exists|i: int|
                0 <= i && i + t@.len() <= r.body@.len() && #[trigger] r.body@.subrange(i, i + t@.len()) == t@)
        }),
{
    law_check_count(a, r);
}

/// The latency check: when an assertion block bounds the latency by `b`, the
/// check made after the status and body-text checks (those present) passes
/// exactly when the response came strictly faster than `b`.
pub proof fn law_latency_check(a: ValidatedAssert, r: ResponseData, b: Span)
    requires
        a.latency_lt == Some(b),
    ensures
        ({
            let k = (if a.status is Some { 1int } else { 0int }) + (if a.body_contains is Some { 1int } else { 0int });
            &&& all_checks(a, r).len() > k
            &&& all_checks(a, r)[k].rule == "Latency"@
            &&& all_checks(a, r)[k].message == "Expected latency to be less than "@ + duration_debug_text(b.secs, b.nanos)
                + " but was "@ + duration_debug_text(r.latency.secs, r.latency.nanos)
            &&& (all_checks(a, r)[k].passed <==> r.latency.secs * 1_000_000_000 + r.latency.nanos
                < b.secs * 1_000_000_000 + b.nanos)
        }),
{
    law_check_count(a, r);
}

/// Every check made on a response: one per present assertion, and no more
/// than that; without any assertion, no check at all.
pub proof fn law_no_assertions_no_checks(a: ValidatedAssert, r: ResponseData)
    requires
        a.status is None,
        a.body_contains is None,
        a.latency_lt is None,
        a.headers is None,
        a.body_json is None,
    ensures
        all_checks(a, r).len() == 0,
{
    law_check_count(a, r);
}

/// Checking a configuration keeps each request as configured: on success
/// the checked requests are the configured ones, in the same order, with the
/// same name, method, headers and body, and the URL that the configured path
/// resolves to against the checked base URL.
pub proof fn law_validation_keeps_requests(c: TestConfig, v: ValidatedTestConfig)
    requires
        config_fault(c) is None,
        config_checked(c, v),
    ensures
        v.requests@.len() == c.requests@.len(),
        forall|i: int|
            0 <= i < c.requests@.len() ==> {
                &&& (#[trigger] v.requests@[i]).name == c.requests@[i].name
                &&& v.requests@[i].method == c.requests@[i].method
                &&& v.requests@[i].headers == c.requests@[i].headers
                &&& v.requests@[i].body == c.requests@[i].body
                &&& url_join_text(v.base_url@, c.requests@[i].path@) == Some(v.requests@[i].url@)
                &&& (c.requests@[i].assert is None <==> v.requests@[i].assert is None)
            },
{
    assert forall|i: int| 0 <= i < c.requests@.len() implies {
        &&& (#[trigger] v.requests@[i]).name == c.requests@[i].name
        &&& v.requests@[i].method == c.requests@[i].method
        &&& v.requests@[i].headers == c.requests@[i].headers
        &&& v.requests@[i].body == c.requests@[i].body
        &&& url_join_text(v.base_url@, c.requests@[i].path@) == Some(v.requests@[i].url@)
        &&& (c.requests@[i].assert is None <==> v.requests@[i].assert is None)
    } by {
        assert(request_checked(c.requests@[i], v.base_url@, v.requests@[i]));
    }
}

/// The failure lines of the first `j` checks begin the failure lines of all
/// of them.
proof fn lemma_tap_failures_prefix(cs: Seq<Check>, j: int) -> (tail: Seq<char>)
    requires
        0 <= j <= cs.len(),
    ensures
        tap_failures(cs) == tap_failures(cs.take(j)) + tail,
    decreases cs.len(),
{
    if j == cs.len() {
        assert(cs.take(j) =~= cs);
        assert(tap_failures(cs) =~= tap_failures(cs.take(j)) + Seq::<char>::empty());
        Seq::empty()
    } else {
        assert(cs.drop_last().take(j) =~= cs.take(j));
        let t = lemma_tap_failures_prefix(cs.drop_last(), j);
        let last = if cs.last().passed {
            Seq::<char>::empty()
        } else {
            "  # FAIL ["@ + cs.last().rule + "] "@ + cs.last().message + "\n"@
        };
        assert(tap_failures(cs) =~= tap_failures(cs.take(j)) + (t + last));
        t + last
    }
}

/// A TAP test point is `ok` exactly when a response came and every check of
/// the request passed; then it is the line `ok <n> - <name>`. When no
/// response came, or any one check failed, it begins with `not ok`.
pub proof fn law_tap_verdict(r: RequestResult, n: nat)
    ensures
        (r.response is Ok && forall|i: int| 0 <= i < r.assertions@.len() ==> (#[trigger] r.assertions@[i]).passed)
            ==> tap_entry(r, n) == "ok "@ + decimal(n) + " - "@ + r.name@ + "\n"@,
        (r.response is Err || exists|i: int| 0 <= i < r.assertions@.len() && !(#[trigger] r.assertions@[i]).passed)
            ==> tap_entry(r, n).take("not ok "@.len() as int) == "not ok "@,
{
    if r.response is Err || exists|i: int| 0 <= i < r.assertions@.len() && !(#[trigger] r.assertions@[i]).passed {
        assert(!all_passed(r));
        let rest = decimal(n) + " - "@ + r.name@ + "\n"@ + tap_failures(checks_view(r.assertions@)) + match r.response {
            Err(e) => "  # ERROR "@ + e.message_spec() + "\n"@,
            Ok(_) => Seq::empty(),
        };
        assert(tap_entry(r, n) =~= "not ok "@ + rest);
        assert(("not ok "@ + rest).take("not ok "@.len() as int) =~= "not ok "@);
    }
}

/// A TAP test point lists every failed check of its request, each on a line
/// `  # FAIL [<rule>] <message>`.
pub proof fn law_tap_lists_failures(r: RequestResult, n: nat, i: int)
    requires
        0 <= i < r.assertions@.len(),
        !r.assertions@[i].passed,
    ensures
        contains_seq(
            tap_entry(r, n),
            "  # FAIL ["@ + r.assertions@[i].rule_name@ + "] "@ + r.assertions@[i].message@ + "\n"@,
        ),
{
    let cs = checks_view(r.assertions@);
    let line = "  # FAIL ["@ + r.assertions@[i].rule_name@ + "] "@ + r.assertions@[i].message@ + "\n"@;
    assert(!all_passed(r));
    assert(cs[i] == r.assertions@[i].view());
    let tail = lemma_tap_failures_prefix(cs, i + 1);
    assert(cs.take(i + 1).drop_last() =~= cs.take(i));
    assert(tap_failures(cs.take(i + 1)) =~= tap_failures(cs.take(i)) + line);
    let head = "not ok "@ + decimal(n) + " - "@ + r.name@ + "\n"@ + tap_failures(cs.take(i));
    let err = match r.response {
        Err(e) => "  # ERROR "@ + e.message_spec() + "\n"@,
        Ok(_) => Seq::empty(),
    };
    let entry = tap_entry(r, n);
    assert(entry =~= head + line + tail + err);
    let k = head.len() as int;
    assert(entry.subrange(k, k + line.len()) =~= line);
}

/// The JSON report of a load test holds, under `total_requests`, the number
/// of requests the tally counted, and under `errors` the number of errors;
/// each percentile appears in whole milliseconds, and the rate as given.
pub proof fn law_load_json_members(r: LoadReport)
    ensures
        json_get(load_json_view(r), "total_requests"@) == Some(JsonView::Number(NumberView::PosInt(r.total_reqs))),
        json_get(load_json_view(r), "errors"@) == Some(JsonView::Number(NumberView::PosInt(r.error_count))),
        json_get(load_json_view(r), "rps"@) == Some(r.rps_json@),
        json_get(load_json_view(r), "p50_ms"@) == Some(
            JsonView::Number(NumberView::PosInt(((r.p50.secs * 1_000_000_000 + r.p50.nanos) / 1_000_000) as u64)),
        ),
        json_get(load_json_view(r), "p90_ms"@) == Some(
            JsonView::Number(NumberView::PosInt(((r.p90.secs * 1_000_000_000 + r.p90.nanos) / 1_000_000) as u64)),
        ),
        json_get(load_json_view(r), "p99_ms"@) == Some(
            JsonView::Number(NumberView::PosInt(((r.p99.secs * 1_000_000_000 + r.p99.nanos) / 1_000_000) as u64)),
        ),
{
    reveal_strlit("total_requests");
    reveal_strlit("errors");
    reveal_strlit("rps");
    reveal_strlit("p50_ms");
    reveal_strlit("p90_ms");
    reveal_strlit("p99_ms");
    let es = load_json_view(r)->Object_0;
    assert(es.len() == 6);
    let keys = seq!["total_requests"@, "errors"@, "rps"@, "p50_ms"@, "p90_ms"@, "p99_ms"@];
    assert("total_requests"@.len() == 14 && "errors"@.len() == 6 && "rps"@.len() == 3);
    assert("p50_ms"@.len() == 6 && "p90_ms"@.len() == 6 && "p99_ms"@.len() == 6);
    assert("errors"@[0] == 'e' && "p50_ms"@[0] == 'p' && "p90_ms"@[0] == 'p' && "p99_ms"@[0] == 'p');
    assert("p50_ms"@[1] == '5' && "p90_ms"@[1] == '9' && "p99_ms"@[1] == '9');
    assert("p90_ms"@[2] == '0' && "p99_ms"@[2] == '9');
    assert forall|a: int, b: int| 0 <= a < b < 6 implies keys[a] != keys[b] by {
        if a == 1 && b >= 3 {
            assert(keys[a][0] != keys[b][0]);
        } else if a == 3 && b >= 4 {
            assert(keys[a][1] != keys[b][1]);
        } else if a == 4 && b == 5 {
            assert(keys[a][2] != keys[b][2]);
        } else {
            assert(keys[a].len() != keys[b].len());
        }
    }
    assert forall|j: int| 0 <= j < 6 implies es[j].key == keys[j] by {}
    assert forall|j: int| 0 <= j < 6 implies member_index(es, #[trigger] keys[j]) == j by {
        lemma_member_index_last_unique(es, keys, j);
    }
    assert(keys[0] == "total_requests"@);
    assert(keys[1] == "errors"@);
    assert(keys[2] == "rps"@);
    assert(keys[3] == "p50_ms"@);
    assert(keys[4] == "p90_ms"@);
    assert(keys[5] == "p99_ms"@);
}

/// In a list whose keys are pairwise distinct, a key is found where it is.
proof fn lemma_member_index_last_unique(es: Seq<MemberView>, keys: Seq<Seq<char>>, j: int)
    requires
        es.len() == keys.len(),
        0 <= j < es.len(),
        forall|q: int| 0 <= q < es.len() ==> es[q].key == keys[q],
        forall|a: int, b: int| 0 <= a < b < keys.len() ==> keys[a] != keys[b],
    ensures
        member_index(es, keys[j]) == j,
    decreases es.len(),
{
    if j < es.len() - 1 {
        assert(keys[j] != keys[es.len() - 1]);
        assert(es.last().key != keys[j]);
        assert(forall|q: int| 0 <= q < es.len() - 1 ==> es.drop_last()[q].key == keys.drop_last()[q]);
        lemma_member_index_last_unique(es.drop_last(), keys.drop_last(), j);
    }
}

/// The header checks among the first `n` pairs: the check of a pair that
/// counts sits after those of the names counted before it.
proof fn lemma_header_check_at(hs: Seq<(String, String)>, n: int, p: int, got: Seq<(String, String)>)
    requires
        0 <= p < n <= hs.len(),
        header_index(hs, hs[p].0@) == p,
    ensures
        header_checks_upto(hs, n, got).len() > header_name_count(hs, p),
        header_checks_upto(hs, n, got)[header_name_count(hs, p)] == header_check(hs[p].0@, hs[p].1@, got),
    decreases n,
{
    lemma_header_checks_len(hs, p, got);
    if n > p + 1 {
        lemma_header_check_at(hs, n - 1, p, got);
    }
}

/// The pair that counts for a name is the last pair with it; with no pair
/// of that name, there is none.
proof fn lemma_header_index_last(hs: Seq<(String, String)>, k: Seq<char>)
    ensures
        header_index(hs, k) >= 0 ==> header_index(hs, k) < hs.len() && hs[header_index(hs, k)].0@ == k
            && forall|q: int| header_index(hs, k) < q < hs.len() ==> (#[trigger] hs[q]).0@ != k,
        header_index(hs, k) < 0 ==> header_index(hs, k) == -1 && forall|q: int| 0 <= q < hs.len() ==> (
        #[trigger] hs[q]).0@ != k,
    decreases hs.len(),
{
    if hs.len() > 0 {
        let n = hs.len() - 1;
        if hs.last().0@ == k {
            assert(header_index(hs, k) == n);
        } else {
            let d = hs.drop_last();
            lemma_header_index_last(d, k);
            assert(header_index(hs, k) == header_index(d, k));
            assert forall|q: int| 0 <= q < n implies hs[q] == (#[trigger] d[q]) by {}
            if header_index(d, k) >= 0 {
                let i = header_index(d, k);
                assert(d[i] == hs[i]);
                assert forall|q: int| i < q < hs.len() implies (#[trigger] hs[q]).0@ != k by {
                    if q < n {
                        assert(d[q] == hs[q]);
                    }
                }
            } else {
                assert forall|q: int| 0 <= q < hs.len() implies (#[trigger] hs[q]).0@ != k by {
                    if q < n {
                        assert(d[q] == hs[q]);
                    }
                }
            }
        }
    }
}

/// The value of a header is that of the last pair with its name.
proof fn lemma_header_value_last(hs: Seq<(String, String)>, k: Seq<char>, v: Seq<char>)
    ensures
        header_value(hs, k) == Some(v) <==> exists|j: int|
            0 <= j < hs.len() && hs[j].0@ == k && hs[j].1@ == v && forall|q: int|
                j < q < hs.len() ==> (#[trigger] hs[q]).0@ != k,
{
    lemma_header_index_last(hs, k);
    let idx = header_index(hs, k);
    if header_value(hs, k) == Some(v) {
        assert(0 <= idx < hs.len() && hs[idx].0@ == k && hs[idx].1@ == v);
    }
    if exists|j: int|
        0 <= j < hs.len() && hs[j].0@ == k && hs[j].1@ == v && forall|q: int|
            j < q < hs.len() ==> (#[trigger] hs[q]).0@ != k {
        let j = choose|j: int|
            0 <= j < hs.len() && hs[j].0@ == k && hs[j].1@ == v && forall|q: int|
                j < q < hs.len() ==> (#[trigger] hs[q]).0@ != k;
        assert(hs[j].0@ == k);
        assert(idx >= 0);
        if idx < j {
            assert(hs[j].0@ != k);
        } else if idx > j {
            assert(hs[idx].0@ != k);
        }
        assert(idx == j);
    }
}

/// The header check: for each expected header name (the last pair given for
/// it counts), the check made for it passes exactly when the response's last
/// header of that name has the expected value. It comes after the status,
/// body-text and latency checks that are present, and after those of the
/// names counted before it.
pub proof fn law_header_check(a: ValidatedAssert, r: ResponseData, p: int)
    requires
        a.headers is Some,
        0 <= p < a.headers->0@.len(),
        header_index(a.headers->0@, a.headers->0@[p].0@) == p,
    ensures
        ({
            let hs = a.headers->0@;
            let k = hs[p].0@;
            let v = hs[p].1@;
            let idx = (if a.status is Some { 1int } else { 0int }) + (if a.body_contains is Some { 1int } else { 0int })
                + (if a.latency_lt is Some { 1int } else { 0int }) + header_name_count(hs, p);
            &&& all_checks(a, r).len() > idx
            &&& all_checks(a, r)[idx].rule == "Header '"@ + k + "'"@
            &&& all_checks(a, r)[idx].message == "Expected header '"@ + k + "' to be '"@ + v + "'"@
            &&& (all_checks(a, r)[idx].passed <==> exists|j: int|
                0 <= j < r.headers@.len() && r.headers@[j].0@ == k && r.headers@[j].1@ == v && forall|q: int|
                    j < q < r.headers@.len() ==> (#[trigger] r.headers@[q]).0@ != k)
        }),
{
    let hs = a.headers->0@;
    lemma_header_check_at(hs, hs.len() as int, p, r.headers@);
    lemma_header_value_last(r.headers@, hs[p].0@, hs[p].1@);
    let pre = status_part(a, r) + contains_part(a, r) + latency_part(a, r);
    let hc = headers_part(a, r);
    assert(hc == header_checks_upto(hs, hs.len() as int, r.headers@));
    let c = header_name_count(hs, p);
    assert(all_checks(a, r) == pre + hc + json_part(a, r));
    lemma_header_checks_len(hs, p, r.headers@);
    assert(0 <= c < hc.len());
    assert((pre + hc)[pre.len() + c] == hc[c]);
    assert((pre + hc + json_part(a, r))[pre.len() + c] == (pre + hc)[pre.len() + c]);
    assert(header_check(hs[p].0@, hs[p].1@, r.headers@).passed == (header_value(r.headers@, hs[p].0@) == Some(hs[p].1@)));
}

/// No expected member fails exactly when no failed key is listed.
proof fn lemma_failed_keys_empty(es: Seq<MemberView>, n: int, parsed: JsonView)
    requires
        0 <= n <= es.len(),
    ensures
        failed_keys(es, n, parsed).len() == 0 <==> forall|i: int| 0 <= i < n ==> !member_fails(es, i, parsed),
    decreases n,
{
    if n > 0 {
        lemma_failed_keys_empty(es, n - 1, parsed);
    }
}

/// The JSON body check, made last: a body that is not JSON fails it; an
/// expected object passes exactly when every key it gives is in the body
/// with a value equal to the one expected for it (other keys of the body do
/// not matter); any other expected value passes exactly when the body
/// equals it.
pub proof fn law_json_body_check(a: ValidatedAssert, r: ResponseData)
    requires
        a.body_json is Some,
    ensures
        ({
            let e = a.body_json->0@;
            let cs = all_checks(a, r);
            &&& cs.len() >= 1
            &&& cs[cs.len() - 1].rule == "Body JSON"@
            &&& json_parse_text(r.body@) is None ==> !cs[cs.len() - 1].passed
            &&& (json_parse_text(r.body@) is Some && !(e is Object)) ==> (cs[cs.len() - 1].passed
                <==> json_eq(json_parse_text(r.body@)->0, e))
            &&& (json_parse_text(r.body@) is Some && e is Object) ==> (cs[cs.len() - 1].passed
                <==> forall|i: int|
                0 <= i < e->Object_0.len() ==> (json_get(json_parse_text(r.body@)->0, (#[trigger] e->Object_0[i]).key) matches Some(x)
                    && json_eq(x, json_get(e, e->Object_0[i].key)->0)))
        }),
{
    let e = a.body_json->0@;
    law_check_count(a, r);
    if let Some(p) = json_parse_text(r.body@) {
        if let JsonView::Object(es) = e {
            lemma_failed_keys_empty(es, es.len() as int, p);
            assert forall|i: int| 0 <= i < es.len() implies member_index(es, #[trigger] es[i].key) >= 0 by {
                lemma_member_index_found(es, i);
            }
            if forall|i: int| 0 <= i < es.len() ==> !member_fails(es, i, p) {
                assert forall|i: int| 0 <= i < es.len() implies (json_get(p, (#[trigger] es[i]).key) matches Some(x)
                    && json_eq(x, json_get(e, es[i].key)->0)) by {
                    let m = member_index(es, es[i].key);
                    lemma_member_index_found(es, i);
                    assert(!member_fails(es, m, p));
                }
            }
            if forall|i: int| 0 <= i < es.len() ==> (json_get(p, (#[trigger] es[i]).key) matches Some(x)
                && json_eq(x, json_get(e, es[i].key)->0)) {
                assert forall|i: int| 0 <= i < es.len() implies !member_fails(es, i, p) by {
                    assert(json_get(p, es[i].key) matches Some(x) && json_eq(x, json_get(e, es[i].key)->0));
                }
            }
        }
    }
}

/// The number that a text of decimal digits denotes.
pub open spec fn digits_value(s: Seq<char>) -> int
    decreases s.len(),
{
    if s.len() == 0 {
        0
    } else {
        digits_value(s.drop_last()) * 10 + (s.last() as int - '0' as int)
    }
}

/// The character of a digit denotes it.
proof fn lemma_digit_char(k: nat)
    requires
        k < 10,
    ensures
        crate::text::digit_char(k) as int - '0' as int == k,
        '0' <= crate::text::digit_char(k) <= '9',
        k != 0 ==> crate::text::digit_char(k) != '0',
{
}

/// The decimal notation of a number: every character is a digit, the
/// digits denote the number, and there is no leading zero (but for zero
/// itself, written `0`).
pub proof fn law_decimal_notation(n: nat)
    ensures
        decimal(n).len() >= 1,
        forall|i: int| 0 <= i < decimal(n).len() ==> '0' <= #[trigger] decimal(n)[i] <= '9',
        digits_value(decimal(n)) == n,
        decimal(n).len() > 1 ==> decimal(n)[0] != '0',
    decreases n,
{
    lemma_digit_char(n % 10);
    if n < 10 {
        assert(decimal(n) == seq![crate::text::digit_char(n)]);
        assert(decimal(n).drop_last() =~= Seq::<char>::empty());
        assert(digits_value(decimal(n)) == digits_value(Seq::<char>::empty()) * 10 + (crate::text::digit_char(n) as int
            - '0' as int));
    } else {
        let m = n / 10;
        law_decimal_notation(m);
        let d = decimal(m);
        let c = crate::text::digit_char(n % 10);
        assert(decimal(n) == d.push(c));
        assert(decimal(n).drop_last() =~= d);
        assert(decimal(n).last() == c);
        assert(digits_value(decimal(n)) == digits_value(d) * 10 + (c as int - '0' as int));
        assert(n == m * 10 + n % 10);
        assert(decimal(n)[0] == d[0]);
        if m < 10 {
            lemma_digit_char(m);
            assert(d == seq![crate::text::digit_char(m)]);
        } else {
            law_decimal_notation(m / 10);
            assert(d == decimal(m / 10).push(crate::text::digit_char(m % 10)));
        }
        assert forall|i: int| 0 <= i < decimal(n).len() implies '0' <= #[trigger] decimal(n)[i] <= '9' by {
            if i < d.len() {
                assert(decimal(n)[i] == d[i]);
            }
        }
    }
}

/// Equality of JSON numbers: integers are equal when they have the same
/// value, whatever their sign kind; an integer never equals a float; floats
/// with the same printed text are equal, and so are the two zeros.
pub proof fn law_number_eq(a: NumberView, b: NumberView)
    ensures
        (!(a is Float) && !(b is Float)) ==> (number_eq(a, b) <==> (match a {
            NumberView::PosInt(u) => u as int,
            NumberView::NegInt(i) => i as int,
            _ => 0,
        }) == (match b {
            NumberView::PosInt(u) => u as int,
            NumberView::NegInt(i) => i as int,
            _ => 0,
        })),
        (a is Float) != (b is Float) ==> !number_eq(a, b),
        (a is Float && b is Float && a->Float_0 == b->Float_0) ==> number_eq(a, b),
        (a is Float && b is Float && a->Float_0 == seq!['0', '.', '0'] && b->Float_0 == seq!['-', '0', '.', '0'])
            ==> number_eq(a, b),
{
}

/// A TAP test point of a request that got no response ends with a line
/// `  # ERROR <description of the error>`.
pub proof fn law_tap_error_line(r: RequestResult, n: nat)
    requires
        r.response is Err,
    ensures
        contains_seq(tap_entry(r, n), "  # ERROR "@ + r.response->Err_0.message_spec() + "\n"@),
{
    assert(!all_passed(r));
    let x = "  # ERROR "@ + r.response->Err_0.message_spec() + "\n"@;
    let head = "not ok "@ + decimal(n) + " - "@ + r.name@ + "\n"@ + tap_failures(checks_view(r.assertions@));
    assert(tap_entry(r, n) =~= head + x);
    assert((head + x).subrange(head.len() as int, (head.len() + x.len()) as int) =~= x);
}

} // verus!
