//! Properties of the reports, stated over what each report shows of its
//! inputs.

use vstd::prelude::*;
use crate::assertions::{checks_view, Check};
use crate::json::{json_get, member_index, JsonView, MemberView, NumberView};
use crate::report::{
    check_line, check_lines, load_tap_text, load_terminal_text, outcome_text, results_json_view, tap_text,
    terminal_section, terminal_text, LoadReport, TerminalStyles,
};
use crate::runner::RequestResult;
use crate::text::{contains_seq, decimal};

verus! {

/// A text occurs in any text built around it.
pub proof fn lemma_contains_mid(a: Seq<char>, x: Seq<char>, b: Seq<char>)
    ensures
        contains_seq(a + x + b, x),
{
    let h = a + x + b;
    assert(h.subrange(a.len() as int, (a.len() + x.len()) as int) =~= x);
}

/// A text that occurs in a part occurs in the whole.
pub proof fn lemma_contains_within(a: Seq<char>, h: Seq<char>, b: Seq<char>, x: Seq<char>)
    requires
        contains_seq(h, x),
    ensures
        contains_seq(a + h + b, x),
{
    let i = choose|i: int| 0 <= i <= h.len() - x.len() && #[trigger] h.subrange(i, i + x.len()) == x;
    let w = a + h + b;
    assert(w.subrange(a.len() + i, a.len() + i + x.len()) =~= h.subrange(i, i + x.len()));
}

/// In a list whose keys are pairwise distinct, a key is found where it is.
proof fn lemma_distinct_key_index(es: Seq<MemberView>, keys: Seq<Seq<char>>, j: int)
    requires
        es.len() == keys.len(),
        0 <= j < es.len(),
        forall|q: int| 0 <= q < es.len() ==> es[q].key == keys[q],
        forall|a: int, b: int| 0 <= a < b < keys.len() ==> keys[a] != keys[b],
    ensures
        member_index(es, keys[j]) == j,
    decreases es.len(),
{
    if j < es.len() - 1 {
        assert(keys[j] != keys[es.len() - 1]);
        assert(forall|q: int| 0 <= q < es.len() - 1 ==> es.drop_last()[q].key == keys.drop_last()[q]);
        lemma_distinct_key_index(es.drop_last(), keys.drop_last(), j);
    }
}

/// The JSON report lists one object per request, in order. Each holds the
/// request's name; the response status, or 0 when no response came; the
/// latency in whole milliseconds, or 0; null as its error when a response
/// came, or the error's description; and, when a response came, one object
/// per check in order, with the check's rule, whether it passed, and its
/// message (none when no response came).
pub proof fn law_json_report(rs: Seq<RequestResult>)
    ensures
        results_json_view(rs) is Array,
        results_json_view(rs)->Array_0.len() == rs.len(),
        forall|i: int|
            0 <= i < rs.len() ==> {
                let o = #[trigger] results_json_view(rs)->Array_0[i];
                let r = rs[i];
                &&& json_get(o, "name"@) == Some(JsonView::String(r.name@))
                &&& json_get(o, "status"@) == Some(
                    JsonView::Number(
                        NumberView::PosInt(
                            match r.response {
                                Ok(resp) => resp.status as u64,
                                Err(_) => 0,
                            },
                        ),
                    ),
                )
                &&& json_get(o, "latency_ms"@) == Some(
                    JsonView::Number(
                        NumberView::PosInt(
                            match r.response {
                                Ok(resp) => ((resp.latency.secs * 1_000_000_000 + resp.latency.nanos) / 1_000_000) as u64,
                                Err(_) => 0,
                            },
                        ),
                    ),
                )
                &&& json_get(o, "error"@) == Some(
                    match r.response {
                        Ok(_) => JsonView::Null,
                        Err(e) => JsonView::String(e.message_spec()),
                    },
                )
                &&& json_get(o, "assertions"@) matches Some(JsonView::Array(xs)) && xs.len() == (match r.response {
                    Ok(_) => r.assertions@.len(),
                    Err(_) => 0,
                }) && forall|j: int|
                    0 <= j < xs.len() ==> {
                        &&& json_get(#[trigger] xs[j], "rule"@) == Some(JsonView::String(r.assertions@[j].rule_name@))
                        &&& json_get(xs[j], "passed"@) == Some(JsonView::Bool(r.assertions@[j].passed))
                        &&& json_get(xs[j], "message"@) == Some(JsonView::String(r.assertions@[j].message@))
                    }
            },
{
    reveal_strlit("name");
    reveal_strlit("status");
    reveal_strlit("latency_ms");
    reveal_strlit("error");
    reveal_strlit("assertions");
    reveal_strlit("rule");
    reveal_strlit("passed");
    reveal_strlit("message");
    let keys = seq!["name"@, "status"@, "latency_ms"@, "error"@, "assertions"@];
    assert("name"@.len() == 4 && "status"@.len() == 6 && "latency_ms"@.len() == 10 && "error"@.len() == 5
        && "assertions"@.len() == 10);
    assert("latency_ms"@[0] == 'l' && "assertions"@[0] == 'a');
    assert forall|a: int, b: int| 0 <= a < b < 5 implies keys[a] != keys[b] by {
        if a == 2 && b == 4 {
            assert(keys[a][0] != keys[b][0]);
        } else {
            assert(keys[a].len() != keys[b].len());
        }
    }
    let ckeys = seq!["rule"@, "passed"@, "message"@];
    assert("rule"@.len() == 4 && "passed"@.len() == 6 && "message"@.len() == 7);
    assert forall|a: int, b: int| 0 <= a < b < 3 implies ckeys[a] != ckeys[b] by {
        assert(ckeys[a].len() != ckeys[b].len());
    }
    assert forall|i: int| 0 <= i < rs.len() implies {
        let o = #[trigger] results_json_view(rs)->Array_0[i];
        let r = rs[i];
        &&& json_get(o, "name"@) == Some(JsonView::String(r.name@))
        &&& json_get(o, "status"@) == Some(
            JsonView::Number(
                NumberView::PosInt(
                    match r.response {
                        Ok(resp) => resp.status as u64,
                        Err(_) => 0,
                    },
                ),
            ),
        )
        &&& json_get(o, "latency_ms"@) == Some(
            JsonView::Number(
                NumberView::PosInt(
                    match r.response {
                        Ok(resp) => ((resp.latency.secs * 1_000_000_000 + resp.latency.nanos) / 1_000_000) as u64,
                        Err(_) => 0,
                    },
                ),
            ),
        )
        &&& json_get(o, "error"@) == Some(
            match r.response {
                Ok(_) => JsonView::Null,
                Err(e) => JsonView::String(e.message_spec()),
            },
        )
        &&& json_get(o, "assertions"@) matches Some(JsonView::Array(xs)) && xs.len() == (match r.response {
            Ok(_) => r.assertions@.len(),
            Err(_) => 0,
        }) && forall|j: int|
            0 <= j < xs.len() ==> {
                &&& json_get(#[trigger] xs[j], "rule"@) == Some(JsonView::String(r.assertions@[j].rule_name@))
                &&& json_get(xs[j], "passed"@) == Some(JsonView::Bool(r.assertions@[j].passed))
                &&& json_get(xs[j], "message"@) == Some(JsonView::String(r.assertions@[j].message@))
            }
    } by {
        let o = results_json_view(rs)->Array_0[i];
        let es = o->Object_0;
        assert(forall|q: int| 0 <= q < 5 ==> es[q].key == keys[q]);
        assert forall|j: int| 0 <= j < 5 implies member_index(es, #[trigger] keys[j]) == j by {
            lemma_distinct_key_index(es, keys, j);
        }
        assert(keys[0] == "name"@ && keys[1] == "status"@ && keys[2] == "latency_ms"@ && keys[3] == "error"@
            && keys[4] == "assertions"@);
        let r = rs[i];
        if r.response is Ok {
            let xs = es[4].value->Array_0;
            assert forall|j: int| 0 <= j < xs.len() implies {
                &&& json_get(#[trigger] xs[j], "rule"@) == Some(JsonView::String(r.assertions@[j].rule_name@))
                &&& json_get(xs[j], "passed"@) == Some(JsonView::Bool(r.assertions@[j].passed))
                &&& json_get(xs[j], "message"@) == Some(JsonView::String(r.assertions@[j].message@))
            } by {
                let cs = xs[j]->Object_0;
                assert(forall|q: int| 0 <= q < 3 ==> cs[q].key == ckeys[q]);
                assert forall|q: int| 0 <= q < 3 implies member_index(cs, #[trigger] ckeys[q]) == q by {
                    lemma_distinct_key_index(cs, ckeys, q);
                }
                assert(ckeys[0] == "rule"@ && ckeys[1] == "passed"@ && ckeys[2] == "message"@);
            }
        }
    }
}

/// The TAP report begins with the version line and the plan `1..n`, where
/// `n` is the number of requests.
pub proof fn law_tap_plan(rs: Seq<RequestResult>)
    ensures
        ({
            let head = "TAP version 14\n1.."@ + decimal(rs.len()) + "\n"@;
            tap_text(rs).take(head.len() as int) == head
        }),
{
    let head = "TAP version 14\n1.."@ + decimal(rs.len()) + "\n"@;
    assert(tap_text(rs).take(head.len() as int) =~= head);
}

/// The TAP report of a load test has one test point, which passes exactly
/// when no request failed; a failing one says how many of how many failed.
pub proof fn law_load_tap_verdict(r: LoadReport)
    ensures
        r.error_count == 0 ==> load_tap_text(r).take("TAP version 14\n1..1\nok 1 - load test ("@.len() as int)
            == "TAP version 14\n1..1\nok 1 - load test ("@,
        r.error_count != 0 ==> load_tap_text(r) == "TAP version 14\n1..1\nnot ok 1 - load test ("@ + decimal(
            r.error_count as nat,
        ) + " errors out of "@ + decimal(r.total_reqs as nat) + " requests)"@,
{
    if r.error_count == 0 {
        let p = "TAP version 14\n1..1\nok 1 - load test ("@;
        assert(load_tap_text(r).take(p.len() as int) =~= p);
    }
}

/// The terminal listing of a load test shows the number of requests and the
/// number of errors, each on a line of its own.
pub proof fn law_load_terminal_counts(r: LoadReport, heading: Seq<char>)
    ensures
        contains_seq(load_terminal_text(r, heading), "\n  total requests: "@ + decimal(r.total_reqs as nat) + "\n"@),
        contains_seq(load_terminal_text(r, heading), "\n  errors:         "@ + decimal(r.error_count as nat) + "\n"@),
{
    let t = load_terminal_text(r, heading);
    let x = "\n  total requests: "@ + decimal(r.total_reqs as nat) + "\n"@;
    let y = "\n  errors:         "@ + decimal(r.error_count as nat) + "\n"@;
    let a = "\n"@ + heading;
    let mid = "  errors:         "@ + decimal(r.error_count as nat);
    let rest = "  rps:            "@ + r.rps_text@ + "\n  p50:            "@ + crate::span::duration_debug_text(
        r.p50.secs,
        r.p50.nanos,
    ) + "\n  p90:            "@ + crate::span::duration_debug_text(r.p90.secs, r.p90.nanos)
        + "\n  p99:            "@ + crate::span::duration_debug_text(r.p99.secs, r.p99.nanos);
    reveal_strlit("\n  total requests: ");
    reveal_strlit("\n  errors:         ");
    reveal_strlit("\n  rps:            ");
    reveal_strlit("  errors:         ");
    reveal_strlit("  rps:            ");
    reveal_strlit("\n");
    assert("\n  errors:         "@ =~= "\n"@ + "  errors:         "@);
    assert("\n  rps:            "@ =~= "\n"@ + "  rps:            "@);
    assert(t =~= a + x + mid + "\n"@ + rest);
    lemma_contains_mid(a, x, mid + "\n"@ + rest);
    assert(a + x + (mid + "\n"@ + rest) =~= t);
    let b = a + "\n  total requests: "@ + decimal(r.total_reqs as nat);
    assert(t =~= b + y + rest);
    lemma_contains_mid(b, y, rest);
}

/// The check lines of the first `j` checks begin the check lines of all.
proof fn lemma_check_lines_prefix(cs: Seq<Check>, j: int, pass: Seq<char>, fail: Seq<char>) -> (tail: Seq<char>)
    requires
        0 <= j <= cs.len(),
    ensures
        check_lines(cs, pass, fail) == check_lines(cs.take(j), pass, fail) + tail,
    decreases cs.len(),
{
    if j == cs.len() {
        assert(cs.take(j) =~= cs);
        assert(check_lines(cs, pass, fail) =~= check_lines(cs.take(j), pass, fail) + Seq::<char>::empty());
        Seq::empty()
    } else {
        assert(cs.drop_last().take(j) =~= cs.take(j));
        let t = lemma_check_lines_prefix(cs.drop_last(), j, pass, fail);
        let l = check_line(cs.last(), pass, fail);
        assert(check_lines(cs, pass, fail) =~= check_lines(cs.take(j), pass, fail) + (t + l));
        t + l
    }
}

/// The listing of the first `m` requests begins the listing of the first `n`.
proof fn lemma_terminal_prefix(rs: Seq<RequestResult>, st: TerminalStyles, m: int, n: int) -> (tail: Seq<char>)
    requires
        0 <= m <= n,
    ensures
        terminal_text(rs, st, n) == terminal_text(rs, st, m) + tail,
    decreases n,
{
    if m == n {
        assert(terminal_text(rs, st, n) =~= terminal_text(rs, st, m) + Seq::<char>::empty());
        Seq::empty()
    } else {
        let t = lemma_terminal_prefix(rs, st, m, n - 1);
        let s = terminal_section(rs[n - 1], st.names@[n - 1]@, st);
        assert(terminal_text(rs, st, n) =~= terminal_text(rs, st, m) + (t + s));
        t + s
    }
}

/// The terminal listing shows every request: its styled name on a line of
/// its own; then, when no response came, the error label and the error's
/// description; when a response came with no checks, the `OK` label and
/// `(no assertions)`; otherwise a line per check, with the `PASS` label when
/// it passed and the `FAIL` label when it failed, its rule and its message.
pub proof fn law_terminal_listing(rs: Seq<RequestResult>, st: TerminalStyles, i: int)
    requires
        0 <= i < rs.len(),
    ensures
        ({
            let t = terminal_text(rs, st, rs.len() as int);
            let r = rs[i];
            &&& contains_seq(t, "\n"@ + st.names@[i]@ + "\n"@)
            &&& (r.response matches Err(e) ==> contains_seq(
                t,
                "  "@ + st.error@ + " network error: "@ + e.message_spec() + "\n"@,
            ))
            &&& (r.response is Ok && r.assertions@.len() == 0 ==> contains_seq(
                t,
                "  "@ + st.ok@ + " (no assertions)\n"@,
            ))
            &&& (r.response is Ok ==> forall|j: int|
                0 <= j < r.assertions@.len() ==> contains_seq(
                    t,
                    "  "@ + (if (#[trigger] r.assertions@[j]).passed {
                        st.pass@
                    } else {
                        st.fail@
                    }) + " ["@ + r.assertions@[j].rule_name@ + "] "@ + r.assertions@[j].message@ + "\n"@,
                ))
        }),
{
    let n = rs.len() as int;
    let t = terminal_text(rs, st, n);
    let r = rs[i];
    let tail = lemma_terminal_prefix(rs, st, i + 1, n);
    let before = terminal_text(rs, st, i);
    let o = outcome_text(r, st);
    assert(t =~= before + ("\n"@ + st.names@[i]@ + "\n"@) + (o + tail));
    lemma_contains_mid(before, "\n"@ + st.names@[i]@ + "\n"@, o + tail);
    let pre = before + ("\n"@ + st.names@[i]@ + "\n"@);
    assert(t =~= pre + o + tail);
    match r.response {
        Err(e) => {
            let x = "  "@ + st.error@ + " network error: "@ + e.message_spec() + "\n"@;
            assert(o == x);
            lemma_contains_mid(pre, x, tail);
        },
        Ok(resp) => {
            let d = "  duration: "@ + crate::span::duration_debug_text(resp.latency.secs, resp.latency.nanos) + "\n"@;
            if r.assertions@.len() == 0 {
                let x = "  "@ + st.ok@ + " (no assertions)\n"@;
                assert(o == d + x);
                assert(t =~= (pre + d) + x + tail);
                lemma_contains_mid(pre + d, x, tail);
            } else {
                let cs = checks_view(r.assertions@);
                assert(o == d + check_lines(cs, st.pass@, st.fail@));
                assert forall|j: int| 0 <= j < r.assertions@.len() implies contains_seq(
                    t,
                    "  "@ + (if (#[trigger] r.assertions@[j]).passed {
                        st.pass@
                    } else {
                        st.fail@
                    }) + " ["@ + r.assertions@[j].rule_name@ + "] "@ + r.assertions@[j].message@ + "\n"@,
                ) by {
                    let line = check_line(cs[j], st.pass@, st.fail@);
                    assert(cs[j] == r.assertions@[j].view());
                    let ct = lemma_check_lines_prefix(cs, j + 1, st.pass@, st.fail@);
                    assert(cs.take(j + 1).drop_last() =~= cs.take(j));
                    let lines = check_lines(cs.take(j), st.pass@, st.fail@);
                    assert(check_lines(cs, st.pass@, st.fail@) =~= lines + line + ct);
                    assert(t =~= (pre + d + lines) + line + (ct + tail));
                    lemma_contains_mid(pre + d + lines, line, ct + tail);
                    assert(line =~= "  "@ + (if r.assertions@[j].passed {
                        st.pass@
                    } else {
                        st.fail@
                    }) + " ["@ + r.assertions@[j].rule_name@ + "] "@ + r.assertions@[j].message@ + "\n"@);
                }
            }
        },
    }
}

} // verus!
