//! Properties of checking a configuration, stated over the configuration as
//! read and the configuration as checked.

use vstd::prelude::*;
use crate::assertions::all_checks;
use crate::config::{TestConfig, ValidatedLoadConfig, ValidatedTestConfig};
use crate::config::error::Fault;
use crate::config::validate::{
    assert_checked, config_checked, config_fault, humantime_span, load_checked, load_fault, load_overridden,
    name_position, request_checked, request_fault, request_names, requests_fault, unknown_name, url_join_text,
    url_parse_text,
};
use crate::http::{HttpError, ResponseData};
use crate::json::{opt_view, yaml_json_value};
use crate::runner::recorded_checks;
use crate::config::ValidatedAssert;
use crate::span::Span;

verus! {

/// The timeout text of a configuration: the one given, or `30s`.
pub open spec fn given_timeout(c: TestConfig) -> Seq<char> {
    match c.timeout {
        Some(t) => t@,
        None => seq!['3', '0', 's'],
    }
}

/// The position of a name is that of its first occurrence; with no
/// occurrence there is none.
proof fn lemma_name_position_first(names: Seq<Seq<char>>, n: Seq<char>)
    ensures
        name_position(names, n) >= 0 ==> name_position(names, n) < names.len() && names[name_position(names, n)] == n
            && forall|q: int| 0 <= q < name_position(names, n) ==> names[q] != n,
        name_position(names, n) < 0 ==> name_position(names, n) == -1 && forall|q: int| 0 <= q < names.len() ==> names[q]
            != n,
    decreases names.len(),
{
    if names.len() > 0 {
        let d = names.drop_last();
        lemma_name_position_first(d, n);
        assert forall|q: int| 0 <= q < d.len() implies names[q] == d[q] by {}
    }
}

/// A name that no request has is reported: the list of load-test names then
/// has an unknown name.
proof fn lemma_unknown_found(ns: Seq<String>, names: Seq<Seq<char>>, j: int)
    requires
        0 <= j < ns.len(),
        forall|q: int| 0 <= q < names.len() ==> names[q] != ns[j]@,
    ensures
        unknown_name(ns, names) is Some,
    decreases ns.len(),
{
    lemma_name_position_first(names, ns[j]@);
    if j < ns.len() - 1 {
        assert(ns.drop_last()[j] == ns[j]);
        lemma_unknown_found(ns.drop_last(), names, j);
    } else {
        lemma_name_position_first(names, ns.last()@);
    }
}

/// A fault found in one request is a fault of the request list.
proof fn lemma_request_fault_found(rs: Seq<crate::config::RequestConfig>, base: Seq<char>, i: int)
    requires
        0 <= i < rs.len(),
        request_fault(rs[i], base) is Some,
    ensures
        requests_fault(rs, base) is Some,
    decreases rs.len(),
{
    if i < rs.len() - 1 {
        assert(rs.drop_last()[i] == rs[i]);
        lemma_request_fault_found(rs.drop_last(), base, i);
    }
}

/// Checking a configuration reports its faults in order: first a base URL
/// that does not parse, then a timeout (`30s` when none is given) that does
/// not parse; a request path that does not resolve, or a load section that
/// names a request that does not exist, is also reported.
pub proof fn law_config_faults(c: TestConfig)
    ensures
        url_parse_text(c.base_url@) is None ==> config_fault(c) == Some(Fault::BadUrl(c.base_url@)),
        url_parse_text(c.base_url@) is Some && humantime_span(given_timeout(c)) is None ==> config_fault(c) == Some(
            Fault::BadDuration(given_timeout(c)),
        ),
        forall|i: int|
            0 <= i < c.requests@.len() && url_parse_text(c.base_url@) is Some && url_join_text(
                url_parse_text(c.base_url@)->0,
                (#[trigger] c.requests@[i]).path@,
            ) is None ==> config_fault(c) is Some,
        (c.load matches Some(l) && l.requests matches Some(ns) && exists|j: int|
            #![trigger ns@[j]]
            0 <= j < ns@.len() && forall|q: int| 0 <= q < c.requests@.len() ==> (#[trigger] c.requests@[q]).name@ != ns@[j]@)
            ==> config_fault(c) is Some,
{
    assert(given_timeout(c) == crate::config::validate::timeout_text(c));
    assert forall|i: int|
        0 <= i < c.requests@.len() && url_parse_text(c.base_url@) is Some && url_join_text(
            url_parse_text(c.base_url@)->0,
            (#[trigger] c.requests@[i]).path@,
        ) is None implies config_fault(c) is Some by {
        let base = url_parse_text(c.base_url@)->0;
        lemma_request_fault_found(c.requests@, base, i);
    }
    if c.load matches Some(l) && l.requests matches Some(ns) && exists|j: int|
        #![trigger ns@[j]]
        0 <= j < ns@.len() && forall|q: int| 0 <= q < c.requests@.len() ==> (#[trigger] c.requests@[q]).name@ != ns@[j]@ {
        let l = c.load->0;
        let ns = l.requests->0;
        let j = choose|j: int|
            #![trigger ns@[j]]
            0 <= j < ns@.len() && forall|q: int| 0 <= q < c.requests@.len() ==> (#[trigger] c.requests@[q]).name@ != ns@[j]@;
        let names = request_names(c.requests@);
        assert forall|q: int| 0 <= q < names.len() implies names[q] != ns@[j]@ by {
            assert(names[q] == c.requests@[q].name@);
        }
        lemma_unknown_found(ns@, names, j);
    }
}

/// A checked configuration keeps what was configured: the timeout is what
/// the given text (`30s` when none) parses to; each request's assertions are
/// its configured ones, with the latency bound parsed and the expected body
/// converted; the load section keeps its concurrency, duration and ramp-up,
/// and uses every request in order when it names none, or else, for each
/// name, the first request of that name.
pub proof fn law_validation_keeps_settings(c: TestConfig, v: ValidatedTestConfig)
    requires
        config_fault(c) is None,
        config_checked(c, v),
    ensures
        humantime_span(given_timeout(c)) == Some(v.timeout),
        forall|i: int|
            0 <= i < c.requests@.len() && (#[trigger] c.requests@[i]).assert is Some ==> {
                let a = c.requests@[i].assert->0;
                let va = v.requests@[i].assert->0;
                &&& v.requests@[i].assert is Some
                &&& va.status == a.status
                &&& va.headers == a.headers
                &&& va.body_contains == a.body_contains
                &&& va.latency_lt == (match a.latency_lt {
                    Some(t) => humantime_span(t@),
                    None => None,
                })
                &&& opt_view(va.body_json) == (match a.body_json {
                    Some(y) => yaml_json_value(y),
                    None => None,
                })
            },
        c.load is Some ==> v.load is Some,
        c.load is None ==> v.load is None,
        (c.load is Some && v.load is Some) ==> {
            let l = c.load->0;
            let vl = v.load->0;
            &&& vl.concurrency == l.concurrency
            &&& vl.duration == l.duration
            &&& vl.ramp_up == l.ramp_up
            &&& (l.requests is None ==> vl.requests@.len() == c.requests@.len() && forall|j: int|
                0 <= j < vl.requests@.len() ==> #[trigger] vl.requests@[j] == j)
            &&& (l.requests is Some ==> vl.requests@.len() == l.requests->0@.len() && forall|j: int|
                0 <= j < l.requests->0@.len() ==> {
                    let p = #[trigger] vl.requests@[j] as int;
                    &&& 0 <= p < v.requests@.len()
                    &&& v.requests@[p].name@ == l.requests->0@[j]@
                    &&& forall|q: int| 0 <= q < p ==> v.requests@[q].name@ != l.requests->0@[j]@
                })
        },
{
    assert(given_timeout(c) == crate::config::validate::timeout_text(c));
    assert forall|i: int| 0 <= i < c.requests@.len() && (#[trigger] c.requests@[i]).assert is Some implies {
        let a = c.requests@[i].assert->0;
        let va = v.requests@[i].assert->0;
        &&& v.requests@[i].assert is Some
        &&& va.status == a.status
        &&& va.headers == a.headers
        &&& va.body_contains == a.body_contains
        &&& va.latency_lt == (match a.latency_lt {
            Some(t) => humantime_span(t@),
            None => None,
        })
        &&& opt_view(va.body_json) == (match a.body_json {
            Some(y) => yaml_json_value(y),
            None => None,
        })
    } by {
        assert(request_checked(c.requests@[i], v.base_url@, v.requests@[i]));
    }
    if c.load is Some {
        let l = c.load->0;
        let vl = v.load->0;
        let names = request_names(c.requests@);
        assert(load_checked(l, names, vl));
        assert(load_fault(l, names) is None);
        if l.requests is None {
            assert(vl.requests@ == Seq::new(names.len(), |k: int| k as usize));
            assert(names.len() == c.requests@.len());
            assert forall|j: int| 0 <= j < vl.requests@.len() implies #[trigger] vl.requests@[j] == j by {
                assert(vl.requests@.len() == vl.requests.len());
                assert(vl.requests@[j] == Seq::new(names.len(), |k: int| k as usize)[j]);
                assert(j as usize == j);
            }
        }
        if l.requests is Some {
            let ns = l.requests->0;
            assert forall|j: int| 0 <= j < ns@.len() implies {
                let p = #[trigger] vl.requests@[j] as int;
                &&& 0 <= p < v.requests@.len()
                &&& v.requests@[p].name@ == ns@[j]@
                &&& forall|q: int| 0 <= q < p ==> v.requests@[q].name@ != ns@[j]@
            } by {
                crate::laws::law_load_requests_exist(c, v);
                lemma_name_position_first(names, ns@[j]@);
                let p = vl.requests@[j] as int;
                assert(p == name_position(names, ns@[j]@));
                assert(names[p] == c.requests@[p].name@);
                assert(request_checked(c.requests@[p], v.base_url@, v.requests@[p]));
                assert forall|q: int| 0 <= q < p implies v.requests@[q].name@ != ns@[j]@ by {
                    assert(names[q] == c.requests@[q].name@);
                    assert(request_checked(c.requests@[q], v.base_url@, v.requests@[q]));
                }
            }
        }
    }
}

/// The command line's overrides replace the load settings they give and
/// keep the others.
pub proof fn law_load_overrides(
    l: ValidatedLoadConfig,
    concurrency: Option<usize>,
    duration: Option<Span>,
    v: ValidatedLoadConfig,
)
    requires
        load_overridden(l, concurrency, duration, v),
    ensures
        concurrency matches Some(n) ==> v.concurrency == n,
        concurrency is None ==> v.concurrency == l.concurrency,
        duration matches Some(d) ==> v.duration == d,
        duration is None ==> v.duration == l.duration,
        v.ramp_up == l.ramp_up,
        v.requests@ == l.requests@,
{
}

/// What a request's outcome records: with no response, no check; with a
/// response and no assertions, no check; with a response and assertions,
/// exactly the checks of those assertions on that response.
pub proof fn law_recorded_checks(assert: Option<ValidatedAssert>, res: Result<ResponseData, HttpError>)
    ensures
        res is Err ==> recorded_checks(assert, res).len() == 0,
        assert is None ==> recorded_checks(assert, res).len() == 0,
        (res matches Ok(r) && assert matches Some(a)) ==> recorded_checks(assert, res) == all_checks(
            assert->0,
            res->Ok_0,
        ),
{
}

} // verus!
