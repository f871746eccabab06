//! Checking a configuration: the base URL and every request path must form
//! valid URLs, every duration text must parse, every expected JSON body must
//! convert, and the load section may only name existing requests.

use vstd::prelude::*;
use crate::config::error::{ConfigError, Fault};
use crate::config::types::{
    AssertConfig, LoadConfig, RequestConfig, TestConfig, ValidatedAssert, ValidatedLoadConfig,
    ValidatedRequest, ValidatedTestConfig,
};
use crate::json::{opt_view, yaml_json_value, yaml_to_json};
use crate::span::Span;
use crate::text::text_eq;
use crate::config::duration::{duration_fits, duration_text_fits};

verus! {

/// The name of the serialized URL that `url::Url::parse` gives for `input`;
/// `None` when it reports an error.
pub uninterp spec fn url_parse_text(input: Seq<char>) -> Option<Seq<char>>;

/// The name of the serialized URL that `url::Url::join` gives when `input` is
/// resolved against the URL that `url::Url::parse` gives for `base`; `None`
/// when either reports an error.
pub uninterp spec fn url_join_text(base: Seq<char>, input: Seq<char>) -> Option<Seq<char>>;

/// The name of the span that `humantime::parse_duration` gives for `text`;
/// `None` when it reports an error.
pub uninterp spec fn humantime_span(text: Seq<char>) -> Option<Span>;

/// Parses a URL (`url::Url::parse`) and gives its serialization.
#[verifier::external_body]
fn parse_url(input: &str) -> (res: Result<String, url::ParseError>)
    ensures
        res is Ok <==> url_parse_text(input@) is Some,
        res matches Ok(u) ==> url_parse_text(input@) == Some(u@),
{
    url::Url::parse(input).map(|u| u.to_string())
}

/// Resolves `input` against the URL that `base` serializes
/// (`url::Url::parse`, then `url::Url::join`) and gives the serialization.
#[verifier::external_body]
fn join_url(base: &str, input: &str) -> (res: Result<String, url::ParseError>)
    ensures
        res is Ok <==> url_join_text(base@, input@) is Some,
        res matches Ok(u) ==> url_join_text(base@, input@) == Some(u@),
{
    url::Url::parse(base).and_then(|b| b.join(input)).map(|u| u.to_string())
}

/// Parses a human-readable duration (`humantime::parse_duration`); the
/// sub-second part of a `std::time::Duration` is below one second. The text
/// must fit (see `duration_text_fits`): on texts whose items add up to the
/// largest `Duration`, the parse can panic.
#[verifier::external_body]
fn parse_humantime(text: &str) -> (res: Option<Span>)
    requires
        duration_text_fits(text@),
    ensures
        res == humantime_span(text@),
        res matches Some(s) ==> s.wf(),
{
    humantime::parse_duration(text).ok().map(|d| Span { secs: d.as_secs(), nanos: d.subsec_nanos() })
}

/// Parses a duration text such as `500ms` or `30s`.
pub fn parse_duration(raw: &str) -> (res: Result<Span, ConfigError>)
    requires
        duration_text_fits(raw@),
    ensures
        match res {
            Ok(s) => humantime_span(raw@) == Some(s) && s.wf(),
            Err(e) => humantime_span(raw@) is None && e.shows(Fault::BadDuration(raw@)),
        },
{
    match parse_humantime(raw) {
        Some(s) => Ok(s),
        None => Err(ConfigError::InvalidDuration(raw.to_owned())),
    }
}

/// The timeout used when the configuration names none: `30s`.
pub open spec fn default_timeout_text() -> Seq<char> {
    seq!['3', '0', 's']
}

/// The timeout text of a configuration.
pub open spec fn timeout_text(c: TestConfig) -> Seq<char> {
    match c.timeout {
        Some(t) => t@,
        None => default_timeout_text(),
    }
}

/// The duration texts of an assertion block are short enough to be parsed.
pub open spec fn assert_durations_fit(a: AssertConfig) -> bool {
    a.latency_lt matches Some(t) ==> duration_text_fits(t@)
}

/// The duration texts of a request are short enough to be parsed.
pub open spec fn request_durations_fit(r: RequestConfig) -> bool {
    r.assert matches Some(a) ==> assert_durations_fit(a)
}

/// The duration texts of a configuration (the timeout and every latency
/// bound) are short enough to be parsed.
pub open spec fn config_durations_fit(c: TestConfig) -> bool {
    &&& duration_text_fits(timeout_text(c))
    &&& forall|i: int| 0 <= i < c.requests@.len() ==> request_durations_fit(#[trigger] c.requests@[i])
}

/// What is wrong with an assertion block, checked in order: the latency
/// bound, then the expected JSON body.
pub open spec fn assert_fault(a: AssertConfig) -> Option<Fault> {
    if a.latency_lt is Some && humantime_span(a.latency_lt->0@) is None {
        Some(Fault::BadDuration(a.latency_lt->0@))
    } else if a.body_json is Some && yaml_json_value(a.body_json->0) is None {
        Some(Fault::BadBodyJson)
    } else {
        None
    }
}

/// `v` is what checking the assertion block `a` gives.
pub open spec fn assert_checked(a: AssertConfig, v: ValidatedAssert) -> bool {
    &&& v.status == a.status
    &&& v.headers == a.headers
    &&& v.body_contains == a.body_contains
    &&& v.latency_lt == (match a.latency_lt {
        Some(t) => humantime_span(t@),
        None => None,
    })
    &&& opt_view(v.body_json) == (match a.body_json {
        Some(y) => yaml_json_value(y),
        None => None,
    })
}

/// What is wrong with a request, given the serialized base URL: its path,
/// then its assertions.
pub open spec fn request_fault(r: RequestConfig, base: Seq<char>) -> Option<Fault> {
    if url_join_text(base, r.path@) is None {
        Some(Fault::BadUrl(r.path@))
    } else {
        match r.assert {
            Some(a) => assert_fault(a),
            None => None,
        }
    }
}

/// `v` is what checking request `r` against the serialized base URL gives.
pub open spec fn request_checked(r: RequestConfig, base: Seq<char>, v: ValidatedRequest) -> bool {
    &&& v.name == r.name
    &&& v.method == r.method
    &&& url_join_text(base, r.path@) == Some(v.url@)
    &&& v.headers == r.headers
    &&& v.body == r.body
    &&& match r.assert {
        Some(a) => v.assert matches Some(va) && assert_checked(a, va),
        None => v.assert is None,
    }
}

/// The first fault among the requests, in order.
pub open spec fn requests_fault(rs: Seq<RequestConfig>, base: Seq<char>) -> Option<Fault>
    decreases rs.len(),
{
    if rs.len() == 0 {
        None
    } else {
        match requests_fault(rs.drop_last(), base) {
            Some(f) => Some(f),
            None => request_fault(rs.last(), base),
        }
    }
}

/// The position of the first request named `n`, or -1 when there is none.
pub open spec fn name_position(names: Seq<Seq<char>>, n: Seq<char>) -> int
    decreases names.len(),
{
    if names.len() == 0 {
        -1
    } else {
        let p = name_position(names.drop_last(), n);
        if p >= 0 {
            p
        } else if names.last() == n {
            names.len() - 1
        } else {
            -1
        }
    }
}

/// The first load-test name, in order, that names no request.
pub open spec fn unknown_name(ns: Seq<String>, names: Seq<Seq<char>>) -> Option<Fault>
    decreases ns.len(),
{
    if ns.len() == 0 {
        None
    } else {
        match unknown_name(ns.drop_last(), names) {
            Some(f) => Some(f),
            None => if name_position(names, ns.last()@) < 0 {
                Some(Fault::UnknownLoadRequest(ns.last()@))
            } else {
                None
            },
        }
    }
}

/// What is wrong with a load section, given the request names.
pub open spec fn load_fault(l: LoadConfig, names: Seq<Seq<char>>) -> Option<Fault> {
    match l.requests {
        Some(ns) => unknown_name(ns@, names),
        None => None,
    }
}

/// `v` is what checking load section `l` gives, given the request names: the
/// named requests by position, or every request in order when none are named.
pub open spec fn load_checked(l: LoadConfig, names: Seq<Seq<char>>, v: ValidatedLoadConfig) -> bool {
    &&& v.concurrency == l.concurrency
    &&& v.duration == l.duration
    &&& v.ramp_up == l.ramp_up
    &&& match l.requests {
        None => v.requests@ == Seq::new(names.len(), |i: int| i as usize),
        Some(ns) => v.requests@.len() == ns@.len() && forall|j: int|
            0 <= j < ns@.len() ==> v.requests@[j] == name_position(names, #[trigger] ns@[j]@),
    }
}

/// The names of the requests, in order.
pub open spec fn request_names(rs: Seq<RequestConfig>) -> Seq<Seq<char>> {
    rs.map_values(|r: RequestConfig| r.name@)
}

/// The names of the checked requests, in order.
pub open spec fn validated_names(rs: Seq<ValidatedRequest>) -> Seq<Seq<char>> {
    rs.map_values(|r: ValidatedRequest| r.name@)
}

/// What is wrong with a configuration, checked in order: the base URL, the
/// timeout, each request, the load section.
pub open spec fn config_fault(c: TestConfig) -> Option<Fault> {
    match url_parse_text(c.base_url@) {
        None => Some(Fault::BadUrl(c.base_url@)),
        Some(base) => if humantime_span(timeout_text(c)) is None {
            Some(Fault::BadDuration(timeout_text(c)))
        } else if requests_fault(c.requests@, base) is Some {
            requests_fault(c.requests@, base)
        } else {
            match c.load {
                Some(l) => load_fault(l, request_names(c.requests@)),
                None => None,
            }
        },
    }
}

/// `v` is what checking configuration `c` gives.
pub open spec fn config_checked(c: TestConfig, v: ValidatedTestConfig) -> bool {
    &&& url_parse_text(c.base_url@) == Some(v.base_url@)
    &&& humantime_span(timeout_text(c)) == Some(v.timeout)
    &&& v.requests@.len() == c.requests@.len()
    &&& forall|i: int|
        0 <= i < c.requests@.len() ==> request_checked(#[trigger] c.requests@[i], v.base_url@, v.requests@[i])
    &&& match c.load {
        Some(l) => v.load matches Some(vl) && load_checked(l, request_names(c.requests@), vl),
        None => v.load is None,
    }
}

impl AssertConfig {
    /// Checks an assertion block: parses the latency bound, then converts the
    /// expected JSON body.
    pub fn validate(self) -> (res: Result<ValidatedAssert, ConfigError>)
        requires
            assert_durations_fit(self),
        ensures
            match res {
                Ok(v) => assert_fault(self) is None && assert_checked(self, v) && v.wf(),
                Err(e) => assert_fault(self) matches Some(f) && e.shows(f),
            },
    {
        let AssertConfig { status, headers, body_contains, body_json, latency_lt } = self;
        let latency = match latency_lt {
            Some(t) => match parse_duration(t.as_str()) {
                Ok(s) => Some(s),
                Err(e) => return Err(e),
            },
            None => None,
        };
        let json = match body_json {
            Some(y) => match yaml_to_json(&y) {
                Ok(j) => Some(j),
                Err(e) => return Err(ConfigError::InvalidBodyJson(e)),
            },
            None => None,
        };
        Ok(ValidatedAssert { status, headers, body_contains, body_json: json, latency_lt: latency })
    }
}

impl RequestConfig {
    /// Checks a request: resolves its path against the serialized base URL,
    /// then checks its assertions.
    pub fn validate(self, base_url: &String) -> (res: Result<ValidatedRequest, ConfigError>)
        requires
            request_durations_fit(self),
        ensures
            match res {
                Ok(v) => request_fault(self, base_url@) is None && request_checked(self, base_url@, v) && v.wf(),
                Err(e) => request_fault(self, base_url@) matches Some(f) && e.shows(f),
            },
    {
        let RequestConfig { name, method, path, headers, body, assert } = self;
        let url = match join_url(base_url.as_str(), path.as_str()) {
            Ok(u) => u,
            Err(e) => return Err(ConfigError::InvalidUrl(path, e)),
        };
        let checked = match assert {
            Some(a) => match a.validate() {
                Ok(v) => Some(v),
                Err(e) => return Err(e),
            },
            None => None,
        };
        Ok(ValidatedRequest { name, method, url, headers, body, assert: checked })
    }
}

/// The position of the first checked request named `name`.
fn find_request(requests: &Vec<ValidatedRequest>, name: &String) -> (res: Option<usize>)
    ensures
        match res {
            Some(i) => i == name_position(validated_names(requests@), name@),
            None => name_position(validated_names(requests@), name@) == -1,
        },
{
    let ghost names = validated_names(requests@);
    let mut i: usize = 0;
    while i < requests.len()
        invariant
            i <= requests.len(),
            names == validated_names(requests@),
            name_position(names.take(i as int), name@) == -1,
        decreases requests.len() - i,
    {
        proof {
            assert(names.take(i + 1).drop_last() =~= names.take(i as int));
        }
        if text_eq(requests[i].name.as_str(), name.as_str()) {
            proof {
                lemma_name_position_prefix(names, name@, i as int + 1);
            }
            return Some(i);
        }
        i += 1;
    }
    proof {
        assert(names.take(requests.len() as int) =~= names);
    }
    None
}

/// The position of a name found in a prefix is its position in the whole list.
proof fn lemma_name_position_prefix(names: Seq<Seq<char>>, n: Seq<char>, k: int)
    requires
        0 <= k <= names.len(),
        name_position(names.take(k), n) >= 0,
    ensures
        name_position(names, n) == name_position(names.take(k), n),
    decreases names.len() - k,
{
    if k < names.len() {
        assert(names.take(k + 1).drop_last() =~= names.take(k));
        lemma_name_position_prefix(names, n, k + 1);
    } else {
        assert(names.take(k) =~= names);
    }
}

impl LoadConfig {
    /// Checks a load section against the checked requests: every named
    /// request must exist; with no names, every request is used in order.
    #[verifier::loop_isolation(false)]
    pub fn validate(self, requests: &Vec<ValidatedRequest>) -> (res: Result<ValidatedLoadConfig, ConfigError>)
        ensures
            match res {
                Ok(v) => load_fault(self, validated_names(requests@)) is None && load_checked(
                    self,
                    validated_names(requests@),
                    v,
                ),
                Err(e) => load_fault(self, validated_names(requests@)) matches Some(f) && e.shows(f),
            },
    {
        let ghost names = validated_names(requests@);
        let LoadConfig { concurrency, duration, ramp_up, requests: wanted } = self;
        let indices = match wanted {
            Some(ns) => {
                let mut out: Vec<usize> = Vec::new();
                let mut j: usize = 0;
                while j < ns.len()
                    invariant
                        j <= ns.len(),
                        names == validated_names(requests@),
                        out@.len() == j,
                        unknown_name(ns@.take(j as int), names) is None,
                        forall|q: int| 0 <= q < j ==> out@[q] == name_position(names, #[trigger] ns@[q]@),
                    decreases ns.len() - j,
                {
                    proof {
                        assert(ns@.take(j + 1).drop_last() =~= ns@.take(j as int));
                    }
                    match find_request(requests, &ns[j]) {
                        Some(p) => {
                            out.push(p);
                        },
                        None => {
                            proof {
                                lemma_unknown_name_prefix(ns@, names, j as int + 1);
                            }
                            return Err(ConfigError::UnknownLoadRequest(ns[j].clone()));
                        },
                    }
                    j += 1;
                }
                proof {
                    assert(ns@.take(ns.len() as int) =~= ns@);
                }
                out
            },
            None => {
                let mut out: Vec<usize> = Vec::new();
                let mut i: usize = 0;
                while i < requests.len()
                    invariant
                        i <= requests.len(),
                        out@ == Seq::new(i as nat, |k: int| k as usize),
                    decreases requests.len() - i,
                {
                    out.push(i);
                    i += 1;
                }
                out
            },
        };
        Ok(ValidatedLoadConfig { concurrency, duration, ramp_up, requests: indices })
    }
}

/// The load settings with the command line's overrides: `concurrency` in
/// place of the configured concurrency, and the span that `duration` parses
/// to in place of the configured duration, each only when given.
pub open spec fn load_overridden(
    l: ValidatedLoadConfig,
    concurrency: Option<usize>,
    duration: Option<Span>,
    v: ValidatedLoadConfig,
) -> bool {
    &&& v.concurrency == (match concurrency {
        Some(c) => c,
        None => l.concurrency,
    })
    &&& v.duration == (match duration {
        Some(d) => d,
        None => l.duration,
    })
    &&& v.ramp_up == l.ramp_up
    &&& v.requests@ == l.requests@
}

impl ValidatedLoadConfig {
    /// Applies the command line's overrides: a concurrency, and a duration
    /// text, which must parse.
    pub fn with_overrides(self, concurrency: Option<usize>, duration: Option<&str>) -> (res: Result<
        ValidatedLoadConfig,
        ConfigError,
    >)
        requires
            duration matches Some(d) ==> duration_text_fits(d@),
        ensures
            match duration {
                Some(d) => match res {
                    Ok(v) => humantime_span(d@) matches Some(s) && load_overridden(self, concurrency, Some(s), v),
                    Err(e) => humantime_span(d@) is None && e.shows(Fault::BadDuration(d@)),
                },
                None => res matches Ok(v) && load_overridden(self, concurrency, None, v),
            },
    {
        let ValidatedLoadConfig { concurrency: c, duration: d, ramp_up, requests } = self;
        let span = match duration {
            Some(t) => match parse_duration(t) {
                Ok(s) => s,
                Err(e) => return Err(e),
            },
            None => d,
        };
        let conc = match concurrency {
            Some(n) => n,
            None => c,
        };
        Ok(ValidatedLoadConfig { concurrency: conc, duration: span, ramp_up, requests })
    }
}

impl ValidatedTestConfig {
    /// Applies the command line's load-test overrides to the load section,
    /// if there is one; a configuration without one is left as it is.
    pub fn with_load_overrides(self, concurrency: Option<usize>, duration: Option<&str>) -> (res: Result<
        ValidatedTestConfig,
        ConfigError,
    >)
        requires
            duration matches Some(d) ==> duration_text_fits(d@),
        ensures
            match self.load {
                None => res matches Ok(v) && v == self,
                Some(l) => match duration {
                    Some(d) => match res {
                        Ok(v) => humantime_span(d@) matches Some(s) && v.load matches Some(vl)
                            && load_overridden(l, concurrency, Some(s), vl) && v.base_url == self.base_url
                            && v.timeout == self.timeout && v.requests == self.requests,
                        Err(e) => humantime_span(d@) is None && e.shows(Fault::BadDuration(d@)),
                    },
                    None => res matches Ok(v) && v.load matches Some(vl) && load_overridden(
                        l,
                        concurrency,
                        None,
                        vl,
                    ) && v.base_url == self.base_url && v.timeout == self.timeout && v.requests
                        == self.requests,
                },
            },
    {
        let ValidatedTestConfig { base_url, timeout, requests, load } = self;
        match load {
            None => Ok(ValidatedTestConfig { base_url, timeout, requests, load: None }),
            Some(l) => match l.with_overrides(concurrency, duration) {
                Ok(v) => Ok(ValidatedTestConfig { base_url, timeout, requests, load: Some(v) }),
                Err(e) => Err(e),
            },
        }
    }
}

/// An unknown name found in a prefix is the first unknown name of the list.
proof fn lemma_unknown_name_prefix(ns: Seq<String>, names: Seq<Seq<char>>, k: int)
    requires
        0 <= k <= ns.len(),
        unknown_name(ns.take(k), names) is Some,
    ensures
        unknown_name(ns, names) == unknown_name(ns.take(k), names),
    decreases ns.len() - k,
{
    if k < ns.len() {
        assert(ns.take(k + 1).drop_last() =~= ns.take(k));
        lemma_unknown_name_prefix(ns, names, k + 1);
    } else {
        assert(ns.take(k) =~= ns);
    }
}

/// A fault found in a prefix of the requests is the first fault of the list.
proof fn lemma_requests_fault_prefix(rs: Seq<RequestConfig>, base: Seq<char>, k: int)
    requires
        0 <= k <= rs.len(),
        requests_fault(rs.take(k), base) is Some,
    ensures
        requests_fault(rs, base) == requests_fault(rs.take(k), base),
    decreases rs.len() - k,
{
    if k < rs.len() {
        assert(rs.take(k + 1).drop_last() =~= rs.take(k));
        lemma_requests_fault_prefix(rs, base, k + 1);
    } else {
        assert(rs.take(k) =~= rs);
    }
}

impl TestConfig {
    /// Whether every duration text of the configuration (the timeout, `30s`
    /// when absent, and every latency bound) is short enough to be parsed.
    pub fn durations_fit(&self) -> (res: bool)
        ensures
            res == config_durations_fit(*self),
    {
        let timeout_fits = match &self.timeout {
            Some(t) => duration_fits(t.as_str()),
            None => {
                proof {
                    reveal_strlit("30s");
                    assert("30s"@ =~= default_timeout_text());
                }
                duration_fits("30s")
            },
        };
        if !timeout_fits {
            return false;
        }
        let mut i: usize = 0;
        while i < self.requests.len()
            invariant
                i <= self.requests.len(),
                duration_text_fits(timeout_text(*self)),
                forall|k: int| 0 <= k < i ==> request_durations_fit(#[trigger] self.requests@[k]),
            decreases self.requests.len() - i,
        {
            let fits = match &self.requests[i].assert {
                Some(a) => match &a.latency_lt {
                    Some(t) => duration_fits(t.as_str()),
                    None => true,
                },
                None => true,
            };
            if !fits {
                assert(!request_durations_fit(self.requests@[i as int]));
                return false;
            }
            i += 1;
        }
        true
    }

    /// Checks a whole configuration, in order: the base URL, the timeout
    /// (`30s` when absent), each request, then the load section. The first
    /// fault found is reported.
    #[verifier::loop_isolation(false)]
    pub fn validate(self) -> (res: Result<ValidatedTestConfig, ConfigError>)
        requires
            config_durations_fit(self),
        ensures
            match res {
                Ok(v) => config_fault(self) is None && config_checked(self, v) && v.wf(),
                Err(e) => config_fault(self) matches Some(f) && e.shows(f),
            },
    {
        let ghost c = self;
        let TestConfig { base_url, requests, load, timeout } = self;
        let base = match parse_url(base_url.as_str()) {
            Ok(u) => u,
            Err(e) => return Err(ConfigError::InvalidUrl(base_url, e)),
        };
        let timeout_raw: String = match timeout {
            Some(t) => t,
            None => {
                proof {
                    reveal_strlit("30s");
                }
                "30s".to_owned()
            },
        };
        assert(timeout_raw@ == timeout_text(c));
        let timeout_span = match parse_duration(timeout_raw.as_str()) {
            Ok(s) => s,
            Err(e) => return Err(e),
        };
        let ghost raws = requests@;
        let mut checked: Vec<ValidatedRequest> = Vec::new();
        for r in it: requests
            invariant
                it.seq() == raws,
                raws == c.requests@,
                url_parse_text(c.base_url@) == Some(base@),
                checked@.len() == it.index(),
                requests_fault(raws.take(it.index() as int), base@) is None,
                forall|i: int|
                    0 <= i < it.index() ==> request_checked(#[trigger] raws[i], base@, checked@[i]),
                forall|i: int|
                    0 <= i < it.index() ==> (#[trigger] checked@[i]).name@ == raws[i].name@,
                forall|i: int| 0 <= i < it.index() ==> (#[trigger] checked@[i]).wf(),
                timeout_span.wf(),
        {
            let ghost k = it.index() as int;
            proof {
                assert(raws.take(k + 1).drop_last() =~= raws.take(k));
                assert(request_durations_fit(c.requests@[k]));
            }
            match r.validate(&base) {
                Ok(v) => {
                    checked.push(v);
                },
                Err(e) => {
                    proof {
                        lemma_requests_fault_prefix(raws, base@, k + 1);
                    }
                    return Err(e);
                },
            }
        }
        proof {
            assert(raws.take(raws.len() as int) =~= raws);
            assert(validated_names(checked@) =~= request_names(raws));
        }
        let checked_load = match load {
            Some(l) => match l.validate(&checked) {
                Ok(v) => Some(v),
                Err(e) => return Err(e),
            },
            None => None,
        };
        Ok(ValidatedTestConfig { base_url: base, timeout: timeout_span, requests: checked, load: checked_load })
    }
}

} // verus!
