//! Configuration as read from the YAML file, and as it stands once checked.

use vstd::prelude::*;
use crate::json::{JsonValue, YamlValue};
use crate::span::Span;

verus! {

/// The HTTP method of a request; `GET` when the configuration names none.
#[derive(Debug, Clone, Copy, PartialEq, Eq, Structural)]
pub enum HttpMethod {
    Get,
    Post,
    Put,
    Delete,
    Patch,
    Head,
}

impl Default for HttpMethod {
    fn default() -> (res: HttpMethod)
        ensures
            res == HttpMethod::Get,
    {
        HttpMethod::Get
    }
}

/// A whole configuration file as read.
#[derive(Debug)]
pub struct TestConfig {
    pub base_url: String,
    pub requests: Vec<RequestConfig>,
    pub load: Option<LoadConfig>,
    /// The request timeout as text (such as `10s`); `30s` when absent.
    pub timeout: Option<String>,
}

/// One request as read. Headers are name/value pairs.
#[derive(Debug)]
pub struct RequestConfig {
    pub name: String,
    pub method: HttpMethod,
    pub path: String,
    pub headers: Vec<(String, String)>,
    pub body: Option<String>,
    pub assert: Option<AssertConfig>,
}

/// The assertions of one request as read. The expected headers are
/// name/value pairs read as a map: the last pair with a name counts, and a
/// name is checked once.
#[derive(Debug)]
pub struct AssertConfig {
    pub status: Option<u16>,
    pub headers: Option<Vec<(String, String)>>,
    pub body_contains: Option<String>,
    pub body_json: Option<YamlValue>,
    /// The latency bound as text (such as `500ms`).
    pub latency_lt: Option<String>,
}

/// The load-test section as read.
#[derive(Debug)]
pub struct LoadConfig {
    pub concurrency: usize,
    pub duration: Span,
    pub ramp_up: Option<Span>,
    /// The names of the requests to cycle through; all requests when absent.
    pub requests: Option<Vec<String>>,
}

/// A checked configuration: URLs resolved, durations parsed.
#[derive(Debug)]
pub struct ValidatedTestConfig {
    /// The base URL in its serialized form.
    pub base_url: String,
    pub timeout: Span,
    pub requests: Vec<ValidatedRequest>,
    pub load: Option<ValidatedLoadConfig>,
}

/// A checked request, with its URL resolved against the base URL.
#[derive(Debug)]
pub struct ValidatedRequest {
    pub name: String,
    pub method: HttpMethod,
    /// The request URL in its serialized form.
    pub url: String,
    pub headers: Vec<(String, String)>,
    pub body: Option<String>,
    pub assert: Option<ValidatedAssert>,
}

/// The checked assertions of one request.
#[derive(Debug)]
pub struct ValidatedAssert {
    pub status: Option<u16>,
    pub headers: Option<Vec<(String, String)>>,
    pub body_contains: Option<String>,
    pub body_json: Option<JsonValue>,
    pub latency_lt: Option<Span>,
}

/// The checked load-test section: requests are given by their positions in
/// the configuration's request list.
#[derive(Debug)]
pub struct ValidatedLoadConfig {
    pub concurrency: usize,
    pub duration: Span,
    pub ramp_up: Option<Span>,
    pub requests: Vec<usize>,
}

impl ValidatedAssert {
    /// The latency bound, if any, is a well-formed span.
    pub open spec fn wf(self) -> bool {
        self.latency_lt matches Some(b) ==> b.wf()
    }
}

impl ValidatedRequest {
    /// The request's assertions, if any, are well formed.
    pub open spec fn wf(self) -> bool {
        self.assert matches Some(a) ==> a.wf()
    }
}

impl ValidatedTestConfig {
    /// The timeout and every request are well formed.
    pub open spec fn wf(self) -> bool {
        &&& self.timeout.wf()
        &&& forall|i: int| 0 <= i < self.requests@.len() ==> (#[trigger] self.requests@[i]).wf()
    }
}

} // verus!
