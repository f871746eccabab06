//! The decisions of the test and load runners: what a request's outcome
//! records, which request the load test sends next, when it stops, and how
//! outcomes are tallied. Sending the requests is left to the caller.

use vstd::prelude::*;
use vstd::multiset::Multiset;
use crate::assertions::{check_all, checks_view, all_checks, CheckResult, Check};
use crate::config::{ValidatedAssert, ValidatedLoadConfig, ValidatedTestConfig};
use crate::http::{HttpError, ResponseData};
use crate::span::Span;
use crate::stats::{latency_sample, Stats};

verus! {

/// The outcome of one request of a functional test.
#[derive(Debug)]
pub struct RequestResult {
    pub name: String,
    pub response: Result<ResponseData, HttpError>,
    pub assertions: Vec<CheckResult>,
}

/// The checks recorded for a request: those of its assertion block when a
/// response came, none otherwise.
pub open spec fn recorded_checks(assert: Option<ValidatedAssert>, res: Result<ResponseData, HttpError>) -> Seq<Check> {
    match (res, assert) {
        (Ok(r), Some(a)) => all_checks(a, r),
        _ => Seq::empty(),
    }
}

/// Records the outcome of request `name`: a response is checked against the
/// request's assertions, if any; an error records no checks.
pub fn into_request_result(
    name: String,
    assert: Option<&ValidatedAssert>,
    res: Result<ResponseData, HttpError>,
) -> (out: RequestResult)
    requires
        assert matches Some(a) ==> a.wf(),
        res matches Ok(r) ==> r.latency.wf(),
    ensures
        out.name == name,
        out.response == res,
        checks_view(out.assertions@) == recorded_checks(
            match assert {
                Some(a) => Some(*a),
                None => None,
            },
            res,
        ),
{
    match res {
        Ok(response) => {
            let assertions = match assert {
                Some(a) => check_all(a, &response),
                None => Vec::new(),
            };
            proof {
                if assert is None {
                    assert(checks_view(assertions@) =~= Seq::<Check>::empty());
                }
            }
            RequestResult { name, response: Ok(response), assertions }
        },
        Err(e) => {
            let assertions: Vec<CheckResult> = Vec::new();
            assert(checks_view(assertions@) =~= Seq::<Check>::empty());
            RequestResult { name, response: Err(e), assertions }
        },
    }
}

/// Why a load test cannot start.
#[derive(Debug, PartialEq, Eq, Structural)]
pub enum LoadError {
    /// The configuration has no load section.
    NoLoadConfig,
}

impl LoadError {
    /// The description of the error.
    pub fn message(&self) -> (res: String)
        ensures
            res@ == "no load config"@,
    {
        "no load config".to_owned()
    }
}

/// The load section of a configuration, which a load test needs.
pub fn load_config_of(config: &ValidatedTestConfig) -> (res: Result<&ValidatedLoadConfig, LoadError>)
    ensures
        match config.load {
            Some(l) => res == Ok::<&ValidatedLoadConfig, LoadError>(&l),
            None => res == Err::<&ValidatedLoadConfig, LoadError>(LoadError::NoLoadConfig),
        },
{
    match &config.load {
        Some(l) => Ok(l),
        None => Err(LoadError::NoLoadConfig),
    }
}

/// Whether the load test keeps sending: the time elapsed is still below the
/// configured duration.
pub fn keep_sending(elapsed: Span, duration: Span) -> (res: bool)
    requires
        elapsed.wf(),
        duration.wf(),
    ensures
        res == (elapsed.total_nanos() < duration.total_nanos()),
{
    elapsed.lt(&duration)
}

/// The request that the `i`-th send of a load test uses: the load section's
/// requests are taken in turn, round and round.
pub fn next_request_index(load: &ValidatedLoadConfig, i: usize) -> (res: usize)
    requires
        load.requests@.len() > 0,
    ensures
        res == load.requests@[(i as int) % (load.requests@.len() as int)],
{
    load.requests[i % load.requests.len()]
}

/// The running totals of a load test: every outcome counts as a request,
/// every error as an error, and every response's latency is recorded.
pub struct LoadTally {
    pub stats: Stats,
    pub total_reqs: u64,
    pub error_count: u64,
}

impl LoadTally {
    /// The tally is consistent: each request is either a recorded latency
    /// or an error.
    pub open spec fn wf(self) -> bool {
        &&& self.stats.wf()
        &&& self.stats.samples().len() + self.error_count == self.total_reqs
    }

    /// A tally of no requests.
    pub fn new() -> (res: LoadTally)
        ensures
            res.wf(),
            res.total_reqs == 0,
            res.error_count == 0,
            res.stats.samples() == Multiset::<u64>::empty(),
    {
        LoadTally { stats: Stats::new(), total_reqs: 0, error_count: 0 }
    }

    /// Counts one outcome: a response records its latency, an error counts
    /// as an error; either counts as a request.
    pub fn record_outcome(&mut self, outcome: &Result<ResponseData, HttpError>)
        requires
            old(self).wf(),
            old(self).total_reqs < u64::MAX,
            outcome matches Ok(r) ==> r.latency.wf(),
        ensures
            final(self).wf(),
            final(self).total_reqs == old(self).total_reqs + 1,
            match outcome {
                Ok(r) => final(self).error_count == old(self).error_count
                    && final(self).stats.samples() == old(self).stats.samples().insert(latency_sample(r.latency)),
                Err(_) => final(self).error_count == old(self).error_count + 1
                    && final(self).stats.samples() == old(self).stats.samples(),
            },
    {
        match outcome {
            Ok(response) => {
                self.stats.record(response.latency);
                self.total_reqs = self.total_reqs + 1;
            },
            Err(_) => {
                self.total_reqs = self.total_reqs + 1;
                self.error_count = self.error_count + 1;
            },
        }
    }
}

} // verus!
