//! Latency statistics: a histogram of response latencies in microseconds.

use vstd::prelude::*;
use vstd::multiset::Multiset;
use crate::span::Span;

verus! {

/// An `hdrhistogram::Histogram<u64>` of latencies in microseconds. The
/// library reads it through the names and wrappers below; percentiles are
/// read from the field.
#[verifier::external_body]
pub struct LatencyHistogram {
    pub histogram: hdrhistogram::Histogram<u64>,
}

#[verifier::external_type_specification]
#[verifier::external_body]
pub struct ExRecordError(hdrhistogram::RecordError);

/// The name of the values recorded in a histogram so far.
pub uninterp spec fn histogram_samples(h: LatencyHistogram) -> Multiset<u64>;

/// The name of whether a histogram grows to take values above its current
/// range (it does for histograms made by `Histogram::new`).
pub uninterp spec fn histogram_auto_resize(h: LatencyHistogram) -> bool;

/// A new histogram keeping `sigfig` significant decimal digits
/// (`Histogram::new`): empty and growing. `new` refuses only `sigfig` above 5
/// (the low bound 1 and high bound 2 that it uses are always valid).
#[verifier::external_body]
fn new_histogram(sigfig: u8) -> (res: LatencyHistogram)
    requires
        sigfig <= 5,
    ensures
        histogram_samples(res) == Multiset::<u64>::empty(),
        histogram_auto_resize(res),
{
    LatencyHistogram { histogram: hdrhistogram::Histogram::<u64>::new(sigfig).unwrap() }
}

/// Records one value (`Histogram::record`). A growing histogram always takes
/// it: growing fails only when the number of bins overflows `usize`, and the
/// number of bins is a `u32`. A histogram that does not grow refuses a value
/// out of its range before changing anything.
#[verifier::external_body]
fn record_value(h: &mut LatencyHistogram, value: u64) -> (res: Result<(), hdrhistogram::RecordError>)
    ensures
        histogram_auto_resize(*final(h)) == histogram_auto_resize(*old(h)),
        histogram_auto_resize(*old(h)) ==> res is Ok,
        res is Ok ==> histogram_samples(*final(h)) == histogram_samples(*old(h)).insert(value),
        res is Err ==> histogram_samples(*final(h)) == histogram_samples(*old(h)),
{
    h.histogram.record(value)
}

/// The value a latency is recorded as: its whole microseconds, cut to 64 bits.
pub open spec fn latency_sample(latency: Span) -> u64 {
    ((latency.total_nanos() / 1_000) % 0x1_0000_0000_0000_0000) as u64
}

/// Response latencies, recorded in microseconds with two significant digits.
pub struct Stats {
    histogram: LatencyHistogram,
}

impl Stats {
    /// The histogram grows to take any latency.
    pub closed spec fn wf(self) -> bool {
        histogram_auto_resize(self.histogram)
    }

    /// The latencies recorded so far, in microseconds.
    pub closed spec fn samples(self) -> Multiset<u64> {
        histogram_samples(self.histogram)
    }

    /// An empty record.
    pub fn new() -> (res: Stats)
        ensures
            res.wf(),
            res.samples() == Multiset::<u64>::empty(),
    {
        Stats { histogram: new_histogram(2) }
    }

    /// Records one latency, as its whole microseconds.
    pub fn record(&mut self, latency: Span)
        requires
            old(self).wf(),
            latency.wf(),
        ensures
            final(self).wf(),
            final(self).samples() == old(self).samples().insert(latency_sample(latency)),
    {
        let micros = latency.as_micros();
        #[verifier::truncate]
        let value = micros as u64;
        assert(value == micros % 0x1_0000_0000_0000_0000) by (bit_vector)
            requires
                value == micros as u64,
        ;
        let _ = record_value(&mut self.histogram, value);
    }

    /// The histogram itself, for reading percentiles: it holds the latencies
    /// recorded so far.
    pub fn histogram(&self) -> (res: &LatencyHistogram)
        ensures
            histogram_samples(*res) == self.samples(),
            histogram_auto_resize(*res) == self.wf(),
    {
        &self.histogram
    }
}

impl Default for Stats {
    fn default() -> (res: Stats)
        ensures
            res.wf(),
            res.samples() == Multiset::<u64>::empty(),
    {
        Stats::new()
    }
}

} // verus!
