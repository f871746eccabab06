//! Time spans measured in whole seconds plus a sub-second nanosecond part.

use vstd::prelude::*;

verus! {

/// A length of time: `secs` seconds plus `nanos` nanoseconds.
///
/// A span is well formed when `nanos` is below one second.
#[derive(Clone, Copy, Debug, PartialEq, Eq, Structural)]
pub struct Span {
    pub secs: u64,
    pub nanos: u32,
}

/// Nanoseconds in one second.
pub const NANOS_PER_SEC: u32 = 1_000_000_000;

/// The name of the text that `std::time::Duration`'s `Debug` formatting gives
/// for a duration of `secs` seconds and `nanos` nanoseconds.
pub uninterp spec fn duration_debug_text(secs: u64, nanos: u32) -> Seq<char>;

impl Span {
    /// The sub-second part is below one second.
    pub open spec fn wf(self) -> bool {
        self.nanos < NANOS_PER_SEC
    }

    /// The whole span in nanoseconds.
    pub open spec fn total_nanos(self) -> int {
        self.secs * 1_000_000_000 + self.nanos
    }

    /// The span of zero length.
    pub fn zero() -> (res: Span)
        ensures
            res.wf(),
            res.total_nanos() == 0,
    {
        Span { secs: 0, nanos: 0 }
    }

    /// A span of `secs` whole seconds.
    pub fn from_secs(secs: u64) -> (res: Span)
        ensures
            res.wf(),
            res.total_nanos() == secs * 1_000_000_000,
    {
        Span { secs, nanos: 0 }
    }

    /// A span of `millis` milliseconds.
    pub fn from_millis(millis: u64) -> (res: Span)
        ensures
            res.wf(),
            res.total_nanos() == millis * 1_000_000,
    {
        let secs = millis / 1000;
        let rest = millis % 1000;
        let nanos: u32 = (rest as u32) * 1_000_000;
        Span { secs, nanos }
    }

    /// A span of `micros` microseconds.
    pub fn from_micros(micros: u64) -> (res: Span)
        ensures
            res.wf(),
            res.total_nanos() == micros * 1_000,
    {
        let secs = micros / 1_000_000;
        let rest = micros % 1_000_000;
        let nanos: u32 = (rest as u32) * 1_000;
        Span { secs, nanos }
    }

    /// Whether this span is strictly shorter than `other`.
    pub fn lt(&self, other: &Span) -> (res: bool)
        requires
            self.wf(),
            other.wf(),
        ensures
            res == (self.total_nanos() < other.total_nanos()),
    {
        self.secs < other.secs || (self.secs == other.secs && self.nanos < other.nanos)
    }

    /// The span in whole milliseconds, rounded down.
    pub fn as_millis(&self) -> (res: u128)
        requires
            self.wf(),
        ensures
            res == self.total_nanos() / 1_000_000,
    {
        let s = self.secs as u128;
        let n = self.nanos as u128;
        s * 1000 + n / 1_000_000
    }

    /// The span in whole microseconds, rounded down.
    pub fn as_micros(&self) -> (res: u128)
        requires
            self.wf(),
        ensures
            res == self.total_nanos() / 1_000,
    {
        let s = self.secs as u128;
        let n = self.nanos as u128;
        s * 1_000_000 + n / 1_000
    }

    /// The text that `std::time::Duration`'s `Debug` formatting gives for
    /// this span, such as `100ms` or `1.5s`.
    #[verifier::external_body]
    pub(crate) fn debug_text(&self) -> (res: String)
        requires
            self.wf(),
        ensures
            res@ == duration_debug_text(self.secs, self.nanos),
    {
        format!("{:?}", std::time::Duration::new(self.secs, self.nanos))
    }
}

} // verus!
