//! Execution times. A span of time is held as a count of nanoseconds; the
//! clock itself is read through `std::time::Instant`.

use vstd::prelude::*;

verus! {

/// The largest span a `std::time::Duration` can hold, in nanoseconds.
pub const MAX_TIME_NANOS: u128 = 18_446_744_073_709_551_615_999_999_999;

/// A span of time in nanoseconds, at most `MAX_TIME_NANOS`.
#[derive(Clone, Copy, Debug, PartialEq, Eq)]
pub struct ExecTime {
    pub nanos: u128,
}

impl ExecTime {
    /// The empty span.
    pub fn zero() -> (t: ExecTime)
        ensures
            t.nanos == 0,
    {
        ExecTime { nanos: 0 }
    }

    pub fn from_nanos(nanos: u128) -> (t: ExecTime)
        ensures
            t.nanos == nanos,
    {
        ExecTime { nanos }
    }

    pub fn as_nanos(&self) -> (n: u128)
        ensures
            n == self.nanos,
    {
        self.nanos
    }

    /// The sum of two spans, capped at `MAX_TIME_NANOS`.
    pub open spec fn add_spec(self, other: ExecTime) -> ExecTime {
        ExecTime {
            nanos: if self.nanos + other.nanos <= MAX_TIME_NANOS {
                (self.nanos + other.nanos) as u128
            } else {
                MAX_TIME_NANOS
            },
        }
    }

    /// The sum of two spans, capped at `MAX_TIME_NANOS`.
    pub fn add(self, other: ExecTime) -> (t: ExecTime)
        ensures
            t == self.add_spec(other),
    {
        if self.nanos <= MAX_TIME_NANOS && other.nanos <= MAX_TIME_NANOS - self.nanos {
            ExecTime { nanos: self.nanos + other.nanos }
        } else {
            ExecTime { nanos: MAX_TIME_NANOS }
        }
    }

    /// The span divided into `n` equal parts, rounded down.
    pub fn div(self, n: u32) -> (t: ExecTime)
        requires
            n != 0,
        ensures
            t.nanos == self.nanos / (n as u128),
    {
        ExecTime { nanos: self.nanos / (n as u128) }
    }
}

/// The monotonic clock of the standard library.
#[verifier::external_type_specification]
#[verifier::external_body]
pub struct ExInstant(std::time::Instant);

/// `Instant::now`: the current reading of the monotonic clock. Nothing is
/// claimed about the reading.
#[verifier::external_body]
pub(crate) fn now() -> std::time::Instant {
    std::time::Instant::now()
}

/// `Instant::elapsed`, in nanoseconds: the time since `start`. The claim is
/// only that it fits a `Duration`; the value depends on the clock.
#[verifier::external_body]
pub(crate) fn elapsed_since(start: &std::time::Instant) -> (t: ExecTime)
    ensures
        t.nanos <= MAX_TIME_NANOS,
{
    ExecTime { nanos: start.elapsed().as_nanos() }
}

} // verus!
