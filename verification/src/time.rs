//! Time values used by the experiment log.
//!
//! Recovery durations are summed by the metrics projection, so they are
//! kept as a whole number of nanoseconds whose arithmetic Verus can check.
//! The range is that of a standard duration: up to `u64::MAX` whole seconds
//! plus a sub-second part.
use vstd::prelude::*;

verus! {

/// The largest representable span, in nanoseconds: `u64::MAX` seconds and
/// 999_999_999 nanoseconds.
pub const MAX_NANOS: u128 = 18_446_744_073_709_551_615_999_999_999u128;

/// A span of time with nanosecond precision.
#[derive(Clone, Copy, Debug, PartialEq, Eq, Structural)]
pub struct Duration {
    nanos: u128,
}

impl Duration {
    /// The empty span.
    pub fn zero() -> (d: Duration)
        ensures
            d.spec_nanos() == 0,
    {
        Duration { nanos: 0 }
    }

    /// Length of the span in nanoseconds.
    pub closed spec fn spec_nanos(self) -> nat {
        self.nanos as nat
    }

    /// Every span lies within the representable range.
    #[verifier::type_invariant]
    spec fn within_range(self) -> bool {
        self.nanos <= MAX_NANOS
    }


    pub fn from_nanos(nanos: u64) -> (d: Duration)
        ensures
            d.spec_nanos() == nanos,
    {
        Duration { nanos: nanos as u128 }
    }

    pub fn from_millis(millis: u64) -> (d: Duration)
        ensures
            d.spec_nanos() == millis * 1_000_000,
    {
        Duration { nanos: (millis as u128) * 1_000_000 }
    }

    pub fn from_secs(secs: u64) -> (d: Duration)
        ensures
            d.spec_nanos() == secs * 1_000_000_000,
    {
        Duration { nanos: (secs as u128) * 1_000_000_000 }
    }

    /// A span of `nanos` nanoseconds, if it is within range.
    pub fn from_total_nanos(nanos: u128) -> (d: Option<Duration>)
        ensures
            match d {
                Some(d) => d.spec_nanos() == nanos,
                None => nanos > MAX_NANOS,
            },
    {
        if nanos <= MAX_NANOS {
            Some(Duration { nanos })
        } else {
            None
        }
    }

    pub fn as_nanos(&self) -> (n: u128)
        ensures
            n == self.spec_nanos(),
            n <= MAX_NANOS,
    {
        proof {
            use_type_invariant(self);
        }
        self.nanos
    }

    pub fn as_millis(&self) -> (n: u128)
        ensures
            n == self.spec_nanos() / 1_000_000,
    {
        self.nanos / 1_000_000
    }

    /// Whether adding `other` stays within the representable range (adding
    /// past it is an overflow).
    pub open spec fn can_add(self, other: Duration) -> bool {
        self.spec_nanos() + other.spec_nanos() <= MAX_NANOS
    }

    /// The sum of two spans.
    pub fn add(self, other: Duration) -> (d: Duration)
        requires
            self.can_add(other),
        ensures
            d.spec_nanos() == self.spec_nanos() + other.spec_nanos(),
    {
        Duration { nanos: self.nanos + other.nanos }
    }
}

/// A moment on the monotonic clock of the running process.
#[verifier::external_type_specification]
#[verifier::external_body]
pub struct ExInstant(std::time::Instant);

/// `std::time::Instant::now`: the current moment. Nothing is stated of the
/// value, which depends on when the call is made.
#[verifier::external_body]
pub(crate) fn instant_now() -> std::time::Instant {
    std::time::Instant::now()
}

/// A wall-clock reading in four units, each truncated to 64 bits.
pub struct WallReading {
    pub nanos: u64,
    pub micros: u64,
    pub millis: u64,
    pub secs: u64,
}

/// The reading of the time `since_epoch` after the Unix epoch.
pub fn wall_reading(since_epoch: &Duration) -> (r: WallReading)
    ensures
        r.nanos == since_epoch.spec_nanos() as u64,
        r.micros == (since_epoch.spec_nanos() / 1000) as u64,
        r.millis == (since_epoch.spec_nanos() / 1_000_000) as u64,
        r.secs == (since_epoch.spec_nanos() / 1_000_000_000) as u64,
{
    let n = since_epoch.as_nanos();
    WallReading {
        nanos: n as u64,
        micros: (n / 1000) as u64,
        millis: (n / 1_000_000) as u64,
        secs: (n / 1_000_000_000) as u64,
    }
}

} // verus!
