//! Wall-clock timestamps in milliseconds since the Unix epoch, and a plain
//! model of `std::time::Duration` for the configuration values the library
//! computes with.
use std::time::{Duration, SystemTime, UNIX_EPOCH};
use vstd::prelude::*;

verus! {

#[verifier::external_type_specification]
#[verifier::external_body]
pub struct ExSystemTime(SystemTime);

/// `SystemTime::now`. The result depends on the machine's clock, so nothing
/// is stated of it.
#[verifier::external_body]
fn system_time_now() -> SystemTime {
    SystemTime::now()
}

/// `SystemTime::duration_since(UNIX_EPOCH)`: `None` when `t` lies before the
/// epoch. The duration is opaque here, so nothing more is stated.
#[verifier::external_body]
fn duration_since_unix_epoch(t: &SystemTime) -> (r: Option<Duration>) {
    t.duration_since(UNIX_EPOCH).ok()
}

/// `Duration::as_millis`. The duration is opaque here, so nothing is stated
/// of the result.
#[verifier::external_body]
fn duration_as_millis(d: &Duration) -> u128 {
    d.as_millis()
}

/// Milliseconds since the epoch as `now_ms` reports them: the elapsed
/// count truncated to 64 bits, or zero when the clock is before the epoch.
pub fn epoch_millis_or_zero(elapsed_ms: Option<u128>) -> (r: u64)
    ensures
        r == match elapsed_ms {
            Some(ms) => ms as u64,
            None => 0,
        },
{
    match elapsed_ms {
        Some(ms) => ms as u64,
        None => 0,
    }
}

/// The current wall-clock time in milliseconds since the Unix epoch (zero if
/// the clock reads earlier than the epoch). Any value may come back.
pub fn now_ms() -> u64 {
    let now = system_time_now();
    let elapsed = match duration_since_unix_epoch(&now) {
        Some(d) => Some(duration_as_millis(&d)),
        None => None,
    };
    epoch_millis_or_zero(elapsed)
}

/// A span of time, as whole seconds plus nanoseconds below one second: the
/// value of a `std::time::Duration`.
#[derive(Clone, Copy, Debug, PartialEq, Eq, Structural)]
pub struct TimeSpan {
    pub secs: u64,
    pub nanos: u32,
}

impl TimeSpan {
    /// The span is normalised: its nanosecond part is below one second.
    pub open spec fn wf(self) -> bool {
        self.nanos < 1_000_000_000
    }

    /// The span in whole milliseconds (`Duration::as_millis`).
    pub open spec fn millis(self) -> nat {
        (self.secs * 1000 + self.nanos / 1_000_000) as nat
    }

    /// The order of `Duration`: by seconds, then by nanoseconds.
    pub open spec fn le(self, other: TimeSpan) -> bool {
        self.secs < other.secs || (self.secs == other.secs && self.nanos <= other.nanos)
    }

    /// `Duration::from_secs`.
    pub fn from_secs(secs: u64) -> (r: TimeSpan)
        ensures
            r.wf(),
            r.secs == secs,
            r.nanos == 0,
    {
        TimeSpan { secs, nanos: 0 }
    }

    /// `Duration::from_millis`.
    pub fn from_millis(millis: u64) -> (r: TimeSpan)
        ensures
            r.wf(),
            r.millis() == millis,
            r.secs == millis / 1000,
            r.nanos == (millis % 1000) * 1_000_000,
    {
        TimeSpan { secs: millis / 1000, nanos: ((millis % 1000) as u32) * 1_000_000 }
    }

    /// `Duration::as_secs`.
    pub fn as_secs(&self) -> (r: u64)
        ensures
            r == self.secs,
    {
        self.secs
    }

    /// `Duration::as_millis`.
    pub fn as_millis(&self) -> (r: u128)
        ensures
            r == self.millis(),
    {
        self.secs as u128 * 1000 + (self.nanos / 1_000_000) as u128
    }

    /// `Duration::checked_add`: the sum, or `None` when its seconds overflow.
    pub fn checked_add(self, other: TimeSpan) -> (r: Option<TimeSpan>)
        requires
            self.wf(),
            other.wf(),
        ensures
            match r {
                Some(s) => s.wf() && self.secs + other.secs + (self.nanos + other.nanos)
                    / 1_000_000_000 <= u64::MAX && s.secs == self.secs + other.secs + (self.nanos
                    + other.nanos) / 1_000_000_000 && s.nanos == (self.nanos + other.nanos)
                    % 1_000_000_000,
                None => self.secs + other.secs + (self.nanos + other.nanos) / 1_000_000_000
                    > u64::MAX,
            },
    {
        let secs = match self.secs.checked_add(other.secs) {
            Some(s) => s,
            None => return None,
        };
        let nanos = self.nanos + other.nanos;
        if nanos >= 1_000_000_000 {
            match secs.checked_add(1) {
                Some(s) => Some(TimeSpan { secs: s, nanos: nanos - 1_000_000_000 }),
                None => None,
            }
        } else {
            Some(TimeSpan { secs, nanos })
        }
    }

    /// `Ord::max` on durations: `other` unless `self` is greater.
    pub fn max(self, other: TimeSpan) -> (r: TimeSpan)
        ensures
            r == (if self.le(other) {
                other
            } else {
                self
            }),
    {
        if self.secs < other.secs || (self.secs == other.secs && self.nanos <= other.nanos) {
            other
        } else {
            self
        }
    }
}

} // verus!
