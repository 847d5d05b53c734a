//! Moments and spans of time, in nanoseconds, and how spans are written.

use vstd::prelude::*;

use crate::text::{concat, decimal, number, padded, padded_number};

verus! {

pub const NANOS_PER_SEC: u128 = 1_000_000_000;

pub const NANOS_PER_MILLI: u128 = 1_000_000;

/// A span of time.
#[derive(Clone, Copy, Debug, PartialEq, Eq, Structural)]
pub struct Duration {
    pub nanos: u128,
}

/// A moment, counted from a fixed one that is the same for all.
#[derive(Clone, Copy, Debug, PartialEq, Eq, Structural)]
pub struct Instant {
    pub nanos: u128,
}

/// The number of whole seconds in a span, as far as 64 bits can hold it.
pub open spec fn whole_secs(d: Duration) -> u64 {
    let secs = d.nanos / NANOS_PER_SEC;
    if secs > u64::MAX {
        u64::MAX
    } else {
        secs as u64
    }
}

impl Duration {
    pub open spec fn of_secs(secs: u64) -> Duration {
        Duration { nanos: (secs * NANOS_PER_SEC) as u128 }
    }

    pub open spec fn of_millis(millis: u64) -> Duration {
        Duration { nanos: (millis * NANOS_PER_MILLI) as u128 }
    }

    pub fn from_secs(secs: u64) -> (r: Duration)
        ensures
            r == Duration::of_secs(secs),
            whole_secs(r) == secs,
    {
        let r = Duration { nanos: secs as u128 * NANOS_PER_SEC };
        assert((secs * NANOS_PER_SEC) / NANOS_PER_SEC as int == secs) by (nonlinear_arith)
            requires
                NANOS_PER_SEC > 0,
        ;
        r
    }

    pub fn from_millis(millis: u64) -> (r: Duration)
        ensures
            r == Duration::of_millis(millis),
    {
        Duration { nanos: millis as u128 * NANOS_PER_MILLI }
    }

    /// The number of whole seconds.
    pub fn as_secs(self) -> (r: u64)
        ensures
            r == whole_secs(self),
    {
        let secs: u128 = self.nanos / NANOS_PER_SEC;
        if secs > u64::MAX as u128 {
            u64::MAX
        } else {
            secs as u64
        }
    }
}

impl Instant {
    /// The moment a span later.
    pub open spec fn after(self, span: Duration) -> Instant {
        Instant { nanos: (self.nanos + span.nanos) as u128 }
    }

    /// The span since an earlier moment; nothing where that moment is a later one.
    pub open spec fn since(self, earlier: Instant) -> Duration {
        Duration {
            nanos: if self.nanos < earlier.nanos {
                0
            } else {
                (self.nanos - earlier.nanos) as u128
            },
        }
    }

    /// The moment a span later.
    pub fn plus(self, span: Duration) -> (r: Instant)
        requires
            self.nanos + span.nanos <= u128::MAX,
        ensures
            r == self.after(span),
    {
        Instant { nanos: self.nanos + span.nanos }
    }

    /// The span since an earlier moment; nothing where that moment is a later one.
    pub fn saturating_duration_since(self, earlier: Instant) -> (r: Duration)
        ensures
            r == self.since(earlier),
    {
        Duration { nanos: self.nanos.saturating_sub(earlier.nanos) }
    }
}

/// Minutes and seconds, both with two digits at least: `05:09`.
pub open spec fn mm_ss(secs: nat) -> Seq<char> {
    padded(secs / 60) + ":"@ + padded(secs % 60)
}

/// Hours, minutes and seconds, without the hours where there are none: `1:02:05`, `3:21`.
pub open spec fn h_mm_ss(secs: nat) -> Seq<char> {
    if secs / 3600 > 0 {
        decimal(secs / 3600) + ":"@ + padded(secs / 60 % 60) + ":"@ + padded(secs % 60)
    } else {
        decimal(secs / 60) + ":"@ + padded(secs % 60)
    }
}

/// Minutes and seconds, both with two digits at least.
pub fn minutes_seconds(secs: u64) -> (r: String)
    ensures
        r@ == mm_ss(secs as nat),
{
    let minutes = padded_number(secs / 60);
    let seconds = padded_number(secs % 60);
    let mut r = concat(minutes.as_str(), ":");
    r.append(seconds.as_str());
    r
}

/// Hours, minutes and seconds, without the hours where there are none.
pub fn hours_minutes_seconds(secs: u64) -> (r: String)
    ensures
        r@ == h_mm_ss(secs as nat),
{
    let hours: u64 = secs / 3600;
    let minutes: u64 = secs / 60 % 60;
    let tail = padded_number(secs % 60);
    let mut r: String;
    if hours > 0 {
        let first = number(hours);
        let second = padded_number(minutes);
        r = concat(first.as_str(), ":");
        r.append(second.as_str());
        r.append(":");
    } else {
        assert(secs / 60 % 60 == secs / 60);
        let first = number(minutes);
        r = concat(first.as_str(), ":");
    }
    r.append(tail.as_str());
    r
}

/// A span is written by its hours, minutes and seconds: hours only where there is one, minutes and
/// seconds with two digits behind a larger unit.
pub proof fn law_span_is_written_by_its_units(h: u64, m: u64, s: u64, secs: u64, text: String)
    requires
        m < 60,
        s < 60,
        secs == h * 3600 + m * 60 + s,
        call_ensures(hours_minutes_seconds, (secs,), text),
    ensures
        h > 0 ==> text@ == decimal(h as nat) + ":"@ + padded(m as nat) + ":"@ + padded(s as nat),
        h == 0 ==> text@ == decimal(m as nat) + ":"@ + padded(s as nat),
{
    let n = secs as int;
    assert(n / 3600 == h && n / 60 == h * 60 + m && n / 60 % 60 == m && n % 60 == s) by {
        assert(n == (h * 60 + m) * 60 + s);
    }
}

/// A countdown is written by its minutes and seconds, both with two digits.
pub proof fn law_countdown_is_written_by_minutes(m: u64, s: u64, secs: u64, text: String)
    requires
        s < 60,
        secs == m * 60 + s,
        call_ensures(minutes_seconds, (secs,), text),
    ensures
        text@ == padded(m as nat) + ":"@ + padded(s as nat),
{
}

/// The span since an earlier instant is what was added to it, and none for a later one.
pub proof fn law_span_since_is_what_was_added(start: Instant, span: Duration, end: Instant, back: Duration, ahead: Duration)
    requires
        start.nanos + span.nanos <= u128::MAX,
        call_ensures(Instant::plus, (start, span), end),
        call_ensures(Instant::saturating_duration_since, (end, start), back),
        call_ensures(Instant::saturating_duration_since, (start, end), ahead),
    ensures
        back == span,
        ahead.nanos == 0,
{
}

/// A second is a thousand milliseconds, and whole seconds are read back.
pub proof fn law_seconds_and_milliseconds_agree(secs: u64, a: Duration, b: Duration, read: u64)
    requires
        secs <= u64::MAX / 1000,
        call_ensures(Duration::from_secs, (secs,), a),
        call_ensures(Duration::from_millis, ((secs * 1000) as u64,), b),
        call_ensures(Duration::as_secs, (a,), read),
    ensures
        a == b,
        read == secs,
{
}

} // verus!
