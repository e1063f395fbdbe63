use vstd::prelude::*;

verus! {

/// A wall-clock time of day: whole seconds since midnight and a nanosecond
/// fraction, where a fraction of one second or more marks a leap second.
#[derive(Clone, Copy, Debug, PartialEq, Eq, Structural)]
pub struct Time {
    pub secs: u32,
    pub frac: u32,
}

impl Time {
    /// The range a time of day can take: under a day of seconds, a fraction
    /// under two seconds, and a leap second only at the end of a minute.
    pub open spec fn valid(self) -> bool {
        &&& self.secs < 86_400
        &&& self.frac < 2_000_000_000
        &&& self.frac >= 1_000_000_000 ==> self.secs % 60 == 59
    }
}

/// The time of day that "%H:%M:%S" parsing yields for a text, if any.
pub uninterp spec fn time_of(s: Seq<char>) -> Option<Time>;

/// Signed nanoseconds from `start` to `end`; a leap second that lies
/// between the two is counted.
pub open spec fn nanos_between(end: Time, start: Time) -> int {
    let adjust: int = if end.secs > start.secs && start.frac >= 1_000_000_000 {
        1
    } else if end.secs < start.secs && end.frac >= 1_000_000_000 {
        -1
    } else {
        0
    };
    (end.secs - start.secs + adjust) * 1_000_000_000 + (end.frac - start.frac)
}

/// Relies on chrono's `NaiveTime::parse_from_str` with the format "%H:%M:%S",
/// and on `Timelike::num_seconds_from_midnight` and `Timelike::nanosecond` to
/// read the parsed value; a `NaiveTime` is always in the valid range.
#[verifier::external_body]
pub(crate) fn parse_hms(s: &str) -> (r: Option<Time>)
    ensures
        r == time_of(s@),
        r matches Some(t) ==> t.valid(),
{
    chrono::NaiveTime::parse_from_str(s, "%H:%M:%S").ok().map(
        |t| Time {
            secs: chrono::Timelike::num_seconds_from_midnight(&t),
            frac: chrono::Timelike::nanosecond(&t),
        },
    )
}

/// Relies on chrono's `NaiveTime::signed_duration_since` for the signed span
/// from `start` to `end`, read back with `TimeDelta::num_nanoseconds`.
#[verifier::external_body]
pub(crate) fn signed_nanos_between(end: Time, start: Time) -> (r: i64)
    requires
        end.valid(),
        start.valid(),
    ensures
        r == nanos_between(end, start),
{
    let e = chrono::NaiveTime::from_num_seconds_from_midnight_opt(end.secs, end.frac).unwrap();
    let s = chrono::NaiveTime::from_num_seconds_from_midnight_opt(start.secs, start.frac).unwrap();
    e.signed_duration_since(s).num_nanoseconds().unwrap()
}

/// A signed length of time, in nanoseconds.
#[derive(Clone, Copy, Debug, PartialEq, Eq, Structural)]
pub struct Duration {
    pub nanos: i128,
}

impl Duration {
    pub fn zero() -> (r: Duration)
        ensures
            r.nanos == 0,
    {
        Duration { nanos: 0 }
    }

    pub fn num_nanoseconds(&self) -> (r: i128)
        ensures
            r == self.nanos,
    {
        self.nanos
    }
}

} // verus!
