use vstd::prelude::*;
use vstd::string::*;
use std::time::Duration;
use crate::text::{decimal, to_decimal, lemma_decimal_len};

verus! {

/// A span of time split into whole hours, minutes and seconds.
#[derive(Debug, Clone, Copy, PartialEq, Eq, Structural)]
pub struct Time(pub u64, pub u64, pub u64);

/// The whole seconds that a `Duration` of the standard library holds: what
/// its `as_secs` returns.
pub uninterp spec fn whole_secs(duration: Duration) -> u64;

/// `Duration::as_secs` of the standard library: the whole seconds of the
/// duration, without its fraction. They depend on the duration alone.
pub assume_specification[ Duration::as_secs ](duration: &Duration) -> (secs: u64)
    ensures
        secs == whole_secs(*duration),
;

/// The hours, minutes and seconds into which a number of seconds splits.
pub open spec fn split_secs(secs: u64) -> Time {
    Time((secs / 3600) as u64, ((secs % 3600) / 60) as u64, (secs % 60) as u64)
}

/// `x` in decimal, with one leading zero where it has a single digit.
pub open spec fn two_chars(x: nat) -> Seq<char> {
    if x < 10 {
        seq!['0'] + decimal(x)
    } else {
        decimal(x)
    }
}

/// Hours, minutes and seconds, at least two digits each, with `separator`
/// between them.
pub open spec fn readable(t: Time, separator: Seq<char>) -> Seq<char> {
    two_chars(t.0 as nat) + separator + two_chars(t.1 as nat) + separator + two_chars(t.2 as nat)
}

impl Time {
    /// The number of seconds that the three fields stand for.
    pub open spec fn total_secs(self) -> nat {
        (self.0 * 3600 + self.1 * 60 + self.2) as nat
    }

    /// The total fits the machine word that `as_secs` returns.
    pub open spec fn wf(self) -> bool {
        self.total_secs() <= u64::MAX
    }

    /// Minutes and seconds are below sixty, as `from_secs` leaves them.
    pub open spec fn normalized(self) -> bool {
        self.1 < 60 && self.2 < 60
    }

    /// Splits a number of seconds into hours, minutes and seconds.
    pub fn from_secs(secs: u64) -> (t: Time)
        ensures
            t.wf(),
            t.normalized(),
            t.total_secs() == secs,
            t == split_secs(secs),
    {
        let mut seconds: u64 = secs;
        let hours: u64 = seconds / 3600;
        seconds -= hours * 3600;
        let minutes: u64 = seconds / 60;
        seconds -= minutes * 60;
        Time(hours, minutes, seconds)
    }

    /// The time in seconds.
    pub fn as_secs(&self) -> (secs: u64)
        requires
            self.wf(),
        ensures
            secs == self.total_secs(),
    {
        let Time(h, m, s) = *self;
        (h * 3600) + (m * 60) + s
    }

    /// Writes the time out, as `01:02:03` with the separator `:`.
    pub fn to_readable(&self, separator: &str) -> (out: String)
        ensures
            out@ == readable(*self, separator@),
    {
        let Time(h, m, s) = *self;
        let mut out = make_to_least_two_chars(h);
        out.append(separator);
        let minutes = make_to_least_two_chars(m);
        out.append(minutes.as_str());
        out.append(separator);
        let seconds = make_to_least_two_chars(s);
        out.append(seconds.as_str());
        out
    }
}

impl From<Duration> for Time {
    /// The whole seconds of a duration as hours, minutes and seconds.
    fn from(value: Duration) -> (t: Time) {
        Time::from_secs(value.as_secs())
    }
}

impl vstd::std_specs::convert::FromSpecImpl<Duration> for Time {
    open spec fn obeys_from_spec() -> bool {
        true
    }

    open spec fn from_spec(value: Duration) -> Time {
        split_secs(whole_secs(value))
    }
}

impl From<&Duration> for Time {
    /// The whole seconds of a duration as hours, minutes and seconds.
    fn from(duration: &Duration) -> (t: Time) {
        Time::from_secs(duration.as_secs())
    }
}

impl vstd::std_specs::convert::FromSpecImpl<&Duration> for Time {
    open spec fn obeys_from_spec() -> bool {
        true
    }

    open spec fn from_spec(duration: &Duration) -> Time {
        split_secs(whole_secs(*duration))
    }
}

impl Default for Time {
    fn default() -> (t: Time)
        ensures
            t == Time(0, 0, 0),
    {
        Time(0, 0, 0)
    }
}

/// Writes a number in decimal, with a leading zero where it has one digit.
pub fn make_to_least_two_chars(x: u64) -> (out: String)
    ensures
        out@ == two_chars(x as nat),
        out@.len() >= 2,
{
    proof {
        lemma_decimal_len(x as nat);
    }
    let digits = to_decimal(x);
    if x < 10 {
        let mut out = String::new();
        out.push('0');
        out.append(digits.as_str());
        assert(out@ =~= seq!['0'] + decimal(x as nat));
        out
    } else {
        digits
    }
}

/// Splitting seconds and putting them together again gives the seconds
/// back; minutes and seconds stay below sixty.
pub proof fn lemma_split_secs_round_trip(secs: u64)
    ensures
        split_secs(secs).total_secs() == secs,
        split_secs(secs).wf(),
        split_secs(secs).normalized(),
{
}

} // verus!
