//! Points on the naive (zone-less) time line.

use vstd::prelude::*;

verus! {

/// The text that `chrono` prints for the naive date-time lying `secs` whole
/// seconds and `nanos` nanoseconds after 1970-01-01 00:00:00, or `None` where
/// `chrono` has no date-time for the pair.
pub uninterp spec fn naive_text(secs: int, nanos: int) -> Option<Seq<char>>;

/// Mathematical model of a [`Timestamp`].
pub struct Instant {
    /// Whole seconds since 1970-01-01 00:00:00.
    pub secs: int,
    /// Nanoseconds past the whole second.
    pub nanos: int,
}

impl Instant {
    /// Strictly earlier: by the seconds first, then by the nanoseconds.
    pub open spec fn before(self, other: Instant) -> bool {
        self.secs < other.secs || (self.secs == other.secs && self.nanos < other.nanos)
    }

    /// Whether `chrono` has a date-time for this instant.
    pub open spec fn representable(self) -> bool {
        naive_text(self.secs, self.nanos) is Some
    }

    /// The date and the time of day as `chrono` prints them.
    pub open spec fn text(self) -> Seq<char> {
        naive_text(self.secs, self.nanos)->Some_0
    }
}

/// A naive date-time, held as the two integers by which it is ordered.
///
/// Every value is one that `chrono` can represent.
#[derive(Debug, Clone, Copy, PartialEq, Eq)]
pub struct Timestamp {
    secs: i64,
    nanos: u32,
}

impl View for Timestamp {
    type V = Instant;

    closed spec fn view(&self) -> Instant {
        Instant { secs: self.secs as int, nanos: self.nanos as int }
    }
}

/// Asks `chrono::DateTime::from_timestamp` for the date-time of the two
/// numbers and, where there is one, prints its naive part (`naive_utc`) with
/// `Display`, as `to_string` does.
///
/// Not proved, but taken from `chrono`: the outcome depends on the two numbers
/// alone, so it is `naive_text` of them; nothing is said of which pairs have a
/// date-time, nor of the characters of the text.
#[verifier::external_body]
fn print_naive(secs: i64, nanos: u32) -> (text: Option<String>)
    ensures
        match text {
            Some(s) => naive_text(secs as int, nanos as int) == Some(s@),
            None => naive_text(secs as int, nanos as int) is None,
        },
{
    match chrono::DateTime::from_timestamp(secs, nanos) {
        Some(moment) => Some(moment.naive_utc().to_string()),
        None => None,
    }
}

impl Timestamp {
    #[verifier::type_invariant]
    spec fn on_calendar(self) -> bool {
        self@.representable()
    }

    /// The timestamp `secs` seconds and `nanos` nanoseconds after the epoch,
    /// if there is such a date-time.
    pub fn new(secs: i64, nanos: u32) -> (made: Option<Timestamp>)
        ensures
            made is Some <==> (Instant { secs: secs as int, nanos: nanos as int }).representable(),
            made matches Some(t) ==> t@ == (Instant { secs: secs as int, nanos: nanos as int }),
    {
        match print_naive(secs, nanos) {
            Some(_) => Some(Timestamp { secs, nanos }),
            None => None,
        }
    }

    /// Whole seconds since the epoch.
    pub fn secs(&self) -> (secs: i64)
        ensures
            secs == self@.secs,
    {
        self.secs
    }

    /// Nanoseconds past the whole second.
    pub fn nanos(&self) -> (nanos: u32)
        ensures
            nanos == self@.nanos,
    {
        self.nanos
    }

    /// Whether this timestamp is strictly earlier than `other`.
    pub fn is_before(&self, other: &Timestamp) -> (earlier: bool)
        ensures
            earlier == self@.before(other@),
    {
        self.secs < other.secs || (self.secs == other.secs && self.nanos < other.nanos)
    }

    /// The date and the time of day, as in `2024-01-01 19:00:00`.
    pub fn text(&self) -> (text: String)
        ensures
            self@.representable(),
            text@ == self@.text(),
    {
        proof {
            use_type_invariant(self);
        }
        match print_naive(self.secs, self.nanos) {
            Some(text) => text,
            None => unreached(),
        }
    }
}

} // verus!
