//! Instants of time, and the clock.

use vstd::prelude::*;

verus! {

/// An instant on the UTC time line: whole seconds since the Unix epoch and the
/// nanoseconds into that second (one billion or more within a leap second).
#[derive(Clone, Copy, Debug, PartialEq, Eq, Structural)]
pub struct Timestamp {
    pub secs: i64,
    pub nanos: u32,
}

impl Timestamp {
    /// Whether the instant lies outside every leap second: its nanoseconds stay
    /// below one second.
    pub open spec fn is_outside_leap_second(self) -> bool {
        self.nanos < 1_000_000_000
    }

    /// Whether `self` is strictly earlier than `other`.
    pub open spec fn is_before(self, other: Timestamp) -> bool {
        self.secs < other.secs || (self.secs == other.secs && self.nanos < other.nanos)
    }

    pub fn before(&self, other: &Timestamp) -> (r: bool)
        ensures
            r == self.is_before(*other),
    {
        self.secs < other.secs || (self.secs == other.secs && self.nanos < other.nanos)
    }

    /// The current instant, as the system clock has it. Which instant that is
    /// depends on the clock alone; whatever it reads, it reads no leap second.
    pub fn now() -> (now: Timestamp)
        ensures
            now.is_outside_leap_second(),
    {
        let (secs, nanos) = utc_now();
        Timestamp { secs, nanos }
    }

    /// The instant that `text` denotes, where it denotes one.
    pub fn parse(text: &str) -> (r: Option<Timestamp>)
        ensures
            r == instant_of(text@),
    {
        match parse_utc(text) {
            Some((secs, nanos)) => Some(Timestamp { secs, nanos }),
            None => None,
        }
    }
}

/// What `chrono` reads from `text` as a `DateTime<Utc>`: its seconds since the
/// Unix epoch and its nanoseconds within the second, or nothing where `chrono`
/// rejects the text.
pub uninterp spec fn utc_instant(text: Seq<char>) -> Option<(i64, u32)>;

/// The instant that `text` denotes in the relaxed RFC 3339 form that `chrono` reads.
pub open spec fn instant_of(text: Seq<char>) -> Option<Timestamp> {
    match utc_instant(text) {
        Some((secs, nanos)) => Some(Timestamp { secs, nanos }),
        None => None,
    }
}

/// `chrono::Utc::now`, read through `DateTime::timestamp` and
/// `DateTime::timestamp_subsec_nanos`. Nothing is claimed of which instant the
/// clock reads. `Utc::now` makes its value from the part of a second that the
/// system clock reports, which is less than a second, so the nanoseconds are
/// those of no leap second.
#[verifier::external_body]
fn utc_now() -> (now: (i64, u32))
    ensures
        now.1 < 1_000_000_000,
{
    let t = chrono::Utc::now();
    (t.timestamp(), t.timestamp_subsec_nanos())
}

/// `chrono::DateTime::to_rfc3339` of `chrono::Utc::now`: the current instant as
/// text. Nothing is claimed of the clock's value.
#[verifier::external_body]
pub(crate) fn utc_now_rfc3339() -> (text: String) {
    chrono::Utc::now().to_rfc3339()
}

/// `str::parse::<chrono::DateTime<chrono::Utc>>`, read through
/// `DateTime::timestamp` and `DateTime::timestamp_subsec_nanos`. The result
/// depends on the text alone; `utc_instant` names it.
#[verifier::external_body]
fn parse_utc(text: &str) -> (r: Option<(i64, u32)>)
    ensures
        r == utc_instant(text@),
{
    match text.parse::<chrono::DateTime<chrono::Utc>>() {
        Ok(t) => Some((t.timestamp(), t.timestamp_subsec_nanos())),
        Err(_) => None,
    }
}

} // verus!
