//! Instants, and the calendar that the `chrono` crate keeps.

use vstd::prelude::*;

verus! {

/// The first second of the calendar, 1 January of the year -262143.
pub const FIRST_SECOND: i64 = -8_334_601_228_800;

/// The last second of the calendar, at the end of the year 262142.
pub const LAST_SECOND: i64 = 8_210_266_876_799;

/// The first second of the year 0.
pub const FOUR_DIGIT_START: i64 = -62_167_219_200;

/// The last second of the year 9999.
pub const FOUR_DIGIT_END: i64 = 253_402_300_799;

/// An instant: whole seconds since the start of 1970, and nanoseconds on top of them.
#[derive(Debug, Clone, Copy, PartialEq, Eq, Structural)]
pub struct Timestamp {
    pub secs: i64,
    pub nanos: u32,
}

impl Timestamp {
    /// Whether the instant lies in the calendar, outside leap seconds.
    pub open spec fn in_calendar(self) -> bool {
        &&& FIRST_SECOND <= self.secs <= LAST_SECOND
        &&& self.nanos < 1_000_000_000
    }

    /// Whether the year of the instant has four digits.
    pub open spec fn has_four_digit_year(self) -> bool {
        FOUR_DIGIT_START <= self.secs <= FOUR_DIGIT_END
    }

    /// Whether this instant comes strictly before the other.
    pub open spec fn before(self, other: Timestamp) -> bool {
        self.secs < other.secs || (self.secs == other.secs && self.nanos < other.nanos)
    }

    /// Whether this instant comes strictly before the other.
    pub fn is_before(&self, other: &Timestamp) -> (r: bool)
        ensures
            r == self.before(*other),
    {
        self.secs < other.secs || (self.secs == other.secs && self.nanos < other.nanos)
    }
}

/// What `DateTime::parse_from_rfc3339` makes of a text, moved to UTC: the seconds and
/// nanoseconds of the instant, or the text of the error.
pub uninterp spec fn rfc3339_instant(raw: Seq<char>) -> Result<(i64, u32), Seq<char>>;

/// What `DateTime::to_rfc3339` writes for the instant with these seconds and nanoseconds.
pub uninterp spec fn rfc3339_text(secs: i64, nanos: u32) -> Seq<char>;

/// The instant that a text names, or why it names none.
pub open spec fn instant_named(raw: Seq<char>) -> Result<Timestamp, Seq<char>> {
    match rfc3339_instant(raw) {
        Ok((secs, nanos)) => Ok(Timestamp { secs, nanos }),
        Err(reason) => Err(reason),
    }
}

/// Whether a text names this instant.
pub open spec fn names_instant(raw: Seq<char>, t: Timestamp) -> bool {
    rfc3339_instant(raw) == Ok::<(i64, u32), Seq<char>>((t.secs, t.nanos))
}

/// Whether the text that is written for an instant names that instant. [`to_rfc3339`] says for
/// which instants it does.
pub open spec fn reads_back(t: Timestamp) -> bool {
    names_instant(rfc3339_text(t.secs, t.nanos), t)
}

/// `Utc::now`: the machine's clock. Nothing is said of which instant it is, only that it lies
/// in the calendar, not before 1970. The clock of a machine set before 1970 stops the program.
#[verifier::external_body]
pub(crate) fn utc_now() -> (t: Timestamp)
    ensures
        t.in_calendar(),
        0 <= t.secs,
{
    let now = chrono::Utc::now();
    Timestamp { secs: now.timestamp(), nanos: now.timestamp_subsec_nanos() }
}

/// `DateTime::parse_from_rfc3339`, and `with_timezone` to UTC: the instant that the text
/// names, or the text of the error.
#[verifier::external_body]
pub(crate) fn parse_rfc3339(raw: &str) -> (r: Result<Timestamp, String>)
    ensures
        match r {
            Ok(t) => names_instant(raw@, t),
            Err(e) => rfc3339_instant(raw@) == Err::<(i64, u32), Seq<char>>(e@),
        },
{
    match chrono::DateTime::parse_from_rfc3339(raw) {
        Ok(parsed) => {
            let t = parsed.with_timezone(&chrono::Utc);
            Ok(Timestamp { secs: t.timestamp(), nanos: t.timestamp_subsec_nanos() })
        }
        Err(e) => Err(e.to_string()),
    }
}

/// `DateTime::to_rfc3339`: the instant as text. Where the year has four digits,
/// `DateTime::parse_from_rfc3339` reads the same instant back.
#[verifier::external_body]
pub(crate) fn to_rfc3339(t: Timestamp) -> (r: String)
    requires
        t.in_calendar(),
    ensures
        r@ == rfc3339_text(t.secs, t.nanos),
        t.has_four_digit_year() ==> names_instant(r@, t),
{
    chrono::DateTime::<chrono::Utc>::from_timestamp(t.secs, t.nanos).unwrap().to_rfc3339()
}

/// Adding a `chrono::Duration` of whole seconds to a `DateTime<Utc>`: the seconds add up and
/// the nanoseconds stay.
#[verifier::external_body]
pub(crate) fn seconds_after(t: Timestamp, secs: i64) -> (r: Timestamp)
    requires
        t.in_calendar(),
        -9_223_372_036_854_775 <= secs <= 9_223_372_036_854_775,
        FIRST_SECOND <= t.secs + secs <= LAST_SECOND,
    ensures
        r.secs == t.secs + secs,
        r.nanos == t.nanos,
{
    let start = chrono::DateTime::<chrono::Utc>::from_timestamp(t.secs, t.nanos).unwrap();
    let end = start + chrono::Duration::seconds(secs);
    Timestamp { secs: end.timestamp(), nanos: end.timestamp_subsec_nanos() }
}

} // verus!
