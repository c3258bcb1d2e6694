//! Points in time, as seconds since the Unix epoch, read and written by
//! `chrono`.

use vstd::prelude::*;

verus! {

/// The seconds from the Unix epoch to the first second that `chrono` has a
/// `DateTime<Utc>` for: the start of the year -262143.
pub const MIN_TIMESTAMP: i64 = -8334601228800;

/// The seconds from the Unix epoch to the last second that `chrono` has a
/// `DateTime<Utc>` for: the end of the year 262142.
pub const MAX_TIMESTAMP: i64 = 8210266876799;

/// Whether `chrono` has a `DateTime<Utc>` for this many seconds since the
/// Unix epoch.
pub open spec fn timestamp_in_range(seconds: int) -> bool {
    MIN_TIMESTAMP <= seconds <= MAX_TIMESTAMP
}

/// The text that `DateTime::<Utc>::format` writes for the point in time
/// `seconds` after the Unix epoch under the `strftime` pattern `pattern`.
pub uninterp spec fn utc_text(seconds: int, pattern: Seq<char>) -> Seq<char>;

/// What `DateTime::parse_from_rfc3339` reads from `text`: the seconds from
/// the Unix epoch to the time that is written, and the seconds from the Unix
/// epoch to the same date and time of day in UTC (the local time, read as if
/// it were UTC); `None` where it reports an error.
pub uninterp spec fn rfc3339_instant(text: Seq<char>) -> Option<(int, int)>;

/// Whether `text` parses as a `DateTime<Utc>` with `str::parse`.
pub uninterp spec fn is_utc_datetime_text(text: Seq<char>) -> bool;

/// The pattern of a year.
pub open spec fn year_pattern() -> Seq<char> {
    "%Y"@
}

/// The pattern of a date: year, month and day.
pub open spec fn date_pattern() -> Seq<char> {
    "%Y-%m-%d"@
}

/// The pattern of a date followed by the short name of its day of the week.
pub open spec fn day_pattern() -> Seq<char> {
    "%Y-%m-%d %a"@
}

/// The patterns that this library writes times with.
pub open spec fn is_known_pattern(pattern: Seq<char>) -> bool {
    pattern == year_pattern() || pattern == date_pattern() || pattern == day_pattern()
}

/// `DateTime::from_timestamp(seconds, 0)`: whether it returns a time. It
/// returns `None` exactly when the day of the seconds is out of the range of
/// `NaiveDate`, which ends with the years -262143 and 262142.
#[verifier::external_body]
fn timestamp_exists(seconds: i64) -> (b: bool)
    ensures
        b == timestamp_in_range(seconds as int),
{
    chrono::DateTime::from_timestamp(seconds, 0).is_some()
}

/// `DateTime::<Utc>::format` on the time `seconds` after the Unix epoch, with
/// one of the three patterns of this library, each of which `chrono` accepts.
/// The result depends on the seconds and the pattern alone: the time is in
/// UTC and the names of days are the English ones.
#[verifier::external_body]
fn format_utc(seconds: i64, pattern: &str) -> (s: String)
    requires
        timestamp_in_range(seconds as int),
        is_known_pattern(pattern@),
    ensures
        s@ == utc_text(seconds as int, pattern@),
{
    chrono::DateTime::from_timestamp(seconds, 0).unwrap().format(pattern).to_string()
}

/// `DateTime::parse_from_rfc3339`, with the time it read as its `timestamp()`
/// and the local time that was written as the `timestamp()` of its
/// `naive_local()`. Both are in the range of `DateTime<Utc>`: `chrono` holds
/// each as a `NaiveDateTime`.
#[verifier::external_body]
fn parse_rfc3339(text: &str) -> (r: Option<(i64, i64)>)
    ensures
        match r {
            Some((seconds, local)) => rfc3339_instant(text@) == Some(
                (seconds as int, local as int),
            ) && timestamp_in_range(seconds as int) && timestamp_in_range(local as int),
            None => rfc3339_instant(text@) is None,
        },
{
    chrono::DateTime::parse_from_rfc3339(text).ok().map(
        |t| (t.timestamp(), t.naive_local().and_utc().timestamp()),
    )
}

/// `str::parse::<DateTime<Utc>>`: whether it succeeds.
#[verifier::external_body]
fn parses_as_utc_datetime(text: &str) -> (b: bool)
    ensures
        b == is_utc_datetime_text(text@),
{
    text.parse::<chrono::DateTime<chrono::Utc>>().is_ok()
}

/// A point in time, in whole seconds since the Unix epoch, that `chrono` can
/// write as a date.
#[derive(Clone, Copy, Debug, PartialEq, Eq)]
pub struct Timestamp {
    seconds: i64,
}

impl View for Timestamp {
    type V = int;

    closed spec fn view(&self) -> int {
        self.seconds as int
    }
}

impl DeepView for Timestamp {
    type V = int;

    open spec fn deep_view(&self) -> int {
        self@
    }
}

impl Timestamp {
    #[verifier::type_invariant]
    spec fn in_range(self) -> bool {
        timestamp_in_range(self.seconds as int)
    }

    /// The time `seconds` after the Unix epoch, if `chrono` has it.
    pub fn from_timestamp(seconds: i64) -> (r: Option<Timestamp>)
        ensures
            r is Some <==> timestamp_in_range(seconds as int),
            r matches Some(t) ==> t@ == seconds,
    {
        if timestamp_exists(seconds) {
            Some(Timestamp { seconds })
        } else {
            None
        }
    }

    /// The time that `text` writes as RFC 3339 asks.
    pub fn parse_from_rfc3339(text: &str) -> (r: Option<Timestamp>)
        ensures
            r.deep_view() == rfc3339_seconds(text@),
    {
        match parse_rfc3339(text) {
            Some((seconds, _)) => Some(Timestamp { seconds }),
            None => None,
        }
    }

    /// The seconds since the Unix epoch.
    pub fn timestamp(&self) -> (seconds: i64)
        ensures
            seconds == self@,
    {
        self.seconds
    }

    /// The year, written as `%Y`.
    pub fn format_year(&self) -> (s: String)
        ensures
            s@ == utc_text(self@, year_pattern()),
    {
        proof {
            use_type_invariant(self);
        }
        format_utc(self.seconds, "%Y")
    }

    /// The date, written as `%Y-%m-%d`.
    pub fn format_date(&self) -> (s: String)
        ensures
            s@ == utc_text(self@, date_pattern()),
    {
        proof {
            use_type_invariant(self);
        }
        format_utc(self.seconds, "%Y-%m-%d")
    }

    /// The date and the day of the week, written as `%Y-%m-%d %a`.
    pub fn format_day(&self) -> (s: String)
        ensures
            s@ == utc_text(self@, day_pattern()),
    {
        proof {
            use_type_invariant(self);
        }
        format_utc(self.seconds, "%Y-%m-%d %a")
    }
}

/// The time that `text` writes as RFC 3339 asks, in seconds since the Unix
/// epoch.
pub open spec fn rfc3339_seconds(text: Seq<char>) -> Option<int> {
    match rfc3339_instant(text) {
        Some((seconds, local)) => Some(seconds),
        None => None,
    }
}

/// The date that `text` writes as RFC 3339 asks, in the time zone that it
/// names, as `%Y-%m-%d`.
pub open spec fn rfc3339_local_date(text: Seq<char>) -> Option<Seq<char>> {
    match rfc3339_instant(text) {
        Some((seconds, local)) => Some(utc_text(local, date_pattern())),
        None => None,
    }
}

/// The date that `text` writes as RFC 3339 asks, in the time zone that it
/// names, as `%Y-%m-%d`; `None` if it writes none.
pub fn local_date(text: &str) -> (r: Option<String>)
    ensures
        r.deep_view() == rfc3339_local_date(text@),
{
    match parse_rfc3339(text) {
        Some((_, local)) => Some(format_utc(local, "%Y-%m-%d")),
        None => None,
    }
}

/// Whether `text` parses as a `DateTime<Utc>`.
pub fn is_utc_datetime(text: &str) -> (b: bool)
    ensures
        b == is_utc_datetime_text(text@),
{
    parses_as_utc_datetime(text)
}

} // verus!
