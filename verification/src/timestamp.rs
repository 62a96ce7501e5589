//! Instants out of the compact timestamps of a calendar.
//!
//! A compact timestamp such as `20240615T140000Z` is rewritten by character
//! positions into the text of an RFC 3339 instant, and that text is parsed.
//! An instant is kept as seconds and nanoseconds since the Unix epoch; the
//! civil date that belongs to it under an offset from UTC is looked up when it
//! is needed.

use vstd::prelude::*;
use crate::event::Event;
use crate::text::{all_in, all_in_range, to_chars, CharClass};

verus! {

/// A point in time: whole seconds since 1970-01-01T00:00:00Z, leap seconds
/// not counted, and the nanoseconds since the last whole second. Within a
/// leap second the nanoseconds are 1,000,000,000 or more.
#[derive(Clone, Copy, Debug, PartialEq, Eq, Structural)]
pub struct Timestamp {
    pub secs: i64,
    pub nanos: u32,
}

/// A day of the civil calendar.
#[derive(Clone, Copy, Debug, PartialEq, Eq, Structural)]
pub struct CivilDate {
    pub year: i32,
    pub month: u32,
    pub day: u32,
}

/// Why a compact timestamp gives no instant.
#[derive(Clone, Copy, Debug, PartialEq, Eq, Structural)]
pub enum TimestampError {
    /// The text has fewer characters than the fields take.
    TooShort,
    /// A character of a field is no digit.
    NotDigits,
    /// The digits name no date and time of day.
    Invalid,
    /// The instant has no civil date that can be represented.
    OutOfRange,
}

/// How much of a compact timestamp is read.
#[derive(Clone, Copy, Debug, PartialEq, Eq, Structural)]
pub enum Precision {
    /// Date and hour; minute and second are taken as zero.
    Hour,
    /// Date, hour, minute and second.
    Second,
}

impl Precision {
    /// The number of characters that the fields take.
    pub open spec fn width(self) -> int {
        match self {
            Precision::Hour => 11,
            Precision::Second => 15,
        }
    }
}

/// `a` is earlier than `b`.
pub open spec fn earlier(a: Timestamp, b: Timestamp) -> bool {
    a.secs < b.secs || (a.secs == b.secs && a.nanos < b.nanos)
}

/// The later of `a` and `b`.
pub open spec fn later_of(a: Timestamp, b: Timestamp) -> Timestamp {
    if earlier(a, b) {
        b
    } else {
        a
    }
}

impl Timestamp {
    /// Whether this instant is earlier than `other`.
    pub fn is_before(&self, other: &Timestamp) -> (r: bool)
        ensures
            r == earlier(*self, *other),
    {
        self.secs < other.secs || (self.secs == other.secs && self.nanos < other.nanos)
    }
}

/// The RFC 3339 text for the compact timestamp `s`, which has at least
/// `precision.width()` characters: year, month and day are its characters 0 to
/// 3, 4 to 5 and 6 to 7, the hour its characters 9 to 10, minute and second
/// its characters 11 to 12 and 13 to 14 or, at the precision of an hour,
/// zero. The character at position 8 and those after the fields are not read.
pub open spec fn rfc_string_at(s: Seq<char>, precision: Precision) -> Seq<char> {
    let date = s.subrange(0, 4) + "-"@ + s.subrange(4, 6) + "-"@ + s.subrange(6, 8) + "T"@
        + s.subrange(9, 11);
    match precision {
        Precision::Hour => date + ":00:00.0Z"@,
        Precision::Second => date + ":"@ + s.subrange(11, 13) + ":"@ + s.subrange(13, 15)
            + ".0Z"@,
    }
}

/// The RFC 3339 text for the compact timestamp `s`, read to the second.
pub open spec fn rfc_string(s: Seq<char>) -> Seq<char> {
    rfc_string_at(s, Precision::Second)
}

/// The fields of the compact timestamp `s` hold digits only.
pub open spec fn fields_are_digits(s: Seq<char>, precision: Precision) -> bool {
    &&& all_in(s.subrange(0, 8), CharClass::AsciiDigit)
    &&& all_in(s.subrange(9, precision.width()), CharClass::AsciiDigit)
}

/// The instant that the RFC 3339 text `text` names, as seconds and
/// nanoseconds since the Unix epoch; `None` where `text` names none.
pub uninterp spec fn rfc3339_instant(text: Seq<char>) -> Option<(i64, u32)>;

/// The civil date, as year, month and day, of the instant `secs` seconds
/// after the Unix epoch, at `offset` seconds east of UTC; `None` where the
/// instant or the offset is out of range.
pub uninterp spec fn civil_date(secs: i64, offset: i32) -> Option<(i32, u32, u32)>;

/// Parses `text` with `chrono::DateTime::parse_from_rfc3339` and hands out the
/// instant as `timestamp()` and `timestamp_subsec_nanos()` give it. The
/// result is a function of the text alone.
#[verifier::external_body]
fn parse_rfc3339(text: &str) -> (r: Option<(i64, u32)>)
    ensures
        r == rfc3339_instant(text@),
{
    match chrono::DateTime::parse_from_rfc3339(text) {
        Ok(instant) => Some((instant.timestamp(), instant.timestamp_subsec_nanos())),
        Err(_) => None,
    }
}

/// Makes the instant with `chrono::DateTime::from_timestamp`, moves it to the
/// offset `chrono::FixedOffset::east_opt(offset)` with `with_timezone`, and
/// hands out `year()`, `month()` and `day()` of what comes of it. The result
/// is a function of the two numbers alone.
#[verifier::external_body]
fn civil_date_at(secs: i64, offset: i32) -> (r: Option<(i32, u32, u32)>)
    ensures
        r == civil_date(secs, offset),
{
    let zone = chrono::FixedOffset::east_opt(offset)?;
    let local = chrono::DateTime::from_timestamp(secs, 0)?.with_timezone(&zone);
    Some(
        (
            chrono::Datelike::year(&local),
            chrono::Datelike::month(&local),
            chrono::Datelike::day(&local),
        ),
    )
}

/// The offset of local time from UTC at this moment, in seconds east, as
/// `chrono::Local::now().offset().local_minus_utc()` gives it. It depends on
/// the clock and on the time zone of the machine. Whatever they are, the
/// offset is less than a day either way: a `chrono::FixedOffset` is only made
/// by `east_opt` and `west_opt`, which hand out no other.
#[verifier::external_body]
pub(crate) fn local_offset_now() -> (r: i32)
    ensures
        -86_400 < r < 86_400,
{
    chrono::Local::now().offset().local_minus_utc()
}

/// The present moment as `chrono::Utc::now()` gives it. It depends on the
/// clock, so nothing is stated of it.
#[verifier::external_body]
pub(crate) fn current_time() -> Timestamp {
    let now = chrono::Utc::now();
    Timestamp { secs: now.timestamp(), nanos: now.timestamp_subsec_nanos() }
}

/// What a parsed RFC 3339 text gives.
pub open spec fn instant_of(parsed: Option<(i64, u32)>) -> Result<Timestamp, TimestampError> {
    match parsed {
        Some((secs, nanos)) => Ok(Timestamp { secs, nanos }),
        None => Err(TimestampError::Invalid),
    }
}

/// What a looked-up civil date gives.
pub open spec fn date_of(found: Option<(i32, u32, u32)>) -> Result<CivilDate, TimestampError> {
    match found {
        Some((year, month, day)) => Ok(CivilDate { year, month, day }),
        None => Err(TimestampError::OutOfRange),
    }
}

/// The instant of the compact timestamp `s`: none where `s` is too short or
/// a field holds something else than digits; else what the RFC 3339 text for
/// `s` names.
pub open spec fn timestamp_at(s: Seq<char>, precision: Precision) -> Result<
    Timestamp,
    TimestampError,
> {
    if s.len() < precision.width() {
        Err(TimestampError::TooShort)
    } else if !fields_are_digits(s, precision) {
        Err(TimestampError::NotDigits)
    } else {
        instant_of(rfc3339_instant(rfc_string_at(s, precision)))
    }
}

/// The instant of the compact timestamp `s`, read to the second.
pub open spec fn timestamp_of(s: Seq<char>) -> Result<Timestamp, TimestampError> {
    timestamp_at(s, Precision::Second)
}

/// The civil date of `t` at `offset` seconds east of UTC.
pub open spec fn civil_date_of(t: Timestamp, offset: i32) -> Result<CivilDate, TimestampError> {
    date_of(civil_date(t.secs, offset))
}

/// Turns a parsed RFC 3339 text into an instant.
pub fn timestamp_from_parsed(parsed: Option<(i64, u32)>) -> (r: Result<Timestamp, TimestampError>)
    ensures
        r == instant_of(parsed),
{
    match parsed {
        Some((secs, nanos)) => Ok(Timestamp { secs, nanos }),
        None => Err(TimestampError::Invalid),
    }
}

/// Turns a looked-up civil date into a date.
pub fn date_from_found(found: Option<(i32, u32, u32)>) -> (r: Result<CivilDate, TimestampError>)
    ensures
        r == date_of(found),
{
    match found {
        Some((year, month, day)) => Ok(CivilDate { year, month, day }),
        None => Err(TimestampError::OutOfRange),
    }
}

/// Writes the RFC 3339 text for the compact timestamp `s`.
pub fn rfc_string_with(s: &str, precision: Precision) -> (r: String)
    requires
        s@.len() >= precision.width(),
    ensures
        r@ == rfc_string_at(s@, precision),
{
    let mut out = String::new();
    out.append(s.substring_char(0, 4));
    out.append("-");
    out.append(s.substring_char(4, 6));
    out.append("-");
    out.append(s.substring_char(6, 8));
    out.append("T");
    out.append(s.substring_char(9, 11));
    match precision {
        Precision::Hour => {
            out.append(":00:00.0Z");
        },
        Precision::Second => {
            out.append(":");
            out.append(s.substring_char(11, 13));
            out.append(":");
            out.append(s.substring_char(13, 15));
            out.append(".0Z");
        },
    }
    assert(out@ =~= rfc_string_at(s@, precision));
    out
}

/// The instant of the compact timestamp `s`, read at `precision`.
pub fn timestamp_with(s: &str, precision: Precision) -> (r: Result<Timestamp, TimestampError>)
    ensures
        r == timestamp_at(s@, precision),
{
    let chars = to_chars(s);
    let width: usize = match precision {
        Precision::Hour => 11,
        Precision::Second => 15,
    };
    if chars.len() < width {
        return Err(TimestampError::TooShort);
    }
    if !all_in_range(&chars, 0, 8, CharClass::AsciiDigit) || !all_in_range(
        &chars,
        9,
        width,
        CharClass::AsciiDigit,
    ) {
        return Err(TimestampError::NotDigits);
    }
    let text = rfc_string_with(s, precision);
    timestamp_from_parsed(parse_rfc3339(text.as_str()))
}

impl Timestamp {
    /// The civil date of this instant at `offset` seconds east of UTC.
    pub fn date_at(&self, offset: i32) -> (r: Result<CivilDate, TimestampError>)
        ensures
            r == civil_date_of(*self, offset),
    {
        date_from_found(civil_date_at(self.secs, offset))
    }

    /// The civil date of this instant in UTC.
    pub fn date_utc(&self) -> (r: Result<CivilDate, TimestampError>)
        ensures
            r == civil_date_of(*self, 0),
    {
        self.date_at(0)
    }
}

impl Event {
    /// Writes the RFC 3339 text for the compact timestamp `s`, read to the
    /// second.
    pub fn date_str_to_rfc_string(s: &str) -> (r: String)
        requires
            s@.len() >= 15,
        ensures
            r@ == rfc_string(s@),
    {
        rfc_string_with(s, Precision::Second)
    }

    /// The instant of the compact timestamp `s`, read to the second.
    pub fn dt_from_str(s: &str) -> (r: Result<Timestamp, TimestampError>)
        ensures
            r == timestamp_of(s@),
    {
        timestamp_with(s, Precision::Second)
    }

    /// The instant of the event: that of its start.
    pub fn date(&self) -> (r: Result<Timestamp, TimestampError>)
        ensures
            r == timestamp_of(self@.dtstart),
    {
        Event::dt_from_str(self.dtstart.as_str())
    }

    /// The instant at which the event was created.
    pub fn created(&self) -> (r: Result<Timestamp, TimestampError>)
        ensures
            r == timestamp_of(self@.created),
    {
        Event::dt_from_str(self.created.as_str())
    }
}

} // verus!
