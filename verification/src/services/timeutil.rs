//! Reading the clock, bucketing an instant into a calendar date of the
//! reference time zone, and the canonical timestamp text.
//!
//! The clock, the time-zone database, the calendar and the timestamp
//! grammar are the `time` and `time-tz` crates'. Each is reached through one
//! small function whose contract is taken on trust; the results that take
//! pages to write down are given names, and the contracts here are exact
//! over those names.

use crate::instant::{
    valid_parts, Instant, FIRST_CALENDAR_SECOND, LAST_CALENDAR_SECOND, MAX_UNIX_SECONDS,
    MIN_UNIX_SECONDS,
};
use time::format_description::well_known::Rfc3339;
use time::{OffsetDateTime, UtcOffset};
use time_tz::{Offset, TimeZone};
use vstd::prelude::*;
use vstd::string::*;

verus! {

/// The RFC 3339 text of the instant with the given parts, as
/// `OffsetDateTime::format` writes it.
pub uninterp spec fn rfc3339_text(unix_seconds: int, nanosecond: int, offset_seconds: int) -> Seq<
    char,
>;

/// The parts of the instant that `OffsetDateTime::parse` reads from an
/// RFC 3339 text: Unix seconds, nanosecond and offset in seconds; `None`
/// where it rejects the text.
pub uninterp spec fn rfc3339_parts(text: Seq<char>) -> Option<(i64, u32, i32)>;

/// The offset from UTC, in seconds, that the time-zone database gives
/// Europe/Warsaw at the given Unix time.
pub uninterp spec fn warsaw_offset_seconds(unix_seconds: int) -> int;

/// Year, month and day of the proleptic Gregorian calendar at the given
/// number of seconds since `1970-01-01T00:00:00`.
pub uninterp spec fn calendar_date(seconds: int) -> (int, int, int);

/// The character that writes a decimal digit.
pub open spec fn digit_char(d: int) -> char {
    if d == 0 {
        '0'
    } else if d == 1 {
        '1'
    } else if d == 2 {
        '2'
    } else if d == 3 {
        '3'
    } else if d == 4 {
        '4'
    } else if d == 5 {
        '5'
    } else if d == 6 {
        '6'
    } else if d == 7 {
        '7'
    } else if d == 8 {
        '8'
    } else {
        '9'
    }
}

/// A number below one hundred as two digits.
pub open spec fn two_digits(n: int) -> Seq<char> {
    seq![digit_char(n / 10), digit_char(n % 10)]
}

/// A date as `YYYY-MM-DD`.
pub open spec fn date_text(year: int, month: int, day: int) -> Seq<char> {
    two_digits(year / 100) + two_digits(year % 100) + seq!['-'] + two_digits(month) + seq!['-']
        + two_digits(day)
}

/// The local date bucket of an instant: the calendar date, as `YYYY-MM-DD`,
/// that Europe/Warsaw's wall clock shows at that Unix time.
pub open spec fn warsaw_date_text(unix_seconds: int) -> Seq<char> {
    let date = calendar_date(unix_seconds + warsaw_offset_seconds(unix_seconds));
    date_text(date.0, date.1, date.2)
}

/// The canonical timestamp of an instant: its RFC 3339 text under the
/// offset it carries.
pub open spec fn timestamp_of(t: Instant) -> Seq<char> {
    rfc3339_text(t.unix_seconds() as int, t.nanosecond() as int, t.offset_seconds() as int)
}

/// Calls `OffsetDateTime::now_utc` and hands back the reading's Unix
/// timestamp and nanosecond. Nothing is claimed of a clock reading.
#[verifier::external_body]
fn clock_reading() -> (r: (i64, u32)) {
    let now = OffsetDateTime::now_utc();
    (now.unix_timestamp(), now.nanosecond())
}

/// Calls `OffsetDateTime::format` with the well-known `Rfc3339` description
/// on the instant with the given parts. Claims that the text is the one
/// named `rfc3339_text`; the parts admitted are those on which the call
/// cannot fail: a four-digit year under the offset, which is of whole
/// minutes and less than a day.
#[verifier::external_body]
fn format_rfc3339(unix_seconds: i64, nanosecond: u32, offset_seconds: i32) -> (r: String)
    requires
        valid_parts(unix_seconds as int, nanosecond as int, offset_seconds as int),
    ensures
        r@ == rfc3339_text(unix_seconds as int, nanosecond as int, offset_seconds as int),
{
    let offset = UtcOffset::from_whole_seconds(offset_seconds).unwrap();
    let utc = OffsetDateTime::from_unix_timestamp(unix_seconds).unwrap();
    let at = utc.replace_nanosecond(nanosecond).unwrap().to_offset(offset);
    at.format(&Rfc3339).unwrap()
}

/// Calls `OffsetDateTime::parse` with the well-known `Rfc3339` description
/// and hands back the parts of what it read. Claims that they are the ones
/// named `rfc3339_parts`.
#[verifier::external_body]
fn parse_rfc3339_parts(text: &str) -> (r: Option<(i64, u32, i32)>)
    ensures
        r == rfc3339_parts(text@),
{
    OffsetDateTime::parse(text, &Rfc3339).ok().map(
        |t| (t.unix_timestamp(), t.nanosecond(), t.offset().whole_seconds()),
    )
}

/// Calls `TimeZone::get_offset_utc` on the database's Europe/Warsaw zone
/// and hands back the offset's whole seconds. Claims that they are the
/// ones named `warsaw_offset_seconds`, and that they lie within what a
/// `UtcOffset` can hold, 25:59:59 either way.
#[verifier::external_body]
fn warsaw_offset_at(unix_seconds: i64) -> (r: i32)
    requires
        MIN_UNIX_SECONDS <= unix_seconds <= MAX_UNIX_SECONDS,
    ensures
        r == warsaw_offset_seconds(unix_seconds as int),
        -93_599 <= r <= 93_599,
{
    let at = OffsetDateTime::from_unix_timestamp(unix_seconds).unwrap();
    time_tz::timezones::db::europe::WARSAW.get_offset_utc(&at).to_utc().whole_seconds()
}

/// Calls `OffsetDateTime::from_unix_timestamp` and `to_calendar_date`.
/// Claims that the date is the one named `calendar_date`, that its year
/// has four digits on the seconds admitted, and that month and day are
/// those of a calendar.
#[verifier::external_body]
fn calendar_date_at(seconds: i64) -> (r: (i32, u8, u8))
    requires
        FIRST_CALENDAR_SECOND <= seconds <= LAST_CALENDAR_SECOND,
    ensures
        (r.0 as int, r.1 as int, r.2 as int) == calendar_date(seconds as int),
        0 <= r.0 <= 9999,
        1 <= r.1 <= 12,
        1 <= r.2 <= 31,
{
    let (year, month, day) = OffsetDateTime::from_unix_timestamp(seconds).unwrap().to_calendar_date();
    (year, u8::from(month), day)
}

/// The text of one decimal digit.
fn digit_str(d: u8) -> (r: &'static str)
    requires
        d < 10,
    ensures
        r@ == seq![digit_char(d as int)],
{
    proof {
        reveal_strlit("0");
        reveal_strlit("1");
        reveal_strlit("2");
        reveal_strlit("3");
        reveal_strlit("4");
        reveal_strlit("5");
        reveal_strlit("6");
        reveal_strlit("7");
        reveal_strlit("8");
        reveal_strlit("9");
    }
    let r: &'static str = if d == 0 {
        "0"
    } else if d == 1 {
        "1"
    } else if d == 2 {
        "2"
    } else if d == 3 {
        "3"
    } else if d == 4 {
        "4"
    } else if d == 5 {
        "5"
    } else if d == 6 {
        "6"
    } else if d == 7 {
        "7"
    } else if d == 8 {
        "8"
    } else {
        "9"
    };
    assert(r@ =~= seq![digit_char(d as int)]);
    r
}

/// Appends a number below one hundred to `out` as two digits.
fn push_two_digits(out: &mut String, n: u8)
    requires
        n < 100,
    ensures
        final(out)@ == old(out)@ + two_digits(n as int),
{
    out.append(digit_str(n / 10));
    out.append(digit_str(n % 10));
    assert(out@ =~= old(out)@ + two_digits(n as int));
}

/// Writes a calendar date as `YYYY-MM-DD`, each part padded with zeros.
pub fn format_date(year: u16, month: u8, day: u8) -> (r: String)
    requires
        year <= 9999,
        month <= 99,
        day <= 99,
    ensures
        r@ == date_text(year as int, month as int, day as int),
        r@.len() == 10,
{
    let mut out: String = String::new();
    let century: u8 = (year / 100) as u8;
    let years: u8 = (year % 100) as u8;
    push_two_digits(&mut out, century);
    push_two_digits(&mut out, years);
    proof {
        reveal_strlit("-");
    }
    out.append("-");
    push_two_digits(&mut out, month);
    out.append("-");
    push_two_digits(&mut out, day);
    assert(out@ =~= date_text(year as int, month as int, day as int));
    out
}

/// The current time, written in UTC; `None` where the clock shows a time
/// outside the years an `Instant` holds.
pub fn now_utc() -> (r: Option<Instant>)
    ensures
        r matches Some(t) ==> t.wf() && t.offset_seconds() == 0,
{
    let reading: (i64, u32) = clock_reading();
    Instant::new(reading.0, reading.1, 0)
}

/// The local date bucket of an instant: the calendar date on Europe/Warsaw's
/// wall clock, as `YYYY-MM-DD`. The zone's offset at that instant decides,
/// summer or winter, whatever offset the instant itself is written under.
pub fn local_date_warsaw(at: Instant) -> (r: String)
    requires
        at.wf(),
    ensures
        r@ == warsaw_date_text(at.unix_seconds() as int),
        r@.len() == 10,
{
    let unix: i64 = at.unix_seconds();
    let offset: i32 = warsaw_offset_at(unix);
    let date: (i32, u8, u8) = calendar_date_at(unix + offset as i64);
    format_date(date.0 as u16, date.1, date.2)
}

/// The canonical timestamp of an instant: its RFC 3339 text under the
/// offset it carries.
pub fn to_rfc3339(t: Instant) -> (r: String)
    requires
        t.wf(),
    ensures
        r@ == timestamp_of(t),
{
    format_rfc3339(t.unix_seconds(), t.nanosecond(), t.offset_seconds())
}

/// The instant that a timestamp names, from the parts read from it:
/// `None` where the text was rejected, and where it names an instant that
/// the ledger cannot store.
pub open spec fn instant_of(parts: Option<(i64, u32, i32)>) -> Option<Instant> {
    match parts {
        Some((unix_seconds, nanosecond, offset_seconds)) => {
            if valid_parts(unix_seconds as int, nanosecond as int, offset_seconds as int) {
                Some(Instant::from_parts(unix_seconds, nanosecond, offset_seconds))
            } else {
                None
            }
        },
        None => None,
    }
}

/// The instant that a text names as a canonical timestamp, if it names
/// one that the ledger can store.
pub open spec fn instant_read(text: Seq<char>) -> Option<Instant> {
    instant_of(rfc3339_parts(text))
}

/// Builds the instant from the parts read from a timestamp.
pub fn instant_from_parts(parts: Option<(i64, u32, i32)>) -> (r: Option<Instant>)
    ensures
        r == instant_of(parts),
        r matches Some(t) ==> t.wf(),
{
    match parts {
        Some((unix_seconds, nanosecond, offset_seconds)) => Instant::new(
            unix_seconds,
            nanosecond,
            offset_seconds,
        ),
        None => None,
    }
}

/// Reads a canonical timestamp back into the instant it names, offset
/// included.
pub fn parse_rfc3339(text: &str) -> (r: Option<Instant>)
    ensures
        r == instant_read(text@),
        r matches Some(t) ==> t.wf(),
{
    instant_from_parts(parse_rfc3339_parts(text))
}

/// The library's part of the round trip of a timestamp: where the
/// grammar reads back the parts that were written, `parse_rfc3339` gives
/// back the very instant that `to_rfc3339` was given, its offset included.
/// That the grammar does read them back is the `time` crate's to keep.
pub proof fn lemma_round_trip_keeps_the_instant(t: Instant)
    requires
        t.wf(),
        rfc3339_parts(timestamp_of(t)) == Some(
            (t.unix_seconds(), t.nanosecond(), t.offset_seconds()),
        ),
    ensures
        instant_read(timestamp_of(t)) == Some(t),
{
    let back = Instant::from_parts(t.unix_seconds(), t.nanosecond(), t.offset_seconds());
    Instant::lemma_from_parts(t.unix_seconds(), t.nanosecond(), t.offset_seconds());
    Instant::lemma_parts_determine(back, t);
}

} // verus!
