//! Reads date and time strings written in many common shapes (Unix
//! timestamps, RFC 3339 and RFC 2822, numeric dates with slashes or dashes,
//! dates with English month names, each with or without a time of day and a
//! time zone) as one instant in UTC.
use vstd::prelude::*;

pub mod calendar;
pub mod datetime;
pub mod lexer;
pub mod laws;
pub mod shapes;
pub mod timestamp;
pub mod timezone;

pub use crate::calendar::{DateTimeUtc, TimeOfDay};
pub use crate::datetime::Parse;
pub use crate::timezone::{resolve_timezone, Offset};

use crate::calendar::{shift_time, shifted};
use crate::datetime::{answer, parse_spec};

verus! {

/// Why a string could not be read as an instant.
#[derive(Clone, PartialEq, Eq, Debug)]
pub enum ParseError {
    /// The input (carried here) fits none of the accepted shapes.
    NoFormatMatched(String),
    /// A time zone token is present but is neither a numeric offset nor a
    /// known name; carries the text in which it stood.
    UnrecognizedTimezone(String),
}

/// What a [`ParseError`] says, as text.
pub enum Failure {
    NoFormatMatched(Seq<char>),
    UnrecognizedTimezone(Seq<char>),
}

impl View for ParseError {
    type V = Failure;

    open spec fn view(&self) -> Failure {
        match self {
            ParseError::NoFormatMatched(s) => Failure::NoFormatMatched(s@),
            ParseError::UnrecognizedTimezone(s) => Failure::UnrecognizedTimezone(s@),
        }
    }
}

impl ParseError {
    /// The error as a sentence.
    pub fn message(&self) -> (r: String)
        ensures
            r@ == match self@ {
                Failure::NoFormatMatched(s) => s + " did not match any formats."@,
                Failure::UnrecognizedTimezone(s) => s + " holds an unrecognized time zone."@,
            },
    {
        match self {
            ParseError::NoFormatMatched(s) => {
                let mut m = s.clone();
                m.append(" did not match any formats.");
                m
            },
            ParseError::UnrecognizedTimezone(s) => {
                let mut m = s.clone();
                m.append(" holds an unrecognized time zone.");
                m
            },
        }
    }
}

/// Relies on chrono's `Utc::now` and the `Timelike` accessors of its time:
/// the hour is below 24, the minute and second below 60, and the nanoseconds
/// below 2,000,000,000 (a leap second goes past 999,999,999).
#[verifier::external_body]
fn utc_clock_now() -> (r: (u32, u32, u32, u32))
    ensures
        r.0 < 24 && r.1 < 60 && r.2 < 60 && r.3 < 2_000_000_000,
{
    let t = chrono::Utc::now().time();
    (
        chrono::Timelike::hour(&t),
        chrono::Timelike::minute(&t),
        chrono::Timelike::second(&t),
        chrono::Timelike::nanosecond(&t),
    )
}

/// Relies on chrono's `Local::now` and `FixedOffset::local_minus_utc`: the
/// host's offset from UTC at this moment, in seconds east, which a
/// `FixedOffset` keeps within a day either way.
#[verifier::external_body]
fn local_offset_now() -> (r: i32)
    ensures
        -86400 < r < 86400,
{
    chrono::Local::now().offset().local_minus_utc()
}

/// The time of day in UTC at this moment; a leap second reads as the last
/// nanosecond of the second before it.
pub fn utc_time_now() -> (r: TimeOfDay)
    ensures
        r.wf(),
{
    let (h, m, s, n) = utc_clock_now();
    let nano = if n < 1_000_000_000 {
        n
    } else {
        999_999_999
    };
    TimeOfDay { hour: h, minute: m, second: s, nano }
}

/// Reads `input` in the first accepted format that fits it. Times without a
/// zone are read at the host's current offset from UTC, and a date without a
/// time gets the current time of day at that offset.
pub fn parse(input: &str) -> (r: Result<DateTimeUtc, ParseError>)
    ensures
        exists|o: Offset, t: TimeOfDay|
            #![trigger parse_spec(input@, Parse { offset: o, default_time: shifted(t, o.secs as int), prefer_dmy: false })]
            o.wf() && t.wf() && answer(r) == parse_spec(
                input@,
                Parse { offset: o, default_time: shifted(t, o.secs as int), prefer_dmy: false },
            ),
        r matches Ok(d) ==> d.wf(),
{
    let offset = Offset { secs: local_offset_now() };
    let p = Parse::new(offset, shift_time(utc_time_now(), offset.secs));
    p.parse(input)
}

/// Reads `input` with times without a zone in UTC and dates without a time at
/// midnight; `dmy_preference` reads `N/N/...` day first before month first.
pub fn parse_with_preference(input: &str, dmy_preference: bool) -> (r: Result<DateTimeUtc, ParseError>)
    ensures
        answer(r) == parse_spec(
            input@,
            Parse {
                offset: Offset { secs: 0 },
                default_time: TimeOfDay { hour: 0, minute: 0, second: 0, nano: 0 },
                prefer_dmy: dmy_preference,
            },
        ),
        r matches Ok(d) ==> d.wf(),
{
    let p = Parse::new_with_preference(Offset::utc(), TimeOfDay::midnight(), dmy_preference);
    p.parse(input)
}

/// Reads `input` with times without a zone at `offset`; a date without a time
/// gets the current time of day at that offset.
pub fn parse_with_timezone(input: &str, offset: Offset) -> (r: Result<DateTimeUtc, ParseError>)
    requires
        offset.wf(),
    ensures
        exists|t: TimeOfDay|
            #![trigger parse_spec(input@, Parse { offset, default_time: shifted(t, offset.secs as int), prefer_dmy: false })]
            t.wf() && answer(r) == parse_spec(
                input@,
                Parse { offset, default_time: shifted(t, offset.secs as int), prefer_dmy: false },
            ),
        r matches Ok(d) ==> d.wf(),
{
    let p = Parse::new(offset, shift_time(utc_time_now(), offset.secs));
    p.parse(input)
}

/// Reads `input` with times without a zone at `offset`, and dates without a
/// time at the wall-clock time `default_time` (at `offset`, or at the zone
/// that the input names).
pub fn parse_with(input: &str, offset: Offset, default_time: TimeOfDay) -> (r: Result<DateTimeUtc, ParseError>)
    requires
        offset.wf(),
        default_time.wf(),
    ensures
        answer(r) == parse_spec(input@, Parse { offset, default_time, prefer_dmy: false }),
        r matches Ok(d) ==> d.wf(),
{
    let p = Parse::new(offset, default_time);
    p.parse(input)
}

impl std::str::FromStr for DateTimeUtc {
    type Err = ParseError;

    fn from_str(s: &str) -> Result<DateTimeUtc, ParseError> {
        parse(s)
    }
}

} // verus!
