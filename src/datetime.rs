use vstd::prelude::*;
use vstd::string::StringSliceAdditionalSpecFns;
use vstd::utf8::encode_utf8;

use crate::calendar::{at_offset, valid_date, wall_instant, DateTimeUtc, TimeOfDay};
use crate::lexer::{tok_len, tokenize, tokens, tokens_wf, Kind, Token};
use crate::shapes::{
    letters_at, month_dmy_hms_read, month_dmy_hms_shape, month_dmy_read, month_dmy_shape,
    month_mdy_hms_read, month_mdy_hms_shape, month_mdy_hms_z_read, month_mdy_hms_z_shape,
    month_mdy_read, month_mdy_shape, month_ymd_read, month_ymd_shape, num_at, slash_hms_read,
    slash_hms_shape, slash_read, slash_shape, space_at, sym_at, ymd_hms_read, ymd_hms_shape,
    ymd_hms_z_read, ymd_hms_z_shape, ymd_read, ymd_shape, ymd_z_read, ymd_z_shape, Reading, TimePart,
};
use crate::timestamp::{read_timestamp, timestamp_instant};
use crate::timezone::{resolve_range, zone_offset, Offset};
use crate::{Failure, ParseError};

verus! {

// ---------------------------------------------------------------------------
// Fixed layouts read by chrono
// ---------------------------------------------------------------------------

/// What chrono reads from an RFC 3339 string: Unix seconds and the
/// nanoseconds past them (beyond 999,999,999 in a leap second).
pub uninterp spec fn rfc3339_reading(s: Seq<char>) -> Option<(int, int)>;

/// What chrono reads from an RFC 2822 string, as for RFC 3339.
pub uninterp spec fn rfc2822_reading(s: Seq<char>) -> Option<(int, int)>;

/// Relies on chrono's `DateTime::parse_from_rfc3339`, with `timestamp` and
/// `timestamp_subsec_nanos` of what it reads: whether it reads a string, and
/// what, depends on the string alone.
#[verifier::external_body]
fn chrono_rfc3339(s: &str) -> (r: Option<(i64, u32)>)
    ensures
        r matches Some(p) ==> rfc3339_reading(s@) == Some((p.0 as int, p.1 as int)),
        r is None <==> rfc3339_reading(s@) is None,
{
    match chrono::DateTime::parse_from_rfc3339(s) {
        Ok(d) => Some((d.timestamp(), d.timestamp_subsec_nanos())),
        Err(_) => None,
    }
}

/// Relies on chrono's `DateTime::parse_from_rfc2822`, with `timestamp` and
/// `timestamp_subsec_nanos` of what it reads: whether it reads a string, and
/// what, depends on the string alone.
#[verifier::external_body]
fn chrono_rfc2822(s: &str) -> (r: Option<(i64, u32)>)
    ensures
        r matches Some(p) ==> rfc2822_reading(s@) == Some((p.0 as int, p.1 as int)),
        r is None <==> rfc2822_reading(s@) is None,
{
    match chrono::DateTime::parse_from_rfc2822(s) {
        Ok(d) => Some((d.timestamp(), d.timestamp_subsec_nanos())),
        Err(_) => None,
    }
}

/// A reading of seconds and nanoseconds as an instant; a leap second (its
/// nanoseconds past 999,999,999) counts as the start of the next second.
pub open spec fn leap_folded(p: Option<(int, int)>) -> Option<(int, int)> {
    match p {
        None => None,
        Some((s, n)) => if 0 <= n < 1_000_000_000 {
            Some((s, n))
        } else if 1_000_000_000 <= n < 2_000_000_000 && s < i64::MAX {
            Some((s + 1, n - 1_000_000_000))
        } else {
            None
        },
    }
}

fn fold_leap(p: Option<(i64, u32)>) -> (r: Option<DateTimeUtc>)
    ensures
        r matches Some(d) ==> d.wf() && leap_folded(
            match p {
                Some(q) => Some((q.0 as int, q.1 as int)),
                None => None,
            },
        ) == Some(d@),
        r is None <==> leap_folded(
            match p {
                Some(q) => Some((q.0 as int, q.1 as int)),
                None => None,
            },
        ) is None,
{
    match p {
        None => None,
        Some((s, n)) => if n < 1_000_000_000 {
            Some(DateTimeUtc { secs: s, nanos: n })
        } else if n < 2_000_000_000 && s < i64::MAX {
            Some(DateTimeUtc { secs: s + 1, nanos: n - 1_000_000_000 })
        } else {
            None
        },
    }
}

// ---------------------------------------------------------------------------
// The matchers and their families
// ---------------------------------------------------------------------------

/// One accepted shape of date, with the layouts that read it.
#[derive(Clone, Copy, PartialEq, Eq, Structural, Debug)]
pub enum Matcher {
    YmdHms,
    YmdHmsZ,
    Ymd,
    YmdZ,
    MonthYmd,
    MonthMdyHms,
    MonthMdyHmsZ,
    MonthMdy,
    MonthDmyHms,
    MonthDmy,
    SlashMdyHms,
    SlashMdy,
    SlashDmyHms,
    SlashDmy,
    SlashYmdHms,
    SlashYmd,
}

/// A group of matchers that a cheap test on the start of the input selects.
#[derive(Clone, Copy, PartialEq, Eq, Structural, Debug)]
pub enum Family {
    /// `M/D...` or `D/M...`
    SlashMonthDay,
    /// `YYYY/M...`
    SlashYear,
    /// `YYYY-MM...` and `YYYY-Mon...`
    DashYear,
    /// `Month D...`
    MonthFirst,
    /// `D Month...`
    DayFirst,
}

pub open spec fn shape_of(m: Matcher, b: Seq<u8>, t: Seq<Token>) -> Option<Reading> {
    match m {
        Matcher::YmdHms => ymd_hms_shape(b, t),
        Matcher::YmdHmsZ => ymd_hms_z_shape(b, t),
        Matcher::Ymd => ymd_shape(b, t),
        Matcher::YmdZ => ymd_z_shape(b, t),
        Matcher::MonthYmd => month_ymd_shape(b, t),
        Matcher::MonthMdyHms => month_mdy_hms_shape(b, t),
        Matcher::MonthMdyHmsZ => month_mdy_hms_z_shape(b, t),
        Matcher::MonthMdy => month_mdy_shape(b, t),
        Matcher::MonthDmyHms => month_dmy_hms_shape(b, t),
        Matcher::MonthDmy => month_dmy_shape(b, t),
        Matcher::SlashMdyHms => slash_hms_shape(b, t, false, false),
        Matcher::SlashMdy => slash_shape(b, t, false, false),
        Matcher::SlashDmyHms => slash_hms_shape(b, t, false, true),
        Matcher::SlashDmy => slash_shape(b, t, false, true),
        Matcher::SlashYmdHms => slash_hms_shape(b, t, true, false),
        Matcher::SlashYmd => slash_shape(b, t, true, false),
    }
}

fn read_shape(m: Matcher, b: &[u8], t: &Vec<Token>) -> (r: Option<Reading>)
    requires
        tokens_wf(b@, t@),
    ensures
        r == shape_of(m, b@, t@),
        r matches Some(rd) ==> rd.ok(b@.len() as int),
{
    match m {
        Matcher::YmdHms => ymd_hms_read(b, t),
        Matcher::YmdHmsZ => ymd_hms_z_read(b, t),
        Matcher::Ymd => ymd_read(b, t),
        Matcher::YmdZ => ymd_z_read(b, t),
        Matcher::MonthYmd => month_ymd_read(b, t),
        Matcher::MonthMdyHms => month_mdy_hms_read(b, t),
        Matcher::MonthMdyHmsZ => month_mdy_hms_z_read(b, t),
        Matcher::MonthMdy => month_mdy_read(b, t),
        Matcher::MonthDmyHms => month_dmy_hms_read(b, t),
        Matcher::MonthDmy => month_dmy_read(b, t),
        Matcher::SlashMdyHms => slash_hms_read(b, t, false, false),
        Matcher::SlashMdy => slash_read(b, t, false, false),
        Matcher::SlashDmyHms => slash_hms_read(b, t, false, true),
        Matcher::SlashDmy => slash_read(b, t, false, true),
        Matcher::SlashYmdHms => slash_hms_read(b, t, true, false),
        Matcher::SlashYmd => slash_read(b, t, true, false),
    }
}

pub open spec fn digits_at(t: Seq<Token>, k: int) -> bool {
    0 <= k < t.len() && t[k].kind == Kind::Digits
}

/// The family whose start the input has, testing them in this order.
pub open spec fn family_of(b: Seq<u8>, t: Seq<Token>) -> Option<Family> {
    if num_at(t, 0, 1, 2) && sym_at(b, t, 1, 47) && digits_at(t, 2) {
        Some(Family::SlashMonthDay)
    } else if num_at(t, 0, 4, 4) && sym_at(b, t, 1, 47) && digits_at(t, 2) {
        Some(Family::SlashYear)
    } else if num_at(t, 0, 4, 4) && sym_at(b, t, 1, 45) && ((digits_at(t, 2) && tok_len(t[2]) >= 2)
        || letters_at(t, 2, 3, 9)) {
        Some(Family::DashYear)
    } else if letters_at(t, 0, 3, 9) && ((space_at(t, 1) && digits_at(t, 2)) || (sym_at(b, t, 1, 46)
        && space_at(t, 2) && digits_at(t, 3))) {
        Some(Family::MonthFirst)
    } else if num_at(t, 0, 1, 2) && space_at(t, 1) && 2 < t.len() && t[2].kind == Kind::Letters
        && tok_len(t[2]) >= 3 {
        Some(Family::DayFirst)
    } else {
        None
    }
}

/// The matchers of a family, in the order they are tried: strict shapes
/// first, and in the slash family the preferred order of day and month first.
pub open spec fn members(f: Family, prefer_dmy: bool) -> Seq<Matcher> {
    match f {
        Family::SlashMonthDay => if prefer_dmy {
            seq![Matcher::SlashDmyHms, Matcher::SlashDmy, Matcher::SlashMdyHms, Matcher::SlashMdy]
        } else {
            seq![Matcher::SlashMdyHms, Matcher::SlashMdy, Matcher::SlashDmyHms, Matcher::SlashDmy]
        },
        Family::SlashYear => seq![Matcher::SlashYmdHms, Matcher::SlashYmd],
        Family::DashYear => seq![
            Matcher::YmdHms,
            Matcher::YmdHmsZ,
            Matcher::Ymd,
            Matcher::YmdZ,
            Matcher::MonthYmd,
        ],
        Family::MonthFirst => seq![Matcher::MonthMdyHms, Matcher::MonthMdyHmsZ, Matcher::MonthMdy],
        Family::DayFirst => seq![Matcher::MonthDmyHms, Matcher::MonthDmy],
    }
}

fn is_digits_at(t: &Vec<Token>, k: usize) -> (r: bool)
    ensures
        r == digits_at(t@, k as int),
{
    k < t.len() && t[k].kind == Kind::Digits
}

fn tok_at_least(t: &Vec<Token>, k: usize, kind: Kind, n: usize) -> (r: bool)
    ensures
        r == (k < t@.len() && t@[k as int].kind == kind && tok_len(t@[k as int]) >= n),
{
    k < t.len() && t[k].kind == kind && t[k].end >= t[k].start && t[k].end - t[k].start >= n
}

fn is_sym(b: &[u8], t: &Vec<Token>, k: usize, c: u8) -> (r: bool)
    requires
        tokens_wf(b@, t@),
    ensures
        r == sym_at(b@, t@, k as int, c),
{
    k < t.len() && t[k].kind == Kind::Symbol && b[t[k].start] == c
}

fn in_range(t: &Vec<Token>, k: usize, kind: Kind, lo: usize, hi: usize) -> (r: bool)
    ensures
        r == (k < t@.len() && t@[k as int].kind == kind && lo <= tok_len(t@[k as int]) <= hi),
{
    k < t.len() && t[k].kind == kind && t[k].end >= t[k].start && lo <= t[k].end - t[k].start && t[k].end
        - t[k].start <= hi
}

/// The family whose start the input has.
pub fn classify(b: &[u8], t: &Vec<Token>) -> (r: Option<Family>)
    requires
        tokens_wf(b@, t@),
    ensures
        r == family_of(b@, t@),
{
    if in_range(t, 0, Kind::Digits, 1, 2) && is_sym(b, t, 1, 47) && is_digits_at(t, 2) {
        Some(Family::SlashMonthDay)
    } else if in_range(t, 0, Kind::Digits, 4, 4) && is_sym(b, t, 1, 47) && is_digits_at(t, 2) {
        Some(Family::SlashYear)
    } else if in_range(t, 0, Kind::Digits, 4, 4) && is_sym(b, t, 1, 45) && (tok_at_least(
        t,
        2,
        Kind::Digits,
        2,
    ) || in_range(t, 2, Kind::Letters, 3, 9)) {
        Some(Family::DashYear)
    } else if in_range(t, 0, Kind::Letters, 3, 9) && ((tok_at_least(t, 1, Kind::Space, 1) && is_digits_at(
        t,
        2,
    )) || (is_sym(b, t, 1, 46) && tok_at_least(t, 2, Kind::Space, 1) && is_digits_at(t, 3))) {
        Some(Family::MonthFirst)
    } else if in_range(t, 0, Kind::Digits, 1, 2) && tok_at_least(t, 1, Kind::Space, 1) && tok_at_least(
        t,
        2,
        Kind::Letters,
        3,
    ) {
        Some(Family::DayFirst)
    } else {
        None
    }
}

/// The matchers of a family, in the order they are tried.
pub fn family_members(f: Family, prefer_dmy: bool) -> (r: Vec<Matcher>)
    ensures
        r@ == members(f, prefer_dmy),
{
    match f {
        Family::SlashMonthDay => if prefer_dmy {
            vec![Matcher::SlashDmyHms, Matcher::SlashDmy, Matcher::SlashMdyHms, Matcher::SlashMdy]
        } else {
            vec![Matcher::SlashMdyHms, Matcher::SlashMdy, Matcher::SlashDmyHms, Matcher::SlashDmy]
        },
        Family::SlashYear => vec![Matcher::SlashYmdHms, Matcher::SlashYmd],
        Family::DashYear => vec![
            Matcher::YmdHms,
            Matcher::YmdHmsZ,
            Matcher::Ymd,
            Matcher::YmdZ,
            Matcher::MonthYmd,
        ],
        Family::MonthFirst => vec![Matcher::MonthMdyHms, Matcher::MonthMdyHmsZ, Matcher::MonthMdy],
        Family::DayFirst => vec![Matcher::MonthDmyHms, Matcher::MonthDmy],
    }
}

// ---------------------------------------------------------------------------
// From a reading to an instant
// ---------------------------------------------------------------------------

/// How a parser reads what the input leaves open.
#[derive(Clone, Copy, PartialEq, Eq, Structural, Debug)]
pub struct Parse {
    /// The offset of wall-clock times that carry no zone of their own.
    pub offset: Offset,
    /// The wall-clock time of day, at the offset that reads the date, given
    /// to a date that comes without one.
    pub default_time: TimeOfDay,
    /// Whether `N/N/...` is read day first before month first.
    pub prefer_dmy: bool,
}

/// A matcher's answer: `None` where it does not apply, else the instant
/// (seconds, nanoseconds) or the failure.
pub type Outcome = Option<Result<(int, int), Failure>>;

pub open spec fn answer(r: Result<DateTimeUtc, ParseError>) -> Result<(int, int), Failure> {
    match r {
        Ok(d) => Ok(d@),
        Err(e) => Err(e@),
    }
}

pub open spec fn outcome(r: Option<Result<DateTimeUtc, ParseError>>) -> Outcome {
    match r {
        Some(x) => Some(answer(x)),
        None => None,
    }
}

/// Every instant handed out has its nanoseconds below a second.
pub open spec fn outcome_wf(r: Option<Result<DateTimeUtc, ParseError>>) -> bool {
    r matches Some(Ok(d)) ==> d.wf()
}

/// The instant that a reading stands for. A zone token that names no offset is
/// an error; otherwise its offset, or the parser's, reads the wall-clock time;
/// a date alone takes the parser's default time as its wall-clock time at
/// that offset; a time that no layout reads, or a date that does not exist, gives
/// `None`.
pub open spec fn finish(b: Seq<u8>, rd: Reading, p: Parse, input: Seq<char>) -> Outcome {
    let zone: Option<Option<int>> = match rd.zone {
        Some(z) => Some(zone_offset(b.subrange(z.0 as int, z.1 as int))),
        None => None,
    };
    if zone == Some(None::<int>) {
        Some(Err(Failure::UnrecognizedTimezone(input)))
    } else {
        let off: int = match zone {
            Some(Some(o)) => o,
            _ => p.offset.secs as int,
        };
        let time: Option<TimeOfDay> = match rd.time {
            TimePart::DateOnly => Some(p.default_time),
            TimePart::At(x) => Some(x),
            TimePart::Unreadable => None,
        };
        match time {
            None => None,
            Some(tm) => if valid_date(rd.year as int, rd.month as int, rd.day as int) {
                Some(Ok(wall_instant(rd.year as int, rd.month as int, rd.day as int, tm, off)))
            } else {
                None
            },
        }
    }
}

/// What matcher `m` gives for input `s`.
pub open spec fn attempt(m: Matcher, s: Seq<char>, p: Parse) -> Outcome {
    let b = encode_utf8(s);
    match shape_of(m, b, tokens(b)) {
        Some(rd) => finish(b, rd, p, s),
        None => None,
    }
}

/// The answer of the first matcher from `ms[i]` on that applies.
pub open spec fn first_match(ms: Seq<Matcher>, i: int, s: Seq<char>, p: Parse) -> Outcome
    decreases ms.len() - i,
{
    if i < 0 || i >= ms.len() {
        None
    } else {
        match attempt(ms[i], s, p) {
            Some(r) => Some(r),
            None => first_match(ms, i + 1, s, p),
        }
    }
}

/// What the parser reads from `s`: a Unix timestamp, then RFC 3339, then RFC
/// 2822, then the matchers of the family that the start of `s` selects.
pub open spec fn parse_spec(s: Seq<char>, p: Parse) -> Result<(int, int), Failure> {
    let b = encode_utf8(s);
    if timestamp_instant(b) is Some {
        Ok(timestamp_instant(b).unwrap())
    } else if leap_folded(rfc3339_reading(s)) is Some {
        Ok(leap_folded(rfc3339_reading(s)).unwrap())
    } else if leap_folded(rfc2822_reading(s)) is Some {
        Ok(leap_folded(rfc2822_reading(s)).unwrap())
    } else {
        match family_of(b, tokens(b)) {
            None => Err(Failure::NoFormatMatched(s)),
            Some(f) => match first_match(members(f, p.prefer_dmy), 0, s, p) {
                Some(r) => r,
                None => Err(Failure::NoFormatMatched(s)),
            },
        }
    }
}

impl Parse {
    pub open spec fn wf(&self) -> bool {
        self.offset.wf() && self.default_time.wf()
    }

    /// A parser that reads wall-clock times without a zone at `offset`, gives
    /// dates without a time `default_time`, and reads `N/N/...` month first.
    pub fn new(offset: Offset, default_time: TimeOfDay) -> (r: Parse)
        ensures
            r == (Parse { offset, default_time, prefer_dmy: false }),
    {
        Parse { offset, default_time, prefer_dmy: false }
    }

    /// As [`Parse::new`], with the order of day and month given.
    pub fn new_with_preference(offset: Offset, default_time: TimeOfDay, prefer_dmy: bool) -> (r: Parse)
        ensures
            r == (Parse { offset, default_time, prefer_dmy }),
    {
        Parse { offset, default_time, prefer_dmy }
    }

    /// Sets whether `N/N/...` is read day first before month first.
    pub fn prefer_dmy(&mut self, yes: bool) -> (r: &Self)
        ensures
            *final(self) == (Parse { prefer_dmy: yes, ..*old(self) }),
            *r == *final(self),
    {
        self.prefer_dmy = yes;
        self
    }

    fn finish_reading(&self, input: &str, b: &[u8], rd: Reading) -> (r: Option<Result<DateTimeUtc, ParseError>>)
        requires
            self.wf(),
            b@ == input.spec_bytes(),
            rd.ok(b@.len() as int),
        ensures
            outcome(r) == finish(b@, rd, *self, input@),
            outcome_wf(r),
    {
        let off: i32 = match rd.zone {
            Some(z) => match resolve_range(b, z.0, z.1) {
                Some(o) => o.secs,
                None => {
                    return Some(Err(ParseError::UnrecognizedTimezone(input.to_owned())));
                },
            },
            None => self.offset.secs,
        };
        let tm = match rd.time {
            TimePart::DateOnly => self.default_time,
            TimePart::At(x) => x,
            TimePart::Unreadable => {
                return None;
            },
        };
        match at_offset(rd.year, rd.month, rd.day, tm, off) {
            Some(i) => Some(Ok(i)),
            None => None,
        }
    }

    fn attempt_with(&self, m: Matcher, input: &str, b: &[u8], t: &Vec<Token>) -> (r: Option<Result<DateTimeUtc, ParseError>>)
        requires
            self.wf(),
            b@ == input.spec_bytes(),
            t@ == tokens(b@),
            tokens_wf(b@, t@),
        ensures
            outcome(r) == attempt(m, input@, *self),
            outcome_wf(r),
    {
        match read_shape(m, b, t) {
            Some(rd) => self.finish_reading(input, b, rd),
            None => None,
        }
    }

    /// Tries matcher `m` alone on `input`.
    pub fn try_matcher(&self, m: Matcher, input: &str) -> (r: Option<Result<DateTimeUtc, ParseError>>)
        requires
            self.wf(),
        ensures
            outcome(r) == attempt(m, input@, *self),
            outcome_wf(r),
    {
        let b = input.as_bytes();
        let t = tokenize(b);
        self.attempt_with(m, input, b, &t)
    }

    /// Reads `input` as a Unix timestamp in seconds, if it is one.
    pub fn unix_timestamp(&self, input: &str) -> (r: Option<Result<DateTimeUtc, ParseError>>)
        ensures
            outcome(r) == match timestamp_instant(input.spec_bytes()) {
                Some(i) => Some(Ok::<(int, int), Failure>(i)),
                None => None,
            },
            outcome_wf(r),
    {
        match read_timestamp(input.as_bytes()) {
            Some(i) => Some(Ok(i)),
            None => None,
        }
    }

    /// Reads `input` as an RFC 3339 date and time, if it is one.
    pub fn rfc3339(&self, input: &str) -> (r: Option<Result<DateTimeUtc, ParseError>>)
        ensures
            outcome(r) == match leap_folded(rfc3339_reading(input@)) {
                Some(i) => Some(Ok::<(int, int), Failure>(i)),
                None => None,
            },
            outcome_wf(r),
    {
        match fold_leap(chrono_rfc3339(input)) {
            Some(i) => Some(Ok(i)),
            None => None,
        }
    }

    /// Reads `input` as an RFC 2822 date and time, if it is one.
    pub fn rfc2822(&self, input: &str) -> (r: Option<Result<DateTimeUtc, ParseError>>)
        ensures
            outcome(r) == match leap_folded(rfc2822_reading(input@)) {
                Some(i) => Some(Ok::<(int, int), Failure>(i)),
                None => None,
            },
            outcome_wf(r),
    {
        match fold_leap(chrono_rfc2822(input)) {
            Some(i) => Some(Ok(i)),
            None => None,
        }
    }

    /// Reads `YYYY-MM-DD HH:MM[:SS][.F] [am|pm]`, if `input` has that shape.
    pub fn ymd_hms(&self, input: &str) -> (r: Option<Result<DateTimeUtc, ParseError>>)
        requires
            self.wf(),
        ensures
            outcome(r) == attempt(Matcher::YmdHms, input@, *self),
            outcome_wf(r),
    {
        self.try_matcher(Matcher::YmdHms, input)
    }

    /// Reads `YYYY-MM-DD HH:MM[:SS][.F]` and a time zone token, if `input` has that shape.
    pub fn ymd_hms_z(&self, input: &str) -> (r: Option<Result<DateTimeUtc, ParseError>>)
        requires
            self.wf(),
        ensures
            outcome(r) == attempt(Matcher::YmdHmsZ, input@, *self),
            outcome_wf(r),
    {
        self.try_matcher(Matcher::YmdHmsZ, input)
    }

    /// Reads `YYYY-MM-DD`, if `input` has that shape.
    pub fn ymd(&self, input: &str) -> (r: Option<Result<DateTimeUtc, ParseError>>)
        requires
            self.wf(),
        ensures
            outcome(r) == attempt(Matcher::Ymd, input@, *self),
            outcome_wf(r),
    {
        self.try_matcher(Matcher::Ymd, input)
    }

    /// Reads `YYYY-MM-DD` and a time zone token, if `input` has that shape.
    pub fn ymd_z(&self, input: &str) -> (r: Option<Result<DateTimeUtc, ParseError>>)
        requires
            self.wf(),
        ensures
            outcome(r) == attempt(Matcher::YmdZ, input@, *self),
            outcome_wf(r),
    {
        self.try_matcher(Matcher::YmdZ, input)
    }

    /// Reads `YYYY-Mon-DD`, if `input` has that shape.
    pub fn month_ymd(&self, input: &str) -> (r: Option<Result<DateTimeUtc, ParseError>>)
        requires
            self.wf(),
        ensures
            outcome(r) == attempt(Matcher::MonthYmd, input@, *self),
            outcome_wf(r),
    {
        self.try_matcher(Matcher::MonthYmd, input)
    }

    /// Reads `Month D, YYYY H:MM[:SS] [am|pm]`, if `input` has that shape.
    pub fn month_mdy_hms(&self, input: &str) -> (r: Option<Result<DateTimeUtc, ParseError>>)
        requires
            self.wf(),
        ensures
            outcome(r) == attempt(Matcher::MonthMdyHms, input@, *self),
            outcome_wf(r),
    {
        self.try_matcher(Matcher::MonthMdyHms, input)
    }

    /// Reads `Month D, YYYY [at] HH:MM[:SS] [am|pm]` and a time zone token, if `input` has that shape.
    pub fn month_mdy_hms_z(&self, input: &str) -> (r: Option<Result<DateTimeUtc, ParseError>>)
        requires
            self.wf(),
        ensures
            outcome(r) == attempt(Matcher::MonthMdyHmsZ, input@, *self),
            outcome_wf(r),
    {
        self.try_matcher(Matcher::MonthMdyHmsZ, input)
    }

    /// Reads `Month D, YYYY`, if `input` has that shape.
    pub fn month_mdy(&self, input: &str) -> (r: Option<Result<DateTimeUtc, ParseError>>)
        requires
            self.wf(),
        ensures
            outcome(r) == attempt(Matcher::MonthMdy, input@, *self),
            outcome_wf(r),
    {
        self.try_matcher(Matcher::MonthMdy, input)
    }

    /// Reads `D Month YYYY H:MM[:SS][.F]`, if `input` has that shape.
    pub fn month_dmy_hms(&self, input: &str) -> (r: Option<Result<DateTimeUtc, ParseError>>)
        requires
            self.wf(),
        ensures
            outcome(r) == attempt(Matcher::MonthDmyHms, input@, *self),
            outcome_wf(r),
    {
        self.try_matcher(Matcher::MonthDmyHms, input)
    }

    /// Reads `D Month YYYY`, if `input` has that shape.
    pub fn month_dmy(&self, input: &str) -> (r: Option<Result<DateTimeUtc, ParseError>>)
        requires
            self.wf(),
        ensures
            outcome(r) == attempt(Matcher::MonthDmy, input@, *self),
            outcome_wf(r),
    {
        self.try_matcher(Matcher::MonthDmy, input)
    }

    /// Reads `M/D/YYYY H:MM[:SS][.F] [am|pm]`, if `input` has that shape.
    pub fn slash_mdy_hms(&self, input: &str) -> (r: Option<Result<DateTimeUtc, ParseError>>)
        requires
            self.wf(),
        ensures
            outcome(r) == attempt(Matcher::SlashMdyHms, input@, *self),
            outcome_wf(r),
    {
        self.try_matcher(Matcher::SlashMdyHms, input)
    }

    /// Reads `D/M/YYYY H:MM[:SS][.F] [am|pm]`, if `input` has that shape.
    pub fn slash_dmy_hms(&self, input: &str) -> (r: Option<Result<DateTimeUtc, ParseError>>)
        requires
            self.wf(),
        ensures
            outcome(r) == attempt(Matcher::SlashDmyHms, input@, *self),
            outcome_wf(r),
    {
        self.try_matcher(Matcher::SlashDmyHms, input)
    }

    /// Reads `M/D/YYYY`, if `input` has that shape.
    pub fn slash_mdy(&self, input: &str) -> (r: Option<Result<DateTimeUtc, ParseError>>)
        requires
            self.wf(),
        ensures
            outcome(r) == attempt(Matcher::SlashMdy, input@, *self),
            outcome_wf(r),
    {
        self.try_matcher(Matcher::SlashMdy, input)
    }

    /// Reads `D/M/YYYY`, if `input` has that shape.
    pub fn slash_dmy(&self, input: &str) -> (r: Option<Result<DateTimeUtc, ParseError>>)
        requires
            self.wf(),
        ensures
            outcome(r) == attempt(Matcher::SlashDmy, input@, *self),
            outcome_wf(r),
    {
        self.try_matcher(Matcher::SlashDmy, input)
    }

    /// Reads `YYYY/M/D H:MM[:SS][.F] [am|pm]`, if `input` has that shape.
    pub fn slash_ymd_hms(&self, input: &str) -> (r: Option<Result<DateTimeUtc, ParseError>>)
        requires
            self.wf(),
        ensures
            outcome(r) == attempt(Matcher::SlashYmdHms, input@, *self),
            outcome_wf(r),
    {
        self.try_matcher(Matcher::SlashYmdHms, input)
    }

    /// Reads `YYYY/M/D`, if `input` has that shape.
    pub fn slash_ymd(&self, input: &str) -> (r: Option<Result<DateTimeUtc, ParseError>>)
        requires
            self.wf(),
        ensures
            outcome(r) == attempt(Matcher::SlashYmd, input@, *self),
            outcome_wf(r),
    {
        self.try_matcher(Matcher::SlashYmd, input)
    }

    /// Reads `input` in the first accepted format that fits it.
    pub fn parse(&self, input: &str) -> (r: Result<DateTimeUtc, ParseError>)
        requires
            self.wf(),
        ensures
            answer(r) == parse_spec(input@, *self),
            r matches Ok(d) ==> d.wf(),
    {
        let b = input.as_bytes();
        match read_timestamp(b) {
            Some(i) => {
                return Ok(i);
            },
            None => {},
        }
        match fold_leap(chrono_rfc3339(input)) {
            Some(i) => {
                return Ok(i);
            },
            None => {},
        }
        match fold_leap(chrono_rfc2822(input)) {
            Some(i) => {
                return Ok(i);
            },
            None => {},
        }
        let t = tokenize(b);
        match classify(b, &t) {
            None => Err(ParseError::NoFormatMatched(input.to_owned())),
            Some(f) => {
                let ms = family_members(f, self.prefer_dmy);
                let mut i: usize = 0;
                while i < ms.len()
                    invariant
                        self.wf(),
                        b@ == input.spec_bytes(),
                        t@ == tokens(b@),
                        tokens_wf(b@, t@),
                        ms@ == members(f, self.prefer_dmy),
                        f == family_of(b@, t@).unwrap(),
                        family_of(b@, t@) is Some,
                        i <= ms@.len(),
                        first_match(ms@, 0, input@, *self) == first_match(ms@, i as int, input@, *self),
                        timestamp_instant(b@) is None,
                        leap_folded(rfc3339_reading(input@)) is None,
                        leap_folded(rfc2822_reading(input@)) is None,
                    decreases ms@.len() - i,
                {
                    match self.attempt_with(ms[i], input, b, &t) {
                        Some(r) => {
                            return r;
                        },
                        None => {},
                    }
                    i = i + 1;
                }
                Err(ParseError::NoFormatMatched(input.to_owned()))
            },
        }
    }
}

} // verus!
