use vstd::prelude::*;

verus! {

/// Days from 0001-01-01 (day 1) to 1970-01-01.
pub const UNIX_EPOCH_DAY_FROM_CE: i64 = 719_163;

pub const SECS_PER_DAY: i64 = 86_400;

/// A time of day on a clock without leap seconds.
#[derive(Clone, Copy, PartialEq, Eq, Structural, Debug)]
pub struct TimeOfDay {
    pub hour: u32,
    pub minute: u32,
    pub second: u32,
    pub nano: u32,
}

impl TimeOfDay {
    pub open spec fn wf(&self) -> bool {
        self.hour < 24 && self.minute < 60 && self.second < 60 && self.nano < 1_000_000_000
    }

    /// Whole seconds since midnight.
    pub open spec fn seconds(&self) -> int {
        self.hour * 3600 + self.minute * 60 + self.second
    }

    /// The time of day with these fields, if they name one.
    pub fn from_hms_nano(hour: u32, minute: u32, second: u32, nano: u32) -> (r: Option<TimeOfDay>)
        ensures
            r matches Some(t) ==> t.wf() && t == (TimeOfDay { hour, minute, second, nano }),
            r is None <==> !(hour < 24 && minute < 60 && second < 60 && nano < 1_000_000_000),
    {
        if hour < 24 && minute < 60 && second < 60 && nano < 1_000_000_000 {
            Some(TimeOfDay { hour, minute, second, nano })
        } else {
            None
        }
    }

    pub fn midnight() -> (r: TimeOfDay)
        ensures
            r.wf(),
            r.seconds() == 0,
            r.nano == 0,
    {
        TimeOfDay { hour: 0, minute: 0, second: 0, nano: 0 }
    }
}

/// An instant, as whole seconds since 1970-01-01T00:00:00 UTC and the
/// nanoseconds past that second.
#[derive(Clone, Copy, PartialEq, Eq, Structural, Debug)]
pub struct DateTimeUtc {
    pub secs: i64,
    pub nanos: u32,
}

impl View for DateTimeUtc {
    type V = (int, int);

    open spec fn view(&self) -> (int, int) {
        (self.secs as int, self.nanos as int)
    }
}

impl DateTimeUtc {
    pub open spec fn wf(&self) -> bool {
        self.nanos < 1_000_000_000
    }
}

/// The instant that lies `n` nanoseconds after the epoch, as (seconds, nanoseconds).
pub open spec fn instant_of_nanos(n: int) -> (int, int) {
    (n / 1_000_000_000, n % 1_000_000_000)
}

pub open spec fn is_leap_year(y: int) -> bool {
    y % 4 == 0 && (y % 100 != 0 || y % 400 == 0)
}

pub open spec fn days_in_month(y: int, m: int) -> int {
    if m == 2 {
        if is_leap_year(y) {
            29
        } else {
            28
        }
    } else if m == 4 || m == 6 || m == 9 || m == 11 {
        30
    } else {
        31
    }
}

/// A day of the proleptic Gregorian calendar.
pub open spec fn valid_date(y: int, m: int, d: int) -> bool {
    1 <= m <= 12 && 1 <= d <= days_in_month(y, m)
}

/// Days of year `y` before the first of month `m`.
pub open spec fn days_before_month(y: int, m: int) -> int {
    let base: int = if m <= 1 {
        0
    } else if m == 2 {
        31
    } else if m == 3 {
        59
    } else if m == 4 {
        90
    } else if m == 5 {
        120
    } else if m == 6 {
        151
    } else if m == 7 {
        181
    } else if m == 8 {
        212
    } else if m == 9 {
        243
    } else if m == 10 {
        273
    } else if m == 11 {
        304
    } else {
        334
    };
    let leap_day: int = if m > 2 && is_leap_year(y) {
        1
    } else {
        0
    };
    base + leap_day
}

/// The day number of a date, counting 0001-01-01 as day 1.
pub open spec fn days_from_ce(y: int, m: int, d: int) -> int {
    let p = y - 1;
    365 * p + p / 4 - p / 100 + p / 400 + days_before_month(y, m) + d
}

/// Days from 1970-01-01 to the date.
pub open spec fn epoch_day(y: int, m: int, d: int) -> int {
    days_from_ce(y, m, d) - 719_163
}

/// The instant at wall-clock time `t` on the date, read at `offset` seconds east of UTC.
pub open spec fn wall_instant(y: int, m: int, d: int, t: TimeOfDay, offset: int) -> (int, int) {
    (epoch_day(y, m, d) * 86400 + t.seconds() - offset, t.nano as int)
}

/// The wall-clock seconds past midnight, at `offset` seconds east of UTC, when
/// it is `t` in UTC.
pub open spec fn shifted_seconds(t: TimeOfDay, offset: int) -> int {
    (t.seconds() + offset) % 86400
}

/// `t` as read on a clock `offset` seconds east of UTC.
pub open spec fn shifted(t: TimeOfDay, offset: int) -> TimeOfDay {
    let s = shifted_seconds(t, offset);
    TimeOfDay {
        hour: (s / 3600) as u32,
        minute: ((s % 3600) / 60) as u32,
        second: (s % 60) as u32,
        nano: t.nano,
    }
}

/// The year that a two-digit year stands for: 70 to 99 are 1970 to 1999, 00 to
/// 69 are 2000 to 2069. This is chrono's convention for `%y`, kept as it is
/// inherited rather than chosen here.
pub open spec fn century_year(v: int) -> int {
    if v < 70 {
        2000 + v
    } else {
        1900 + v
    }
}

/// Relies on chrono's `NaiveDate::from_ymd_opt`, which gives `None` exactly for a
/// month or day that the proleptic Gregorian calendar lacks, and on
/// `Datelike::num_days_from_ce`, which counts 0001-01-01 as day 1.
#[verifier::external_body]
fn chrono_days_from_ce(year: i32, month: u32, day: u32) -> (r: Option<i32>)
    requires
        0 <= year <= 9999,
    ensures
        r is Some <==> valid_date(year as int, month as int, day as int),
        r matches Some(n) ==> n as int == days_from_ce(year as int, month as int, day as int),
{
    match chrono::NaiveDate::from_ymd_opt(year, month, day) {
        Some(date) => Some(chrono::Datelike::num_days_from_ce(&date)),
        None => None,
    }
}

/// The instant at wall-clock time `t` on the given date, read at `offset`
/// seconds east of UTC, or `None` where the date does not exist.
pub fn at_offset(year: i32, month: u32, day: u32, t: TimeOfDay, offset: i32) -> (r: Option<DateTimeUtc>)
    requires
        0 <= year <= 9999,
        t.wf(),
        -86400 < offset < 86400,
    ensures
        r is Some <==> valid_date(year as int, month as int, day as int),
        r matches Some(i) ==> i.wf() && i@ == wall_instant(year as int, month as int, day as int, t, offset as int),
{
    match chrono_days_from_ce(year, month, day) {
        None => None,
        Some(n) => {
            let days = n as i64 - UNIX_EPOCH_DAY_FROM_CE;
            let secs = days * SECS_PER_DAY + (t.hour as i64) * 3600 + (t.minute as i64) * 60
                + t.second as i64 - offset as i64;
            Some(DateTimeUtc { secs, nanos: t.nano })
        },
    }
}

/// `t`, a time of day in UTC, as read on a clock `offset` seconds east of UTC.
pub fn shift_time(t: TimeOfDay, offset: i32) -> (r: TimeOfDay)
    requires
        t.wf(),
        -86400 < offset < 86400,
    ensures
        r.wf(),
        r == shifted(t, offset as int),
        r.seconds() == shifted_seconds(t, offset as int),
{
    let total = (t.hour as i64) * 3600 + (t.minute as i64) * 60 + t.second as i64 + offset as i64;
    let s = if total < 0 {
        total + SECS_PER_DAY
    } else if total >= SECS_PER_DAY {
        total - SECS_PER_DAY
    } else {
        total
    };
    assert(s == (t.seconds() + offset) % 86400);
    let r = TimeOfDay {
        hour: (s / 3600) as u32,
        minute: ((s % 3600) / 60) as u32,
        second: (s % 60) as u32,
        nano: t.nano,
    };
    assert(r.seconds() == s) by (nonlinear_arith)
        requires
            r.hour == s / 3600,
            r.minute == (s % 3600) / 60,
            r.second == s % 60,
            0 <= s < 86400,
    ;
    r
}

} // verus!
