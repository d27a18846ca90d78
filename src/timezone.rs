use vstd::prelude::*;
use vstd::string::StringSliceAdditionalSpecFns;

use crate::lexer::{is_digit, is_space, same_word, range_is};
use crate::{Failure, ParseError};

verus! {

/// A fixed displacement from UTC, in seconds east.
#[derive(Clone, Copy, PartialEq, Eq, Structural, Debug)]
pub struct Offset {
    pub secs: i32,
}

impl Offset {
    pub open spec fn wf(&self) -> bool {
        -86400 < self.secs < 86400
    }

    /// The offset `secs` seconds east of UTC, if it is less than a day.
    pub fn east(secs: i32) -> (r: Option<Offset>)
        ensures
            r is Some <==> -86400 < secs < 86400,
            r matches Some(o) ==> o.wf() && o.secs == secs,
    {
        if -86400 < secs && secs < 86400 {
            Some(Offset { secs })
        } else {
            None
        }
    }

    /// The offset `secs` seconds west of UTC, if it is less than a day.
    pub fn west(secs: i32) -> (r: Option<Offset>)
        ensures
            r is Some <==> -86400 < secs < 86400,
            r matches Some(o) ==> o.wf() && o.secs == -secs,
    {
        if -86400 < secs && secs < 86400 {
            Some(Offset { secs: -secs })
        } else {
            None
        }
    }

    pub fn utc() -> (r: Offset)
        ensures
            r.wf(),
            r.secs == 0,
    {
        Offset { secs: 0 }
    }

    /// Seconds east of UTC.
    pub fn local_minus_utc(&self) -> (r: i32)
        ensures
            r == self.secs,
    {
        self.secs
    }
}

pub open spec fn digit_at(t: Seq<u8>, i: int) -> int {
    t[i] - 48
}

/// Where the digits of a numeric offset begin: after a sign, if there is one.
pub open spec fn sign_len(t: Seq<u8>) -> int {
    if t.len() > 0 && (t[0] == 43 || t[0] == 45) {
        1
    } else {
        0
    }
}

/// `HHMM` or `HH:MM`, after an optional sign, and nothing else.
pub open spec fn numeric_shape(t: Seq<u8>) -> bool {
    let i = sign_len(t);
    &&& t.len() == i + 4 || t.len() == i + 5
    &&& is_digit(t[i]) && is_digit(t[i + 1])
    &&& is_digit(t[t.len() - 2]) && is_digit(t[t.len() - 1])
    &&& t.len() == i + 5 ==> t[i + 2] == 58
}

pub open spec fn numeric_hours(t: Seq<u8>) -> int {
    digit_at(t, sign_len(t)) * 10 + digit_at(t, sign_len(t) + 1)
}

pub open spec fn numeric_minutes(t: Seq<u8>) -> int {
    digit_at(t, t.len() - 2) * 10 + digit_at(t, t.len() - 1)
}

/// The seconds east of UTC that a numeric offset spells; `-` means west.
pub open spec fn numeric_offset(t: Seq<u8>) -> int {
    let s = numeric_hours(t) * 3600 + numeric_minutes(t) * 60;
    if t[0] == 45 {
        -s
    } else {
        s
    }
}

/// The fixed meaning of each known zone abbreviation, in seconds east of UTC.
/// An abbreviation names one region here, although several regions share some.
pub open spec fn abbreviation_offset(t: Seq<u8>) -> Option<int> {
    if same_word(t, seq![80u8, 83, 84], false) {
        Some(-8 * 3600)  // PST
    } else if same_word(t, seq![80u8, 68, 84], false) {
        Some(-7 * 3600)  // PDT
    } else if same_word(t, seq![69u8, 83, 84], false) {
        Some(-5 * 3600)  // EST
    } else if same_word(t, seq![69u8, 68, 84], false) {
        Some(-4 * 3600)  // EDT
    } else if same_word(t, seq![67u8, 83, 84], false) {
        Some(-6 * 3600)  // CST
    } else if same_word(t, seq![67u8, 68, 84], false) {
        Some(-5 * 3600)  // CDT
    } else if same_word(t, seq![77u8, 83, 84], false) {
        Some(-7 * 3600)  // MST
    } else if same_word(t, seq![77u8, 68, 84], false) {
        Some(-6 * 3600)  // MDT
    } else {
        None
    }
}

/// The offset that a time zone token (without surrounding whitespace) stands
/// for: a numeric offset below 24 hours with minutes below 60, then `UTC` or
/// `GMT` in any case, then an abbreviation of the table.
pub open spec fn zone_offset(t: Seq<u8>) -> Option<int> {
    if numeric_shape(t) {
        if numeric_hours(t) < 24 && numeric_minutes(t) < 60 {
            Some(numeric_offset(t))
        } else {
            None
        }
    } else if same_word(t, seq![117u8, 116, 99], true) || same_word(t, seq![103u8, 109, 116], true) {
        Some(0)
    } else {
        abbreviation_offset(t)
    }
}

/// `t` without the whitespace at its ends.
pub open spec fn trimmed(t: Seq<u8>) -> Seq<u8>
    decreases t.len(),
{
    if t.len() == 0 {
        t
    } else if is_space(t[0]) {
        trimmed(t.drop_first())
    } else if is_space(t.last()) {
        trimmed(t.drop_last())
    } else {
        t
    }
}

fn is_digit_byte(c: u8) -> (r: bool)
    ensures
        r == is_digit(c),
{
    48 <= c && c <= 57
}

fn is_space_byte(c: u8) -> (r: bool)
    ensures
        r == is_space(c),
{
    (9 <= c && c <= 13) || c == 32
}

/// The offset that the token `b[lo..hi]` stands for, as [`zone_offset`] gives it.
pub fn resolve_range(b: &[u8], lo: usize, hi: usize) -> (r: Option<Offset>)
    requires
        lo <= hi <= b@.len(),
    ensures
        r matches Some(o) ==> o.wf() && zone_offset(b@.subrange(lo as int, hi as int)) == Some(o.secs as int),
        r is None <==> zone_offset(b@.subrange(lo as int, hi as int)) is None,
{
    let ghost t = b@.subrange(lo as int, hi as int);
    let n = hi - lo;
    let i: usize = if n > 0 && (b[lo] == 43 || b[lo] == 45) {
        1
    } else {
        0
    };
    assert(i == sign_len(t));
    if (n == i + 4 || n == i + 5) && is_digit_byte(b[lo + i]) && is_digit_byte(b[lo + i + 1])
        && is_digit_byte(b[hi - 2]) && is_digit_byte(b[hi - 1]) && (n == i + 4 || b[lo + i + 2]
        == 58) {
        assert(t[i as int] == b@[lo + i] && t[i + 1] == b@[lo + i + 1]);
        assert(t[t.len() - 2] == b@[hi - 2] && t[t.len() - 1] == b@[hi - 1]);
        assert(n == i + 5 ==> t[i + 2] == b@[lo + i + 2]);
        assert(numeric_shape(t));
        let hours = ((b[lo + i] - 48) as i32) * 10 + (b[lo + i + 1] - 48) as i32;
        let minutes = ((b[hi - 2] - 48) as i32) * 10 + (b[hi - 1] - 48) as i32;
        if hours < 24 && minutes < 60 {
            let s = hours * 3600 + minutes * 60;
            assert(t[0] == b@[lo as int]);
            if b[lo] == 45 {
                return Some(Offset { secs: -s });
            } else {
                return Some(Offset { secs: s });
            }
        } else {
            return None;
        }
    }
    assert(!numeric_shape(t)) by {
        if numeric_shape(t) {
            assert(t[i as int] == b@[lo + i] && t[i + 1] == b@[lo + i + 1]);
            assert(t[t.len() - 2] == b@[hi - 2] && t[t.len() - 1] == b@[hi - 1]);
            assert(n == i + 5 ==> t[i + 2] == b@[lo + i + 2]);
        }
    }
    if range_is(b, lo, hi, &vec![117u8, 116, 99], true) || range_is(b, lo, hi, &vec![103u8, 109, 116], true) {
        return Some(Offset { secs: 0 });
    }
    let table: Vec<(Vec<u8>, i32)> = vec![
        (vec![80u8, 83, 84], -8 * 3600),
        (vec![80u8, 68, 84], -7 * 3600),
        (vec![69u8, 83, 84], -5 * 3600),
        (vec![69u8, 68, 84], -4 * 3600),
        (vec![67u8, 83, 84], -6 * 3600),
        (vec![67u8, 68, 84], -5 * 3600),
        (vec![77u8, 83, 84], -7 * 3600),
        (vec![77u8, 68, 84], -6 * 3600),
    ];
    if range_is(b, lo, hi, &table[0].0, false) {
        Some(Offset { secs: table[0].1 })
    } else if range_is(b, lo, hi, &table[1].0, false) {
        Some(Offset { secs: table[1].1 })
    } else if range_is(b, lo, hi, &table[2].0, false) {
        Some(Offset { secs: table[2].1 })
    } else if range_is(b, lo, hi, &table[3].0, false) {
        Some(Offset { secs: table[3].1 })
    } else if range_is(b, lo, hi, &table[4].0, false) {
        Some(Offset { secs: table[4].1 })
    } else if range_is(b, lo, hi, &table[5].0, false) {
        Some(Offset { secs: table[5].1 })
    } else if range_is(b, lo, hi, &table[6].0, false) {
        Some(Offset { secs: table[6].1 })
    } else if range_is(b, lo, hi, &table[7].0, false) {
        Some(Offset { secs: table[7].1 })
    } else {
        None
    }
}

/// The bounds of `b` without the whitespace at its ends.
fn trim_bounds(b: &[u8]) -> (r: (usize, usize))
    ensures
        r.0 <= r.1 <= b@.len(),
        b@.subrange(r.0 as int, r.1 as int) == trimmed(b@),
{
    let mut lo: usize = 0;
    assert(b@.subrange(0, b@.len() as int) =~= b@);
    while lo < b.len() && is_space_byte(b[lo])
        invariant
            lo <= b@.len(),
            trimmed(b@.subrange(lo as int, b@.len() as int)) == trimmed(b@),
        decreases b@.len() - lo,
    {
        assert(b@.subrange(lo as int, b@.len() as int).drop_first() =~= b@.subrange(lo + 1, b@.len() as int));
        lo = lo + 1;
    }
    let mut hi: usize = b.len();
    while hi > lo && is_space_byte(b[hi - 1])
        invariant
            lo <= hi <= b@.len(),
            lo < b@.len() ==> !is_space(b@[lo as int]),
            trimmed(b@.subrange(lo as int, hi as int)) == trimmed(b@),
        decreases hi - lo,
    {
        assert(b@.subrange(lo as int, hi as int).drop_last() =~= b@.subrange(lo as int, hi - 1));
        hi = hi - 1;
    }
    (lo, hi)
}

/// The fixed offset that a time zone token stands for, after the whitespace
/// at its ends is removed: `+0800`, `-08:00`, `UTC`, `GMT`, `PST` and the like.
pub fn resolve_timezone(token: &str) -> (r: Result<Offset, ParseError>)
    ensures
        r matches Ok(o) ==> o.wf() && zone_offset(trimmed(token.spec_bytes())) == Some(o.secs as int),
        r matches Err(e) ==> zone_offset(trimmed(token.spec_bytes())) is None
            && e@ == Failure::UnrecognizedTimezone(token@),
        r is Err <==> zone_offset(trimmed(token.spec_bytes())) is None,
{
    let b = token.as_bytes();
    let (lo, hi) = trim_bounds(b);
    match resolve_range(b, lo, hi) {
        Some(o) => Ok(o),
        None => Err(ParseError::UnrecognizedTimezone(token.to_owned())),
    }
}

} // verus!
