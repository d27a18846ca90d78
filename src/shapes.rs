use vstd::prelude::*;

use crate::calendar::{century_year, TimeOfDay};
use crate::lexer::{
    fraction_nanos, is_letter, lemma_pow10_bound, num, pow10, same_word, sym, text, tok_len, tokens_wf, value,
    value_of, word_is, Kind, Token,
};

verus! {

// ---------------------------------------------------------------------------
// Tokens at a position
// ---------------------------------------------------------------------------

pub open spec fn num_at(t: Seq<Token>, k: int, lo: int, hi: int) -> bool {
    0 <= k < t.len() && num(t[k], lo, hi)
}

pub open spec fn sym_at(b: Seq<u8>, t: Seq<Token>, k: int, c: u8) -> bool {
    0 <= k < t.len() && sym(b, t[k], c)
}

pub open spec fn space_at(t: Seq<Token>, k: int) -> bool {
    0 <= k < t.len() && t[k].kind == Kind::Space
}

pub open spec fn letters_at(t: Seq<Token>, k: int, lo: int, hi: int) -> bool {
    0 <= k < t.len() && t[k].kind == Kind::Letters && lo <= tok_len(t[k]) <= hi
}

pub open spec fn val_at(b: Seq<u8>, t: Seq<Token>, k: int) -> int {
    value(b, t[k])
}

fn is_num_at(t: &Vec<Token>, k: usize, lo: usize, hi: usize) -> (r: bool)
    ensures
        r == num_at(t@, k as int, lo as int, hi as int),
{
    k < t.len() && t[k].kind == Kind::Digits && t[k].end >= t[k].start && lo <= t[k].end - t[k].start
        && t[k].end - t[k].start <= hi
}

fn is_sym_at(b: &[u8], t: &Vec<Token>, k: usize, c: u8) -> (r: bool)
    requires
        tokens_wf(b@, t@),
    ensures
        r == sym_at(b@, t@, k as int, c),
{
    k < t.len() && t[k].kind == Kind::Symbol && b[t[k].start] == c
}

fn is_space_at(t: &Vec<Token>, k: usize) -> (r: bool)
    ensures
        r == space_at(t@, k as int),
{
    k < t.len() && t[k].kind == Kind::Space
}

fn is_letters_at(t: &Vec<Token>, k: usize, lo: usize, hi: usize) -> (r: bool)
    ensures
        r == letters_at(t@, k as int, lo as int, hi as int),
{
    k < t.len() && t[k].kind == Kind::Letters && t[k].end >= t[k].start && lo <= t[k].end
        - t[k].start && t[k].end - t[k].start <= hi
}

fn value_at(b: &[u8], t: &Vec<Token>, k: usize) -> (r: u32)
    requires
        tokens_wf(b@, t@),
        num_at(t@, k as int, 1, 9),
    ensures
        r == val_at(b@, t@, k as int),
        r < pow10(tok_len(t@[k as int]) as nat),
{
    let v = value_of(b, t[k]);
    proof {
        lemma_pow10_bound(tok_len(t@[k as int]) as nat);
    }
    v as u32
}

// ---------------------------------------------------------------------------
// Words
// ---------------------------------------------------------------------------

/// The English name of month `i`, in lower case.
pub open spec fn month_name(i: int) -> Seq<u8> {
    if i == 1 {
        seq![106u8, 97, 110, 117, 97, 114, 121]
    } else if i == 2 {
        seq![102u8, 101, 98, 114, 117, 97, 114, 121]
    } else if i == 3 {
        seq![109u8, 97, 114, 99, 104]
    } else if i == 4 {
        seq![97u8, 112, 114, 105, 108]
    } else if i == 5 {
        seq![109u8, 97, 121]
    } else if i == 6 {
        seq![106u8, 117, 110, 101]
    } else if i == 7 {
        seq![106u8, 117, 108, 121]
    } else if i == 8 {
        seq![97u8, 117, 103, 117, 115, 116]
    } else if i == 9 {
        seq![115u8, 101, 112, 116, 101, 109, 98, 101, 114]
    } else if i == 10 {
        seq![111u8, 99, 116, 111, 98, 101, 114]
    } else if i == 11 {
        seq![110u8, 111, 118, 101, 109, 98, 101, 114]
    } else {
        seq![100u8, 101, 99, 101, 109, 98, 101, 114]
    }
}

/// `w` names month `i` in any case: by its three-letter abbreviation, or, unless
/// `abbr_only`, by its full name.
pub open spec fn names_month(w: Seq<u8>, i: int, abbr_only: bool) -> bool {
    same_word(w, month_name(i).take(3), true) || (!abbr_only && same_word(w, month_name(i), true))
}

/// The first month from `i` on that `w` names, or 0.
pub open spec fn month_from(w: Seq<u8>, i: int, abbr_only: bool) -> int
    decreases 13 - i,
{
    if i < 1 || i > 12 {
        0
    } else if names_month(w, i, abbr_only) {
        i
    } else {
        month_from(w, i + 1, abbr_only)
    }
}

/// The month that `w` names, or 0 where it names none.
pub open spec fn month_number(w: Seq<u8>, abbr_only: bool) -> int {
    month_from(w, 1, abbr_only)
}

fn month_name_bytes(i: usize) -> (r: Vec<u8>)
    ensures
        r@ == month_name(i as int),
{
    if i == 1 {
        vec![106u8, 97, 110, 117, 97, 114, 121]
    } else if i == 2 {
        vec![102u8, 101, 98, 114, 117, 97, 114, 121]
    } else if i == 3 {
        vec![109u8, 97, 114, 99, 104]
    } else if i == 4 {
        vec![97u8, 112, 114, 105, 108]
    } else if i == 5 {
        vec![109u8, 97, 121]
    } else if i == 6 {
        vec![106u8, 117, 110, 101]
    } else if i == 7 {
        vec![106u8, 117, 108, 121]
    } else if i == 8 {
        vec![97u8, 117, 103, 117, 115, 116]
    } else if i == 9 {
        vec![115u8, 101, 112, 116, 101, 109, 98, 101, 114]
    } else if i == 10 {
        vec![111u8, 99, 116, 111, 98, 101, 114]
    } else if i == 11 {
        vec![110u8, 111, 118, 101, 109, 98, 101, 114]
    } else {
        vec![100u8, 101, 99, 101, 109, 98, 101, 114]
    }
}

/// The month that the token names, or 0.
fn month_of(b: &[u8], tok: Token, abbr_only: bool) -> (r: u32)
    requires
        tok.start <= tok.end <= b@.len(),
    ensures
        r == month_number(text(b@, tok), abbr_only),
        r <= 12,
{
    let mut i: usize = 1;
    while i <= 12
        invariant
            1 <= i <= 13,
            tok.start <= tok.end <= b@.len(),
            month_number(text(b@, tok), abbr_only) == month_from(text(b@, tok), i as int, abbr_only),
        decreases 13 - i,
    {
        let name = month_name_bytes(i);
        let abbr = vec![name[0], name[1], name[2]];
        assert(abbr@ =~= name@.take(3));
        if word_is(b, tok, &abbr, true) || (!abbr_only && word_is(b, tok, &name, true)) {
            return i as u32;
        }
        i = i + 1;
    }
    0
}

/// 1 for `am`, 2 for `pm`, in any case; 0 for anything else.
pub open spec fn meridiem(w: Seq<u8>) -> int {
    if same_word(w, seq![97u8, 109], true) {
        1
    } else if same_word(w, seq![112u8, 109], true) {
        2
    } else {
        0
    }
}

fn meridiem_of(b: &[u8], tok: Token) -> (r: u32)
    requires
        tok.start <= tok.end <= b@.len(),
    ensures
        r == meridiem(text(b@, tok)),
{
    if word_is(b, tok, &vec![97u8, 109], true) {
        1
    } else if word_is(b, tok, &vec![112u8, 109], true) {
        2
    } else {
        0
    }
}

pub open spec fn meridiem_at(b: Seq<u8>, t: Seq<Token>, k: int) -> int {
    if 0 <= k < t.len() && t[k].kind == Kind::Letters {
        meridiem(text(b, t[k]))
    } else {
        0
    }
}

fn meridiem_at_exec(b: &[u8], t: &Vec<Token>, k: usize) -> (r: u32)
    requires
        tokens_wf(b@, t@),
    ensures
        r == meridiem_at(b@, t@, k as int),
{
    if k < t.len() && t[k].kind == Kind::Letters {
        meridiem_of(b, t[k])
    } else {
        0
    }
}

/// The word `at`.
pub open spec fn at_word(b: Seq<u8>, t: Seq<Token>, k: int) -> bool {
    0 <= k < t.len() && t[k].kind == Kind::Letters && same_word(text(b, t[k]), seq![97u8, 116], false)
}

fn is_at_word(b: &[u8], t: &Vec<Token>, k: usize) -> (r: bool)
    requires
        tokens_wf(b@, t@),
    ensures
        r == at_word(b@, t@, k as int),
{
    k < t.len() && t[k].kind == Kind::Letters && word_is(b, t[k], &vec![97u8, 116], false)
}

// ---------------------------------------------------------------------------
// Years
// ---------------------------------------------------------------------------

/// A year of two digits stands for a year of this or the last century; any
/// other count of digits gives the year as written.
pub open spec fn year_value(b: Seq<u8>, tok: Token) -> int {
    if tok_len(tok) == 2 {
        century_year(value(b, tok))
    } else {
        value(b, tok)
    }
}

fn year_at(b: &[u8], t: &Vec<Token>, k: usize, two_digit: bool) -> (r: i32)
    requires
        tokens_wf(b@, t@),
        num_at(t@, k as int, 2, 4),
    ensures
        two_digit ==> r == year_value(b@, t@[k as int]),
        !two_digit ==> r == val_at(b@, t@, k as int),
        0 <= r <= 9999,
{
    let v = value_at(b, t, k);
    proof {
        reveal_with_fuel(pow10, 5);
    }
    if two_digit && t[k].end - t[k].start == 2 {
        if v < 70 {
            (2000 + v) as i32
        } else {
            (1900 + v) as i32
        }
    } else {
        v as i32
    }
}

// ---------------------------------------------------------------------------
// Clock
// ---------------------------------------------------------------------------

/// Fraction digits of a second: their value and how many there are.
#[derive(Clone, Copy, PartialEq, Eq, Structural, Debug)]
pub struct Fraction {
    pub value: u32,
    pub digits: u32,
}

/// The time fields as written: `H:MM`, then `:SS` and `.F` where present.
#[derive(Clone, Copy, PartialEq, Eq, Structural, Debug)]
pub struct Clock {
    pub hour: u32,
    pub minute: u32,
    pub second: Option<u32>,
    pub frac: Option<Fraction>,
}

/// Reads `H:MM(:SS)?(.F)?` from token `k` on, the hour having `hour_lo` to 2
/// digits and the fraction 1 to 9 (only where `frac_ok`); gives the fields and
/// the token after them.
pub open spec fn read_clock(b: Seq<u8>, t: Seq<Token>, k: int, hour_lo: int, frac_ok: bool) -> Option<(Clock, int)> {
    if num_at(t, k, hour_lo, 2) && sym_at(b, t, k + 1, 58) && num_at(t, k + 2, 2, 2) {
        let has_sec = sym_at(b, t, k + 3, 58) && num_at(t, k + 4, 2, 2);
        let k2 = if has_sec {
            k + 5
        } else {
            k + 3
        };
        let has_frac = frac_ok && sym_at(b, t, k2, 46) && num_at(t, k2 + 1, 1, 9);
        let k3 = if has_frac {
            k2 + 2
        } else {
            k2
        };
        Some(
            (
                Clock {
                    hour: val_at(b, t, k) as u32,
                    minute: val_at(b, t, k + 2) as u32,
                    second: if has_sec {
                        Some(val_at(b, t, k + 4) as u32)
                    } else {
                        None
                    },
                    frac: if has_frac {
                        Some(Fraction { value: val_at(b, t, k2 + 1) as u32, digits: tok_len(t[k2 + 1]) as u32 })
                    } else {
                        None
                    },
                },
                k3,
            ),
        )
    } else {
        None
    }
}

fn read_clock_exec(b: &[u8], t: &Vec<Token>, k: usize, hour_lo: usize, frac_ok: bool) -> (r: Option<(Clock, usize)>)
    requires
        tokens_wf(b@, t@),
        k <= 64,
        1 <= hour_lo <= 2,
    ensures
        r matches Some(p) ==> read_clock(b@, t@, k as int, hour_lo as int, frac_ok) == Some((p.0, p.1 as int)),
        r is None <==> read_clock(b@, t@, k as int, hour_lo as int, frac_ok) is None,
        r matches Some(p) ==> p.1 <= k + 7,
        r matches Some(p) ==> (p.0.frac matches Some(f) ==> 1 <= f.digits <= 9 && f.value < pow10(f.digits as nat)),
{
    if is_num_at(t, k, hour_lo, 2) && is_sym_at(b, t, k + 1, 58) && is_num_at(t, k + 2, 2, 2) {
        let hour = value_at(b, t, k);
        let minute = value_at(b, t, k + 2);
        let has_sec = is_sym_at(b, t, k + 3, 58) && is_num_at(t, k + 4, 2, 2);
        let second = if has_sec {
            Some(value_at(b, t, k + 4))
        } else {
            None
        };
        let k2 = if has_sec {
            k + 5
        } else {
            k + 3
        };
        let has_frac = frac_ok && is_sym_at(b, t, k2, 46) && is_num_at(t, k2 + 1, 1, 9);
        let frac = if has_frac {
            let v = value_at(b, t, k2 + 1);
            Some(Fraction { value: v, digits: (t[k2 + 1].end - t[k2 + 1].start) as u32 })
        } else {
            None
        };
        let k3 = if has_frac {
            k2 + 2
        } else {
            k2
        };
        Some((Clock { hour, minute, second, frac }, k3))
    } else {
        None
    }
}

/// The time of day that the clock fields give under a 24-hour layout
/// (`meridiem` 0) or a 12-hour one with `am` (1) or `pm` (2). A fraction needs
/// seconds and is not read with a meridiem.
pub open spec fn clock_time(c: Clock, meridiem: int) -> Option<TimeOfDay> {
    let hour: int = if meridiem == 0 {
        c.hour as int
    } else if c.hour == 12 {
        if meridiem == 1 {
            0
        } else {
            12
        }
    } else if meridiem == 1 {
        c.hour as int
    } else {
        c.hour + 12
    };
    let second: int = match c.second {
        Some(s) => s as int,
        None => 0,
    };
    let nano: int = match c.frac {
        Some(f) => f.value * pow10((9 - f.digits) as nat),
        None => 0,
    };
    let fits = if meridiem == 0 {
        c.hour < 24 && (c.frac is Some ==> c.second is Some)
    } else {
        1 <= c.hour <= 12 && c.frac is None
    };
    if fits && c.minute < 60 && second < 60 {
        Some(TimeOfDay { hour: hour as u32, minute: c.minute, second: second as u32, nano: nano as u32 })
    } else {
        None
    }
}

fn clock_time_exec(c: Clock, meridiem: u32) -> (r: Option<TimeOfDay>)
    requires
        c.frac matches Some(f) ==> 1 <= f.digits <= 9 && f.value < pow10(f.digits as nat),
    ensures
        r == clock_time(c, meridiem as int),
        r matches Some(tm) ==> tm.wf(),
{
    let fits = if meridiem == 0 {
        c.hour < 24 && (c.frac.is_none() || c.second.is_some())
    } else {
        1 <= c.hour && c.hour <= 12 && c.frac.is_none()
    };
    let second: u32 = match c.second {
        Some(s) => s,
        None => 0,
    };
    if !(fits && c.minute < 60 && second < 60) {
        return None;
    }
    let hour: u32 = if meridiem == 0 {
        c.hour
    } else if c.hour == 12 {
        if meridiem == 1 {
            0
        } else {
            12
        }
    } else if meridiem == 1 {
        c.hour
    } else {
        c.hour + 12
    };
    let nano: u32 = match c.frac {
        Some(f) => fraction_nanos(f.value as u64, f.digits as u64) as u32,
        None => 0,
    };
    Some(TimeOfDay { hour, minute: c.minute, second, nano })
}

// ---------------------------------------------------------------------------
// Tails
// ---------------------------------------------------------------------------

/// `\s*(am|pm)?`, in any case, and the end of the input, from token `k`: the meridiem
/// read (0 where none), or `None` where the tokens do not end so.
pub open spec fn meridiem_tail(b: Seq<u8>, t: Seq<Token>, k: int) -> Option<int> {
    let k1 = if space_at(t, k) {
        k + 1
    } else {
        k
    };
    if k1 == t.len() {
        Some(0)
    } else if k1 + 1 == t.len() && meridiem_at(b, t, k1) != 0 {
        Some(meridiem_at(b, t, k1))
    } else {
        None
    }
}

fn meridiem_tail_exec(b: &[u8], t: &Vec<Token>, k: usize) -> (r: Option<u32>)
    requires
        tokens_wf(b@, t@),
        k <= 128,
    ensures
        r matches Some(m) ==> meridiem_tail(b@, t@, k as int) == Some(m as int),
        r is None <==> meridiem_tail(b@, t@, k as int) is None,
{
    let k1 = if is_space_at(t, k) {
        k + 1
    } else {
        k
    };
    if k1 == t.len() {
        Some(0)
    } else {
        let m = meridiem_at_exec(b, t, k1);
        if k1 + 1 == t.len() && m != 0 {
            Some(m)
        } else {
            None
        }
    }
}

/// A byte that a time zone token may hold: `+ , - . /`, a digit, `:` or a letter.
pub open spec fn zone_byte(c: u8) -> bool {
    (43 <= c <= 58) || is_letter(c)
}

/// From token `k` (after whitespace, which `need_space` requires) to the end of
/// the input: 3 to 6 time zone bytes. Gives their byte range.
pub open spec fn zone_tail(b: Seq<u8>, t: Seq<Token>, k: int, need_space: bool) -> Option<(int, int)> {
    let k1 = if space_at(t, k) {
        k + 1
    } else {
        k
    };
    if need_space && k1 == k {
        None
    } else if 0 <= k1 < t.len() && 3 <= b.len() - t[k1].start <= 6 && forall|i: int|
        t[k1].start <= i < b.len() ==> zone_byte(#[trigger] b[i]) {
        Some((t[k1].start as int, b.len() as int))
    } else {
        None
    }
}

fn zone_tail_exec(b: &[u8], t: &Vec<Token>, k: usize, need_space: bool) -> (r: Option<(usize, usize)>)
    requires
        tokens_wf(b@, t@),
        k <= 128,
    ensures
        r matches Some(z) ==> zone_tail(b@, t@, k as int, need_space) == Some((z.0 as int, z.1 as int))
            && z.0 <= z.1 <= b@.len(),
        r is None <==> zone_tail(b@, t@, k as int, need_space) is None,
{
    let k1 = if is_space_at(t, k) {
        k + 1
    } else {
        k
    };
    if need_space && k1 == k {
        return None;
    }
    if k1 >= t.len() {
        return None;
    }
    let start = t[k1].start;
    if !(3 <= b.len() - start && b.len() - start <= 6) {
        return None;
    }
    let mut i = start;
    while i < b.len()
        invariant
            start <= i <= b@.len(),
            0 <= k1 < t@.len(),
            start == t@[k1 as int].start,
            k1 == (if space_at(t@, k as int) {
                k + 1
            } else {
                k as int
            }),
            !(need_space && k1 == k),
            3 <= b@.len() - start <= 6,
            forall|j: int| start <= j < i ==> zone_byte(#[trigger] b@[j]),
        decreases b@.len() - i,
    {
        let c = b[i];
        if !((43 <= c && c <= 58) || (65 <= c && c <= 90) || (97 <= c && c <= 122)) {
            assert(!zone_byte(b@[i as int]));
            return None;
        }
        i = i + 1;
    }
    Some((start, b.len()))
}

// ---------------------------------------------------------------------------
// Shapes
// ---------------------------------------------------------------------------

/// The time that a shape read: none (a date alone), a time of day, or clock
/// fields that no layout of the shape accepts.
#[derive(Clone, Copy, Debug)]
pub enum TimePart {
    DateOnly,
    At(TimeOfDay),
    Unreadable,
}

/// What a shape read from an input: the date fields as written (the month 0
/// where its name is not one), the time, and the byte range of a time zone token.
#[derive(Clone, Copy, Debug)]
pub struct Reading {
    pub year: i32,
    pub month: u32,
    pub day: u32,
    pub time: TimePart,
    pub zone: Option<(usize, usize)>,
}

impl Reading {
    /// The year has at most four digits, a time of day is one, and the zone
    /// range lies in an input of `n` bytes.
    pub open spec fn ok(&self, n: int) -> bool {
        &&& 0 <= self.year <= 9999
        &&& self.time matches TimePart::At(x) ==> x.wf()
        &&& self.zone matches Some(z) ==> z.0 <= z.1 <= n
    }
}

pub open spec fn timed(o: Option<TimeOfDay>) -> TimePart {
    match o {
        Some(x) => TimePart::At(x),
        None => TimePart::Unreadable,
    }
}

fn timed_exec(o: Option<TimeOfDay>) -> (r: TimePart)
    ensures
        r == timed(o),
{
    match o {
        Some(x) => TimePart::At(x),
        None => TimePart::Unreadable,
    }
}

/// `YYYY-MM-DD` at the start.
pub open spec fn dash_date(b: Seq<u8>, t: Seq<Token>) -> bool {
    num_at(t, 0, 4, 4) && sym_at(b, t, 1, 45) && num_at(t, 2, 2, 2) && sym_at(b, t, 3, 45) && num_at(t, 4, 2, 2)
}

fn dash_date_exec(b: &[u8], t: &Vec<Token>) -> (r: bool)
    requires
        tokens_wf(b@, t@),
    ensures
        r == dash_date(b@, t@),
{
    is_num_at(t, 0, 4, 4) && is_sym_at(b, t, 1, 45) && is_num_at(t, 2, 2, 2) && is_sym_at(b, t, 3, 45)
        && is_num_at(t, 4, 2, 2)
}

/// `N/N/N` at the start: one or two digits, one or two, then `last_lo` to
/// `last_hi`; or, where `year_first`, four digits, then one or two, twice.
pub open spec fn slash_date(b: Seq<u8>, t: Seq<Token>, year_first: bool) -> bool {
    &&& if year_first {
        num_at(t, 0, 4, 4) && num_at(t, 4, 1, 2)
    } else {
        num_at(t, 0, 1, 2) && num_at(t, 4, 2, 4)
    }
    &&& sym_at(b, t, 1, 47) && num_at(t, 2, 1, 2) && sym_at(b, t, 3, 47)
}

fn slash_date_exec(b: &[u8], t: &Vec<Token>, year_first: bool) -> (r: bool)
    requires
        tokens_wf(b@, t@),
    ensures
        r == slash_date(b@, t@, year_first),
{
    let ends = if year_first {
        is_num_at(t, 0, 4, 4) && is_num_at(t, 4, 1, 2)
    } else {
        is_num_at(t, 0, 1, 2) && is_num_at(t, 4, 2, 4)
    };
    ends && is_sym_at(b, t, 1, 47) && is_num_at(t, 2, 1, 2) && is_sym_at(b, t, 3, 47)
}

/// `YYYY-MM-DD HH:MM[:SS][.F] [am|pm]`.
pub open spec fn ymd_hms_shape(b: Seq<u8>, t: Seq<Token>) -> Option<Reading> {
    if dash_date(b, t) && space_at(t, 5) {
        match read_clock(b, t, 6, 2, true) {
            Some((c, k)) => match meridiem_tail(b, t, k) {
                Some(m) => Some(
                    Reading {
                        year: val_at(b, t, 0) as i32,
                        month: val_at(b, t, 2) as u32,
                        day: val_at(b, t, 4) as u32,
                        time: timed(clock_time(c, m)),
                        zone: None,
                    },
                ),
                None => None,
            },
            None => None,
        }
    } else {
        None
    }
}

pub fn ymd_hms_read(b: &[u8], t: &Vec<Token>) -> (r: Option<Reading>)
    requires
        tokens_wf(b@, t@),
    ensures
        r == ymd_hms_shape(b@, t@),
        r matches Some(rd) ==> rd.ok(b@.len() as int),
{
    if dash_date_exec(b, t) && is_space_at(t, 5) {
        match read_clock_exec(b, t, 6, 2, true) {
            Some((c, k)) => match meridiem_tail_exec(b, t, k) {
                Some(m) => Some(
                    Reading {
                        year: year_at(b, t, 0, false),
                        month: value_at(b, t, 2),
                        day: value_at(b, t, 4),
                        time: timed_exec(clock_time_exec(c, m)),
                        zone: None,
                    },
                ),
                None => None,
            },
            None => None,
        }
    } else {
        None
    }
}

/// `YYYY-MM-DD HH:MM[:SS][.F]` and a time zone token.
pub open spec fn ymd_hms_z_shape(b: Seq<u8>, t: Seq<Token>) -> Option<Reading> {
    if dash_date(b, t) && space_at(t, 5) {
        match read_clock(b, t, 6, 2, true) {
            Some((c, k)) => match zone_tail(b, t, k, false) {
                Some(z) => Some(
                    Reading {
                        year: val_at(b, t, 0) as i32,
                        month: val_at(b, t, 2) as u32,
                        day: val_at(b, t, 4) as u32,
                        time: timed(clock_time(c, 0)),
                        zone: Some((z.0 as usize, z.1 as usize)),
                    },
                ),
                None => None,
            },
            None => None,
        }
    } else {
        None
    }
}

pub fn ymd_hms_z_read(b: &[u8], t: &Vec<Token>) -> (r: Option<Reading>)
    requires
        tokens_wf(b@, t@),
    ensures
        r == ymd_hms_z_shape(b@, t@),
        r matches Some(rd) ==> rd.ok(b@.len() as int),
{
    if dash_date_exec(b, t) && is_space_at(t, 5) {
        match read_clock_exec(b, t, 6, 2, true) {
            Some((c, k)) => match zone_tail_exec(b, t, k, false) {
                Some(z) => Some(
                    Reading {
                        year: year_at(b, t, 0, false),
                        month: value_at(b, t, 2),
                        day: value_at(b, t, 4),
                        time: timed_exec(clock_time_exec(c, 0)),
                        zone: Some(z),
                    },
                ),
                None => None,
            },
            None => None,
        }
    } else {
        None
    }
}

/// `YYYY-MM-DD` alone.
pub open spec fn ymd_shape(b: Seq<u8>, t: Seq<Token>) -> Option<Reading> {
    if dash_date(b, t) && t.len() == 5 {
        Some(
            Reading {
                year: val_at(b, t, 0) as i32,
                month: val_at(b, t, 2) as u32,
                day: val_at(b, t, 4) as u32,
                time: TimePart::DateOnly,
                zone: None,
            },
        )
    } else {
        None
    }
}

pub fn ymd_read(b: &[u8], t: &Vec<Token>) -> (r: Option<Reading>)
    requires
        tokens_wf(b@, t@),
    ensures
        r == ymd_shape(b@, t@),
        r matches Some(rd) ==> rd.ok(b@.len() as int),
{
    if dash_date_exec(b, t) && t.len() == 5 {
        Some(
            Reading {
                year: year_at(b, t, 0, false),
                month: value_at(b, t, 2),
                day: value_at(b, t, 4),
                time: TimePart::DateOnly,
                zone: None,
            },
        )
    } else {
        None
    }
}

/// `YYYY-MM-DD` and a time zone token.
pub open spec fn ymd_z_shape(b: Seq<u8>, t: Seq<Token>) -> Option<Reading> {
    if dash_date(b, t) {
        match zone_tail(b, t, 5, false) {
            Some(z) => Some(
                Reading {
                    year: val_at(b, t, 0) as i32,
                    month: val_at(b, t, 2) as u32,
                    day: val_at(b, t, 4) as u32,
                    time: TimePart::DateOnly,
                    zone: Some((z.0 as usize, z.1 as usize)),
                },
            ),
            None => None,
        }
    } else {
        None
    }
}

pub fn ymd_z_read(b: &[u8], t: &Vec<Token>) -> (r: Option<Reading>)
    requires
        tokens_wf(b@, t@),
    ensures
        r == ymd_z_shape(b@, t@),
        r matches Some(rd) ==> rd.ok(b@.len() as int),
{
    if dash_date_exec(b, t) {
        match zone_tail_exec(b, t, 5, false) {
            Some(z) => Some(
                Reading {
                    year: year_at(b, t, 0, false),
                    month: value_at(b, t, 2),
                    day: value_at(b, t, 4),
                    time: TimePart::DateOnly,
                    zone: Some(z),
                },
            ),
            None => None,
        }
    } else {
        None
    }
}

/// `YYYY-Mon-DD`, the month by its three-letter abbreviation.
pub open spec fn month_ymd_shape(b: Seq<u8>, t: Seq<Token>) -> Option<Reading> {
    if num_at(t, 0, 4, 4) && sym_at(b, t, 1, 45) && letters_at(t, 2, 3, 9) && sym_at(b, t, 3, 45)
        && num_at(t, 4, 2, 2) && t.len() == 5 {
        Some(
            Reading {
                year: val_at(b, t, 0) as i32,
                month: month_number(text(b, t[2]), true) as u32,
                day: val_at(b, t, 4) as u32,
                time: TimePart::DateOnly,
                zone: None,
            },
        )
    } else {
        None
    }
}

pub fn month_ymd_read(b: &[u8], t: &Vec<Token>) -> (r: Option<Reading>)
    requires
        tokens_wf(b@, t@),
    ensures
        r == month_ymd_shape(b@, t@),
        r matches Some(rd) ==> rd.ok(b@.len() as int),
{
    if is_num_at(t, 0, 4, 4) && is_sym_at(b, t, 1, 45) && is_letters_at(t, 2, 3, 9) && is_sym_at(b, t, 3, 45)
        && is_num_at(t, 4, 2, 2) && t.len() == 5 {
        Some(
            Reading {
                year: year_at(b, t, 0, false),
                month: month_of(b, t[2], true),
                day: value_at(b, t, 4),
                time: TimePart::DateOnly,
                zone: None,
            },
        )
    } else {
        None
    }
}

/// Where the whitespace after a leading month name stands: after its period, if any.
pub open spec fn after_month(b: Seq<u8>, t: Seq<Token>) -> int {
    if sym_at(b, t, 1, 46) {
        2
    } else {
        1
    }
}

fn after_month_exec(b: &[u8], t: &Vec<Token>) -> (r: usize)
    requires
        tokens_wf(b@, t@),
    ensures
        r == after_month(b@, t@),
{
    if is_sym_at(b, t, 1, 46) {
        2
    } else {
        1
    }
}

/// `Month[.] D, YYYY[,] H:MM[:SS] [am|pm]`.
pub open spec fn month_mdy_hms_shape(b: Seq<u8>, t: Seq<Token>) -> Option<Reading> {
    let p = after_month(b, t);
    let q = if sym_at(b, t, p + 5, 44) {
        p + 6
    } else {
        p + 5
    };
    if letters_at(t, 0, 3, 9) && space_at(t, p) && num_at(t, p + 1, 1, 2) && sym_at(b, t, p + 2, 44)
        && space_at(t, p + 3) && num_at(t, p + 4, 2, 4) && space_at(t, q) {
        match read_clock(b, t, q + 1, 1, false) {
            Some((c, k)) => match meridiem_tail(b, t, k) {
                Some(m) => Some(
                    Reading {
                        year: val_at(b, t, p + 4) as i32,
                        month: month_number(text(b, t[0]), false) as u32,
                        day: val_at(b, t, p + 1) as u32,
                        time: timed(clock_time(c, m)),
                        zone: None,
                    },
                ),
                None => None,
            },
            None => None,
        }
    } else {
        None
    }
}

pub fn month_mdy_hms_read(b: &[u8], t: &Vec<Token>) -> (r: Option<Reading>)
    requires
        tokens_wf(b@, t@),
    ensures
        r == month_mdy_hms_shape(b@, t@),
        r matches Some(rd) ==> rd.ok(b@.len() as int),
{
    let p = after_month_exec(b, t);
    let q = if is_sym_at(b, t, p + 5, 44) {
        p + 6
    } else {
        p + 5
    };
    if is_letters_at(t, 0, 3, 9) && is_space_at(t, p) && is_num_at(t, p + 1, 1, 2) && is_sym_at(b, t, p + 2, 44)
        && is_space_at(t, p + 3) && is_num_at(t, p + 4, 2, 4) && is_space_at(t, q) {
        match read_clock_exec(b, t, q + 1, 1, false) {
            Some((c, k)) => match meridiem_tail_exec(b, t, k) {
                Some(m) => Some(
                    Reading {
                        year: year_at(b, t, p + 4, false),
                        month: month_of(b, t[0], false),
                        day: value_at(b, t, p + 1),
                        time: timed_exec(clock_time_exec(c, m)),
                        zone: None,
                    },
                ),
                None => None,
            },
            None => None,
        }
    } else {
        None
    }
}

/// Where the whitespace before the hour stands in `Month D[,] YYYY[ ][,][at] HH:MM`,
/// the year being token `y`.
pub open spec fn before_hour(b: Seq<u8>, t: Seq<Token>, y: int) -> int {
    let q0 = y + 1;
    let q1 = if space_at(t, q0) && (sym_at(b, t, q0 + 1, 44) || at_word(b, t, q0 + 1)) {
        q0 + 1
    } else {
        q0
    };
    let q2 = if sym_at(b, t, q1, 44) {
        q1 + 1
    } else {
        q1
    };
    if at_word(b, t, q2) {
        q2 + 1
    } else {
        q2
    }
}

fn before_hour_exec(b: &[u8], t: &Vec<Token>, y: usize) -> (r: usize)
    requires
        tokens_wf(b@, t@),
        y <= 8,
    ensures
        r == before_hour(b@, t@, y as int),
        r <= y + 4,
{
    let q0 = y + 1;
    let q1 = if is_space_at(t, q0) && (is_sym_at(b, t, q0 + 1, 44) || is_at_word(b, t, q0 + 1)) {
        q0 + 1
    } else {
        q0
    };
    let q2 = if is_sym_at(b, t, q1, 44) {
        q1 + 1
    } else {
        q1
    };
    if is_at_word(b, t, q2) {
        q2 + 1
    } else {
        q2
    }
}

/// The meridiem after the clock ending at token `k`, and where the zone part starts.
pub open spec fn meridiem_before_zone(b: Seq<u8>, t: Seq<Token>, k: int) -> (int, int) {
    if space_at(t, k) && meridiem_at(b, t, k + 1) != 0 {
        (meridiem_at(b, t, k + 1), k + 2)
    } else if meridiem_at(b, t, k) != 0 {
        (meridiem_at(b, t, k), k + 1)
    } else {
        (0, k)
    }
}

fn meridiem_before_zone_exec(b: &[u8], t: &Vec<Token>, k: usize) -> (r: (u32, usize))
    requires
        tokens_wf(b@, t@),
        k <= 64,
    ensures
        r.0 as int == meridiem_before_zone(b@, t@, k as int).0,
        r.1 as int == meridiem_before_zone(b@, t@, k as int).1,
        r.1 <= k + 2,
{
    let m1 = meridiem_at_exec(b, t, k + 1);
    if is_space_at(t, k) && m1 != 0 {
        (m1, k + 2)
    } else {
        let m0 = meridiem_at_exec(b, t, k);
        if m0 != 0 {
            (m0, k + 1)
        } else {
            (0, k)
        }
    }
}

/// `Month D[,] YYYY[,] [at] HH:MM[:SS] [am|pm]` and a time zone token.
pub open spec fn month_mdy_hms_z_shape(b: Seq<u8>, t: Seq<Token>) -> Option<Reading> {
    let p: int = if sym_at(b, t, 3, 44) {
        4
    } else {
        3
    };
    let q = before_hour(b, t, p + 1);
    if letters_at(t, 0, 3, 9) && space_at(t, 1) && num_at(t, 2, 1, 2) && space_at(t, p) && num_at(
        t,
        p + 1,
        4,
        4,
    ) && space_at(t, q) {
        match read_clock(b, t, q + 1, 2, false) {
            Some((c, k)) => {
                let (m, k2) = meridiem_before_zone(b, t, k);
                match zone_tail(b, t, k2, true) {
                    Some(z) => Some(
                        Reading {
                            year: val_at(b, t, p + 1) as i32,
                            month: month_number(text(b, t[0]), false) as u32,
                            day: val_at(b, t, 2) as u32,
                            time: timed(clock_time(c, m)),
                            zone: Some((z.0 as usize, z.1 as usize)),
                        },
                    ),
                    None => None,
                }
            },
            None => None,
        }
    } else {
        None
    }
}

pub fn month_mdy_hms_z_read(b: &[u8], t: &Vec<Token>) -> (r: Option<Reading>)
    requires
        tokens_wf(b@, t@),
    ensures
        r == month_mdy_hms_z_shape(b@, t@),
        r matches Some(rd) ==> rd.ok(b@.len() as int),
{
    let p: usize = if is_sym_at(b, t, 3, 44) {
        4
    } else {
        3
    };
    let q = before_hour_exec(b, t, p + 1);
    if is_letters_at(t, 0, 3, 9) && is_space_at(t, 1) && is_num_at(t, 2, 1, 2) && is_space_at(t, p)
        && is_num_at(t, p + 1, 4, 4) && is_space_at(t, q) {
        match read_clock_exec(b, t, q + 1, 2, false) {
            Some((c, k)) => {
                let (m, k2) = meridiem_before_zone_exec(b, t, k);
                match zone_tail_exec(b, t, k2, true) {
                    Some(z) => Some(
                        Reading {
                            year: year_at(b, t, p + 1, false),
                            month: month_of(b, t[0], false),
                            day: value_at(b, t, 2),
                            time: timed_exec(clock_time_exec(c, m)),
                            zone: Some(z),
                        },
                    ),
                    None => None,
                }
            },
            None => None,
        }
    } else {
        None
    }
}

/// `Month[.] D, YY` or `Month[.] D, YYYY`.
pub open spec fn month_mdy_shape(b: Seq<u8>, t: Seq<Token>) -> Option<Reading> {
    let p = after_month(b, t);
    if letters_at(t, 0, 3, 9) && space_at(t, p) && num_at(t, p + 1, 1, 2) && sym_at(b, t, p + 2, 44)
        && space_at(t, p + 3) && num_at(t, p + 4, 2, 4) && t.len() == p + 5 {
        Some(
            Reading {
                year: year_value(b, t[p + 4]) as i32,
                month: month_number(text(b, t[0]), false) as u32,
                day: val_at(b, t, p + 1) as u32,
                time: TimePart::DateOnly,
                zone: None,
            },
        )
    } else {
        None
    }
}

pub fn month_mdy_read(b: &[u8], t: &Vec<Token>) -> (r: Option<Reading>)
    requires
        tokens_wf(b@, t@),
    ensures
        r == month_mdy_shape(b@, t@),
        r matches Some(rd) ==> rd.ok(b@.len() as int),
{
    let p = after_month_exec(b, t);
    if is_letters_at(t, 0, 3, 9) && is_space_at(t, p) && is_num_at(t, p + 1, 1, 2) && is_sym_at(b, t, p + 2, 44)
        && is_space_at(t, p + 3) && is_num_at(t, p + 4, 2, 4) && t.len() == p + 5 {
        Some(
            Reading {
                year: year_at(b, t, p + 4, true),
                month: month_of(b, t[0], false),
                day: value_at(b, t, p + 1),
                time: TimePart::DateOnly,
                zone: None,
            },
        )
    } else {
        None
    }
}

/// `D Month YYYY`, as the two day-first shapes begin.
pub open spec fn day_month_year(t: Seq<Token>) -> bool {
    num_at(t, 0, 1, 2) && space_at(t, 1) && letters_at(t, 2, 3, 9) && space_at(t, 3) && num_at(t, 4, 2, 4)
}

fn day_month_year_exec(t: &Vec<Token>) -> (r: bool)
    ensures
        r == day_month_year(t@),
{
    is_num_at(t, 0, 1, 2) && is_space_at(t, 1) && is_letters_at(t, 2, 3, 9) && is_space_at(t, 3) && is_num_at(
        t,
        4,
        2,
        4,
    )
}

/// `D Month YYYY[,] H:MM[:SS][.F]`.
pub open spec fn month_dmy_hms_shape(b: Seq<u8>, t: Seq<Token>) -> Option<Reading> {
    let q = if sym_at(b, t, 5, 44) {
        6
    } else {
        5
    };
    if day_month_year(t) && space_at(t, q) {
        match read_clock(b, t, q + 1, 1, true) {
            Some((c, k)) => if k == t.len() {
                Some(
                    Reading {
                        year: val_at(b, t, 4) as i32,
                        month: month_number(text(b, t[2]), false) as u32,
                        day: val_at(b, t, 0) as u32,
                        time: timed(clock_time(c, 0)),
                        zone: None,
                    },
                )
            } else {
                None
            },
            None => None,
        }
    } else {
        None
    }
}

pub fn month_dmy_hms_read(b: &[u8], t: &Vec<Token>) -> (r: Option<Reading>)
    requires
        tokens_wf(b@, t@),
    ensures
        r == month_dmy_hms_shape(b@, t@),
        r matches Some(rd) ==> rd.ok(b@.len() as int),
{
    let q: usize = if is_sym_at(b, t, 5, 44) {
        6
    } else {
        5
    };
    if day_month_year_exec(t) && is_space_at(t, q) {
        match read_clock_exec(b, t, q + 1, 1, true) {
            Some((c, k)) => if k == t.len() {
                Some(
                    Reading {
                        year: year_at(b, t, 4, false),
                        month: month_of(b, t[2], false),
                        day: value_at(b, t, 0),
                        time: timed_exec(clock_time_exec(c, 0)),
                        zone: None,
                    },
                )
            } else {
                None
            },
            None => None,
        }
    } else {
        None
    }
}

/// `D Month YY` or `D Month YYYY`.
pub open spec fn month_dmy_shape(b: Seq<u8>, t: Seq<Token>) -> Option<Reading> {
    if day_month_year(t) && t.len() == 5 {
        Some(
            Reading {
                year: year_value(b, t[4]) as i32,
                month: month_number(text(b, t[2]), false) as u32,
                day: val_at(b, t, 0) as u32,
                time: TimePart::DateOnly,
                zone: None,
            },
        )
    } else {
        None
    }
}

pub fn month_dmy_read(b: &[u8], t: &Vec<Token>) -> (r: Option<Reading>)
    requires
        tokens_wf(b@, t@),
    ensures
        r == month_dmy_shape(b@, t@),
        r matches Some(rd) ==> rd.ok(b@.len() as int),
{
    if day_month_year_exec(t) && t.len() == 5 {
        Some(
            Reading {
                year: year_at(b, t, 4, true),
                month: month_of(b, t[2], false),
                day: value_at(b, t, 0),
                time: TimePart::DateOnly,
                zone: None,
            },
        )
    } else {
        None
    }
}

/// The date of a slash shape: year first (`YYYY/M/D`), or month first, or,
/// where `day_first`, day first (`M/D/YY`, `D/M/YYYY`).
pub open spec fn slash_fields(b: Seq<u8>, t: Seq<Token>, year_first: bool, day_first: bool) -> (int, int, int) {
    if year_first {
        (val_at(b, t, 0), val_at(b, t, 2), val_at(b, t, 4))
    } else if day_first {
        (year_value(b, t[4]), val_at(b, t, 2), val_at(b, t, 0))
    } else {
        (year_value(b, t[4]), val_at(b, t, 0), val_at(b, t, 2))
    }
}

fn slash_fields_exec(b: &[u8], t: &Vec<Token>, year_first: bool, day_first: bool) -> (r: (i32, u32, u32))
    requires
        tokens_wf(b@, t@),
        slash_date(b@, t@, year_first),
    ensures
        r.0 as int == slash_fields(b@, t@, year_first, day_first).0,
        r.1 as int == slash_fields(b@, t@, year_first, day_first).1,
        r.2 as int == slash_fields(b@, t@, year_first, day_first).2,
        0 <= r.0 <= 9999,
{
    if year_first {
        (year_at(b, t, 0, false), value_at(b, t, 2), value_at(b, t, 4))
    } else if day_first {
        (year_at(b, t, 4, true), value_at(b, t, 2), value_at(b, t, 0))
    } else {
        (year_at(b, t, 4, true), value_at(b, t, 0), value_at(b, t, 2))
    }
}

/// A slash date, whitespace, and `H:MM[:SS][.F] [am|pm]`.
pub open spec fn slash_hms_shape(b: Seq<u8>, t: Seq<Token>, year_first: bool, day_first: bool) -> Option<Reading> {
    if slash_date(b, t, year_first) && space_at(t, 5) {
        match read_clock(b, t, 6, 1, true) {
            Some((c, k)) => match meridiem_tail(b, t, k) {
                Some(m) => {
                    let (y, mo, d) = slash_fields(b, t, year_first, day_first);
                    Some(
                        Reading {
                            year: y as i32,
                            month: mo as u32,
                            day: d as u32,
                            time: timed(clock_time(c, m)),
                            zone: None,
                        },
                    )
                },
                None => None,
            },
            None => None,
        }
    } else {
        None
    }
}

pub fn slash_hms_read(b: &[u8], t: &Vec<Token>, year_first: bool, day_first: bool) -> (r: Option<Reading>)
    requires
        tokens_wf(b@, t@),
    ensures
        r == slash_hms_shape(b@, t@, year_first, day_first),
        r matches Some(rd) ==> rd.ok(b@.len() as int),
{
    if slash_date_exec(b, t, year_first) && is_space_at(t, 5) {
        match read_clock_exec(b, t, 6, 1, true) {
            Some((c, k)) => match meridiem_tail_exec(b, t, k) {
                Some(m) => {
                    let (y, mo, d) = slash_fields_exec(b, t, year_first, day_first);
                    Some(
                        Reading {
                            year: y,
                            month: mo,
                            day: d,
                            time: timed_exec(clock_time_exec(c, m)),
                            zone: None,
                        },
                    )
                },
                None => None,
            },
            None => None,
        }
    } else {
        None
    }
}

/// A slash date alone.
pub open spec fn slash_shape(b: Seq<u8>, t: Seq<Token>, year_first: bool, day_first: bool) -> Option<Reading> {
    if slash_date(b, t, year_first) && t.len() == 5 {
        let (y, mo, d) = slash_fields(b, t, year_first, day_first);
        Some(Reading { year: y as i32, month: mo as u32, day: d as u32, time: TimePart::DateOnly, zone: None })
    } else {
        None
    }
}

pub fn slash_read(b: &[u8], t: &Vec<Token>, year_first: bool, day_first: bool) -> (r: Option<Reading>)
    requires
        tokens_wf(b@, t@),
    ensures
        r == slash_shape(b@, t@, year_first, day_first),
        r matches Some(rd) ==> rd.ok(b@.len() as int),
{
    if slash_date_exec(b, t, year_first) && t.len() == 5 {
        let (y, mo, d) = slash_fields_exec(b, t, year_first, day_first);
        Some(Reading { year: y, month: mo, day: d, time: TimePart::DateOnly, zone: None })
    } else {
        None
    }
}

} // verus!
