//! What holds of the parser as a whole, stated over the same spec functions
//! as the contracts of the functions it speaks of, and proved.
use vstd::prelude::*;
use vstd::utf8::encode_utf8;

use crate::calendar::{valid_date, wall_instant};
use crate::datetime::{
    attempt, family_of, finish, first_match, leap_folded, members, parse_spec, rfc2822_reading,
    rfc3339_reading, Family, Matcher, Parse,
};
use crate::lexer::{
    digits_value, is_digit, lemma_digits_value_bounds, lemma_pow10_bound, lemma_pow10_split, lemma_tokens_wf,
    pow10, tokens, tokens_wf,
};
use crate::shapes::{clock_time, num_at, slash_date, val_at, Clock, Reading, TimePart};
use crate::timestamp::{frac_nanos, lemma_digits_end, lemma_timestamp_bytes, timestamp_instant};
use crate::timezone::{trimmed, zone_offset};
use crate::Failure;

verus! {

// ---------------------------------------------------------------------------
// Time zone tokens
// ---------------------------------------------------------------------------

/// Each abbreviation of the table stands for its fixed offset, and `UTC` and
/// `GMT`, in any case, for zero: `PST` -8:00, `PDT` -7:00, `EST` -5:00, `EDT`
/// -4:00, `CST` -6:00, `CDT` -5:00, `MST` -7:00, `MDT` -6:00.
pub proof fn law_zone_names()
    ensures
        zone_offset(trimmed(seq![80u8, 83, 84])) == Some(-8 * 3600),
        zone_offset(trimmed(seq![80u8, 68, 84])) == Some(-7 * 3600),
        zone_offset(trimmed(seq![69u8, 83, 84])) == Some(-5 * 3600),
        zone_offset(trimmed(seq![69u8, 68, 84])) == Some(-4 * 3600),
        zone_offset(trimmed(seq![67u8, 83, 84])) == Some(-6 * 3600),
        zone_offset(trimmed(seq![67u8, 68, 84])) == Some(-5 * 3600),
        zone_offset(trimmed(seq![77u8, 83, 84])) == Some(-7 * 3600),
        zone_offset(trimmed(seq![77u8, 68, 84])) == Some(-6 * 3600),
        zone_offset(trimmed(seq![85u8, 84, 67])) == Some(0int),
        zone_offset(trimmed(seq![103u8, 109, 116])) == Some(0int),
{
    reveal_with_fuel(trimmed, 2);
    assert(seq![80u8, 83, 84].len() == 3);
    assert(seq![80u8, 68, 84].len() == 3);
    assert(seq![69u8, 83, 84].len() == 3);
    assert(seq![69u8, 68, 84].len() == 3);
    assert(seq![67u8, 83, 84].len() == 3);
    assert(seq![67u8, 68, 84].len() == 3);
    assert(seq![77u8, 83, 84].len() == 3);
    assert(seq![77u8, 68, 84].len() == 3);
    assert(seq![85u8, 84, 67].len() == 3);
    assert(seq![103u8, 109, 116].len() == 3);
}

/// A signed numeric token, `±HHMM` or `±HH:MM`, with hours below 24 and
/// minutes below 60, stands for that many hours and minutes east (`+`) or
/// west (`-`) of UTC: `+0800` is +8:00:00 and `-08:00` is -8:00:00.
pub proof fn law_numeric_offset(t: Seq<u8>)
    requires
        t.len() == 5 || t.len() == 6,
        t[0] == 43 || t[0] == 45,
        is_digit(t[1]) && is_digit(t[2]),
        is_digit(t[t.len() - 2]) && is_digit(t[t.len() - 1]),
        t.len() == 6 ==> t[3] == 58,
        (t[1] - 48) * 10 + (t[2] - 48) < 24,
        (t[t.len() - 2] - 48) * 10 + (t[t.len() - 1] - 48) < 60,
    ensures
        zone_offset(trimmed(t)) == Some(
            (if t[0] == 45 {
                -1int
            } else {
                1int
            }) * (((t[1] - 48) * 10 + (t[2] - 48)) * 3600 + ((t[t.len() - 2] - 48) * 10 + (t[t.len()
                - 1] - 48)) * 60),
        ),
{
    assert(trimmed(t) == t);
    assert(crate::timezone::sign_len(t) == 1);
    assert(crate::timezone::numeric_shape(t));
    assert(crate::timezone::numeric_hours(t) == (t[1] - 48) * 10 + (t[2] - 48));
    assert(crate::timezone::numeric_minutes(t) == (t[t.len() - 2] - 48) * 10 + (t[t.len() - 1] - 48));
}

// ---------------------------------------------------------------------------
// Unix timestamps
// ---------------------------------------------------------------------------

/// `"0"` is the epoch.
pub proof fn law_zero_is_epoch()
    ensures
        timestamp_instant(seq![48u8]) == Some((0int, 0int)),
{
    let b = seq![48u8];
    assert(b.subrange(0, 1) =~= b);
    reveal_with_fuel(crate::timestamp::digits_end, 3);
    reveal_with_fuel(digits_value, 2);
    assert(b.drop_last() =~= Seq::<u8>::empty());
}

/// A negative whole number of seconds, not zero, is an instant before the epoch.
pub proof fn law_negative_before_epoch(b: Seq<u8>)
    requires
        b.len() >= 2,
        b[0] == 45,
        forall|i: int| 1 <= i < b.len() ==> is_digit(#[trigger] b[i]),
        digits_value(b.subrange(1, b.len() as int)) >= 1,
    ensures
        timestamp_instant(b) matches Some(i) && i.0 < 0,
{
    lemma_digits_end(b, 1);
    assert(crate::timestamp::digits_end(b, 1) == b.len());
}

/// Seconds with a fraction split into the whole seconds and the nanoseconds
/// of the first nine fraction digits, whatever their count, as long as the
/// instant is within the range of `i64` nanoseconds.
pub proof fn law_fraction_split(b: Seq<u8>, e: int)
    requires
        1 <= e < b.len(),
        b[e] == 46,
        forall|i: int| 0 <= i < b.len() && i != e ==> is_digit(#[trigger] b[i]),
        digits_value(b.subrange(0, e)) < 9_000_000_000,
    ensures
        timestamp_instant(b) == Some(
            (digits_value(b.subrange(0, e)), frac_nanos(b.subrange(e + 1, b.len() as int))),
        ),
{
    lemma_digits_end(b, 0);
    assert(crate::timestamp::digits_end(b, 0) == e) by {
        let d = crate::timestamp::digits_end(b, 0);
        if d < e {
            assert(is_digit(b[d]));
        }
    }
    lemma_digits_end(b, e + 1);
    let w = b.subrange(0, e);
    let f = b.subrange(e + 1, b.len() as int);
    assert forall|i: int| 0 <= i < w.len() implies is_digit(#[trigger] w[i]) by {
        assert(w[i] == b[i]);
    }
    lemma_digits_value_bounds(w);
    let g = if f.len() > 9 {
        f.take(9)
    } else {
        f
    };
    assert forall|i: int| 0 <= i < g.len() implies is_digit(#[trigger] g[i]) by {
        assert(g[i] == b[e + 1 + i]);
    }
    lemma_digits_value_bounds(g);
    lemma_pow10_bound(g.len() as nat);
    lemma_pow10_bound((9 - g.len()) as nat);
    lemma_pow10_split(g.len() as nat, (9 - g.len()) as nat);
    let v = digits_value(g);
    assert(0 <= v * pow10((9 - g.len()) as nat) < 1_000_000_000) by (nonlinear_arith)
        requires
            0 <= v < pow10(g.len() as nat),
            pow10(g.len() as nat) * pow10((9 - g.len()) as nat) == pow10(9),
            pow10(9) == 1_000_000_000,
            pow10((9 - g.len()) as nat) >= 1,
    ;
    let n = digits_value(w) * 1_000_000_000 + frac_nanos(f);
    vstd::arithmetic::div_mod::lemma_fundamental_div_mod_converse_div(
        n,
        1_000_000_000,
        digits_value(w),
        frac_nanos(f),
    );
    vstd::arithmetic::div_mod::lemma_fundamental_div_mod_converse_mod(
        n,
        1_000_000_000,
        digits_value(w),
        frac_nanos(f),
    );
}

/// `"1671673426.123456789"` is 1,671,673,426 seconds and 123,456,789
/// nanoseconds after the epoch, to the nanosecond.
pub proof fn law_timestamp_to_the_nanosecond()
    ensures
        timestamp_instant(seq![49u8, 54, 55, 49, 54, 55, 51, 52, 50, 54, 46, 49, 50, 51, 52, 53, 54, 55, 56, 57])
            == Some((1671673426int, 123456789int)),
{
    let b = seq![49u8, 54, 55, 49, 54, 55, 51, 52, 50, 54, 46, 49, 50, 51, 52, 53, 54, 55, 56, 57];
    let w = b.subrange(0, 10);
    let f = b.subrange(11, 20);
    assert(w =~= seq![49u8, 54, 55, 49, 54, 55, 51, 52, 50, 54]);
    assert(f =~= seq![49u8, 50, 51, 52, 53, 54, 55, 56, 57]);
    reveal_with_fuel(digits_value, 11);
    assert(digits_value(seq![49u8, 54, 55, 49, 54, 55, 51, 52, 50, 54]) == 1671673426) by {
        reveal_with_fuel(digits_value, 11);
        assert(seq![49u8, 54, 55, 49, 54, 55, 51, 52, 50, 54].drop_last() =~= seq![49u8, 54, 55, 49, 54, 55, 51, 52, 50]);
        assert(seq![49u8, 54, 55, 49, 54, 55, 51, 52, 50].drop_last() =~= seq![49u8, 54, 55, 49, 54, 55, 51, 52]);
        assert(seq![49u8, 54, 55, 49, 54, 55, 51, 52].drop_last() =~= seq![49u8, 54, 55, 49, 54, 55, 51]);
        assert(seq![49u8, 54, 55, 49, 54, 55, 51].drop_last() =~= seq![49u8, 54, 55, 49, 54, 55]);
        assert(seq![49u8, 54, 55, 49, 54, 55].drop_last() =~= seq![49u8, 54, 55, 49, 54]);
        assert(seq![49u8, 54, 55, 49, 54].drop_last() =~= seq![49u8, 54, 55, 49]);
        assert(seq![49u8, 54, 55, 49].drop_last() =~= seq![49u8, 54, 55]);
        assert(seq![49u8, 54, 55].drop_last() =~= seq![49u8, 54]);
        assert(seq![49u8, 54].drop_last() =~= seq![49u8]);
        assert(seq![49u8].drop_last() =~= Seq::<u8>::empty());
    }
    assert(digits_value(seq![49u8, 50, 51, 52, 53, 54, 55, 56, 57]) == 123456789) by {
        reveal_with_fuel(digits_value, 10);
        assert(seq![49u8, 50, 51, 52, 53, 54, 55, 56, 57].drop_last() =~= seq![49u8, 50, 51, 52, 53, 54, 55, 56]);
        assert(seq![49u8, 50, 51, 52, 53, 54, 55, 56].drop_last() =~= seq![49u8, 50, 51, 52, 53, 54, 55]);
        assert(seq![49u8, 50, 51, 52, 53, 54, 55].drop_last() =~= seq![49u8, 50, 51, 52, 53, 54]);
        assert(seq![49u8, 50, 51, 52, 53, 54].drop_last() =~= seq![49u8, 50, 51, 52, 53]);
        assert(seq![49u8, 50, 51, 52, 53].drop_last() =~= seq![49u8, 50, 51, 52]);
        assert(seq![49u8, 50, 51, 52].drop_last() =~= seq![49u8, 50, 51]);
        assert(seq![49u8, 50, 51].drop_last() =~= seq![49u8, 50]);
        assert(seq![49u8, 50].drop_last() =~= seq![49u8]);
        assert(seq![49u8].drop_last() =~= Seq::<u8>::empty());
    }
    assert forall|i: int| 0 <= i < b.len() && i != 10 implies is_digit(#[trigger] b[i]) by {}
    law_fraction_split(b, 10);
    lemma_pow10_bound(0);
    assert(frac_nanos(f) == 123456789);
}

/// An input that is no timestamp, that chrono reads as neither RFC 3339 nor
/// RFC 2822, and whose start selects no family, fails with `NoFormatMatched`
/// naming it, whatever the parser's offset, default time and order.
pub proof fn law_no_family_no_format(s: Seq<char>, p: Parse)
    requires
        timestamp_instant(encode_utf8(s)) is None,
        leap_folded(rfc3339_reading(s)) is None,
        leap_folded(rfc2822_reading(s)) is None,
        family_of(encode_utf8(s), tokens(encode_utf8(s))) is None,
    ensures
        parse_spec(s, p) == Err::<(int, int), Failure>(Failure::NoFormatMatched(s)),
{
}

/// A zone token that names an offset decides how the wall-clock time is read,
/// whatever offset the parser assumes: the instant is the wall-clock time less
/// that offset (so `+0800` and `+08:00` give the same instant).
pub proof fn law_zone_token_sets_offset(b: Seq<u8>, rd: Reading, p: Parse, input: Seq<char>, o: int)
    requires
        rd.zone matches Some(z) && zone_offset(b.subrange(z.0 as int, z.1 as int)) == Some(o),
        rd.time matches TimePart::At(_),
        valid_date(rd.year as int, rd.month as int, rd.day as int),
    ensures
        ({
            let t = match rd.time {
                TimePart::At(x) => x,
                _ => p.default_time,
            };
            finish(b, rd, p, input) == Some(
                Ok::<(int, int), Failure>(wall_instant(rd.year as int, rd.month as int, rd.day as int, t, o)),
            )
        }),
{
}

// ---------------------------------------------------------------------------
// Fractions of a second
// ---------------------------------------------------------------------------

/// Fraction digits are tenths, hundredths and so on of a second: `n` digits of
/// value `v` are `v * 10^(9 - n)` nanoseconds, so `.3186369` is 318,636,900.
pub proof fn law_fraction_digits(c: Clock)
    requires
        c.hour < 24,
        c.minute < 60,
        c.second matches Some(s) && s < 60,
        c.frac matches Some(f) && 1 <= f.digits <= 9 && f.value < pow10(f.digits as nat),
    ensures
        clock_time(c, 0) matches Some(t) && t.nano == c.frac.unwrap().value * pow10(
            (9 - c.frac.unwrap().digits) as nat,
        ),
{
    let f = c.frac.unwrap();
    lemma_pow10_bound(f.digits as nat);
    lemma_pow10_bound((9 - f.digits) as nat);
    lemma_pow10_split(f.digits as nat, (9 - f.digits) as nat);
    assert(f.value * pow10((9 - f.digits) as nat) < 1_000_000_000) by (nonlinear_arith)
        requires
            f.value < pow10(f.digits as nat),
            pow10(f.digits as nat) * pow10((9 - f.digits) as nat) == 1_000_000_000,
    ;
    assert(f.value * pow10((9 - f.digits) as nat) >= 0) by (nonlinear_arith)
        requires
            f.value >= 0,
            pow10((9 - f.digits) as nat) >= 1,
    ;
}

// ---------------------------------------------------------------------------
// The whole parse
// ---------------------------------------------------------------------------

proof fn lemma_first_match_none(ms: Seq<Matcher>, i: int, s: Seq<char>, p: Parse)
    requires
        0 <= i,
        forall|j: int| i <= j < ms.len() ==> attempt(#[trigger] ms[j], s, p) is None,
    ensures
        first_match(ms, i, s, p) is None,
    decreases ms.len() - i,
{
    if i < ms.len() {
        lemma_first_match_none(ms, i + 1, s, p);
    }
}

/// An input that is no timestamp, that chrono reads as neither RFC 3339 nor
/// RFC 2822, and that no matcher reads, fails with `NoFormatMatched` naming it.
pub proof fn law_no_shape_no_format(s: Seq<char>, p: Parse)
    requires
        timestamp_instant(encode_utf8(s)) is None,
        leap_folded(rfc3339_reading(s)) is None,
        leap_folded(rfc2822_reading(s)) is None,
        forall|m: Matcher| attempt(m, s, p) is None,
    ensures
        parse_spec(s, p) == Err::<(int, int), Failure>(Failure::NoFormatMatched(s)),
{
    let b = encode_utf8(s);
    match family_of(b, tokens(b)) {
        Some(f) => {
            lemma_first_match_none(members(f, p.prefer_dmy), 0, s, p);
        },
        None => {},
    }
}

proof fn lemma_first_match_errors(ms: Seq<Matcher>, i: int, s: Seq<char>, p: Parse)
    requires
        0 <= i,
    ensures
        first_match(ms, i, s, p) matches Some(Err(e)) ==> e == Failure::UnrecognizedTimezone(s),
    decreases ms.len() - i,
{
    if i < ms.len() {
        lemma_first_match_errors(ms, i + 1, s, p);
    }
}

/// A parse either gives an instant or fails naming the whole input: with
/// `UnrecognizedTimezone` where a zone token named no offset, with
/// `NoFormatMatched` otherwise.
pub proof fn law_errors_name_the_input(s: Seq<char>, p: Parse)
    ensures
        parse_spec(s, p) matches Err(e) ==> e == Failure::NoFormatMatched(s) || e
            == Failure::UnrecognizedTimezone(s),
{
    let b = encode_utf8(s);
    match family_of(b, tokens(b)) {
        Some(f) => {
            lemma_first_match_errors(members(f, p.prefer_dmy), 0, s, p);
        },
        None => {},
    }
}

/// The instant of a date alone, at the parser's offset and default time.
pub open spec fn date_instant(y: int, m: int, d: int, p: Parse) -> (int, int) {
    wall_instant(y, m, d, p.default_time, p.offset.secs as int)
}

/// An input `A/B/YYYY` (which chrono's RFC readers do not read): where `A`
/// and `B` are both from 1 to 12, reading month first and reading day first
/// both succeed, the one with month `A`, the other with month `B`. Where `A`
/// is above 12 and the date is day `A` of month `B`, both orders give that
/// date: the month-first order falls back to reading day first. Where both
/// are above 12, both fail with `NoFormatMatched`.
pub proof fn law_day_month_order(s: Seq<char>, p: Parse)
    requires
        p.wf(),
        encode_utf8(s).len() <= usize::MAX,
        slash_date(encode_utf8(s), tokens(encode_utf8(s)), false),
        tokens(encode_utf8(s)).len() == 5,
        num_at(tokens(encode_utf8(s)), 4, 4, 4),
        leap_folded(rfc3339_reading(s)) is None,
        leap_folded(rfc2822_reading(s)) is None,
    ensures
        ({
            let b = encode_utf8(s);
            let t = tokens(b);
            let a = val_at(b, t, 0);
            let c = val_at(b, t, 2);
            let y = val_at(b, t, 4);
            let mdy = Parse { prefer_dmy: false, ..p };
            let dmy = Parse { prefer_dmy: true, ..p };
            &&& (1 <= a <= 12 && 1 <= c <= 12) ==> parse_spec(s, mdy) == Ok::<(int, int), Failure>(
                date_instant(y, a, c, p),
            ) && parse_spec(s, dmy) == Ok::<(int, int), Failure>(date_instant(y, c, a, p))
            &&& (a > 12 && valid_date(y, c, a)) ==> parse_spec(s, mdy) == Ok::<(int, int), Failure>(
                date_instant(y, c, a, p),
            ) && parse_spec(s, dmy) == parse_spec(s, mdy)
            &&& (a > 12 && c > 12) ==> parse_spec(s, mdy) == Err::<(int, int), Failure>(
                Failure::NoFormatMatched(s),
            ) && parse_spec(s, dmy) == parse_spec(s, mdy)
        }),
{
    let b = encode_utf8(s);
    let t = tokens(b);
    lemma_tokens_wf(b);
    assert(tokens_wf(b, t));
    // A slash is no byte of a timestamp.
    lemma_timestamp_bytes(b);
    assert(b[t[1].start as int] == 47);
    assert(timestamp_instant(b) is None);
    // The values are those of short runs of digits.
    assert forall|k: int| 0 <= k < 5 && #[trigger] num_at(t, k, 1, 4) implies 0 <= val_at(b, t, k) < 10000 by {
        let w = b.subrange(t[k].start as int, t[k].end as int);
        assert forall|i: int| 0 <= i < w.len() implies is_digit(#[trigger] w[i]) by {
            assert(w[i] == b[t[k].start + i]);
        }
        lemma_digits_value_bounds(w);
        reveal_with_fuel(pow10, 5);
    }
    assert(num_at(t, 0, 1, 4) && num_at(t, 2, 1, 4) && num_at(t, 4, 1, 4));
    assert(family_of(b, t) == Some(Family::SlashMonthDay));
    reveal_with_fuel(first_match, 5);
}

} // verus!
