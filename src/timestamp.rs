use vstd::arithmetic::div_mod::{lemma_fundamental_div_mod_converse_div, lemma_fundamental_div_mod_converse_mod};
use vstd::prelude::*;

use crate::calendar::{instant_of_nanos, DateTimeUtc};
use crate::lexer::{digits_value, fraction_nanos, is_digit, lemma_pow10_bound, pow10};

verus! {

/// The end of the run of digits that starts at `i`.
pub open spec fn digits_end(b: Seq<u8>, i: int) -> int
    decreases b.len() - i,
{
    if 0 <= i < b.len() && is_digit(b[i]) {
        digits_end(b, i + 1)
    } else {
        i
    }
}

/// Where the digits of a timestamp begin: after a sign, if there is one.
pub open spec fn sign_len(b: Seq<u8>) -> int {
    if b.len() > 0 && (b[0] == 43 || b[0] == 45) {
        1
    } else {
        0
    }
}

/// The nanoseconds that fraction digits `f` give: the first nine of them count.
pub open spec fn frac_nanos(f: Seq<u8>) -> int {
    let g = if f.len() > 9 {
        f.take(9)
    } else {
        f
    };
    digits_value(g) * pow10((9 - g.len()) as nat)
}

/// The nanoseconds since the epoch that `[+-]digits[.digits]` spells (with at
/// least one digit, on either side of the point), or `None` for any other text.
pub open spec fn timestamp_nanos(b: Seq<u8>) -> Option<int> {
    let s = sign_len(b);
    let e = digits_end(b, s);
    let neg = s == 1 && b[0] == 45;
    let whole = digits_value(b.subrange(s, e)) * 1_000_000_000;
    if e == b.len() && e > s {
        Some(
            if neg {
                -whole
            } else {
                whole
            },
        )
    } else if e < b.len() && b[e] == 46 && digits_end(b, e + 1) == b.len() && b.len() - s >= 2 {
        let n = whole + frac_nanos(b.subrange(e + 1, b.len() as int));
        Some(
            if neg {
                -n
            } else {
                n
            },
        )
    } else {
        None
    }
}

/// `n` held to the range of `i64`.
pub open spec fn clamp_i64(n: int) -> int {
    if n > i64::MAX {
        i64::MAX as int
    } else if n < i64::MIN {
        i64::MIN as int
    } else {
        n
    }
}

/// The instant that a Unix timestamp in seconds gives, its nanoseconds held to
/// the range of `i64`.
pub open spec fn timestamp_instant(b: Seq<u8>) -> Option<(int, int)> {
    match timestamp_nanos(b) {
        Some(n) => Some(instant_of_nanos(clamp_i64(n))),
        None => None,
    }
}

/// A timestamp holds digits, a sign and a point only.
pub proof fn lemma_timestamp_bytes(b: Seq<u8>)
    ensures
        timestamp_nanos(b) is Some ==> forall|i: int|
            0 <= i < b.len() ==> is_digit(#[trigger] b[i]) || b[i] == 43 || b[i] == 45 || b[i] == 46,
{
    let s = sign_len(b);
    lemma_digits_end(b, s);
    let e = digits_end(b, s);
    if timestamp_nanos(b) is Some && e < b.len() {
        lemma_digits_end(b, e + 1);
    }
}

pub proof fn lemma_digits_end(b: Seq<u8>, i: int)
    requires
        0 <= i <= b.len(),
    ensures
        i <= digits_end(b, i) <= b.len(),
        forall|j: int| i <= j < digits_end(b, i) ==> is_digit(#[trigger] b[j]),
        digits_end(b, i) < b.len() ==> !is_digit(b[digits_end(b, i)]),
    decreases b.len() - i,
{
    if i < b.len() && is_digit(b[i]) {
        lemma_digits_end(b, i + 1);
    }
}

/// Above this many whole seconds every timestamp is out of the range of `i64` nanoseconds.
const WHOLE_CAP: u64 = 100_000_000_000;

fn is_digit_byte(c: u8) -> (r: bool)
    ensures
        r == is_digit(c),
{
    48 <= c && c <= 57
}

/// Reads the digits `b[lo..hi]`, giving their value, or `WHOLE_CAP` where it is larger.
fn capped_value(b: &[u8], lo: usize, hi: usize) -> (r: u64)
    requires
        lo <= hi <= b@.len(),
        forall|j: int| lo <= j < hi ==> is_digit(#[trigger] b@[j]),
    ensures
        r == if digits_value(b@.subrange(lo as int, hi as int)) < WHOLE_CAP {
            digits_value(b@.subrange(lo as int, hi as int))
        } else {
            WHOLE_CAP as int
        },
{
    let mut acc: u64 = 0;
    let mut i = lo;
    while i < hi
        invariant
            lo <= i <= hi <= b@.len(),
            forall|j: int| lo <= j < hi ==> is_digit(#[trigger] b@[j]),
            acc == if digits_value(b@.subrange(lo as int, i as int)) < WHOLE_CAP {
                digits_value(b@.subrange(lo as int, i as int))
            } else {
                WHOLE_CAP as int
            },
            digits_value(b@.subrange(lo as int, i as int)) >= 0,
        decreases hi - i,
    {
        assert(b@.subrange(lo as int, i + 1).drop_last() =~= b@.subrange(lo as int, i as int));
        assert(is_digit(b@[i as int]));
        let d = (b[i] - 48) as u64;
        let ghost v = digits_value(b@.subrange(lo as int, i as int));
        let next = acc * 10 + d;
        acc = if next < WHOLE_CAP {
            next
        } else {
            WHOLE_CAP
        };
        assert(v * 10 + d >= 0 && (v >= WHOLE_CAP ==> v * 10 + d >= WHOLE_CAP)) by (nonlinear_arith)
            requires
                v >= 0,
                d >= 0,
        ;
        i = i + 1;
    }
    acc
}

/// The nanoseconds that the fraction digits `b[lo..hi]` give.
fn frac_value(b: &[u8], lo: usize, hi: usize) -> (r: u64)
    requires
        lo <= hi <= b@.len(),
        forall|j: int| lo <= j < hi ==> is_digit(#[trigger] b@[j]),
    ensures
        r == frac_nanos(b@.subrange(lo as int, hi as int)),
        r < 1_000_000_000,
{
    let ghost f = b@.subrange(lo as int, hi as int);
    let end = if hi - lo > 9 {
        lo + 9
    } else {
        hi
    };
    let ghost g = if f.len() > 9 {
        f.take(9)
    } else {
        f
    };
    assert(g =~= b@.subrange(lo as int, end as int));
    let mut acc: u64 = 0;
    let mut i = lo;
    while i < end
        invariant
            lo <= i <= end <= hi <= b@.len(),
            end - lo <= 9,
            forall|j: int| lo <= j < hi ==> is_digit(#[trigger] b@[j]),
            acc == digits_value(b@.subrange(lo as int, i as int)),
            acc < pow10((i - lo) as nat),
            pow10((i - lo) as nat) <= 1_000_000_000,
        decreases end - i,
    {
        assert(b@.subrange(lo as int, i + 1).drop_last() =~= b@.subrange(lo as int, i as int));
        assert(is_digit(b@[i as int]));
        let d = (b[i] - 48) as u64;
        let ghost p = pow10((i - lo) as nat);
        assert(acc * 10 + d < p * 10) by (nonlinear_arith)
            requires
                acc < p,
                d <= 9,
        ;
        proof {
            lemma_pow10_bound((i + 1 - lo) as nat);
        }
        acc = acc * 10 + d;
        i = i + 1;
    }
    fraction_nanos(acc, (end - lo) as u64)
}

/// The instant `n` nanoseconds after the epoch, `n` within the range of `i64`.
fn split_nanos(n: i128) -> (r: DateTimeUtc)
    requires
        i64::MIN <= n <= i64::MAX,
    ensures
        r.wf(),
        r@ == instant_of_nanos(n as int),
{
    if n >= 0 {
        let q = n / 1_000_000_000;
        let rem = n % 1_000_000_000;
        DateTimeUtc { secs: q as i64, nanos: rem as u32 }
    } else {
        let m = -n;
        let q = m / 1_000_000_000;
        let rem = m % 1_000_000_000;
        if rem == 0 {
            proof {
                lemma_fundamental_div_mod_converse_div(n as int, 1_000_000_000, -q, 0);
                lemma_fundamental_div_mod_converse_mod(n as int, 1_000_000_000, -q, 0);
            }
            DateTimeUtc { secs: (-q) as i64, nanos: 0 }
        } else {
            proof {
                lemma_fundamental_div_mod_converse_div(n as int, 1_000_000_000, -q - 1, 1_000_000_000 - rem);
                lemma_fundamental_div_mod_converse_mod(n as int, 1_000_000_000, -q - 1, 1_000_000_000 - rem);
            }
            DateTimeUtc { secs: (-q - 1) as i64, nanos: (1_000_000_000 - rem) as u32 }
        }
    }
}

/// Reads `b` as a Unix timestamp in seconds: an optional sign, digits, and an
/// optional point with more digits. Fraction digits past the ninth are dropped,
/// and an instant beyond the range of `i64` nanoseconds is held to it.
pub fn read_timestamp(b: &[u8]) -> (r: Option<DateTimeUtc>)
    ensures
        r matches Some(i) ==> i.wf() && timestamp_instant(b@) == Some(i@),
        r is None <==> timestamp_instant(b@) is None,
{
    let n = b.len();
    let s: usize = if n > 0 && (b[0] == 43 || b[0] == 45) {
        1
    } else {
        0
    };
    let neg = s == 1 && b[0] == 45;
    let mut e = s;
    proof {
        lemma_digits_end(b@, s as int);
    }
    while e < n && is_digit_byte(b[e])
        invariant
            s <= e <= n,
            n == b@.len(),
            digits_end(b@, s as int) == digits_end(b@, e as int),
        decreases n - e,
    {
        e = e + 1;
    }
    assert(e == digits_end(b@, s as int));
    let frac: u64 = if e == n && e > s {
        0
    } else if e < n && b[e] == 46 {
        let mut f = e + 1;
        proof {
            lemma_digits_end(b@, e + 1);
        }
        while f < n && is_digit_byte(b[f])
            invariant
                e + 1 <= f <= n,
                n == b@.len(),
                digits_end(b@, e + 1) == digits_end(b@, f as int),
            decreases n - f,
        {
            f = f + 1;
        }
        if f == n && n - s >= 2 {
            frac_value(b, e + 1, n)
        } else {
            return None;
        }
    } else {
        return None;
    };
    let whole = capped_value(b, s, e);
    let ghost exact = timestamp_nanos(b@).unwrap();
    let mag: i128 = (whole as i128) * 1_000_000_000 + frac as i128;
    let total: i128 = if neg {
        -mag
    } else {
        mag
    };
    let clamped: i128 = if total > i64::MAX as i128 {
        i64::MAX as i128
    } else if total < i64::MIN as i128 {
        i64::MIN as i128
    } else {
        total
    };
    proof {
        if e < n {
            assert(frac == frac_nanos(b@.subrange(e + 1, b@.len() as int)));
        }
        let v = digits_value(b@.subrange(s as int, e as int));
        assert(v >= 0) by {
            lemma_digits_value_nonneg(b@.subrange(s as int, e as int));
        }
        if v >= WHOLE_CAP {
            assert(v * 1_000_000_000 >= WHOLE_CAP * 1_000_000_000) by (nonlinear_arith)
                requires
                    v >= WHOLE_CAP,
            ;
        }
        assert(clamped == clamp_i64(exact));
    }
    Some(split_nanos(clamped))
}

proof fn lemma_digits_value_nonneg(s: Seq<u8>)
    requires
        forall|j: int| 0 <= j < s.len() ==> is_digit(#[trigger] s[j]),
    ensures
        digits_value(s) >= 0,
    decreases s.len(),
{
    if s.len() > 0 {
        lemma_digits_value_nonneg(s.drop_last());
        assert(is_digit(s[s.len() - 1]));
    }
}

} // verus!
