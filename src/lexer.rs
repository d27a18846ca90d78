use vstd::prelude::*;

verus! {

/// The classes into which the shape grammar splits an input.
#[derive(Clone, Copy, PartialEq, Eq, Structural, Debug)]
pub enum Kind {
    Digits,
    Letters,
    Space,
    Symbol,
}

/// A run of input bytes `start..end` of one class: a maximal run of ASCII
/// digits, ASCII letters or ASCII whitespace, or one other byte.
#[derive(Clone, Copy, PartialEq, Eq, Structural, Debug)]
pub struct Token {
    pub kind: Kind,
    pub start: usize,
    pub end: usize,
}

pub open spec fn is_digit(c: u8) -> bool {
    48 <= c <= 57
}

pub open spec fn is_letter(c: u8) -> bool {
    (65 <= c <= 90) || (97 <= c <= 122)
}

/// Tab, line feed, vertical tab, form feed, carriage return and space.
pub open spec fn is_space(c: u8) -> bool {
    (9 <= c <= 13) || c == 32
}

pub open spec fn kind_of(c: u8) -> Kind {
    if is_digit(c) {
        Kind::Digits
    } else if is_letter(c) {
        Kind::Letters
    } else if is_space(c) {
        Kind::Space
    } else {
        Kind::Symbol
    }
}

/// Whether byte `c` continues a token whose previous byte is `a`.
pub open spec fn joins(a: u8, c: u8) -> bool {
    kind_of(a) == kind_of(c) && kind_of(c) != Kind::Symbol
}

/// The tokens of the first `n` bytes of `b`, in order.
pub open spec fn tokens_upto(b: Seq<u8>, n: int) -> Seq<Token>
    decreases n,
{
    if n <= 0 {
        seq![]
    } else {
        let prev = tokens_upto(b, n - 1);
        if n >= 2 && joins(b[n - 2], b[n - 1]) {
            prev.update(
                prev.len() - 1,
                Token { kind: prev.last().kind, start: prev.last().start, end: n as usize },
            )
        } else {
            prev.push(Token { kind: kind_of(b[n - 1]), start: (n - 1) as usize, end: n as usize })
        }
    }
}

pub open spec fn tokens(b: Seq<u8>) -> Seq<Token> {
    tokens_upto(b, b.len() as int)
}

/// Every token lies inside the input, is not empty, and holds bytes of its class only.
pub open spec fn tokens_wf(b: Seq<u8>, t: Seq<Token>) -> bool {
    forall|k: int|
        0 <= k < t.len() ==> {
            &&& #[trigger] t[k].start < t[k].end <= b.len()
            &&& forall|i: int| t[k].start <= i < t[k].end ==> kind_of(#[trigger] b[i]) == t[k].kind
        }
}

proof fn lemma_tokens_upto_wf(b: Seq<u8>, n: int)
    requires
        0 <= n <= b.len() <= usize::MAX,
    ensures
        tokens_wf(b, tokens_upto(b, n)),
        n > 0 ==> tokens_upto(b, n).len() > 0 && tokens_upto(b, n).last().end == n,
        n > 0 ==> tokens_upto(b, n).last().kind == kind_of(b[n - 1]),
    decreases n,
{
    if n > 0 {
        lemma_tokens_upto_wf(b, n - 1);
        let prev = tokens_upto(b, n - 1);
        let t = tokens_upto(b, n);
        if n >= 2 && joins(b[n - 2], b[n - 1]) {
            assert forall|k: int| 0 <= k < t.len() implies {
                &&& #[trigger] t[k].start < t[k].end <= b.len()
                &&& forall|i: int| t[k].start <= i < t[k].end ==> kind_of(#[trigger] b[i]) == t[k].kind
            } by {
                if k < t.len() - 1 {
                    assert(t[k] == prev[k]);
                } else {
                    assert(t[k].kind == prev.last().kind && t[k].start == prev.last().start);
                    assert(t[k].end == n);
                    assert forall|i: int| t[k].start <= i < t[k].end implies kind_of(#[trigger] b[i]) == t[k].kind by {
                        if i < n - 1 {
                            assert(prev[prev.len() - 1].start <= i < prev[prev.len() - 1].end);
                        }
                    }
                }
            }
        } else {
            assert forall|k: int| 0 <= k < t.len() implies {
                &&& #[trigger] t[k].start < t[k].end <= b.len()
                &&& forall|i: int| t[k].start <= i < t[k].end ==> kind_of(#[trigger] b[i]) == t[k].kind
            } by {
                if k < t.len() - 1 {
                    assert(t[k] == prev[k]);
                }
            }
        }
    }
}

pub proof fn lemma_tokens_wf(b: Seq<u8>)
    requires
        b.len() <= usize::MAX,
    ensures
        tokens_wf(b, tokens(b)),
{
    lemma_tokens_upto_wf(b, b.len() as int);
}

fn class_of(c: u8) -> (r: Kind)
    ensures
        r == kind_of(c),
{
    if 48 <= c && c <= 57 {
        Kind::Digits
    } else if (65 <= c && c <= 90) || (97 <= c && c <= 122) {
        Kind::Letters
    } else if (9 <= c && c <= 13) || c == 32 {
        Kind::Space
    } else {
        Kind::Symbol
    }
}

/// Splits `b` into its tokens.
pub fn tokenize(b: &[u8]) -> (r: Vec<Token>)
    ensures
        r@ == tokens(b@),
        tokens_wf(b@, r@),
{
    let mut toks: Vec<Token> = Vec::new();
    let mut i: usize = 0;
    while i < b.len()
        invariant
            0 <= i <= b@.len(),
            toks@ == tokens_upto(b@, i as int),
        decreases b@.len() - i,
    {
        proof {
            lemma_tokens_upto_wf(b@, i as int);
        }
        let k = class_of(b[i]);
        if i >= 1 && k != Kind::Symbol && class_of(b[i - 1]) == k {
            let last = toks.len() - 1;
            let prev = toks[last];
            toks.set(last, Token { kind: prev.kind, start: prev.start, end: i + 1 });
        } else {
            toks.push(Token { kind: k, start: i, end: i + 1 });
        }
        i = i + 1;
    }
    proof {
        lemma_tokens_wf(b@);
    }
    toks
}

/// The number that the decimal digits `s` spell.
pub open spec fn digits_value(s: Seq<u8>) -> int
    decreases s.len(),
{
    if s.len() == 0 {
        0
    } else {
        digits_value(s.drop_last()) * 10 + (s.last() - 48)
    }
}

pub open spec fn pow10(n: nat) -> int
    decreases n,
{
    if n == 0 {
        1
    } else {
        10 * pow10((n - 1) as nat)
    }
}

/// The value of `n` decimal digits is below `10^n`.
pub proof fn lemma_digits_value_bounds(s: Seq<u8>)
    requires
        forall|i: int| 0 <= i < s.len() ==> is_digit(#[trigger] s[i]),
    ensures
        0 <= digits_value(s) < pow10(s.len()),
    decreases s.len(),
{
    if s.len() > 0 {
        let r = s.drop_last();
        assert forall|i: int| 0 <= i < r.len() implies is_digit(#[trigger] r[i]) by {
            assert(r[i] == s[i]);
        }
        lemma_digits_value_bounds(r);
        assert(is_digit(s[s.len() - 1]));
        let v = digits_value(r);
        let p = pow10(r.len());
        assert(v * 10 + (s.last() - 48) < p * 10) by (nonlinear_arith)
            requires
                0 <= v < p,
                0 <= s.last() - 48 <= 9,
        ;
    }
}

pub open spec fn tok_len(t: Token) -> int {
    t.end - t.start
}

/// The value of a token of digits.
pub open spec fn value(b: Seq<u8>, t: Token) -> int {
    digits_value(b.subrange(t.start as int, t.end as int))
}

/// A token of `lo` to `hi` digits.
pub open spec fn num(t: Token, lo: int, hi: int) -> bool {
    t.kind == Kind::Digits && lo <= tok_len(t) <= hi
}

/// A token that is the single byte `c`.
pub open spec fn sym(b: Seq<u8>, t: Token, c: u8) -> bool {
    t.kind == Kind::Symbol && b[t.start as int] == c
}

/// The bytes of a token.
pub open spec fn text(b: Seq<u8>, t: Token) -> Seq<u8> {
    b.subrange(t.start as int, t.end as int)
}

/// The value of a token of at most nine digits.
pub fn value_of(b: &[u8], t: Token) -> (r: u64)
    requires
        t.kind == Kind::Digits,
        t.start < t.end <= b@.len(),
        tok_len(t) <= 9,
        forall|i: int| t.start <= i < t.end ==> kind_of(#[trigger] b@[i]) == t.kind,
    ensures
        r == value(b@, t),
        r < pow10(tok_len(t) as nat),
{
    let mut acc: u64 = 0;
    let mut i: usize = t.start;
    while i < t.end
        invariant
            t.start <= i <= t.end,
            t.end <= b@.len(),
            tok_len(t) <= 9,
            forall|j: int| t.start <= j < t.end ==> kind_of(#[trigger] b@[j]) == Kind::Digits,
            acc == digits_value(b@.subrange(t.start as int, i as int)),
            acc < pow10((i - t.start) as nat),
            pow10((i - t.start) as nat) <= 1_000_000_000,
        decreases t.end - i,
    {
        assert(b@.subrange(t.start as int, i + 1).drop_last() =~= b@.subrange(t.start as int, i as int));
        assert(kind_of(b@[i as int]) == Kind::Digits);
        let d = (b[i] - 48) as u64;
        let ghost p = pow10((i - t.start) as nat);
        assert(acc * 10 + d < p * 10) by (nonlinear_arith)
            requires
                acc < p,
                d <= 9,
        ;
        proof {
            lemma_pow10_bound((i + 1 - t.start) as nat);
        }
        acc = acc * 10 + d;
        i = i + 1;
    }
    acc
}

pub proof fn lemma_pow10_bound(n: nat)
    requires
        n <= 9,
    ensures
        1 <= pow10(n) <= 1_000_000_000,
        pow10(9) == 1_000_000_000,
{
    reveal_with_fuel(pow10, 10);
}

pub proof fn lemma_pow10_split(a: nat, c: nat)
    ensures
        pow10(a) * pow10(c) == pow10(a + c),
    decreases c,
{
    if c > 0 {
        lemma_pow10_split(a, (c - 1) as nat);
        assert(pow10(a) * (10 * pow10((c - 1) as nat)) == 10 * (pow10(a) * pow10((c - 1) as nat))) by (nonlinear_arith);
        assert(pow10(a + c) == 10 * pow10((a + c - 1) as nat));
    }
}

/// The nanoseconds that `digits` fraction digits of value `value` stand for.
pub fn fraction_nanos(value: u64, digits: u64) -> (r: u64)
    requires
        digits <= 9,
        value < pow10(digits as nat),
    ensures
        r == value * pow10((9 - digits) as nat),
        r < 1_000_000_000,
{
    let mut scale: u64 = 1;
    let mut k = digits;
    proof {
        lemma_pow10_bound(digits as nat);
        lemma_pow10_split(digits as nat, 0);
    }
    while k < 9
        invariant
            digits <= k <= 9,
            scale == pow10((k - digits) as nat),
            value < pow10(digits as nat),
            1 <= pow10(digits as nat),
            pow10(digits as nat) * pow10((k - digits) as nat) == pow10(k as nat),
        decreases 9 - k,
    {
        proof {
            lemma_pow10_bound((k + 1) as nat);
            lemma_pow10_split(digits as nat, (k + 1 - digits) as nat);
            let p = pow10(digits as nat);
            let q = pow10((k + 1 - digits) as nat);
            assert(q == 10 * pow10((k - digits) as nat));
            assert(q <= p * q) by (nonlinear_arith)
                requires
                    p >= 1,
                    q >= 0,
            ;
        }
        scale = scale * 10;
        k = k + 1;
    }
    proof {
        lemma_pow10_bound((9 - digits) as nat);
    }
    assert(value * scale < 1_000_000_000) by (nonlinear_arith)
        requires
            value < pow10(digits as nat),
            pow10(digits as nat) * scale == 1_000_000_000,
            scale >= 1,
    ;
    value * scale
}

/// ASCII lower case of one byte.
pub open spec fn lower(c: u8) -> u8 {
    if 65 <= c <= 90 {
        (c + 32) as u8
    } else {
        c
    }
}

fn to_lower(c: u8) -> (r: u8)
    ensures
        r == lower(c),
{
    if 65 <= c && c <= 90 {
        c + 32
    } else {
        c
    }
}

/// The bytes `b[start..end]` equal `w` up to ASCII case when `fold` holds, exactly otherwise.
pub open spec fn same_word(s: Seq<u8>, w: Seq<u8>, fold: bool) -> bool {
    s.len() == w.len() && forall|i: int|
        0 <= i < s.len() ==> (if fold {
            lower(#[trigger] s[i])
        } else {
            s[i]
        }) == w[i]
}

/// Whether `b[lo..hi]` is `w`, ignoring ASCII case when `fold` holds.
pub fn range_is(b: &[u8], lo: usize, hi: usize, w: &Vec<u8>, fold: bool) -> (r: bool)
    requires
        lo <= hi <= b@.len(),
    ensures
        r == same_word(b@.subrange(lo as int, hi as int), w@, fold),
{
    if hi - lo != w.len() {
        return false;
    }
    let mut i: usize = 0;
    while i < w.len()
        invariant
            lo <= hi <= b@.len(),
            hi - lo == w@.len(),
            0 <= i <= w@.len(),
            forall|j: int|
                0 <= j < i ==> (if fold {
                    lower(#[trigger] b@.subrange(lo as int, hi as int)[j])
                } else {
                    b@.subrange(lo as int, hi as int)[j]
                }) == w@[j],
        decreases w@.len() - i,
    {
        let c = b[lo + i];
        let c = if fold {
            to_lower(c)
        } else {
            c
        };
        if c != w[i] {
            assert(b@.subrange(lo as int, hi as int)[i as int] == b@[lo + i]);
            return false;
        }
        i = i + 1;
    }
    true
}

/// Whether the token's bytes are `w`, ignoring ASCII case when `fold` holds.
pub fn word_is(b: &[u8], t: Token, w: &Vec<u8>, fold: bool) -> (r: bool)
    requires
        t.start <= t.end <= b@.len(),
    ensures
        r == same_word(text(b@, t), w@, fold),
{
    range_is(b, t.start, t.end, w, fold)
}

} // verus!
