//! Numbers kept to nine decimal places.
//!
//! Times in seconds, volumes in percent and playback rates are all held this
//! way: whole billionths, so that comparing and adding them is exact.

use vstd::prelude::*;

use crate::binary::{of_nanos, Binary};
use crate::number::{
    all_digits, digit_value, digits, is_digit, lemma_digits, nat_of, only_digits, pow10, print,
    read_digits, value_of,
};
use crate::text::{add_chars, chars_of, find, find_char, lower, lowered, reads};

verus! {

/// A number in billionths, or one of the values that is no finite number.
#[derive(Debug, Clone, Copy, PartialEq, Eq, Structural)]
pub enum Fixed {
    Nanos(i128),
    PosInfinity,
    NegInfinity,
    NaN,
}

/// One, in billionths.
pub const NANO: i128 = 1_000_000_000;

/// The largest magnitude that is told apart from infinity, in billionths.
pub const LIMIT: u128 = 1_000_000_000_000_000_000_000_000_000_000_000_000;

/// A decimal numeral taken apart.
pub struct Numeral {
    pub negative: bool,
    /// Digits before the point.
    pub whole: Seq<char>,
    /// Digits after the point.
    pub frac: Seq<char>,
    /// The power of ten it is multiplied by.
    pub exp: int,
}

/// A row of digits with a sign or without.
pub open spec fn exponent_of(s: Seq<char>) -> Option<int> {
    let signed = s.len() > 0 && (s[0] == '+' || s[0] == '-');
    let body = if signed {
        s.drop_first()
    } else {
        s
    };
    if body.len() > 0 && all_digits(body) {
        if signed && s[0] == '-' {
            Some(-(nat_of(body) as int))
        } else {
            Some(nat_of(body) as int)
        }
    } else {
        None
    }
}

/// The digits before and after the point, at least one in all.
pub open spec fn mantissa_of(s: Seq<char>) -> Option<(Seq<char>, Seq<char>)> {
    let k = find(s, '.');
    let whole = s.take(k);
    let frac = if k < s.len() {
        s.skip(k + 1)
    } else {
        Seq::empty()
    };
    if whole.len() + frac.len() > 0 && all_digits(whole) && all_digits(frac) {
        Some((whole, frac))
    } else {
        None
    }
}

/// A numeral without its sign: digits with a point among them or without, and
/// an exponent or none.
pub open spec fn unsigned_numeral(s: Seq<char>, negative: bool) -> Option<Numeral> {
    let k = find(lowered(s), 'e');
    let exp = if k < s.len() {
        exponent_of(s.skip(k + 1))
    } else {
        Some(0int)
    };
    match (mantissa_of(s.take(k)), exp) {
        (Some((whole, frac)), Some(exp)) => Some(Numeral { negative, whole, frac, exp }),
        _ => None,
    }
}

/// The digits of `all` up to the one at `cut`, which rounds them.
pub open spec fn rounded(all: Seq<char>, cut: int) -> nat {
    if cut < 0 {
        0
    } else if cut >= all.len() {
        nat_of(all) * pow10((cut - all.len()) as nat)
    } else {
        nat_of(all.take(cut)) + (if digit_value(all[cut]) >= 5 {
            1nat
        } else {
            0nat
        })
    }
}

/// A magnitude with its sign, infinite beyond the limit.
pub open spec fn signed(magnitude: nat, negative: bool) -> Fixed {
    if magnitude > LIMIT {
        if negative {
            Fixed::NegInfinity
        } else {
            Fixed::PosInfinity
        }
    } else if negative {
        Fixed::Nanos((-(magnitude as int)) as i128)
    } else {
        Fixed::Nanos(magnitude as i128)
    }
}

/// The value of a numeral: its digits up to the ninth decimal place, rounded by
/// the next.
pub open spec fn numeral_value(n: Numeral) -> Fixed {
    signed(rounded(n.whole + n.frac, n.whole.len() + n.exp + 9), n.negative)
}

/// The number that `s` writes without a sign.
pub open spec fn unsigned_value(s: Seq<char>, negative: bool) -> Option<Fixed> {
    let word = lowered(s);
    if word == "inf"@ || word == "infinity"@ {
        Some(
            if negative {
                Fixed::NegInfinity
            } else {
                Fixed::PosInfinity
            },
        )
    } else if word == "nan"@ {
        Some(Fixed::NaN)
    } else {
        match unsigned_numeral(s, negative) {
            Some(n) => Some(numeral_value(n)),
            None => None,
        }
    }
}

/// The number that `s` writes: a decimal numeral, or the name of an infinity or
/// of no number.
pub open spec fn parsed(s: Seq<char>) -> Option<Fixed> {
    if s.len() > 0 && s[0] == '-' {
        unsigned_value(s.drop_first(), true)
    } else if s.len() > 0 && s[0] == '+' {
        unsigned_value(s.drop_first(), false)
    } else {
        unsigned_value(s, false)
    }
}

/// An exponent, clamped far outside of what any text length can make up for.
fn parse_exponent(s: &[char]) -> (r: Option<i128>)
    ensures
        match r {
            Some(e) => exponent_of(s@) is Some && -CLAMP <= e <= CLAMP && {
                let exact = exponent_of(s@)->0;
                &&& -CLAMP < e < CLAMP ==> exact == e
                &&& e == CLAMP ==> exact >= CLAMP
                &&& e == -CLAMP ==> exact <= -CLAMP
            },
            None => exponent_of(s@) is None,
        },
{
    let is_signed: bool = s.len() > 0 && (s[0] == '+' || s[0] == '-');
    let body: &[char] = if is_signed {
        let rest = vstd::slice::slice_subrange(s, 1, s.len());
        assert(rest@ =~= s@.drop_first());
        rest
    } else {
        s
    };
    if body.len() == 0 || !only_digits(body) {
        return None;
    }
    let magnitude: i128 = match read_digits(body, (CLAMP - 1) as u128) {
        Some(n) => n as i128,
        None => CLAMP,
    };
    if is_signed && s[0] == '-' {
        Some(-magnitude)
    } else {
        Some(magnitude)
    }
}

/// A power of ten larger than any length of text.
const CLAMP: i128 = 1_000_000_000_000_000_000_000_000;

pub proof fn lemma_pow10_positive(k: nat)
    ensures
        pow10(k) >= 1,
    decreases k,
{
    if k > 0 {
        lemma_pow10_positive((k - 1) as nat);
    }
}

pub proof fn lemma_pow10_monotone(j: nat, k: nat)
    requires
        j <= k,
    ensures
        pow10(j) <= pow10(k),
    decreases k,
{
    lemma_pow10_positive(k);
    if j < k {
        lemma_pow10_monotone(j, (k - 1) as nat);
    }
}

proof fn lemma_pow10_38()
    ensures
        pow10(38) > LIMIT,
{
    assert(pow10(38) == 100_000_000_000_000_000_000_000_000_000_000_000_000) by {
        reveal_with_fuel(pow10, 39);
    }
}

proof fn lemma_pow10_step(n: nat, k: nat)
    ensures
        n * pow10(k + 1) == (10 * n) * pow10(k),
{
    assert(n * (10 * pow10(k)) == (10 * n) * pow10(k)) by (nonlinear_arith);
}

/// `n` followed by `zeros` zeros, if it stays within the limit.
fn scale_up(n: u128, zeros: u128) -> (r: Option<u128>)
    requires
        n <= LIMIT,
    ensures
        match r {
            Some(m) => m == n as nat * pow10(zeros as nat) && m <= LIMIT,
            None => n as nat * pow10(zeros as nat) > LIMIT,
        },
{
    if n == 0 {
        assert(0 * pow10(zeros as nat) == 0) by (nonlinear_arith);
        return Some(0);
    }
    let mut m: u128 = n;
    let mut left: u128 = zeros;
    while left > 0
        invariant
            0 < m <= LIMIT,
            left <= zeros,
            n as nat * pow10(zeros as nat) == m as nat * pow10(left as nat),
        decreases left,
    {
        proof {
            lemma_pow10_step(m as nat, (left - 1) as nat);
        }
        m = 10 * m;
        left = left - 1;
        if m > LIMIT {
            proof {
                lemma_pow10_positive(left as nat);
                assert(m as nat * pow10(left as nat) >= m as nat) by (nonlinear_arith)
                    requires
                        pow10(left as nat) >= 1,
                ;
            }
            return None;
        }
    }
    assert(m as nat * pow10(0) == m as nat) by (nonlinear_arith)
        requires
            pow10(0) == 1,
    ;
    Some(m)
}

/// A row of digits cut at `cut` and rounded, if it stays within the limit.
fn round_at(all: &[char], cut: i128) -> (r: Option<u128>)
    requires
        all_digits(all@),
        -CLAMP * 2 <= cut <= CLAMP * 2,
    ensures
        match r {
            Some(m) => m == rounded(all@, cut as int) && m <= LIMIT,
            None => rounded(all@, cut as int) > LIMIT,
        },
{
    if cut < 0 {
        return Some(0);
    }
    let len: i128 = all.len() as i128;
    if cut >= len {
        match read_digits(all, LIMIT) {
            Some(n) => scale_up(n, (cut - len) as u128),
            None => {
                proof {
                    lemma_pow10_positive((cut - len) as nat);
                    assert(nat_of(all@) * pow10((cut - len) as nat) >= nat_of(all@))
                        by (nonlinear_arith)
                        requires
                            pow10((cut - len) as nat) >= 1,
                    ;
                }
                None
            },
        }
    } else {
        let at: usize = cut as usize;
        let kept = vstd::slice::slice_subrange(all, 0, at);
        assert(kept@ =~= all@.take(cut as int));
        assert(is_digit(all@[at as int]));
        match read_digits(kept, LIMIT) {
            Some(n) => {
                let m: u128 = if value_of(all[at]) >= 5 {
                    n + 1
                } else {
                    n
                };
                if m > LIMIT {
                    None
                } else {
                    Some(m)
                }
            },
            None => None,
        }
    }
}

/// Outside of the clamp, an exponent decides alone.
proof fn lemma_far_exponent(all: Seq<char>, len: nat, e: int, exact: int)
    requires
        all.len() <= 0x1_0000_0000_0000_0000,
        len <= all.len(),
        e == CLAMP ==> exact >= CLAMP,
        e == -CLAMP ==> exact <= -CLAMP,
        -CLAMP < e < CLAMP ==> exact == e,
        -CLAMP <= e <= CLAMP,
    ensures
        rounded(all, len + e + 9) <= LIMIT || rounded(all, len + exact + 9) <= LIMIT ==> rounded(
            all,
            len + e + 9,
        ) == rounded(all, len + exact + 9),
{
    if e == CLAMP && exact != e {
        let d = nat_of(all);
        let a = (len + e + 9 - all.len()) as nat;
        let b = (len + exact + 9 - all.len()) as nat;
        if d == 0 {
            assert(d * pow10(a) == 0) by (nonlinear_arith)
                requires
                    d == 0,
            ;
            assert(d * pow10(b) == 0) by (nonlinear_arith)
                requires
                    d == 0,
            ;
        } else {
            lemma_pow10_38();
            lemma_pow10_monotone(38, a);
            lemma_pow10_monotone(38, b);
            assert(d * pow10(a) >= pow10(a)) by (nonlinear_arith)
                requires
                    d >= 1,
            ;
            assert(d * pow10(b) >= pow10(b)) by (nonlinear_arith)
                requires
                    d >= 1,
            ;
        }
    }
}

fn parse_numeral(s: &[char], negative: bool) -> (r: Option<Fixed>)
    ensures
        r == (match unsigned_numeral(s@, negative) {
            Some(n) => Some(numeral_value(n)),
            None => None,
        }),
{
    let low = lower(s);
    let k: usize = find_char(low.as_slice(), 'e');
    let exp: Option<i128> = if k < s.len() {
        let tail = vstd::slice::slice_subrange(s, k + 1, s.len());
        assert(tail@ =~= s@.skip(k as int + 1));
        parse_exponent(tail)
    } else {
        Some(0)
    };
    let head = vstd::slice::slice_subrange(s, 0, k);
    assert(head@ =~= s@.take(k as int));
    let p: usize = find_char(head, '.');
    let whole = vstd::slice::slice_subrange(head, 0, p);
    assert(whole@ =~= head@.take(p as int));
    let mut all: Vec<char> = vstd::slice::slice_to_vec(whole);
    let mut count: usize = p;
    if p < head.len() {
        let frac = vstd::slice::slice_subrange(head, p + 1, head.len());
        assert(frac@ =~= head@.skip(p as int + 1));
        if !only_digits(frac) {
            return None;
        }
        add_chars(&mut all, frac);
        count = all.len();
    } else {
        assert(whole@ + Seq::<char>::empty() =~= whole@);
    }
    if count == 0 || !only_digits(whole) {
        return None;
    }
    let e: i128 = match exp {
        Some(e) => e,
        None => {
            return None;
        },
    };
    let ghost parts = mantissa_of(s@.take(k as int))->0;
    assert(all@ =~= parts.0 + parts.1);
    assert(all_digits(all@)) by {
        assert forall|i: int| 0 <= i < all@.len() implies is_digit(#[trigger] all@[i]) by {
            if i < parts.0.len() {
                assert(all@[i] == parts.0[i]);
            } else {
                assert(all@[i] == parts.1[i - parts.0.len()]);
            }
        }
    }
    proof {
        let exact = if k < s@.len() {
            exponent_of(s@.skip(k as int + 1))->0
        } else {
            0
        };
        lemma_far_exponent(all@, p as nat, e as int, exact);
    }
    match round_at(all.as_slice(), p as i128 + e + 9) {
        Some(m) => if negative {
            Some(Fixed::Nanos(-(m as i128)))
        } else {
            Some(Fixed::Nanos(m as i128))
        },
        None => if negative {
            Some(Fixed::NegInfinity)
        } else {
            Some(Fixed::PosInfinity)
        },
    }
}

fn parse_unsigned(s: &[char], negative: bool) -> (r: Option<Fixed>)
    ensures
        r == unsigned_value(s@, negative),
{
    let word = lower(s);
    let w = word.as_slice();
    if reads(w, "inf") || reads(w, "infinity") {
        if negative {
            Some(Fixed::NegInfinity)
        } else {
            Some(Fixed::PosInfinity)
        }
    } else if reads(w, "nan") {
        Some(Fixed::NaN)
    } else {
        parse_numeral(s, negative)
    }
}

/// What a text writes is within the limit, where it is finite.
pub proof fn lemma_parsed_within_limit(s: Seq<char>)
    ensures
        parsed(s) matches Some(Fixed::Nanos(n)) ==> -(LIMIT as int) <= n <= LIMIT,
{
}

/// The number that `s` writes.
pub fn parse_fixed(s: &[char]) -> (r: Option<Fixed>)
    ensures
        r == parsed(s@),
{
    if s.len() > 0 && (s[0] == '-' || s[0] == '+') {
        let rest = vstd::slice::slice_subrange(s, 1, s.len());
        assert(rest@ =~= s@.drop_first());
        parse_unsigned(rest, s[0] == '-')
    } else {
        parse_unsigned(s, false)
    }
}

/// Where a number stands among the others; the infinities at either end.
pub open spec fn rank(a: Fixed) -> int {
    match a {
        Fixed::Nanos(n) => n as int,
        Fixed::PosInfinity => i128::MAX + 1,
        Fixed::NegInfinity => i128::MIN - 1,
        Fixed::NaN => 0,
    }
}

/// Whether `a` is below `b`. Nothing is below or above what is no number.
pub open spec fn lt(a: Fixed, b: Fixed) -> bool {
    a !is NaN && b !is NaN && rank(a) < rank(b)
}

/// Whether `a` is below `b`.
pub fn less(a: Fixed, b: Fixed) -> (r: bool)
    ensures
        r == lt(a, b),
{
    match (a, b) {
        (Fixed::NaN, _) => false,
        (_, Fixed::NaN) => false,
        (Fixed::Nanos(m), Fixed::Nanos(n)) => m < n,
        (Fixed::PosInfinity, _) => false,
        (_, Fixed::NegInfinity) => false,
        (_, _) => !(a == b),
    }
}

/// A whole number of billionths, infinite where it does not fit.
pub open spec fn fitted(n: int) -> Fixed {
    if n > i128::MAX {
        Fixed::PosInfinity
    } else if n < i128::MIN {
        Fixed::NegInfinity
    } else {
        Fixed::Nanos(n as i128)
    }
}

/// The sum; no number where opposite infinities meet.
pub open spec fn sum(a: Fixed, b: Fixed) -> Fixed {
    match (a, b) {
        (Fixed::NaN, _) => Fixed::NaN,
        (_, Fixed::NaN) => Fixed::NaN,
        (Fixed::Nanos(m), Fixed::Nanos(n)) => fitted(m + n),
        (Fixed::Nanos(_), _) => b,
        (_, Fixed::Nanos(_)) => a,
        (_, _) => if a == b {
            a
        } else {
            Fixed::NaN
        },
    }
}

/// The sum of `a` and `b`.
pub fn plus(a: Fixed, b: Fixed) -> (r: Fixed)
    ensures
        r == sum(a, b),
{
    match (a, b) {
        (Fixed::NaN, _) => Fixed::NaN,
        (_, Fixed::NaN) => Fixed::NaN,
        (Fixed::Nanos(m), Fixed::Nanos(n)) => match m.checked_add(n) {
            Some(s) => Fixed::Nanos(s),
            None => if n > 0 {
                Fixed::PosInfinity
            } else {
                Fixed::NegInfinity
            },
        },
        (Fixed::Nanos(_), _) => b,
        (_, Fixed::Nanos(_)) => a,
        (_, _) => if a == b {
            a
        } else {
            Fixed::NaN
        },
    }
}

/// The difference of two finite numbers.
pub open spec fn gap(m: i128, n: i128) -> Fixed {
    fitted(m - n)
}

/// The difference of two finite numbers.
pub fn minus(m: i128, n: i128) -> (r: Fixed)
    ensures
        r == gap(m, n),
{
    match m.checked_sub(n) {
        Some(d) => Fixed::Nanos(d),
        None => if n < 0 {
            Fixed::PosInfinity
        } else {
            Fixed::NegInfinity
        },
    }
}

/// The larger of the two; the other one where one is no number.
pub open spec fn larger(a: Fixed, b: Fixed) -> Fixed {
    if a is NaN {
        b
    } else if b is NaN {
        a
    } else if rank(a) < rank(b) {
        b
    } else {
        a
    }
}

/// The larger of the two.
pub fn max_of(a: Fixed, b: Fixed) -> (r: Fixed)
    ensures
        r == larger(a, b),
{
    match a {
        Fixed::NaN => b,
        _ => if less(a, b) {
            b
        } else {
            a
        },
    }
}

/// The smaller of the two; the other one where one is no number.
pub open spec fn smaller(a: Fixed, b: Fixed) -> Fixed {
    if a is NaN {
        b
    } else if b is NaN {
        a
    } else if rank(b) < rank(a) {
        b
    } else {
        a
    }
}

/// The smaller of the two.
pub fn min_of(a: Fixed, b: Fixed) -> (r: Fixed)
    ensures
        r == smaller(a, b),
{
    match a {
        Fixed::NaN => b,
        _ => if less(b, a) {
            b
        } else {
            a
        },
    }
}

/// `x` held between `low` and `high`; what is no number stays so.
pub open spec fn clamped(x: Fixed, low: Fixed, high: Fixed) -> Fixed {
    if lt(x, low) {
        low
    } else if lt(high, x) {
        high
    } else {
        x
    }
}

/// `x` held between `low` and `high`.
pub fn clamp_to(x: Fixed, low: Fixed, high: Fixed) -> (r: Fixed)
    ensures
        r == clamped(x, low, high),
{
    if less(x, low) {
        low
    } else if less(high, x) {
        high
    } else {
        x
    }
}

impl Fixed {
    /// A whole number.
    pub fn from_whole(n: i64) -> (r: Fixed)
        ensures
            r == Fixed::Nanos((n * NANO) as i128),
            r->Nanos_0 == n * NANO,
    {
        Fixed::Nanos(n as i128 * NANO)
    }

    /// A number of thousandths.
    pub fn from_millis(n: i64) -> (r: Fixed)
        ensures
            r == Fixed::Nanos((n * 1_000_000) as i128),
            r->Nanos_0 == n * 1_000_000,
    {
        Fixed::Nanos(n as i128 * 1_000_000)
    }
}

/// The last `k` digits of `n`.
pub open spec fn padded(n: nat, k: nat) -> Seq<char>
    decreases k,
{
    if k == 0 {
        Seq::empty()
    } else {
        padded(n / 10, (k - 1) as nat).push(crate::number::digit_char(n % 10))
    }
}

/// The last `k` digits of `n`.
pub fn pad(n: u128, k: usize) -> (out: Vec<char>)
    ensures
        out@ == padded(n as nat, k as nat),
    decreases k,
{
    if k == 0 {
        Vec::new()
    } else {
        let mut out = pad(n / 10, k - 1);
        out.push((48u8 + (n % 10) as u8) as char);
        out
    }
}

/// `s` without the zeros at its end, but for one character.
pub open spec fn without_zeros(s: Seq<char>) -> Seq<char>
    decreases s.len(),
{
    if s.len() > 1 && s.last() == '0' {
        without_zeros(s.drop_last())
    } else {
        s
    }
}

/// A finite number in decimal, with a point and no more decimals than it needs.
pub open spec fn decimal(n: int) -> Seq<char> {
    let m = if n < 0 {
        -n
    } else {
        n
    };
    let body = digits((m / 1_000_000_000) as nat) + seq!['.'] + without_zeros(
        padded((m % 1_000_000_000) as nat, 9),
    );
    if n < 0 {
        seq!['-'] + body
    } else {
        body
    }
}

/// The magnitude of `n`.
pub fn magnitude(n: i128) -> (r: u128)
    ensures
        r == if n < 0 {
            -n
        } else {
            n as int
        },
{
    if n >= 0 {
        n as u128
    } else {
        (-(n + 1)) as u128 + 1
    }
}

/// A finite number in decimal.
pub fn decimal_chars(n: i128) -> (out: Vec<char>)
    ensures
        out@ == decimal(n as int),
{
    let m: u128 = magnitude(n);
    let mut out: Vec<char> = Vec::new();
    if n < 0 {
        out.push('-');
    }
    let ghost sign = out@;
    let whole = print(m / 1_000_000_000);
    add_chars(&mut out, whole.as_slice());
    out.push('.');
    let mut frac = pad(m % 1_000_000_000, 9);
    let ghost all = frac@;
    while frac.len() > 1 && frac[frac.len() - 1] == '0'
        invariant
            without_zeros(frac@) == without_zeros(all),
        decreases frac@.len(),
    {
        frac.pop();
    }
    add_chars(&mut out, frac.as_slice());
    proof {
        let body = whole@ + seq!['.'] + frac@;
        assert(out@ =~= sign + body);
        if n >= 0 {
            assert(sign + body =~= body);
        }
    }
    out
}

/// A number in decimal, or the name of what is no finite number.
pub open spec fn fixed_text(a: Fixed) -> Seq<char> {
    match a {
        Fixed::Nanos(n) => decimal(n as int),
        Fixed::PosInfinity => "inf"@,
        Fixed::NegInfinity => "-inf"@,
        Fixed::NaN => "NaN"@,
    }
}

/// A number in decimal, or the name of what is no finite number.
pub fn fixed_chars(a: Fixed) -> (out: Vec<char>)
    ensures
        out@ == fixed_text(a),
{
    match a {
        Fixed::Nanos(n) => decimal_chars(n),
        Fixed::PosInfinity => chars_of("inf"),
        Fixed::NegInfinity => chars_of("-inf"),
        Fixed::NaN => chars_of("NaN"),
    }
}

/// Digits followed by `k` more digits of a number below that power of ten.
proof fn lemma_padded(w: Seq<char>, f: nat, k: nat)
    requires
        all_digits(w),
        f < pow10(k),
    ensures
        padded(f, k).len() == k,
        all_digits(w + padded(f, k)),
        all_digits(padded(f, k)),
        nat_of(w + padded(f, k)) == nat_of(w) * pow10(k) + f,
    decreases k,
{
    if k == 0 {
        assert(w + padded(f, k) =~= w);
        assert(nat_of(w) * 1 == nat_of(w)) by (nonlinear_arith);
    } else {
        let j = (k - 1) as nat;
        lemma_padded(w, f / 10, j);
        let t = padded(f / 10, j);
        let d = crate::number::digit_char(f % 10);
        let s = w + padded(f, k);
        assert(s.drop_last() =~= w + t);
        assert(s.last() == d);
        assert forall|i: int| 0 <= i < s.len() implies is_digit(#[trigger] s[i]) by {
            if i < s.len() - 1 {
                assert(s[i] == (w + t)[i]);
            }
        }
        assert forall|i: int| 0 <= i < k implies is_digit(#[trigger] padded(f, k)[i]) by {
            assert(padded(f, k)[i] == s[w.len() + i]);
        }
        assert(nat_of(w) * (10 * pow10(j)) == 10 * (nat_of(w) * pow10(j))) by (nonlinear_arith);
    }
}

/// Zeros left out at the end are made up for by powers of ten.
proof fn lemma_without_zeros(w: Seq<char>, s: Seq<char>)
    requires
        all_digits(s),
        s.len() > 0,
    ensures
        0 < without_zeros(s).len() <= s.len(),
        all_digits(without_zeros(s)),
        nat_of(w + s) == nat_of(w + without_zeros(s)) * pow10(
            (s.len() - without_zeros(s).len()) as nat,
        ),
    decreases s.len(),
{
    let t = without_zeros(s);
    if s.len() > 1 && s.last() == '0' {
        let shorter = s.drop_last();
        assert forall|i: int| 0 <= i < shorter.len() implies is_digit(#[trigger] shorter[i]) by {
            assert(shorter[i] == s[i]);
        }
        lemma_without_zeros(w, shorter);
        let k = (shorter.len() - t.len()) as nat;
        assert((w + s).drop_last() =~= w + shorter);
        assert((w + s).last() == '0');
        assert(nat_of(w + s) == 10 * nat_of(w + shorter));
        assert(nat_of(w + t) * (10 * pow10(k)) == 10 * (nat_of(w + t) * pow10(k)))
            by (nonlinear_arith);
        assert(pow10(k + 1) == 10 * pow10(k));
    } else {
        assert(nat_of(w + s) * 1 == nat_of(w + s)) by (nonlinear_arith);
    }
}

proof fn lemma_pow10_9()
    ensures
        pow10(9) == 1_000_000_000,
{
    reveal_with_fuel(pow10, 10);
}

/// A decimal without its sign is digits with a point among them.
pub proof fn lemma_decimal_shape(m: nat)
    ensures
        decimal(m as int).len() > 0,
        is_digit(decimal(m as int)[0]),
        is_digit(decimal(m as int).last()),
        forall|i: int|
            0 <= i < decimal(m as int).len() ==> is_digit(#[trigger] decimal(m as int)[i])
                || decimal(m as int)[i] == '.',
{
    let whole = digits(m / 1_000_000_000);
    let full = padded(m % 1_000_000_000, 9);
    let frac = without_zeros(full);
    let s = decimal(m as int);
    lemma_digits(m / 1_000_000_000);
    lemma_pow10_9();
    lemma_padded(Seq::empty(), m % 1_000_000_000, 9);
    lemma_without_zeros(Seq::empty(), full);
    assert(s =~= whole + seq!['.'] + frac);
    assert(s[0] == whole[0]);
    assert(s.last() == frac[frac.len() - 1]);
    assert forall|i: int| 0 <= i < s.len() implies is_digit(#[trigger] s[i]) || s[i] == '.' by {
        if i < whole.len() {
            assert(s[i] == whole[i]);
        } else if i > whole.len() {
            assert(s[i] == frac[i - whole.len() - 1]);
        }
    }
}

/// Two more zeros at the end of the decimals say nothing more.
pub proof fn lemma_two_more_zeros(f: nat)
    requires
        f < 10_000_000,
    ensures
        without_zeros(padded(100 * f, 9)) == without_zeros(padded(f, 7)),
{
    assert(padded(100 * f, 9) =~= padded(10 * f, 8).push('0'));
    assert(padded(10 * f, 8) =~= padded(f, 7).push('0'));
    assert(padded(f, 7).len() == 7) by {
        reveal_with_fuel(pow10, 8);
        lemma_padded(Seq::empty(), f, 7);
    }
    assert(padded(100 * f, 9).drop_last() =~= padded(10 * f, 8));
    assert(without_zeros(padded(100 * f, 9)) == without_zeros(padded(10 * f, 8)));
    assert(padded(10 * f, 8).drop_last() =~= padded(f, 7));
}

/// A decimal without its sign reads back.
proof fn lemma_unsigned_decimal(m: nat, negative: bool)
    requires
        m <= LIMIT,
    ensures
        unsigned_value(decimal(m as int), negative) == Some(signed(m, negative)),
{
    let whole = digits(m / 1_000_000_000);
    let f = m % 1_000_000_000;
    let full = padded(f, 9);
    let frac = without_zeros(full);
    let s = decimal(m as int);
    lemma_digits(m / 1_000_000_000);
    lemma_pow10_9();
    lemma_padded(whole, f, 9);
    lemma_padded(Seq::empty(), f, 9);
    lemma_without_zeros(whole, full);
    assert(s =~= whole + seq!['.'] + frac);
    let low = lowered(s);
    assert forall|i: int| 0 <= i < s.len() implies #[trigger] low[i] == s[i] && (is_digit(s[i])
        || s[i] == '.') by {
        if i < whole.len() {
            assert(s[i] == whole[i]);
        } else if i > whole.len() {
            assert(s[i] == frac[i - whole.len() - 1]);
        }
    }
    assert(low =~= s);
    reveal_strlit("inf");
    reveal_strlit("infinity");
    reveal_strlit("nan");
    assert(is_digit(low[0])) by {
        assert(s[0] == whole[0]);
    }
    assert("inf"@[0] == 'i');
    assert("infinity"@[0] == 'i');
    assert("nan"@[0] == 'n');
    crate::text::lemma_find_is(low, 'e', s.len() as int);
    assert(s.take(s.len() as int) =~= s);
    crate::text::lemma_find_is(s, '.', whole.len() as int);
    assert(s.take(whole.len() as int) =~= whole);
    assert(s.skip(whole.len() as int + 1) =~= frac);
    let all = whole + frac;
    let cut = whole.len() + 9;
    assert((cut - all.len()) as nat == (full.len() - frac.len()) as nat);
    assert(rounded(all, cut as int) == nat_of(all) * pow10((cut - all.len()) as nat));
    assert(rounded(all, cut as int) == nat_of(whole + full));
    assert(m == (m / 1_000_000_000) * 1_000_000_000 + f);
}

/// A number's decimal text reads back as that number.
pub proof fn law_decimal_round_trips(n: int)
    requires
        -(LIMIT as int) <= n <= LIMIT,
    ensures
        parsed(decimal(n)) == Some(Fixed::Nanos(n as i128)),
{
    if n < 0 {
        lemma_unsigned_decimal((-n) as nat, true);
        assert(decimal(n).drop_first() =~= decimal(-n));
    } else {
        lemma_unsigned_decimal(n as nat, false);
        lemma_digits((n / 1_000_000_000) as nat);
        assert(is_digit(decimal(n)[0])) by {
            assert(decimal(n)[0] == digits((n / 1_000_000_000) as nat)[0]);
        }
    }
}

/// A number as it is shown: without the point where it is whole.
pub open spec fn shown(a: Fixed) -> Seq<char> {
    match a {
        Fixed::Nanos(n) => if n % 1_000_000_000 == 0 {
            if n < 0 {
                seq!['-'] + digits((-(n / 1_000_000_000)) as nat)
            } else {
                digits((n / 1_000_000_000) as nat)
            }
        } else {
            decimal(n as int)
        },
        _ => fixed_text(a),
    }
}

/// A number as it is shown.
pub fn shown_chars(a: Fixed) -> (out: Vec<char>)
    ensures
        out@ == shown(a),
{
    match a {
        Fixed::Nanos(n) => {
            let m: u128 = magnitude(n);
            if m % 1_000_000_000 == 0 {
                let body = print(m / 1_000_000_000);
                if n < 0 {
                    let mut out: Vec<char> = Vec::new();
                    out.push('-');
                    add_chars(&mut out, body.as_slice());
                    assert(out@ =~= shown(a));
                    out
                } else {
                    body
                }
            } else {
                decimal_chars(n)
            }
        },
        _ => fixed_chars(a),
    }
}

/// The product of two finite numbers, cut after the ninth decimal place;
/// infinite where it is too large to compute.
pub open spec fn product(m: i128, n: i128) -> Fixed {
    let p = m * n;
    if p > i128::MAX {
        Fixed::PosInfinity
    } else if p < i128::MIN {
        Fixed::NegInfinity
    } else if p >= 0 {
        Fixed::Nanos((p / 1_000_000_000) as i128)
    } else {
        Fixed::Nanos((-((-p) / 1_000_000_000)) as i128)
    }
}

/// The product of two finite numbers.
pub fn times(m: i128, n: i128) -> (r: Fixed)
    ensures
        r == product(m, n),
{
    match m.checked_mul(n) {
        Some(p) => {
            let q: i128 = (magnitude(p) / 1_000_000_000) as i128;
            if p >= 0 {
                Fixed::Nanos(q)
            } else {
                Fixed::Nanos(-q)
            }
        },
        None => {
            proof {
                assert((m > 0 && n > 0) || (m < 0 && n < 0) ==> m * n > 0) by (nonlinear_arith);
                assert((m >= 0 && n <= 0) || (m <= 0 && n >= 0) ==> m * n <= 0)
                    by (nonlinear_arith);
            }
            if (m > 0 && n > 0) || (m < 0 && n < 0) {
                Fixed::PosInfinity
            } else {
                Fixed::NegInfinity
            }
        },
    }
}

/// Whether `a` is at least `b`; nothing is of what is no number.
pub open spec fn at_least(a: Fixed, b: Fixed) -> bool {
    a !is NaN && b !is NaN && rank(a) >= rank(b)
}

/// Whether `a` is at least `b`.
pub fn reaches(a: Fixed, b: Fixed) -> (r: bool)
    ensures
        r == at_least(a, b),
{
    match (a, b) {
        (Fixed::NaN, _) => false,
        (_, Fixed::NaN) => false,
        _ => !less(a, b),
    }
}

/// `n / d`, rounded to the nearest whole number, and half to the even one.
pub open spec fn half_even(n: nat, d: nat) -> nat {
    let q = n / d;
    let r = n % d;
    if 2 * r > d || (2 * r == d && q % 2 == 1) {
        q + 1
    } else {
        q
    }
}

/// `n / d`, rounded to the nearest whole number, and half to the even one.
pub fn round_even(n: u128, d: u128) -> (r: u128)
    requires
        0 < d <= 0x3fff_ffff_ffff_ffff_ffff_ffff_ffff_ffff,
        n <= 0x8000_0000_0000_0000_0000_0000_0000_0000,
    ensures
        r == half_even(n as nat, d as nat),
        r <= n + 1,
{
    let q: u128 = n / d;
    let r: u128 = n % d;
    assert(q <= n) by (nonlinear_arith)
        requires
            q == n / d,
            d > 0,
    ;
    if 2 * r > d || (2 * r == d && q % 2 == 1) {
        q + 1
    } else {
        q
    }
}

/// `t` units of the `k`-th decimal place.
pub open spec fn pointed(t: nat, k: nat) -> Seq<char> {
    if k == 0 {
        digits(t)
    } else {
        digits(t / pow10(k)) + seq!['.'] + padded(t, k)
    }
}

/// A power of ten that 128 bits hold.
pub fn ten_to(k: usize) -> (r: u128)
    requires
        k <= 30,
    ensures
        r == pow10(k as nat),
        0 < r <= 1_000_000_000_000_000_000_000_000_000_000,
{
    let mut r: u128 = 1;
    let mut i: usize = 0;
    proof {
        assert(pow10(30) == 1_000_000_000_000_000_000_000_000_000_000) by {
            reveal_with_fuel(pow10, 31);
        }
    }
    while i < k
        invariant
            i <= k <= 30,
            0 < r == pow10(i as nat),
            pow10(30) == 1_000_000_000_000_000_000_000_000_000_000,
            r <= pow10(30),
        decreases k - i,
    {
        proof {
            lemma_pow10_monotone(i as nat + 1, 30);
        }
        r = 10 * r;
        i = i + 1;
    }
    r
}

/// `t` units of the `k`-th decimal place.
pub fn pointed_chars(t: u128, k: usize) -> (out: Vec<char>)
    requires
        k <= 9,
    ensures
        out@ == pointed(t as nat, k as nat),
{
    if k == 0 {
        return print(t);
    }
    let mut out = print(t / ten_to(k));
    out.push('.');
    let frac = pad(t, k);
    add_chars(&mut out, frac.as_slice());
    out
}

/// A number to `k` decimal places. What is rounded, half to even, is what 53 bits
/// hold of it.
pub open spec fn to_places(a: Fixed, k: nat) -> Seq<char> {
    match a {
        Fixed::Nanos(n) => {
            let m = if n < 0 {
                -n
            } else {
                n as int
            };
            let body = pointed(of_nanos(m as nat).parts(pow10(k)), k);
            if n < 0 {
                seq!['-'] + body
            } else {
                body
            }
        },
        _ => fixed_text(a),
    }
}

/// A number to `k` decimal places.
pub fn places(a: Fixed, k: usize) -> (out: Vec<char>)
    requires
        k <= 9,
    ensures
        out@ == to_places(a, k as nat),
{
    match a {
        Fixed::Nanos(n) => {
            proof {
                assert(pow10(9) == 1_000_000_000) by {
                    reveal_with_fuel(pow10, 10);
                }
                lemma_pow10_monotone(k as nat, 9);
            }
            let body = pointed_chars(Binary::of_nanos(magnitude(n)).parts(ten_to(k)), k);
            if n < 0 {
                let mut out: Vec<char> = Vec::new();
                out.push('-');
                add_chars(&mut out, body.as_slice());
                assert(out@ =~= to_places(a, k as nat));
                out
            } else {
                body
            }
        },
        _ => fixed_chars(a),
    }
}

} // verus!
