//! Whole numbers as text.

use vstd::prelude::*;

use crate::text::string_of;

verus! {

/// Ten to the power of `k`.
pub open spec fn pow10(k: nat) -> nat
    decreases k,
{
    if k == 0 {
        1
    } else {
        10 * pow10((k - 1) as nat)
    }
}

pub open spec fn is_digit(c: char) -> bool {
    '0' <= c <= '9'
}

/// The value of a decimal digit.
pub open spec fn digit_value(c: char) -> nat {
    (c as u32 - '0' as u32) as nat
}

/// The digit of a value below ten.
pub open spec fn digit_char(d: nat) -> char {
    (('0' as u32) + d) as char
}

pub open spec fn all_digits(s: Seq<char>) -> bool {
    forall|i: int| 0 <= i < s.len() ==> is_digit(#[trigger] s[i])
}

/// The number that a row of digits writes.
pub open spec fn nat_of(s: Seq<char>) -> nat
    decreases s.len(),
{
    if s.len() == 0 {
        0
    } else {
        10 * nat_of(s.drop_last()) + digit_value(s.last())
    }
}

/// `n` in decimal, without leading zeros.
pub open spec fn digits(n: nat) -> Seq<char>
    decreases n,
{
    if n < 10 {
        seq![digit_char(n)]
    } else {
        digits(n / 10).push(digit_char(n % 10))
    }
}

/// `n` in decimal, with a sign where it is negative.
pub open spec fn signed_digits(n: int) -> Seq<char> {
    if n < 0 {
        seq!['-'] + digits((-n) as nat)
    } else {
        digits(n as nat)
    }
}

/// The whole number that `s` writes: digits, with a plus sign or without.
pub open spec fn parsed_nat(s: Seq<char>) -> Option<nat> {
    let body = if s.len() > 0 && s[0] == '+' {
        s.drop_first()
    } else {
        s
    };
    if body.len() > 0 && all_digits(body) {
        Some(nat_of(body))
    } else {
        None
    }
}

/// The whole number that `s` writes, if it is at most `max`.
pub open spec fn parsed_upto(s: Seq<char>, max: nat) -> Option<nat> {
    match parsed_nat(s) {
        Some(n) => if n <= max {
            Some(n)
        } else {
            None
        },
        None => None,
    }
}

/// Digits write digits, and write the number they came from.
pub proof fn lemma_digits(n: nat)
    ensures
        digits(n).len() > 0,
        all_digits(digits(n)),
        nat_of(digits(n)) == n,
        n > 0 ==> digits(n)[0] != '0',
    decreases n,
{
    reveal_with_fuel(nat_of, 2);
    if n < 10 {
        let s = digits(n);
        assert(s.drop_last() =~= Seq::<char>::empty());
        assert(s.last() == digit_char(n));
    } else {
        lemma_digits(n / 10);
        let s = digits(n);
        assert(s.drop_last() =~= digits(n / 10));
        assert(s.last() == digit_char(n % 10));
        assert(digits(n / 10)[0] == s[0]);
    }
}

/// A whole number's text reads back as that number.
pub proof fn law_number_round_trips(n: nat, max: nat)
    requires
        n <= max,
    ensures
        parsed_upto(digits(n), max) == Some(n),
{
    lemma_digits(n);
    assert(is_digit(digits(n)[0]));
}

/// A longer row of digits writes no smaller number.
pub proof fn lemma_nat_of_prefix(s: Seq<char>, k: int)
    requires
        0 <= k <= s.len(),
    ensures
        nat_of(s.take(k)) <= nat_of(s),
    decreases s.len() - k,
{
    if k == s.len() {
        assert(s.take(k) =~= s);
    } else {
        lemma_nat_of_prefix(s, k + 1);
        assert(s.take(k + 1).drop_last() =~= s.take(k));
    }
}

/// `n` in decimal.
pub fn print(n: u128) -> (out: Vec<char>)
    ensures
        out@ == digits(n as nat),
    decreases n,
{
    if n < 10 {
        let mut out: Vec<char> = Vec::new();
        out.push((48u8 + n as u8) as char);
        assert(out@ =~= digits(n as nat));
        out
    } else {
        let mut out = print(n / 10);
        out.push((48u8 + (n % 10) as u8) as char);
        out
    }
}

/// `n` in decimal, with a sign where it is negative.
pub fn print_signed(n: i64) -> (out: Vec<char>)
    ensures
        out@ == signed_digits(n as int),
{
    if n < 0 {
        let mut out: Vec<char> = Vec::new();
        out.push('-');
        let mut rest = print((-(n as i128)) as u128);
        out.append(&mut rest);
        out
    } else {
        print(n as u128)
    }
}

pub fn digit(c: char) -> (r: bool)
    ensures
        r == is_digit(c),
{
    '0' <= c && c <= '9'
}

pub fn value_of(c: char) -> (r: u128)
    requires
        is_digit(c),
    ensures
        r == digit_value(c),
        r < 10,
{
    (c as u32 - '0' as u32) as u128
}

/// The number that a row of digits writes, if it is at most `max`.
pub fn read_digits(s: &[char], max: u128) -> (r: Option<u128>)
    requires
        all_digits(s@),
        max <= 0x0fff_ffff_ffff_ffff_ffff_ffff_ffff_ffff,
    ensures
        match r {
            Some(n) => n == nat_of(s@) && n <= max,
            None => nat_of(s@) > max,
        },
{
    let mut n: u128 = 0;
    let mut i: usize = 0;
    while i < s.len()
        invariant
            i <= s@.len(),
            all_digits(s@),
            max <= 0x0fff_ffff_ffff_ffff_ffff_ffff_ffff_ffff,
            n <= max,
            n == nat_of(s@.take(i as int)),
        decreases s@.len() - i,
    {
        proof {
            assert(s@.take(i as int + 1).drop_last() =~= s@.take(i as int));
            assert(s@.take(i as int + 1).last() == s@[i as int]);
        }
        n = 10 * n + value_of(s[i]);
        i = i + 1;
        if n > max {
            proof {
                lemma_nat_of_prefix(s@, i as int);
            }
            return None;
        }
    }
    assert(s@.take(i as int) =~= s@);
    Some(n)
}

/// Whether `s` holds digits only.
pub fn only_digits(s: &[char]) -> (r: bool)
    ensures
        r == all_digits(s@),
{
    let mut i: usize = 0;
    while i < s.len()
        invariant
            i <= s@.len(),
            forall|k: int| 0 <= k < i ==> is_digit(#[trigger] s@[k]),
        decreases s@.len() - i,
    {
        if !digit(s[i]) {
            return false;
        }
        i = i + 1;
    }
    true
}

/// The whole number that `s` writes, if it is at most `max`.
pub fn parse_upto(s: &[char], max: u64) -> (r: Option<u64>)
    ensures
        match r {
            Some(n) => parsed_upto(s@, max as nat) == Some(n as nat),
            None => parsed_upto(s@, max as nat) is None,
        },
        r is Some ==> r->0 <= max,
{
    let body: &[char] = if s.len() > 0 && s[0] == '+' {
        let rest = vstd::slice::slice_subrange(s, 1, s.len());
        assert(rest@ =~= s@.drop_first());
        rest
    } else {
        s
    };
    if body.len() == 0 || !only_digits(body) {
        return None;
    }
    match read_digits(body, max as u128) {
        Some(n) => Some(n as u64),
        None => None,
    }
}

/// `n` as a string.
pub fn number_string(n: u64) -> (out: String)
    ensures
        out@ == digits(n as nat),
{
    let chars = print(n as u128);
    string_of(chars.as_slice())
}

} // verus!
