//! Times as people write them: `1:12:44`, `90`, `+30`.

use vstd::prelude::*;

use crate::fixed::{pad, padded, parse_fixed, parsed, rounded, signed, unsigned_value, Fixed, LIMIT};
use crate::number::{all_digits, digits, is_digit, lemma_digits, nat_of, pow10, print};
use crate::text::{
    add_chars, add_text, chars_of, find, lemma_find_is, lowered, split, split_at_char, string_of,
    trim, trimmed, views,
};

verus! {

/// Hours, minutes and seconds; the hours only where there are any.
pub open spec fn clock_text(total: nat) -> Seq<char> {
    let h = total / 3600;
    let m = (total % 3600) / 60;
    let s = total % 60;
    if h > 0 {
        digits(h) + seq![':'] + padded(m, 2) + seq![':'] + padded(s, 2)
    } else {
        digits(m) + seq![':'] + padded(s, 2)
    }
}

/// Whole seconds, rounded half up, no more than 64 bits hold.
pub open spec fn whole_seconds(n: i128) -> nat {
    let r = (n + 500_000_000) / 1_000_000_000;
    if r > u64::MAX {
        u64::MAX as nat
    } else {
        r as nat
    }
}

/// A duration as text; dashes for what is negative or no finite number.
pub open spec fn duration_text(secs: Fixed) -> Seq<char> {
    match secs {
        Fixed::Nanos(n) => if n >= 0 {
            clock_text(whole_seconds(n))
        } else {
            "--:--"@
        },
        _ => "--:--"@,
    }
}

/// Seconds rendered as `H:MM:SS` or `M:SS`: a two-hour set needs the hours.
pub fn format_duration(secs: Fixed) -> (r: String)
    ensures
        r@ == duration_text(secs),
{
    let n: i128 = match secs {
        Fixed::Nanos(n) => n,
        _ => {
            return "--:--".to_owned();
        },
    };
    if n < 0 {
        return "--:--".to_owned();
    }
    let rounded_up: u128 = (n as u128 + 500_000_000) / 1_000_000_000;
    let total: u128 = if rounded_up > u64::MAX as u128 {
        u64::MAX as u128
    } else {
        rounded_up
    };
    let h: u128 = total / 3600;
    let m: u128 = (total % 3600) / 60;
    let s: u128 = total % 60;
    let mut out: Vec<char> = if h > 0 {
        let mut out = print(h);
        out.push(':');
        let mid = pad(m, 2);
        add_chars(&mut out, mid.as_slice());
        out
    } else {
        print(m)
    };
    out.push(':');
    let low = pad(s, 2);
    add_chars(&mut out, low.as_slice());
    assert(out@ =~= clock_text(total as nat));
    string_of(out.as_slice())
}

/// A duration, or dashes where it is not known.
pub open spec fn optional_duration_text(secs: Option<Fixed>) -> Seq<char> {
    match secs {
        Some(s) => duration_text(s),
        None => "--:--"@,
    }
}

/// A duration, or dashes where it is not known.
pub fn format_optional(secs: Option<Fixed>) -> (r: String)
    ensures
        r@ == optional_duration_text(secs),
{
    match secs {
        Some(s) => format_duration(s),
        None => "--:--".to_owned(),
    }
}

/// Parts from the largest unit down, each sixty of the next.
pub open spec fn sixties(parts: Seq<Seq<char>>) -> Option<nat>
    decreases parts.len(),
{
    if parts.len() == 0 {
        Some(0)
    } else {
        match (sixties(parts.drop_last()), parsed(trimmed(parts.last()))) {
            (Some(t), Some(Fixed::Nanos(v))) => if v >= 0 && t * 60 + v <= LIMIT {
                Some((t * 60 + v) as nat)
            } else {
                None
            },
            _ => None,
        }
    }
}

/// The time that a text writes, in billionths of a second.
pub open spec fn timecode(s: Seq<char>) -> Option<nat> {
    if s.len() == 0 {
        None
    } else {
        sixties(split(s, ':'))
    }
}

/// Once the parts so far are no time, more of them are none either.
proof fn lemma_sixties_prefix(parts: Seq<Seq<char>>, k: int)
    requires
        0 <= k <= parts.len(),
        sixties(parts.take(k)) is None,
    ensures
        sixties(parts) is None,
    decreases parts.len() - k,
{
    if k == parts.len() {
        assert(parts.take(k) =~= parts);
    } else {
        assert(parts.take(k + 1).drop_last() =~= parts.take(k));
        lemma_sixties_prefix(parts, k + 1);
    }
}

/// `SS`, `MM:SS`, or `HH:MM:SS` in seconds.
pub fn parse_timecode(input: &str) -> (r: Option<Fixed>)
    ensures
        match r {
            Some(t) => t is Nanos && 0 <= t->Nanos_0 <= LIMIT && timecode(input@) == Some(
                t->Nanos_0 as nat,
            ),
            None => timecode(input@) is None,
        },
{
    let chars = chars_of(input);
    if chars.len() == 0 {
        return None;
    }
    let parts = split_at_char(chars.as_slice(), ':');
    let ghost all = views(parts@);
    let mut total: i128 = 0;
    let mut i: usize = 0;
    while i < parts.len()
        invariant
            i <= parts@.len(),
            all == views(parts@),
            timecode(input@) == sixties(all),
            0 <= total <= LIMIT,
            sixties(all.take(i as int)) == Some(total as nat),
        decreases parts@.len() - i,
    {
        proof {
            assert(all.take(i as int + 1).drop_last() =~= all.take(i as int));
            assert(all.take(i as int + 1).last() == parts@[i as int]@);
            if sixties(all.take(i as int + 1)) is None {
                lemma_sixties_prefix(all, i as int + 1);
            }
        }
        let part = trim(parts[i].as_slice());
        let value: i128 = match parse_fixed(part) {
            Some(Fixed::Nanos(v)) => v,
            _ => {
                return None;
            },
        };
        if value < 0 || value > LIMIT as i128 || total > LIMIT as i128 / 60 || total * 60 + value
            > LIMIT as i128 {
            return None;
        }
        total = total * 60 + value;
        i = i + 1;
    }
    assert(all.take(i as int) =~= all);
    Some(Fixed::Nanos(total))
}

/// Where a seek goes.
#[derive(Debug, Clone, Copy, PartialEq, Eq, Structural)]
pub enum Seek {
    Absolute(Fixed),
    Relative(Fixed),
}

/// A time, or an offset from where playback is where a sign stands before it.
pub open spec fn seek_of(input: Seq<char>) -> Option<Seek> {
    let s = trimmed(input);
    if s.len() > 0 && s[0] == '+' {
        match timecode(s.drop_first()) {
            Some(t) => Some(Seek::Relative(Fixed::Nanos(t as i128))),
            None => None,
        }
    } else if s.len() > 0 && s[0] == '-' {
        match timecode(s.drop_first()) {
            Some(t) => Some(Seek::Relative(Fixed::Nanos((-(t as int)) as i128))),
            None => None,
        }
    } else {
        match timecode(s) {
            Some(t) => Some(Seek::Absolute(Fixed::Nanos(t as i128))),
            None => None,
        }
    }
}

/// What is said of an input that is no time.
pub open spec fn seek_complaint(input: Seq<char>) -> Seq<char> {
    "could not read \""@ + input + "\" as a time or offset"@
}

/// Parse `+30`, `-1:00`, `90`, `12:30` or `1:12:44`. Fails with a message.
pub fn parse_seek(input: &str) -> (r: Result<Seek, String>)
    ensures
        match r {
            Ok(seek) => seek_of(input@) == Some(seek),
            Err(message) => seek_of(input@) is None && message@ == seek_complaint(input@),
        },
{
    let chars = chars_of(input);
    let s = trim(chars.as_slice());
    let has_sign: bool = s.len() > 0 && (s[0] == '+' || s[0] == '-');
    let body: &[char] = if has_sign {
        let rest = vstd::slice::slice_subrange(s, 1, s.len());
        assert(rest@ =~= s@.drop_first());
        rest
    } else {
        s
    };
    let text = string_of(body);
    match parse_timecode(text.as_str()) {
        Some(Fixed::Nanos(t)) => Ok(
            if !has_sign {
                Seek::Absolute(Fixed::Nanos(t))
            } else if s[0] == '+' {
                Seek::Relative(Fixed::Nanos(t))
            } else {
                Seek::Relative(Fixed::Nanos(-t))
            },
        ),
        _ => {
            let mut out = chars_of("could not read \"");
            add_text(&mut out, input);
            add_text(&mut out, "\" as a time or offset");
            Err(string_of(out.as_slice()))
        },
    }
}

/// A row of digits is a whole number of seconds.
pub proof fn lemma_whole_part(d: Seq<char>)
    requires
        d.len() > 0,
        all_digits(d),
        nat_of(d) * 1_000_000_000 <= LIMIT,
    ensures
        parsed(trimmed(d)) == Some(Fixed::Nanos((nat_of(d) * 1_000_000_000) as i128)),
        find(d, ':') == d.len(),
{
    assert(is_digit(d[0]) && is_digit(d[d.len() - 1]));
    crate::text::lemma_trimmed_is(d);
    let low = lowered(d);
    assert forall|i: int| 0 <= i < d.len() implies #[trigger] low[i] == d[i] && is_digit(
        d[i],
    ) by {}
    assert(low =~= d);
    reveal_strlit("inf");
    reveal_strlit("infinity");
    reveal_strlit("nan");
    assert("inf"@[0] == 'i');
    assert("infinity"@[0] == 'i');
    assert("nan"@[0] == 'n');
    lemma_find_is(low, 'e', d.len() as int);
    lemma_find_is(d, '.', d.len() as int);
    lemma_find_is(d, ':', d.len() as int);
    assert(d.take(d.len() as int) =~= d);
    assert(d + Seq::<char>::empty() =~= d);
    assert(pow10(9) == 1_000_000_000) by {
        reveal_with_fuel(pow10, 10);
    }
    assert(rounded(d, d.len() + 9int) == nat_of(d) * pow10(9));
    assert(unsigned_value(d, false) == Some(signed(nat_of(d) * pow10(9), false)));
}

/// One part in front of the rest.
proof fn lemma_split_first(d: Seq<char>, rest: Seq<char>)
    requires
        find(d, ':') == d.len(),
    ensures
        split(d + seq![':'] + rest, ':') == seq![d] + split(rest, ':'),
{
    let s = d + seq![':'] + rest;
    crate::text::lemma_find(d, ':');
    assert forall|i: int| 0 <= i < d.len() implies s[i] != ':' by {
        assert(s[i] == d[i]);
    }
    lemma_find_is(s, ':', d.len() as int);
    assert(s.take(d.len() as int) =~= d);
    assert(s.skip(d.len() as int + 1) =~= rest);
}

/// Two digits of a number below a hundred.
proof fn lemma_two(n: nat)
    requires
        n < 100,
    ensures
        padded(n, 2).len() == 2,
        all_digits(padded(n, 2)),
        nat_of(padded(n, 2)) == n,
{
    reveal_with_fuel(padded, 3);
    reveal_with_fuel(nat_of, 3);
    let s = padded(n, 2);
    assert(s.drop_last().drop_last() =~= Seq::<char>::empty());
    assert(s.len() == 2);
    assert(s.last() == crate::number::digit_char(n % 10));
    assert(s.drop_last().last() == crate::number::digit_char((n / 10) % 10));
    assert(s[0] == crate::number::digit_char((n / 10) % 10));
    assert(s[1] == crate::number::digit_char(n % 10));
}

/// One more part after the others.
proof fn lemma_sixties_step(parts: Seq<Seq<char>>, d: Seq<char>, t: nat)
    requires
        sixties(parts) == Some(t),
        d.len() > 0,
        all_digits(d),
        t * 60 + nat_of(d) * 1_000_000_000 <= LIMIT,
    ensures
        sixties(parts.push(d)) == Some(t * 60 + nat_of(d) * 1_000_000_000),
        find(d, ':') == d.len(),
{
    lemma_whole_part(d);
    assert(parts.push(d).drop_last() =~= parts);
}

/// Minutes and seconds.
pub proof fn lemma_two_parts(d: Seq<char>, low: Seq<char>)
    requires
        d.len() > 0,
        all_digits(d),
        low.len() > 0,
        all_digits(low),
        nat_of(d) <= u64::MAX,
        nat_of(low) <= u64::MAX,
    ensures
        timecode(d + seq![':'] + low) == Some((nat_of(d) * 60 + nat_of(low)) * 1_000_000_000),
{
    let none = Seq::<Seq<char>>::empty();
    assert(sixties(none) == Some(0nat));
    lemma_sixties_step(none, d, 0);
    lemma_sixties_step(none.push(d), low, nat_of(d) * 1_000_000_000);
    lemma_split_first(d, low);
    assert(split(low, ':') =~= none.push(low));
    assert(split(d + seq![':'] + low, ':') =~= none.push(d).push(low));
}

/// Hours, minutes and seconds.
pub proof fn lemma_three_parts(d: Seq<char>, mid: Seq<char>, low: Seq<char>)
    requires
        d.len() > 0,
        all_digits(d),
        mid.len() > 0,
        all_digits(mid),
        low.len() > 0,
        all_digits(low),
        nat_of(d) <= u64::MAX,
        nat_of(mid) <= u64::MAX,
        nat_of(low) <= u64::MAX,
    ensures
        timecode(d + seq![':'] + (mid + seq![':'] + low)) == Some(
            ((nat_of(d) * 60 + nat_of(mid)) * 60 + nat_of(low)) * 1_000_000_000,
        ),
{
    let none = Seq::<Seq<char>>::empty();
    let text = d + seq![':'] + (mid + seq![':'] + low);
    assert(sixties(none) == Some(0nat));
    lemma_sixties_step(none, d, 0);
    lemma_sixties_step(none.push(d), mid, nat_of(d) * 1_000_000_000);
    lemma_sixties_step(
        none.push(d).push(mid),
        low,
        (nat_of(d) * 60 + nat_of(mid)) * 1_000_000_000,
    );
    lemma_split_first(mid, low);
    lemma_split_first(d, mid + seq![':'] + low);
    assert(split(low, ':') =~= none.push(low));
    assert(split(text, ':') =~= none.push(d).push(mid).push(low));
}

/// Hours, minutes and seconds make up the whole.
proof fn lemma_clock_parts(total: nat)
    ensures
        total == ((total / 3600) * 60 + (total % 3600) / 60) * 60 + total % 60,
        (total % 3600) / 60 < 60,
        total % 60 < 60,
        total / 3600 <= total,
{
}

proof fn lemma_clock_text_reads(h: nat, m: nat, s: nat)
    requires
        h <= u64::MAX,
        m < 60,
        s < 60,
    ensures
        h > 0 ==> timecode(
            digits(h) + seq![':'] + padded(m, 2) + seq![':'] + padded(s, 2),
        ) == Some(((h * 60 + m) * 60 + s) * 1_000_000_000),
        timecode(digits(m) + seq![':'] + padded(s, 2)) == Some((m * 60 + s) * 1_000_000_000),
{
    lemma_two(s);
    lemma_two(m);
    lemma_digits(h);
    lemma_digits(m);
    let low = padded(s, 2);
    lemma_two_parts(digits(m), low);
    if h > 0 {
        lemma_three_parts(digits(h), padded(m, 2), low);
        assert(digits(h) + seq![':'] + padded(m, 2) + seq![':'] + low =~= digits(h) + seq![':']
            + (padded(m, 2) + seq![':'] + low));
    }
}

/// A whole number of seconds, written as a duration, reads back as that time.
pub proof fn law_duration_reads_back(total: nat)
    requires
        total <= u64::MAX,
    ensures
        duration_text(Fixed::Nanos((total * 1_000_000_000) as i128)) == clock_text(total),
        timecode(clock_text(total)) == Some(total * 1_000_000_000),
{
    assert(whole_seconds((total * 1_000_000_000) as i128) == total);
    lemma_clock_parts(total);
    lemma_clock_text_reads(total / 3600, (total % 3600) / 60, total % 60);
}

} // verus!
