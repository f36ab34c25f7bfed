//! What holds of texts: trimming, case, order, pieces, and times as texts.

use vstd::prelude::*;

use crate::fixed::{padded, parsed, Fixed, LIMIT};
use crate::number::{digits, lemma_digits};
use crate::text::{
    before, find, is_space, joined, lemma_find, lowered, rfind, split, trim_end, trim_start,
    trimmed,
};
use crate::timecode::{
    duration_text, lemma_three_parts, lemma_two_parts, seek_of, sixties, timecode, whole_seconds,
    Seek,
};

verus! {

/// Nothing but white space.
pub open spec fn blank(s: Seq<char>) -> bool {
    forall|i: int| 0 <= i < s.len() ==> is_space(#[trigger] s[i])
}

proof fn lemma_trim_start(s: Seq<char>) -> (i: int)
    ensures
        0 <= i <= s.len(),
        trim_start(s) == s.skip(i),
        blank(s.take(i)),
        i < s.len() ==> !is_space(s[i]),
    decreases s.len(),
{
    if s.len() > 0 && is_space(s[0]) {
        let rest = s.drop_first();
        let k = lemma_trim_start(rest);
        assert(rest.skip(k) =~= s.skip(k + 1));
        assert forall|j: int| 0 <= j < k + 1 implies is_space(#[trigger] s.take(k + 1)[j]) by {
            if j > 0 {
                assert(rest.take(k)[j - 1] == s[j]);
            }
        }
        if k < rest.len() {
            assert(rest[k] == s[k + 1]);
        }
        k + 1
    } else {
        assert(s.skip(0) =~= s);
        0
    }
}

proof fn lemma_trim_end(s: Seq<char>) -> (j: int)
    ensures
        0 <= j <= s.len(),
        trim_end(s) == s.take(j),
        blank(s.skip(j)),
        j > 0 ==> !is_space(s[j - 1]),
    decreases s.len(),
{
    if s.len() > 0 && is_space(s.last()) {
        let rest = s.drop_last();
        let k = lemma_trim_end(rest);
        assert(rest.take(k) =~= s.take(k));
        assert forall|i: int| 0 <= i < s.len() - k implies is_space(#[trigger] s.skip(k)[i]) by {
            if i < rest.len() - k {
                assert(rest.skip(k)[i] == s[k + i]);
            }
        }
        k
    } else {
        assert(s.take(s.len() as int) =~= s);
        s.len() as int
    }
}

/// Trimming takes all white space from both ends and nothing else, whatever
/// stands between.
pub proof fn law_trimming(a: Seq<char>, s: Seq<char>, b: Seq<char>)
    requires
        blank(a),
        blank(b),
        s.len() > 0 ==> !is_space(s[0]) && !is_space(s.last()),
    ensures
        trimmed(a + s + b) == s,
{
    let t = a + s + b;
    let i = lemma_trim_start(t);
    let u = t.skip(i);
    if s.len() > 0 {
        if i < a.len() {
            assert(is_space(a[i]) && t[i] == a[i]);
        } else if i > a.len() {
            assert(t.take(i)[a.len() as int] == s[0]);
        }
        assert(u =~= s + b);
        let j = lemma_trim_end(u);
        if j < s.len() {
            assert(u.skip(j)[s.len() - 1 - j] == s.last());
        } else if j > s.len() {
            assert(is_space(b[j - 1 - s.len()]) && u[j - 1] == b[j - 1 - s.len()]);
        }
        assert(u.take(j) =~= s);
    } else {
        assert(t =~= a + b);
        if i < t.len() {
            assert(t[i] == if i < a.len() {
                a[i]
            } else {
                b[i - a.len()]
            });
        }
        assert(u =~= s);
        assert(trim_end(u) == u);
    }
}

/// Trimming leaves something exactly where there is more than white space.
pub proof fn law_blank_texts(s: Seq<char>)
    ensures
        trimmed(s).len() == 0 <==> blank(s),
{
    let i = lemma_trim_start(s);
    let u = s.skip(i);
    let j = lemma_trim_end(u);
    if blank(s) {
        if i < s.len() {
            assert(is_space(s[i]));
        }
    } else {
        if trimmed(s).len() == 0 {
            assert(u.take(j).len() == j);
            assert(j == 0);
            if u.len() > 0 {
                assert(u.skip(j)[0] == s[i]);
            }
            assert(s.take(i) =~= s);
        }
    }
}

/// White space is none of the characters that words are made of.
pub proof fn law_white_space(c: char)
    ensures
        '!' <= c <= '~' ==> !is_space(c),
        c == ' ' || c == '\t' || c == '\n' || c == '\r' ==> is_space(c),
{
}

/// Lower case moves the letters from `A` to `Z` and nothing else; what is in lower
/// case stays as it is.
pub proof fn law_lower_case(s: Seq<char>, i: int)
    requires
        0 <= i < s.len(),
    ensures
        lowered(s).len() == s.len(),
        'A' <= s[i] <= 'Z' ==> lowered(s)[i] as int == s[i] as int + ('a' as int - 'A' as int),
        !('A' <= s[i] <= 'Z') ==> lowered(s)[i] == s[i],
        lowered(lowered(s)) == lowered(s),
{
    assert forall|k: int| 0 <= k < s.len() implies lowered(lowered(s))[k] == #[trigger] lowered(
        s,
    )[k] by {
        if 'A' <= s[k] <= 'Z' {
            assert(((s[k] as u8) + 32) as char as int == s[k] as int + 32);
        }
    }
    assert(lowered(lowered(s)) =~= lowered(s));
    if 'A' <= s[i] <= 'Z' {
        assert(((s[i] as u8) + 32) as char as int == s[i] as int + 32);
    }
}

/// The last place of a character: it stands there, and nowhere behind.
pub proof fn law_last_place(a: Seq<char>, c: char, b: Seq<char>)
    requires
        !b.contains(c),
    ensures
        rfind(a + seq![c] + b, c) == a.len(),
        rfind(b, c) == -1,
    decreases b.len(),
{
    let s = a + seq![c] + b;
    if b.len() == 0 {
        assert(s.last() == c);
    } else {
        assert(b.contains(b.last()));
        let rest = b.drop_last();
        assert forall|x: char| rest.contains(x) implies b.contains(x) by {
            let k = choose|k: int| 0 <= k < rest.len() && rest[k] == x;
            assert(b[k] == x);
        }
        law_last_place(a, c, rest);
        assert(s.last() == b.last());
        assert(s.drop_last() =~= a + seq![c] + rest);
    }
}

proof fn lemma_joined_front(first: Seq<char>, rest: Seq<Seq<char>>, sep: Seq<char>)
    requires
        rest.len() > 0,
    ensures
        joined(seq![first] + rest, sep) == first + sep + joined(rest, sep),
    decreases rest.len(),
{
    let all = seq![first] + rest;
    assert(all.last() == rest.last());
    if rest.len() == 1 {
        assert(all.drop_last() =~= seq![first]);
        assert(joined(seq![first], sep) == first);
        assert(joined(rest, sep) == rest[0]);
        assert(joined(all, sep) == first + sep + rest[0]);
    } else {
        assert(all.drop_last() =~= seq![first] + rest.drop_last());
        lemma_joined_front(first, rest.drop_last(), sep);
        assert(joined(all, sep) == first + sep + joined(rest.drop_last(), sep) + sep
            + rest.last());
        assert(joined(rest, sep) == joined(rest.drop_last(), sep) + sep + rest.last());
        assert(joined(all, sep) =~= first + sep + joined(rest, sep));
    }
}

/// The pieces of a text, put together again, are the text, and none holds what the
/// text was split at.
pub proof fn law_pieces_make_the_text(s: Seq<char>, c: char)
    ensures
        split(s, c).len() > 0,
        joined(split(s, c), seq![c]) == s,
        forall|i: int| 0 <= i < split(s, c).len() ==> !(#[trigger] split(s, c)[i]).contains(c),
    decreases s.len(),
{
    lemma_find(s, c);
    let k = find(s, c);
    if k < s.len() {
        let rest = s.skip(k + 1);
        law_pieces_make_the_text(rest, c);
        lemma_joined_front(s.take(k), split(rest, c), seq![c]);
        assert(s =~= s.take(k) + seq![c] + rest);
        assert forall|i: int| 0 <= i < split(s, c).len() implies !(#[trigger] split(
            s,
            c,
        )[i]).contains(c) by {
            if i > 0 {
                assert(split(s, c)[i] == split(rest, c)[i - 1]);
            }
        }
    }
}

/// The first character in which two texts differ decides which stands before the
/// other; where there is none, the shorter does.
pub proof fn law_order_of_texts(a: Seq<char>, b: Seq<char>, i: int)
    requires
        0 <= i <= a.len(),
        i <= b.len(),
        forall|k: int| 0 <= k < i ==> a[k] == b[k],
    ensures
        i < a.len() && i < b.len() && a[i] != b[i] ==> before(a, b) == (a[i] < b[i]),
        i == a.len() ==> before(a, b) == (a.len() < b.len()),
        i == b.len() ==> !before(a, b),
    decreases i,
{
    if i > 0 {
        let x = a.drop_first();
        let y = b.drop_first();
        assert forall|k: int| 0 <= k < i - 1 implies x[k] == y[k] by {
            assert(a[k + 1] == b[k + 1]);
        }
        law_order_of_texts(x, y, i - 1);
    }
}

/// A number grows by one digit at its end with each power of ten.
pub proof fn law_digits_are_decimal(n: nat, d: nat)
    requires
        d < 10,
    ensures
        digits(d).len() == 1,
        digits(d)[0] as int == '0' as int + d,
        n > 0 ==> digits(10 * n + d) == digits(n) + digits(d),
{
    if n > 0 {
        assert((10 * n + d) / 10 == n && (10 * n + d) % 10 == d);
        assert(digits(10 * n + d) =~= digits(n) + digits(d));
    }
}

/// A time as a clock shows it: to the nearest second, hours only where there are
/// any, and two digits for whatever is not in front.
pub proof fn law_clock(n: i128, h: nat, m: nat, s: nat)
    requires
        m < 60,
        s < 60,
        h * 3600 + m * 60 + s <= u64::MAX,
        n >= 0,
        -500_000_000 <= n - (h * 3600 + m * 60 + s) * 1_000_000_000 < 500_000_000,
    ensures
        h > 0 ==> duration_text(Fixed::Nanos(n)) == digits(h) + ":"@ + padded(m, 2) + ":"@
            + padded(s, 2),
        h == 0 ==> duration_text(Fixed::Nanos(n)) == digits(m) + ":"@ + padded(s, 2),
{
    reveal_strlit(":");
    let total = h * 3600 + m * 60 + s;
    assert(":"@ =~= seq![':']);
    assert(whole_seconds(n) == total);
    assert(total / 3600 == h);
    assert((total % 3600) / 60 == m);
    assert(total % 60 == s);
}

/// What is no time is shown as dashes.
pub proof fn law_no_clock(t: Fixed)
    requires
        t matches Fixed::Nanos(n) ==> n < 0,
    ensures
        duration_text(t) == "--:--"@,
{
}

/// Hours, minutes and seconds: each part counts sixty of what follows it.
pub proof fn law_times_are_in_sixties(h: u64, m: u64, s: u64)
    ensures
        timecode(digits(m as nat) + ":"@ + digits(s as nat)) == Some(
            ((m * 60 + s) * 1_000_000_000) as nat,
        ),
        timecode(digits(h as nat) + ":"@ + digits(m as nat) + ":"@ + digits(s as nat)) == Some(
            ((h * 3600 + m * 60 + s) * 1_000_000_000) as nat,
        ),
{
    reveal_strlit(":");
    assert(":"@ =~= seq![':']);
    lemma_digits(h as nat);
    lemma_digits(m as nat);
    lemma_digits(s as nat);
    lemma_two_parts(digits(m as nat), digits(s as nat));
    lemma_three_parts(digits(h as nat), digits(m as nat), digits(s as nat));
    assert(digits(h as nat) + ":"@ + digits(m as nat) + ":"@ + digits(s as nat) =~= digits(
        h as nat,
    ) + seq![':'] + (digits(m as nat) + seq![':'] + digits(s as nat)));
}

/// A text that is one number of seconds is that time, if it is not negative; what
/// is no number is no time.
pub proof fn law_seconds_alone(s: Seq<char>)
    requires
        !s.contains(':'),
        s.len() > 0,
    ensures
        match parsed(trimmed(s)) {
            Some(Fixed::Nanos(v)) => timecode(s) == if 0 <= v <= LIMIT {
                Some(v as nat)
            } else {
                None
            },
            _ => timecode(s) is None,
        },
        timecode(Seq::empty()) is None,
{
    lemma_find(s, ':');
    let parts = split(s, ':');
    assert(parts =~= seq![s]);
    assert(parts.drop_last() =~= Seq::<Seq<char>>::empty());
    assert(sixties(parts.drop_last()) == Some(0nat));
}

/// A time to seek to stands alone; a sign makes it a distance, forward or back.
pub proof fn law_signs_of_a_seek(a: Seq<char>, t: Seq<char>, b: Seq<char>)
    requires
        blank(a),
        blank(b),
        t.len() > 0,
        !is_space(t[0]),
        !is_space(t.last()),
        t[0] != '+',
        t[0] != '-',
    ensures
        match timecode(t) {
            Some(n) => {
                &&& seek_of(a + t + b) == Some(Seek::Absolute(Fixed::Nanos(n as i128)))
                &&& seek_of(a + ("+"@ + t) + b) == Some(Seek::Relative(Fixed::Nanos(n as i128)))
                &&& seek_of(a + ("-"@ + t) + b) == Some(
                    Seek::Relative(Fixed::Nanos((-(n as int)) as i128)),
                )
            },
            None => {
                &&& seek_of(a + t + b) is None
                &&& seek_of(a + ("+"@ + t) + b) is None
                &&& seek_of(a + ("-"@ + t) + b) is None
            },
        },
{
    reveal_strlit("+");
    reveal_strlit("-");
    law_trimming(a, t, b);
    law_trimming(a, "+"@ + t, b);
    law_trimming(a, "-"@ + t, b);
    assert(("+"@ + t).drop_first() =~= t);
    assert(("-"@ + t).drop_first() =~= t);
}

} // verus!
