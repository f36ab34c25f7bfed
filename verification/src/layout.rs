//! Where and how large the video window is.

use vstd::arithmetic::power2::pow2;
use vstd::prelude::*;

use crate::binary::{distance, law_held_is_nearest, lemma_power_grows, of_nanos, Binary, HALF, TOP};
use crate::fixed::{
    decimal, fixed_chars, fixed_text, law_decimal_round_trips, lemma_decimal_shape,
    lemma_two_more_zeros, magnitude, pad, padded, parse_fixed, parsed, without_zeros, Fixed,
};
use crate::number::{
    all_digits, digits, is_digit, law_number_round_trips, lemma_digits, parse_upto, parsed_upto,
    print,
};
use crate::text::{
    add_chars, add_text, chars_of, find, find_char, lemma_find, lemma_find_is, lemma_trimmed_is,
    lower, lowered, reads, split, split_at_char, string_of, texts, trim, trimmed, views,
};

verus! {

/// Where and how large the video window is when it appears.
///
/// Height is never part of it: the window follows the video's aspect, so a
/// width is the whole size.
#[derive(Debug, Clone, Copy, PartialEq, Eq)]
pub enum VideoWindowLayout {
    /// A fraction of the screen's width, in (0, 1], placed by the system.
    ScreenFraction(Fixed),
    /// As large as fits the screen, edge to edge in width or height, whichever
    /// the video's aspect reaches first, but still a window.
    Fill,
    /// The whole screen.
    Fullscreen,
    /// A width in physical pixels; where its top-left corner goes, in physical
    /// pixels from the top-left of the screen's usable area; and which screen,
    /// by index.
    Custom { width: u32, position: Option<(u32, u32)>, screen: Option<u32> },
}

/// A hundred percent, in billionths of a percent.
pub const FULL: i128 = 100_000_000_000;

/// The 32-bit whole number that `s` writes, white space around it forgiven.
pub open spec fn pixels(s: Seq<char>) -> Option<u32> {
    match parsed_upto(trimmed(s), u32::MAX as nat) {
        Some(n) => Some(n as u32),
        None => None,
    }
}

/// A percentage above zero and at most a hundred, as a fraction.
pub open spec fn fraction_of(percent: Seq<char>) -> Option<Fixed> {
    match parsed(trimmed(percent)) {
        Some(Fixed::Nanos(p)) => if 0 < p <= FULL {
            Some(Fixed::Nanos((p / 100) as i128))
        } else {
            None
        },
        _ => None,
    }
}

/// A width, and a position where both its axes are given.
pub open spec fn placed(parts: Seq<Seq<char>>, screen: Option<u32>) -> Option<VideoWindowLayout> {
    match pixels(parts[0]) {
        Some(width) => if width == 0 {
            None
        } else if parts.len() == 1 {
            Some(VideoWindowLayout::Custom { width, position: None, screen })
        } else if parts.len() == 3 {
            match (pixels(parts[1]), pixels(parts[2])) {
                (Some(x), Some(y)) => Some(
                    VideoWindowLayout::Custom { width, position: Some((x, y)), screen },
                ),
                _ => None,
            }
        } else {
            None
        },
        None => None,
    }
}

/// A layout without what follows the slash.
pub open spec fn headed(head: Seq<char>, screen: Option<u32>) -> Option<VideoWindowLayout> {
    if lowered(head) == "fullscreen"@ {
        Some(VideoWindowLayout::Fullscreen)
    } else if head.len() > 0 && head.last() == '%' {
        match fraction_of(head.drop_last()) {
            Some(f) => Some(VideoWindowLayout::ScreenFraction(f)),
            None => None,
        }
    } else {
        placed(split(head, '+'), screen)
    }
}

/// The layout that a settings text names.
pub open spec fn layout_of(spec_text: Seq<char>) -> Option<VideoWindowLayout> {
    let s = trimmed(spec_text);
    let k = find(s, '/');
    if lowered(s) == "fill"@ {
        Some(VideoWindowLayout::Fill)
    } else if k < s.len() {
        match pixels(s.skip(k + 1)) {
            Some(screen) => headed(trimmed(s.take(k)), Some(screen)),
            None => None,
        }
    } else {
        headed(s, None)
    }
}

/// A magnitude of billionths as percents, with no more decimals than it needs.
pub open spec fn exact_percents(m: nat) -> Seq<char> {
    if m % 10_000_000 == 0 {
        digits(m / 10_000_000)
    } else {
        digits(m / 10_000_000) + seq!['.'] + without_zeros(padded(m % 10_000_000, 7))
    }
}

/// A fraction as a number of percents.
pub open spec fn percent_text(fraction: Fixed) -> Seq<char> {
    match fraction {
        Fixed::Nanos(n) => if n < 0 {
            seq!['-'] + exact_percents((-n) as nat)
        } else {
            exact_percents(n as nat)
        },
        _ => fixed_text(fraction),
    }
}

/// A position after a width.
pub open spec fn position_text(position: Option<(u32, u32)>) -> Seq<char> {
    match position {
        Some((x, y)) => seq!['+'] + digits(x as nat) + seq!['+'] + digits(y as nat),
        None => Seq::empty(),
    }
}

/// A screen after a width or a position.
pub open spec fn screen_text(screen: Option<u32>) -> Seq<char> {
    match screen {
        Some(i) => seq!['/'] + digits(i as nat),
        None => Seq::empty(),
    }
}

/// The settings text of a layout.
pub open spec fn layout_text(layout: VideoWindowLayout) -> Seq<char> {
    match layout {
        VideoWindowLayout::ScreenFraction(f) => percent_text(f) + seq!['%'],
        VideoWindowLayout::Fill => "fill"@,
        VideoWindowLayout::Fullscreen => "fullscreen"@,
        VideoWindowLayout::Custom { width, position, screen } => digits(width as nat)
            + position_text(position) + screen_text(screen),
    }
}

fn read_pixels(s: &[char]) -> (r: Option<u32>)
    ensures
        r == pixels(s@),
{
    match parse_upto(trim(s), u32::MAX as u64) {
        Some(n) => Some(n as u32),
        None => None,
    }
}

fn read_fraction(percent: &[char]) -> (r: Option<Fixed>)
    ensures
        r == fraction_of(percent@),
{
    match parse_fixed(trim(percent)) {
        Some(Fixed::Nanos(p)) => if 0 < p && p <= FULL {
            Some(Fixed::Nanos(p / 100))
        } else {
            None
        },
        _ => None,
    }
}

fn read_head(head: &[char], screen: Option<u32>) -> (r: Option<VideoWindowLayout>)
    ensures
        r == headed(head@, screen),
{
    let low = lower(head);
    if reads(low.as_slice(), "fullscreen") {
        return Some(VideoWindowLayout::Fullscreen);
    }
    let n: usize = head.len();
    if n > 0 && head[n - 1] == '%' {
        let body = vstd::slice::slice_subrange(head, 0, n - 1);
        assert(body@ =~= head@.drop_last());
        return match read_fraction(body) {
            Some(f) => Some(VideoWindowLayout::ScreenFraction(f)),
            None => None,
        };
    }
    let parts = split_at_char(head, '+');
    assert(views(parts@) == split(head@, '+'));
    assert(parts@[0]@ == split(head@, '+')[0]);
    let width: u32 = match read_pixels(parts[0].as_slice()) {
        Some(w) => w,
        None => {
            return None;
        },
    };
    if width == 0 {
        return None;
    }
    if parts.len() == 1 {
        return Some(VideoWindowLayout::Custom { width, position: None, screen });
    }
    if parts.len() != 3 {
        return None;
    }
    assert(parts@[1]@ == split(head@, '+')[1]);
    assert(parts@[2]@ == split(head@, '+')[2]);
    match (read_pixels(parts[1].as_slice()), read_pixels(parts[2].as_slice())) {
        (Some(x), Some(y)) => Some(
            VideoWindowLayout::Custom { width, position: Some((x, y)), screen },
        ),
        _ => None,
    }
}

fn print_percents(m: u128) -> (out: Vec<char>)
    ensures
        out@ == exact_percents(m as nat),
{
    let mut out = print(m / 10_000_000);
    if m % 10_000_000 != 0 {
        out.push('.');
        let mut frac = pad(m % 10_000_000, 7);
        let ghost all = frac@;
        while frac.len() > 1 && frac[frac.len() - 1] == '0'
            invariant
                without_zeros(frac@) == without_zeros(all),
            decreases frac@.len(),
        {
            frac.pop();
        }
        add_chars(&mut out, frac.as_slice());
    }
    out
}

fn add_percent(out: &mut Vec<char>, fraction: Fixed)
    ensures
        final(out)@ == old(out)@ + percent_text(fraction),
{
    match fraction {
        Fixed::Nanos(n) => {
            if n < 0 {
                out.push('-');
            }
            let body = print_percents(magnitude(n));
            add_chars(out, body.as_slice());
            proof {
                if n < 0 {
                    assert(out@ =~= old(out)@ + (seq!['-'] + body@));
                }
            }
        },
        _ => {
            let name = fixed_chars(fraction);
            add_chars(out, name.as_slice());
        },
    }
}

fn add_position(out: &mut Vec<char>, position: Option<(u32, u32)>)
    ensures
        final(out)@ == old(out)@ + position_text(position),
{
    match position {
        Some((x, y)) => {
            let first = print(x as u128);
            let second = print(y as u128);
            out.push('+');
            add_chars(out, first.as_slice());
            out.push('+');
            add_chars(out, second.as_slice());
            assert(out@ =~= old(out)@ + position_text(position));
        },
        None => {
            assert(out@ =~= old(out)@ + position_text(position));
        },
    }
}

impl VideoWindowLayout {
    /// Parse the settings form: `"fill"`, `"fullscreen"`, `"40%"`, `"1280"`,
    /// `"1280+100+50"` (width, then x and y), or `"1280+100+50/1"` (on the
    /// second screen).
    pub fn parse(text: &str) -> (r: Option<Self>)
        ensures
            r == layout_of(text@),
    {
        let chars = chars_of(text);
        let s = trim(chars.as_slice());
        let low = lower(s);
        if reads(low.as_slice(), "fill") {
            return Some(VideoWindowLayout::Fill);
        }
        let n: usize = s.len();
        let k: usize = find_char(s, '/');
        if k < n {
            let tail = vstd::slice::slice_subrange(s, k + 1, n);
            assert(tail@ =~= s@.skip(k as int + 1));
            let screen: u32 = match read_pixels(tail) {
                Some(i) => i,
                None => {
                    return None;
                },
            };
            let front = vstd::slice::slice_subrange(s, 0, k);
            assert(front@ =~= s@.take(k as int));
            read_head(trim(front), Some(screen))
        } else {
            read_head(s, None)
        }
    }

    /// The settings form, round-tripping through [`Self::parse`].
    pub fn as_str(&self) -> (r: String)
        ensures
            r@ == layout_text(*self),
    {
        match self {
            VideoWindowLayout::ScreenFraction(f) => {
                let mut out: Vec<char> = Vec::new();
                add_percent(&mut out, *f);
                out.push('%');
                assert(out@ =~= layout_text(*self));
                string_of(out.as_slice())
            },
            VideoWindowLayout::Fill => "fill".to_owned(),
            VideoWindowLayout::Fullscreen => "fullscreen".to_owned(),
            VideoWindowLayout::Custom { width, position, screen } => {
                let mut out = print(*width as u128);
                add_position(&mut out, *position);
                if let Some(i) = screen {
                    let index = print(*i as u128);
                    out.push('/');
                    add_chars(&mut out, index.as_slice());
                }
                assert(out@ =~= layout_text(*self));
                string_of(out.as_slice())
            },
        }
    }
}

impl Default for VideoWindowLayout {
    /// Big enough to watch, small enough to leave the desktop usable.
    fn default() -> (r: Self)
        ensures
            r == VideoWindowLayout::ScreenFraction(Fixed::Nanos(400_000_000)),
    {
        VideoWindowLayout::ScreenFraction(Fixed::Nanos(400_000_000))
    }
}

/// A window in mpv's own terms. `geometry` is an exact size and place; `autofit`
/// a box to fit within. Either is empty where it does not apply. All of it is in
/// physical pixels, with `+x+y` measured from the top-left of the screen's
/// usable area.
#[derive(Debug)]
pub struct WindowOptions {
    pub geometry: String,
    pub autofit: String,
    pub fullscreen: bool,
    /// An index, or `default` to let mpv choose.
    pub screen: String,
}

/// Whole percents of billionths, half upwards.
pub open spec fn whole_percents(n: nat) -> nat {
    of_nanos(n).times(100).whole()
}

/// The whole percents that mpv is told, between one and a hundred.
pub open spec fn shown_percents(fraction: Fixed) -> Seq<char> {
    match fraction {
        Fixed::Nanos(n) => if n <= 0 || whole_percents(n as nat) < 1 {
            digits(1)
        } else if whole_percents(n as nat) > 100 {
            digits(100)
        } else {
            digits(whole_percents(n as nat))
        },
        Fixed::PosInfinity => digits(100),
        Fixed::NegInfinity => digits(1),
        Fixed::NaN => "NaN"@,
    }
}

fn print_shown_percents(fraction: Fixed) -> (out: Vec<char>)
    ensures
        out@ == shown_percents(fraction),
{
    match fraction {
        Fixed::Nanos(n) => if n <= 0 {
            print(1)
        } else {
            let percents: u128 = Binary::of_nanos(n as u128).times(100).whole_upto(100);
            if percents < 1 {
                print(1)
            } else {
                print(percents)
            }
        },
        Fixed::PosInfinity => print(100),
        Fixed::NegInfinity => print(1),
        Fixed::NaN => chars_of("NaN"),
    }
}

/// Presets sit in the middle of the screen: mpv reads a percentage position as
/// "this far along, aligned so that a hundred is the far edge".
pub open spec fn geometry_text(layout: VideoWindowLayout) -> Seq<char> {
    match layout {
        VideoWindowLayout::ScreenFraction(f) => shown_percents(f) + "%+50%+50%"@,
        VideoWindowLayout::Fill => "+50%+50%"@,
        VideoWindowLayout::Fullscreen => Seq::empty(),
        VideoWindowLayout::Custom { width, position, screen } => digits(width as nat)
            + position_text(position),
    }
}

/// A box the size of the screen, not a width: a width alone would push a tall
/// video off the bottom.
pub open spec fn autofit_text(layout: VideoWindowLayout) -> Seq<char> {
    match layout {
        VideoWindowLayout::Fill => "100%x100%"@,
        _ => Seq::empty(),
    }
}

pub open spec fn screen_name(layout: VideoWindowLayout) -> Seq<char> {
    match layout {
        VideoWindowLayout::Custom { width, position, screen: Some(i) } => digits(i as nat),
        _ => "default"@,
    }
}

/// A layout as mpv's window options.
pub fn window_options(layout: VideoWindowLayout) -> (r: WindowOptions)
    ensures
        r.geometry@ == geometry_text(layout),
        r.autofit@ == autofit_text(layout),
        r.fullscreen == (layout is Fullscreen),
        r.screen@ == screen_name(layout),
{
    match layout {
        VideoWindowLayout::ScreenFraction(f) => {
            let mut out = print_shown_percents(f);
            add_text(&mut out, "%+50%+50%");
            assert(out@ =~= geometry_text(layout));
            WindowOptions {
                geometry: string_of(out.as_slice()),
                autofit: String::new(),
                fullscreen: false,
                screen: "default".to_owned(),
            }
        },
        VideoWindowLayout::Fill => WindowOptions {
            geometry: "+50%+50%".to_owned(),
            autofit: "100%x100%".to_owned(),
            fullscreen: false,
            screen: "default".to_owned(),
        },
        VideoWindowLayout::Fullscreen => WindowOptions {
            geometry: String::new(),
            autofit: String::new(),
            fullscreen: true,
            screen: "default".to_owned(),
        },
        VideoWindowLayout::Custom { width, position, screen } => {
            let mut out = print(width as u128);
            add_position(&mut out, position);
            WindowOptions {
                geometry: string_of(out.as_slice()),
                autofit: String::new(),
                fullscreen: false,
                screen: match screen {
                    Some(i) => {
                        let index = print(i as u128);
                        string_of(index.as_slice())
                    },
                    None => "default".to_owned(),
                },
            }
        },
    }
}

/// The spawn arguments for a layout. An empty value is left out: mpv reads
/// `--geometry=` as an argument error.
pub open spec fn layout_args_text(layout: VideoWindowLayout) -> Seq<Seq<char>> {
    let base = seq![
        "--screen="@ + screen_name(layout),
        if layout is Fullscreen {
            "--fullscreen=yes"@
        } else {
            "--fullscreen=no"@
        },
    ];
    let sized = if geometry_text(layout).len() > 0 {
        base.push("--geometry="@ + geometry_text(layout))
    } else {
        base
    };
    if autofit_text(layout).len() > 0 {
        sized.push("--autofit="@ + autofit_text(layout))
    } else {
        sized
    }
}

/// `name` with `value` behind it.
pub fn option(name: &str, value: &str) -> (r: String)
    ensures
        r@ == name@ + value@,
{
    let mut out = chars_of(name);
    add_text(&mut out, value);
    string_of(out.as_slice())
}

/// The spawn arguments for a layout.
pub fn layout_args(layout: VideoWindowLayout) -> (r: Vec<String>)
    ensures
        texts(r@) == layout_args_text(layout),
{
    let options = window_options(layout);
    let mut args: Vec<String> = Vec::new();
    args.push(option("--screen=", options.screen.as_str()));
    args.push(
        if options.fullscreen {
            "--fullscreen=yes".to_owned()
        } else {
            "--fullscreen=no".to_owned()
        },
    );
    let geometry = chars_of(options.geometry.as_str());
    if geometry.len() > 0 {
        args.push(option("--geometry=", options.geometry.as_str()));
    }
    let autofit = chars_of(options.autofit.as_str());
    if autofit.len() > 0 {
        args.push(option("--autofit=", options.autofit.as_str()));
    }
    assert(texts(args@) =~= layout_args_text(layout));
    args
}

/// A layout that there can be: a fraction of the screen's width that is above zero
/// and at most all of it, or a width that is not zero.
pub open spec fn settled(layout: VideoWindowLayout) -> bool {
    match layout {
        VideoWindowLayout::ScreenFraction(Fixed::Nanos(n)) => 0 < n <= 1_000_000_000,
        VideoWindowLayout::ScreenFraction(_) => false,
        VideoWindowLayout::Custom { width, position, screen } => width > 0,
        _ => true,
    }
}

/// Digits are neither white space nor any of the signs of a layout.
proof fn lemma_plain(d: Seq<char>)
    requires
        d.len() > 0,
        all_digits(d),
    ensures
        trimmed(d) == d,
        lowered(d) == d,
        find(d, '+') == d.len(),
        find(d, '/') == d.len(),
        !is_digit('f'),
        is_digit(d[0]),
        is_digit(d.last()),
{
    assert(is_digit(d[0]) && is_digit(d[d.len() - 1]));
    lemma_trimmed_is(d);
    assert forall|i: int| 0 <= i < d.len() implies #[trigger] lowered(d)[i] == d[i] && is_digit(
        d[i],
    ) by {}
    assert(lowered(d) =~= d);
    lemma_find_is(d, '+', d.len() as int);
    lemma_find_is(d, '/', d.len() as int);
}

/// A number among the others of a layout reads back.
proof fn lemma_pixels(n: u32)
    ensures
        pixels(digits(n as nat)) == Some(n),
{
    lemma_digits(n as nat);
    lemma_plain(digits(n as nat));
    law_number_round_trips(n as nat, u32::MAX as nat);
}

proof fn lemma_split_plus(d: Seq<char>, rest: Seq<char>)
    requires
        find(d, '+') == d.len(),
    ensures
        split(d + seq!['+'] + rest, '+') == seq![d] + split(rest, '+'),
{
    let s = d + seq!['+'] + rest;
    lemma_find(d, '+');
    assert forall|i: int| 0 <= i < d.len() implies s[i] != '+' by {
        assert(s[i] == d[i]);
    }
    lemma_find_is(s, '+', d.len() as int);
    assert(s.take(d.len() as int) =~= d);
    assert(s.skip(d.len() as int + 1) =~= rest);
}

/// The head of a custom layout: only digits and plus signs.
proof fn lemma_custom_head(width: u32, position: Option<(u32, u32)>, screen: Option<u32>)
    requires
        width > 0,
    ensures
        ({
            let head = digits(width as nat) + position_text(position);
            &&& head.len() > 0
            &&& is_digit(head[0])
            &&& is_digit(head.last())
            &&& find(head, '/') == head.len()
            &&& headed(head, screen) == Some(
                VideoWindowLayout::Custom { width, position, screen },
            )
        }),
{
    let w = digits(width as nat);
    let head = w + position_text(position);
    lemma_digits(width as nat);
    lemma_plain(w);
    lemma_pixels(width);
    reveal_strlit("fullscreen");
    assert("fullscreen"@[0] == 'f');
    match position {
        None => {
            assert(head =~= w);
            assert(split(w, '+') =~= seq![w]);
        },
        Some((x, y)) => {
            let a = digits(x as nat);
            let b = digits(y as nat);
            lemma_digits(x as nat);
            lemma_digits(y as nat);
            lemma_plain(a);
            lemma_plain(b);
            lemma_pixels(x);
            lemma_pixels(y);
            assert(head =~= w + seq!['+'] + (a + seq!['+'] + b));
            lemma_split_plus(a, b);
            lemma_split_plus(w, a + seq!['+'] + b);
            assert(split(b, '+') =~= seq![b]);
            assert(split(head, '+') =~= seq![w, a, b]);
            assert(head[0] == w[0]);
            assert(head.last() == b.last());
            assert forall|i: int| 0 <= i < head.len() implies head[i] != '/' by {
                if i < w.len() {
                    assert(head[i] == w[i]);
                } else if w.len() < i && i < w.len() + 1 + a.len() {
                    assert(head[i] == a[i - w.len() - 1]);
                } else if i > w.len() + 1 + a.len() {
                    assert(head[i] == b[i - w.len() - a.len() - 2]);
                }
            }
            lemma_find_is(head, '/', head.len() as int);
        },
    }
    assert(lowered(head)[0] == head[0]);
}

/// A percentage as text: digits with a point among them or without, which read as
/// a hundred times the fraction.
proof fn lemma_exact_percents(n: nat)
    requires
        0 < n <= 1_000_000_000,
    ensures
        ({
            let d = exact_percents(n);
            &&& d.len() > 0
            &&& is_digit(d[0])
            &&& is_digit(d.last())
            &&& forall|i: int| 0 <= i < d.len() ==> is_digit(#[trigger] d[i]) || d[i] == '.'
            &&& parsed(trimmed(d)) == Some(Fixed::Nanos((100 * n) as i128))
        }),
{
    let d = exact_percents(n);
    if n % 10_000_000 == 0 {
        let k = n / 10_000_000;
        lemma_digits(k);
        lemma_plain(d);
        crate::timecode::lemma_whole_part(d);
    } else {
        let f = n % 10_000_000;
        lemma_two_more_zeros(f);
        assert(100 * n / 1_000_000_000 == n / 10_000_000);
        assert((100 * n) % 1_000_000_000 == 100 * f);
        assert(d =~= decimal(100 * n as int));
        lemma_decimal_shape(100 * n);
        lemma_trimmed_is(d);
        law_decimal_round_trips(100 * n as int);
    }
}

/// A percentage reads back as its fraction.
proof fn lemma_percent(n: i128)
    requires
        0 < n <= 1_000_000_000,
    ensures
        layout_of(layout_text(VideoWindowLayout::ScreenFraction(Fixed::Nanos(n)))) == Some(
            VideoWindowLayout::ScreenFraction(Fixed::Nanos(n)),
        ),
{
    let d = exact_percents(n as nat);
    let s = layout_text(VideoWindowLayout::ScreenFraction(Fixed::Nanos(n)));
    lemma_exact_percents(n as nat);
    assert(s =~= d + seq!['%']);
    assert(s[0] == d[0]);
    lemma_trimmed_is(s);
    assert(lowered(s)[0] == s[0]);
    reveal_strlit("fill");
    reveal_strlit("fullscreen");
    assert("fill"@[0] == 'f');
    assert("fullscreen"@[0] == 'f');
    assert forall|i: int| 0 <= i < s.len() implies s[i] != '/' by {
        if i < d.len() {
            assert(s[i] == d[i]);
        }
    }
    lemma_find_is(s, '/', s.len() as int);
    assert(s.drop_last() =~= d);
    assert(fraction_of(d) == Some(Fixed::Nanos(n)));
}

/// The settings text of a layout reads back as that layout.
pub proof fn law_layout_round_trips(layout: VideoWindowLayout)
    requires
        settled(layout),
    ensures
        layout_of(layout_text(layout)) == Some(layout),
{
    reveal_strlit("fill");
    reveal_strlit("fullscreen");
    let s = layout_text(layout);
    match layout {
        VideoWindowLayout::ScreenFraction(f) => {
            lemma_percent(f->Nanos_0);
        },
        VideoWindowLayout::Fill => {
            lemma_trimmed_is(s);
            assert(lowered(s) =~= s);
        },
        VideoWindowLayout::Fullscreen => {
            lemma_trimmed_is(s);
            assert(lowered(s) =~= s);
            assert("fill"@.len() == 4 && s.len() == 10);
            lemma_find_is(s, '/', s.len() as int);
        },
        VideoWindowLayout::Custom { width, position, screen } => {
            let head = digits(width as nat) + position_text(position);
            lemma_custom_head(width, position, screen);
            assert(s[0] == head[0]);
            assert("fill"@[0] == 'f');
            match screen {
                None => {
                    assert(s =~= head);
                    lemma_trimmed_is(s);
                    assert(lowered(s)[0] == s[0]);
                },
                Some(i) => {
                    let d = digits(i as nat);
                    lemma_digits(i as nat);
                    lemma_plain(d);
                    lemma_pixels(i);
                    assert(s =~= head + seq!['/'] + d);
                    assert(s.last() == d.last());
                    lemma_trimmed_is(s);
                    assert(lowered(s)[0] == s[0]);
                    lemma_find(head, '/');
                    assert forall|j: int| 0 <= j < head.len() implies s[j] != '/' by {
                        assert(s[j] == head[j]);
                    }
                    lemma_find_is(s, '/', head.len() as int);
                    assert(s.take(head.len() as int) =~= head);
                    assert(s.skip(head.len() as int + 1) =~= d);
                    lemma_trimmed_is(head);
                },
            }
        },
    }
}

/// A fraction that is a whole number of percents is told as that number.
pub proof fn law_whole_percents_are_told(p: nat)
    requires
        1 <= p <= 100,
    ensures
        whole_percents(p * 10_000_000) == p,
        shown_percents(Fixed::Nanos((p * 10_000_000) as i128)) == digits(p),
{
    let h = of_nanos(p * 10_000_000);
    lemma_fraction_held(p);
    let k = (-h.e) as nat;
    let t = h.times(100);
    law_held_is_nearest(h.m * 100, 1, h.e);
    let j = (t.e - h.e) as nat;
    vstd::arithmetic::power2::lemma2_to64();
    assert(t.m * (1 * pow2(j)) == t.m * pow2(j) && 1 * pow2(j) == pow2(j)) by (nonlinear_arith);
    assert(pow2(j) < 256) by (nonlinear_arith)
        requires
            2 * (t.m * pow2(j)) <= 200 * h.m + pow2(j),
            h.m <= 0x20_0000_0000_0000,
            t.m >= 0x10_0000_0000_0000,
    ;
    if j >= 8 {
        lemma_power_grows(8, j);
    }
    let l = (k - j) as nat;
    let u = pow2(l);
    vstd::arithmetic::power2::lemma_pow2_adds(l, j);
    vstd::arithmetic::power2::lemma_pow2_pos(l);
    lemma_power_grows(52, k);
    vstd::arithmetic::power2::lemma2_to64_rest();
    assert((2 * p - 1) * pow2(k) <= 2 * (t.m * pow2(j)) < (2 * p + 1) * pow2(k))
        by (nonlinear_arith)
        requires
            2 * distance(t.m * pow2(j), h.m * 100) <= pow2(j),
            distance(h.m * 100, p * pow2(k)) <= 50,
            pow2(j) < 256,
            pow2(k) >= 0x10_0000_0000_0000,
    ;
    assert((2 * p - 1) * u <= 2 * t.m < (2 * p + 1) * u) by (nonlinear_arith)
        requires
            pow2(k) == u * pow2(j),
            (2 * p - 1) * pow2(k) <= 2 * (t.m * pow2(j)) < (2 * p + 1) * pow2(k),
            pow2(j) > 0,
    ;
    assert((2 * t.m + u) / (2 * u) == p) by (nonlinear_arith)
        requires
            (2 * p - 1) * u <= 2 * t.m < (2 * p + 1) * u,
            u > 0,
    ;
}

/// How near a hundred times what is held of a fraction is to its percents.
proof fn lemma_fraction_held(p: nat)
    requires
        1 <= p <= 100,
    ensures
        ({
            let h = of_nanos(p * 10_000_000);
            &&& h.e <= -52
            &&& HALF <= h.m <= TOP
            &&& distance(h.m * 100, p * pow2((-h.e) as nat)) <= 50
        }),
{
    let a = p * 10_000_000;
    let b: nat = 1_000_000_000;
    let h = of_nanos(a);
    law_held_is_nearest(a, b, 0);
    vstd::arithmetic::power2::lemma2_to64();
    vstd::arithmetic::power2::lemma2_to64_rest();
    if h.e > 0 {
        let w = pow2(h.e as nat);
        vstd::arithmetic::power2::lemma_pow2_pos(h.e as nat);
        assert(2 * distance(h.m * (b * w), a) > b * w) by (nonlinear_arith)
            requires
                h.m >= 0x10_0000_0000_0000,
                a <= b,
                w > 0,
                b == 1_000_000_000,
        ;
    }
    let k = (-h.e) as nat;
    let x = pow2(k);
    assert(a * x == 10_000_000 * (p * x)) by (nonlinear_arith)
        requires
            a == p * 10_000_000,
    ;
    assert(distance(h.m * 100, p * x) <= 50);
    assert(x > 0x8_0000_0000_0000) by (nonlinear_arith)
        requires
            distance(h.m * 100, p * x) <= 50,
            h.m >= 0x10_0000_0000_0000,
            p <= 100,
    ;
    if k < 52 {
        lemma_power_grows(k, 51);
    }
}

/// What mpv is handed is never an empty argument: each one names its value.
pub proof fn law_layout_args_have_values(layout: VideoWindowLayout, i: int)
    requires
        0 <= i < layout_args_text(layout).len(),
    ensures
        layout_args_text(layout)[i] != "--geometry="@,
        layout_args_text(layout)[i] != "--autofit="@,
{
    reveal_strlit("--geometry=");
    reveal_strlit("--autofit=");
    reveal_strlit("--screen=");
    reveal_strlit("--fullscreen=yes");
    reveal_strlit("--fullscreen=no");
    let a = layout_args_text(layout)[i];
    assert("--geometry="@[2] == 'g' && "--autofit="@[2] == 'a');
    assert("--screen="@[2] == 's' && "--fullscreen=yes"@[2] == 'f' && "--fullscreen=no"@[2]
        == 'f');
    if i == 0 {
        assert(a[2] == 's');
    } else if i == 1 {
        assert(a[2] == 'f');
    } else if i == 2 && geometry_text(layout).len() > 0 {
        assert(a.len() > 11);
        assert(a[2] == 'g');
    } else {
        assert(a[2] == 'a');
        assert(a.len() > 10);
    }
}

} // verus!
