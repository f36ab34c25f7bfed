//! What holds of the video window's layout: how it is read, and what the player
//! process is told of it.

use vstd::prelude::*;

use crate::fixed::{parsed, Fixed};
use crate::layout::{
    autofit_text, geometry_text, headed, layout_args_text, layout_of, pixels, placed, screen_name,
    VideoWindowLayout,
};
use crate::number::digits;
use crate::text::{find, is_space, lemma_find, lemma_find_is, lowered, split, trimmed};
use crate::text_laws::{blank, law_trimming};

verus! {

/// A word of a layout: not empty, without white space at its ends, and without the
/// marks that divide a layout.
pub open spec fn is_word(s: Seq<char>) -> bool {
    s.len() > 0 && !is_space(s[0]) && !is_space(s.last()) && !s.contains('/') && !s.contains('+')
        && s.last() != '%'
}

/// Filling the screen and taking all of it are each one word, in any case, with
/// white space around it forgiven.
pub proof fn law_layout_words(a: Seq<char>, word: Seq<char>, b: Seq<char>)
    requires
        blank(a),
        blank(b),
        is_word(word),
    ensures
        lowered(word) == "fill"@ ==> layout_of(a + word + b) == Some(VideoWindowLayout::Fill),
        lowered(word) == "fullscreen"@ ==> layout_of(a + word + b) == Some(
            VideoWindowLayout::Fullscreen,
        ),
{
    law_trimming(a, word, b);
    lemma_find(word, '/');
    reveal_strlit("fill");
    reveal_strlit("fullscreen");
    assert("fill"@.len() == 4 && "fullscreen"@.len() == 10);
}

/// A percentage is a share of the screen where it lies above zero and not above a
/// hundred, and no layout elsewhere.
pub proof fn law_layout_percentages(number: Seq<char>)
    requires
        number.len() > 0,
        !is_space(number[0]),
        !number.contains('/'),
    ensures
        match parsed(trimmed(number)) {
            Some(Fixed::Nanos(p)) => if 0 < p <= 100_000_000_000 {
                layout_of(number + "%"@) == Some(
                    VideoWindowLayout::ScreenFraction(Fixed::Nanos((p / 100) as i128)),
                )
            } else {
                layout_of(number + "%"@) is None
            },
            _ => layout_of(number + "%"@) is None,
        },
{
    reveal_strlit("%");
    reveal_strlit("fill");
    reveal_strlit("fullscreen");
    let s = number + "%"@;
    let none = Seq::<char>::empty();
    assert(s.last() == '%');
    law_trimming(none, s, none);
    assert(none + s + none =~= s);
    assert(lowered(s).last() == '%');
    assert("fill"@.last() == 'l' && "fullscreen"@.last() == 'n');
    assert(!s.contains('/')) by {
        if s.contains('/') {
            let k = choose|k: int| 0 <= k < s.len() && s[k] == '/';
            if k < number.len() {
                assert(number[k] == '/');
            }
        }
    }
    lemma_find(s, '/');
    assert(s.drop_last() =~= number);
}

/// A width alone is placed by the system; a width of nothing is no layout; and
/// neither is a word that is no number.
pub proof fn law_layout_widths(word: Seq<char>)
    requires
        is_word(word),
        lowered(word) != "fill"@,
        lowered(word) != "fullscreen"@,
    ensures
        match pixels(word) {
            Some(width) => if width > 0 {
                layout_of(word) == Some(
                    VideoWindowLayout::Custom { width, position: None, screen: None },
                )
            } else {
                layout_of(word) is None
            },
            None => layout_of(word) is None,
        },
{
    let none = Seq::<char>::empty();
    law_trimming(none, word, none);
    assert(none + word + none =~= word);
    lemma_find(word, '/');
    lemma_find(word, '+');
    assert(split(word, '+') =~= seq![word]);
}

/// A layout's parts divided by plus signs.
pub open spec fn plus_parts(width: Seq<char>, x: Seq<char>, y: Seq<char>) -> Seq<char> {
    width + "+"@ + x + "+"@ + y
}

proof fn lemma_split_three(w: Seq<char>, x: Seq<char>, y: Seq<char>)
    requires
        !w.contains('+'),
        !x.contains('+'),
        !y.contains('+'),
    ensures
        split(plus_parts(w, x, y), '+') == seq![w, x, y],
        split(w + "+"@ + x, '+') == seq![w, x],
{
    reveal_strlit("+");
    reveal_with_fuel(split, 4);
    lemma_two(w, x);
    lemma_two(x, y);
    let s = plus_parts(w, x, y);
    let rest = x + "+"@ + y;
    assert(s =~= w + "+"@ + rest);
    lemma_first_plus(w, rest);
    assert(split(s, '+') =~= seq![w] + split(rest, '+'));
}

proof fn lemma_first_plus(w: Seq<char>, rest: Seq<char>)
    requires
        !w.contains('+'),
    ensures
        find(w + "+"@ + rest, '+') == w.len(),
        split(w + "+"@ + rest, '+') == seq![w] + split(rest, '+'),
{
    reveal_strlit("+");
    let s = w + "+"@ + rest;
    assert(s[w.len() as int] == '+');
    assert forall|i: int| 0 <= i < w.len() implies s[i] != '+' by {
        assert(w.contains(w[i]));
        assert(s[i] == w[i]);
    }
    lemma_find_is(s, '+', w.len() as int);
    assert(s.take(w.len() as int) =~= w);
    assert(s.skip(w.len() as int + 1) =~= rest);
}

proof fn lemma_two(w: Seq<char>, x: Seq<char>)
    requires
        !w.contains('+'),
        !x.contains('+'),
    ensures
        split(w + "+"@ + x, '+') == seq![w, x],
{
    lemma_first_plus(w, x);
    lemma_find(x, '+');
    assert(split(x, '+') =~= seq![x]);
    assert(seq![w] + seq![x] =~= seq![w, x]);
}

/// A width with both distances is a place on the screen; with one alone it is no
/// layout.
pub proof fn law_layout_places(
    w: Seq<char>,
    x: Seq<char>,
    y: Seq<char>,
    screen: Option<u32>,
    width: u32,
    left: u32,
    top: u32,
)
    requires
        !w.contains('+'),
        !x.contains('+'),
        !y.contains('+'),
        pixels(w) == Some(width),
    ensures
        width > 0 && pixels(x) == Some(left) && pixels(y) == Some(top) ==> placed(
            split(plus_parts(w, x, y), '+'),
            screen,
        ) == Some(VideoWindowLayout::Custom { width, position: Some((left, top)), screen }),
        width == 0 || pixels(x) is None || pixels(y) is None ==> placed(
            split(plus_parts(w, x, y), '+'),
            screen,
        ) is None,
        placed(split(w + "+"@ + x, '+'), screen) is None,
{
    lemma_split_three(w, x, y);
}

/// What follows a slash is the screen; where it is no number, there is no layout.
pub proof fn law_layout_screens(head: Seq<char>, screen: Seq<char>)
    requires
        is_word(head),
        screen.len() > 0,
        !is_space(screen.last()),
    ensures
        pixels(screen) is None ==> layout_of(head + "/"@ + screen) is None,
        pixels(screen) is Some ==> layout_of(head + "/"@ + screen) == headed(head, pixels(screen)),
{
    reveal_strlit("/");
    reveal_strlit("fill");
    let s = head + "/"@ + screen;
    let none = Seq::<char>::empty();
    law_trimming(none, s, none);
    assert(none + s + none =~= s);
    law_trimming(none, head, none);
    assert(none + head + none =~= head);
    assert forall|i: int| 0 <= i < head.len() implies s[i] != '/' by {
        assert(head.contains(head[i]));
        assert(s[i] == head[i]);
    }
    assert(s[head.len() as int] == '/');
    lemma_find_is(s, '/', head.len() as int);
    assert(s.take(head.len() as int) =~= head);
    assert(s.skip(head.len() as int + 1) =~= screen);
    assert(lowered(s)[head.len() as int] == '/');
    if lowered(s) == "fill"@ {
        let k = head.len() as int;
        assert(lowered(s).len() == s.len() && s.len() > k);
        assert("fill"@.len() == 4);
        assert("fill"@[k] == '/');
        assert(k == 0 || k == 1 || k == 2 || k == 3);
    }
}

/// What the player process is told of each layout: where it goes and how large, how
/// large at most, whether it takes all of the screen, and which one.
pub proof fn law_layout_options(width: u32, x: u32, y: u32, i: u32, f: Fixed)
    ensures
        ({
            let fill = VideoWindowLayout::Fill;
            let all = VideoWindowLayout::Fullscreen;
            let share = VideoWindowLayout::ScreenFraction(f);
            let wide = VideoWindowLayout::Custom { width, position: None, screen: None };
            let at = VideoWindowLayout::Custom {
                width,
                position: Some((x, y)),
                screen: Some(i),
            };
            &&& geometry_text(fill) == "+50%+50%"@ && autofit_text(fill) == "100%x100%"@
            &&& geometry_text(all).len() == 0 && autofit_text(all).len() == 0
            &&& autofit_text(share).len() == 0 && autofit_text(wide).len() == 0
                && autofit_text(at).len() == 0
            &&& geometry_text(wide) == digits(width as nat)
            &&& geometry_text(at) == digits(width as nat) + "+"@ + digits(x as nat) + "+"@
                + digits(y as nat)
            &&& screen_name(fill) == "default"@ && screen_name(all) == "default"@
            &&& screen_name(share) == "default"@ && screen_name(wide) == "default"@
            &&& screen_name(at) == digits(i as nat)
        }),
{
    reveal_strlit("+");
    assert("+"@ =~= seq!['+']);
    let wide = VideoWindowLayout::Custom { width, position: None, screen: None };
    let at = VideoWindowLayout::Custom { width, position: Some((x, y)), screen: Some(i) };
    assert(geometry_text(wide) =~= digits(width as nat));
    assert(geometry_text(at) =~= digits(width as nat) + "+"@ + digits(x as nat) + "+"@ + digits(
        y as nat,
    ));
}

/// A process is started with the screen and whether it takes all of it, and with the
/// place and the size where there are any, in this order.
pub proof fn law_layout_arguments(layout: VideoWindowLayout)
    ensures
        layout_args_text(layout)[0] == "--screen="@ + screen_name(layout),
        layout_args_text(layout)[1] == if layout is Fullscreen {
            "--fullscreen=yes"@
        } else {
            "--fullscreen=no"@
        },
        layout is Fullscreen ==> layout_args_text(layout).len() == 2,
        layout is Fill ==> layout_args_text(layout).len() == 4 && layout_args_text(layout)[2]
            == "--geometry="@ + "+50%+50%"@ && layout_args_text(layout)[3] == "--autofit="@
            + "100%x100%"@,
        layout is Custom || layout is ScreenFraction ==> layout_args_text(layout).len() == 3
            && layout_args_text(layout)[2] == "--geometry="@ + geometry_text(layout),
{
    reveal_strlit("+50%+50%");
    reveal_strlit("100%x100%");
    reveal_strlit("%+50%+50%");
    assert("+50%+50%"@.len() == 8 && "100%x100%"@.len() == 9 && "%+50%+50%"@.len() == 9);
    match layout {
        VideoWindowLayout::Custom { width, position, screen } => {
            crate::number::lemma_digits(width as nat);
        },
        _ => {},
    }
}

} // verus!
