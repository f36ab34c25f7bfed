//! What the command line reads and says.

use vstd::prelude::*;

use crate::engine::{EngineError, EngineErrorView};
use crate::binary::{of_nanos, Binary};
use crate::fixed::{lt, less, places, to_places, Fixed};
use crate::layout::option;
use crate::library::ScanReport;
use crate::number::{digits, print};
use crate::player::PlayerStatus;
use crate::player_model::StatusView;
use crate::queue::{mode_text, RepeatMode};
use crate::text::{
    add_chars, add_text, chars_of, join_texts, joined, lower, lowered, reads, string_of, texts,
    trim, trimmed,
};
use crate::timecode::{duration_text, format_duration, format_optional, optional_duration_text};
use crate::track::Track;

verus! {

/// What a word says that is to be on or off.
pub open spec fn switched(word: Seq<char>) -> Option<bool> {
    if word == "on"@ || word == "yes"@ || word == "true"@ || word == "1"@ {
        Some(true)
    } else if word == "off"@ || word == "no"@ || word == "false"@ || word == "0"@ {
        Some(false)
    } else {
        None
    }
}

/// Read `on` or `off`, in one of several words and whatever their case.
pub fn parse_on_off(input: &str) -> (r: Result<bool, String>)
    ensures
        match r {
            Ok(on) => switched(lowered(trimmed(input@))) == Some(on),
            Err(e) => switched(lowered(trimmed(input@))) is None && e@
                == "expected on or off, got \""@ + lowered(trimmed(input@)) + "\""@,
        },
{
    let chars = chars_of(input);
    let word = lower(trim(chars.as_slice()));
    let w = word.as_slice();
    if reads(w, "on") || reads(w, "yes") || reads(w, "true") || reads(w, "1") {
        Ok(true)
    } else if reads(w, "off") || reads(w, "no") || reads(w, "false") || reads(w, "0") {
        Ok(false)
    } else {
        let mut out = chars_of("expected on or off, got \"");
        add_chars(&mut out, w);
        add_text(&mut out, "\"");
        Err(string_of(out.as_slice()))
    }
}

/// What is to become of the video window.
#[derive(Debug, Clone, Copy, PartialEq, Eq, Structural)]
pub enum VideoState {
    Show,
    Hide,
    Toggle,
}

/// What a word says is to become of the video window.
pub open spec fn video_named(word: Seq<char>) -> Option<VideoState> {
    if word == "on"@ || word == "show"@ {
        Some(VideoState::Show)
    } else if word == "off"@ || word == "hide"@ {
        Some(VideoState::Hide)
    } else if word == "toggle"@ {
        Some(VideoState::Toggle)
    } else {
        None
    }
}

/// Read what is to become of the video window.
pub fn parse_video_state(input: &str) -> (r: Result<VideoState, String>)
    ensures
        match r {
            Ok(state) => video_named(lowered(trimmed(input@))) == Some(state),
            Err(e) => video_named(lowered(trimmed(input@))) is None && e@
                == "unknown video state \""@ + lowered(trimmed(input@))
                + "\" (on, off, toggle)"@,
        },
{
    let chars = chars_of(input);
    let word = lower(trim(chars.as_slice()));
    let w = word.as_slice();
    if reads(w, "on") || reads(w, "show") {
        Ok(VideoState::Show)
    } else if reads(w, "off") || reads(w, "hide") {
        Ok(VideoState::Hide)
    } else if reads(w, "toggle") {
        Ok(VideoState::Toggle)
    } else {
        let mut out = chars_of("unknown video state \"");
        add_chars(&mut out, w);
        add_text(&mut out, "\" (on, off, toggle)");
        Err(string_of(out.as_slice()))
    }
}

/// Read a repeat mode.
pub fn parse_repeat(input: &str) -> (r: Result<RepeatMode, String>)
    ensures
        match r {
            Ok(mode) => crate::queue::mode_named(lowered(trimmed(input@))) == Some(mode),
            Err(e) => crate::queue::mode_named(lowered(trimmed(input@))) is None && e@
                == "unknown repeat mode (off, all, one)"@,
        },
{
    match RepeatMode::parse(input) {
        Some(mode) => Ok(mode),
        None => Err("unknown repeat mode (off, all, one)".to_owned()),
    }
}

/// The words of a target as one text. There have to be some.
pub fn target_text(words: &Vec<String>) -> (r: Result<String, String>)
    ensures
        match r {
            Ok(text) => words@.len() > 0 && text@ == joined(texts(words@), " "@),
            Err(e) => words@.len() == 0 && e@ == "nothing to play"@,
        },
{
    if words.len() == 0 {
        return Err("nothing to play".to_owned());
    }
    let chars = join_texts(words, " ");
    Ok(string_of(chars.as_slice()))
}

/// What a target names.
#[derive(Debug, PartialEq, Eq)]
pub enum Target {
    /// A file, which is indexed where it is not yet.
    File(String),
    /// Words to search the library for.
    Search(String),
}

/// A target is a file where there is one of that name, and a search otherwise.
pub fn choose_target(text: String, on_disk: bool) -> (r: Target)
    ensures
        r == if on_disk {
            Target::File(text)
        } else {
            Target::Search(text)
        },
{
    if on_disk {
        Target::File(text)
    } else {
        Target::Search(text)
    }
}

/// `n` spaces.
pub open spec fn spaces(n: int) -> Seq<char> {
    Seq::new(
        if n < 0 {
            0
        } else {
            n as nat
        },
        |i: int| ' ',
    )
}

fn fill(out: &mut Vec<char>, c: char, n: usize)
    ensures
        final(out)@ == old(out)@ + Seq::new(n as nat, |i: int| c),
{
    let ghost start = out@;
    let mut i: usize = 0;
    assert(start + Seq::new(0, |i: int| c) =~= start);
    while i < n
        invariant
            i <= n,
            out@ == start + Seq::new(i as nat, |i: int| c),
        decreases n - i,
    {
        out.push(c);
        assert(start + Seq::new((i + 1) as nat, |i: int| c) =~= (start + Seq::new(
            i as nat,
            |i: int| c,
        )).push(c));
        i = i + 1;
    }
}

/// What a track is marked with: whether it has pictures.
pub open spec fn mark_text(has_video: bool) -> Seq<char> {
    if has_video {
        "▣"@
    } else {
        "♪"@
    }
}

/// A track in a list.
pub open spec fn track_text(track: Track, resume: Option<Fixed>) -> Seq<char> {
    let duration = optional_duration_text(track.duration_secs);
    mark_text(track.has_video) + " "@ + duration + spaces(8 - duration.len()) + " "@
        + track.label_text() + match resume {
        Some(secs) => "  [resume "@ + duration_text(secs) + "]"@,
        None => Seq::empty(),
    }
}

/// A track in a list: its mark, its duration, its label, and where it is taken up
/// again.
pub fn track_line(track: &Track, resume_secs: Option<Fixed>) -> (r: String)
    ensures
        r@ == track_text(*track, resume_secs),
{
    let duration = format_optional(track.duration_secs);
    let d = chars_of(duration.as_str());
    let label = track.display_label();
    let mut out = chars_of(
        if track.has_video {
            "▣"
        } else {
            "♪"
        },
    );
    add_text(&mut out, " ");
    add_chars(&mut out, d.as_slice());
    if d.len() < 8 {
        fill(&mut out, ' ', 8 - d.len());
    }
    proof {
        assert(out@ =~= mark_text(track.has_video) + " "@ + d@ + spaces(8 - d@.len()));
    }
    add_text(&mut out, " ");
    add_text(&mut out, label.as_str());
    match resume_secs {
        Some(secs) => {
            let at = format_duration(secs);
            let ghost front = out@;
            add_text(&mut out, "  [resume ");
            add_text(&mut out, at.as_str());
            add_text(&mut out, "]");
            assert(out@ =~= front + ("  [resume "@ + duration_text(secs) + "]"@));
        },
        None => {
            assert(out@ + Seq::<char>::empty() =~= out@);
        },
    }
    string_of(out.as_slice())
}

/// How many cells the bar has.
pub const WIDTH: usize = 24;

/// How many cells of the bar are filled: the position's share of them, to the
/// nearest.
pub open spec fn filled_cells(position: Fixed, duration: Fixed) -> nat {
    match (position, duration) {
        (Fixed::Nanos(p), Fixed::Nanos(d)) => if p <= 0 || d <= 0 {
            0
        } else {
            let cells = of_nanos(p as nat).over(of_nanos(d as nat)).times(WIDTH as nat).whole();
            if cells > WIDTH {
                WIDTH as nat
            } else {
                cells
            }
        },
        (Fixed::PosInfinity, Fixed::Nanos(_)) => WIDTH as nat,
        _ => 0,
    }
}

/// The bar, where there is something to show.
pub open spec fn bar_text(position: Option<Fixed>, duration: Option<Fixed>) -> Seq<char> {
    match (position, duration) {
        (Some(p), Some(d)) => if lt(Fixed::Nanos(0), d) {
            "  "@ + Seq::new(filled_cells(p, d), |i: int| '━') + Seq::new(
                (WIDTH - filled_cells(p, d)) as nat,
                |i: int| '─',
            )
        } else {
            Seq::empty()
        },
        _ => Seq::empty(),
    }
}

fn cells(position: Fixed, duration: Fixed) -> (r: usize)
    ensures
        r == filled_cells(position, duration),
        r <= WIDTH,
{
    match (position, duration) {
        (Fixed::Nanos(p), Fixed::Nanos(d)) => {
            if p <= 0 || d <= 0 {
                return 0;
            }
            let share = Binary::of_nanos(p as u128).over(Binary::of_nanos(d as u128));
            share.times(24).whole_upto(24) as usize
        },
        (Fixed::PosInfinity, Fixed::Nanos(_)) => WIDTH,
        _ => 0,
    }
}

/// The bar, where there is something to show.
pub fn progress_bar(position: Option<Fixed>, duration: Option<Fixed>) -> (r: String)
    ensures
        r@ == bar_text(position, duration),
{
    let mut out: Vec<char> = Vec::new();
    match (position, duration) {
        (Some(p), Some(d)) => {
            if less(Fixed::Nanos(0), d) {
                let filled: usize = cells(p, d);
                out = chars_of("  ");
                fill(&mut out, '━', filled);
                fill(&mut out, '─', WIDTH - filled);
            }
        },
        _ => {},
    }
    string_of(out.as_slice())
}

/// What the player is doing.
pub open spec fn state_text(idle: bool, paused: bool) -> Seq<char> {
    if idle {
        "◼"@
    } else if paused {
        "⏸"@
    } else {
        "▶"@
    }
}

/// Where playback is in the queue.
pub open spec fn queue_text(len: nat, index: Option<usize>) -> Seq<char> {
    match index {
        Some(i) => "queue "@ + digits((i + 1) as nat) + " of "@ + digits(len),
        None => "queue "@ + digits(len) + " tracks"@,
    }
}

/// What holds of the queue, one after another.
pub open spec fn flag_texts(status: StatusView) -> Seq<Seq<char>> {
    let place = seq![queue_text(status.queue_len, status.queue_index)];
    let repeat = if status.repeat is Off {
        place
    } else {
        place.push("repeat "@ + mode_text(status.repeat))
    };
    let confined = if status.loop_positions.len() == 0 {
        repeat
    } else {
        repeat.push("loop "@ + digits(status.loop_positions.len()) + " rows"@)
    };
    if status.shuffle {
        confined.push("shuffle"@)
    } else {
        confined
    }
}

/// What is said of the player, line by line.
pub open spec fn status_texts(status: StatusView) -> Seq<Seq<char>> {
    match status.track {
        None => seq!["nothing playing"@],
        Some(track) => {
            let first = seq![
                state_text(status.idle, status.paused) + " "@ + track.label_text(),
                "  "@ + optional_duration_text(status.position_secs) + " / "@
                    + optional_duration_text(status.duration_secs) + bar_text(
                    status.position_secs,
                    status.duration_secs,
                ),
            ];
            let seen = if !status.has_video {
                first
            } else if status.video_visible {
                first.push("  video: popped out"@)
            } else {
                first.push("  video: hidden"@)
            };
            if status.queue_len > 0 {
                seen.push("  "@ + joined(flag_texts(status), " · "@))
            } else {
                seen
            }
        },
    }
}

fn queue_place(len: usize, index: Option<usize>) -> (r: String)
    ensures
        r@ == queue_text(len as nat, index),
{
    let total = print(len as u128);
    let mut out = chars_of("queue ");
    match index {
        Some(i) => {
            let row = print(i as u128 + 1);
            add_chars(&mut out, row.as_slice());
            add_text(&mut out, " of ");
            add_chars(&mut out, total.as_slice());
        },
        None => {
            add_chars(&mut out, total.as_slice());
            add_text(&mut out, " tracks");
        },
    }
    string_of(out.as_slice())
}

fn flags(status: &PlayerStatus) -> (r: Vec<String>)
    ensures
        texts(r@) == flag_texts(status@),
{
    let mut out: Vec<String> = Vec::new();
    out.push(queue_place(status.queue_len, status.queue_index));
    assert(texts(out@) =~= seq![queue_text(status@.queue_len, status.queue_index)]);
    let off = match status.repeat {
        RepeatMode::Off => true,
        _ => false,
    };
    let ghost had = out@;
    if !off {
        out.push(option("repeat ", status.repeat.as_str()));
        assert(texts(out@) =~= texts(had).push("repeat "@ + mode_text(status.repeat)));
    }
    let ghost had = out@;
    if status.loop_positions.len() > 0 {
        let n = print(status.loop_positions.len() as u128);
        let mut rows = chars_of("loop ");
        add_chars(&mut rows, n.as_slice());
        add_text(&mut rows, " rows");
        out.push(string_of(rows.as_slice()));
        assert(texts(out@) =~= texts(had).push(
            "loop "@ + digits(status.loop_positions@.len()) + " rows"@,
        ));
    }
    let ghost had = out@;
    if status.shuffle {
        out.push("shuffle".to_owned());
        assert(texts(out@) =~= texts(had).push("shuffle"@));
    }
    out
}

/// What is said of the player, line by line.
pub fn status_lines(status: &PlayerStatus) -> (r: Vec<String>)
    ensures
        texts(r@) == status_texts(status@),
{
    let mut out: Vec<String> = Vec::new();
    match &status.track {
        None => {
            out.push("nothing playing".to_owned());
            assert(texts(out@) =~= seq!["nothing playing"@]);
        },
        Some(track) => {
            let label = track.display_label();
            let mut head = chars_of(
                if status.idle {
                    "◼"
                } else if status.paused {
                    "⏸"
                } else {
                    "▶"
                },
            );
            add_text(&mut head, " ");
            add_text(&mut head, label.as_str());
            out.push(string_of(head.as_slice()));
            let position = format_optional(status.position_secs);
            let duration = format_optional(status.duration_secs);
            let bar = progress_bar(status.position_secs, status.duration_secs);
            let mut line = chars_of("  ");
            add_text(&mut line, position.as_str());
            add_text(&mut line, " / ");
            add_text(&mut line, duration.as_str());
            add_text(&mut line, bar.as_str());
            out.push(string_of(line.as_slice()));
            let ghost first = seq![
                state_text(status.idle, status.paused) + " "@ + track.label_text(),
                "  "@ + optional_duration_text(status.position_secs) + " / "@
                    + optional_duration_text(status.duration_secs) + bar_text(
                    status.position_secs,
                    status.duration_secs,
                ),
            ];
            assert(texts(out@) =~= first);
            let ghost had = out@;
            if status.has_video {
                if status.video_visible {
                    out.push("  video: popped out".to_owned());
                    assert(texts(out@) =~= texts(had).push("  video: popped out"@));
                } else {
                    out.push("  video: hidden".to_owned());
                    assert(texts(out@) =~= texts(had).push("  video: hidden"@));
                }
            }
            let ghost had = out@;
            if status.queue_len > 0 {
                let list = flags(status);
                let all = join_texts(&list, " · ");
                let mut line = chars_of("  ");
                add_chars(&mut line, all.as_slice());
                out.push(string_of(line.as_slice()));
                assert(texts(out@) =~= texts(had).push(
                    "  "@ + joined(flag_texts(status@), " · "@),
                ));
            }
        },
    }
    out
}

/// A row of the queue, counted from one.
pub open spec fn row_text(i: nat, current: bool, track: Track) -> Seq<char> {
    let n = digits(i + 1);
    (if current {
        "▶"@
    } else {
        " "@
    }) + " "@ + spaces(3 - n.len()) + n + ". "@ + track.label_text()
}

/// The queue, row by row.
pub open spec fn queue_texts(tracks: Seq<Track>, current: Option<usize>) -> Seq<Seq<char>> {
    if tracks.len() == 0 {
        seq!["queue is empty"@]
    } else {
        Seq::new(
            tracks.len(),
            |i: int|
                row_text(
                    i as nat,
                    match current {
                        Some(c) => c == i,
                        None => false,
                    },
                    tracks[i],
                ),
        )
    }
}

fn row(i: usize, current: bool, track: &Track) -> (r: String)
    ensures
        r@ == row_text(i as nat, current, *track),
{
    let n = print(i as u128 + 1);
    let label = track.display_label();
    let mut out = chars_of(
        if current {
            "▶"
        } else {
            " "
        },
    );
    add_text(&mut out, " ");
    let ghost front = out@;
    if n.len() < 3 {
        fill(&mut out, ' ', 3 - n.len());
    }
    assert(out@ =~= front + spaces(3 - n@.len()));
    add_chars(&mut out, n.as_slice());
    add_text(&mut out, ". ");
    add_text(&mut out, label.as_str());
    string_of(out.as_slice())
}

/// The queue, row by row.
pub fn queue_lines(tracks: &Vec<Track>, current: Option<usize>) -> (r: Vec<String>)
    ensures
        texts(r@) == queue_texts(tracks@, current),
{
    let mut out: Vec<String> = Vec::new();
    if tracks.len() == 0 {
        out.push("queue is empty".to_owned());
        assert(texts(out@) =~= seq!["queue is empty"@]);
        return out;
    }
    let ghost all = queue_texts(tracks@, current);
    let mut i: usize = 0;
    while i < tracks.len()
        invariant
            i <= tracks@.len(),
            tracks@.len() > 0,
            all == queue_texts(tracks@, current),
            texts(out@) == all.take(i as int),
        decreases tracks@.len() - i,
    {
        let here = match current {
            Some(c) => c == i,
            None => false,
        };
        let ghost had = out@;
        out.push(row(i, here, &tracks[i]));
        proof {
            assert(texts(out@) =~= texts(had).push(all[i as int]));
            assert(all.take(i as int + 1) =~= all.take(i as int).push(all[i as int]));
        }
        i = i + 1;
    }
    assert(all.take(i as int) =~= all);
    out
}

/// What a scan found.
pub open spec fn found_text(report: ScanReport) -> Seq<char> {
    digits(report.seen as nat) + " found, "@ + digits(report.added as nat) + " added, "@ + digits(
        report.updated as nat,
    ) + " updated, "@ + digits(report.unchanged as nat) + " unchanged"@
}

fn found_chars(report: &ScanReport) -> (out: Vec<char>)
    ensures
        out@ == found_text(*report),
{
    let seen = print(report.seen as u128);
    let added = print(report.added as u128);
    let updated = print(report.updated as u128);
    let unchanged = print(report.unchanged as u128);
    let mut out = seen;
    add_text(&mut out, " found, ");
    add_chars(&mut out, added.as_slice());
    add_text(&mut out, " added, ");
    add_chars(&mut out, updated.as_slice());
    add_text(&mut out, " updated, ");
    add_chars(&mut out, unchanged.as_slice());
    add_text(&mut out, " unchanged");
    out
}

/// What is said of a folder that is watched from now on.
pub fn watching_text(path: &str, report: &ScanReport) -> (r: String)
    ensures
        r@ == "watching "@ + path@ + "\n  "@ + found_text(*report),
{
    let found = found_chars(report);
    let mut out = chars_of("watching ");
    add_text(&mut out, path);
    add_text(&mut out, "\n  ");
    add_chars(&mut out, found.as_slice());
    string_of(out.as_slice())
}

/// What is said of a scan of the whole library.
pub fn scan_text(report: &ScanReport) -> (r: String)
    ensures
        r@ == found_text(*report) + ", "@ + digits(report.removed as nat) + " removed"@,
{
    let removed = print(report.removed as u128);
    let mut out = found_chars(report);
    add_text(&mut out, ", ");
    add_chars(&mut out, removed.as_slice());
    add_text(&mut out, " removed");
    string_of(out.as_slice())
}

/// What is said of a folder that was to be watched no longer.
pub fn unwatched_text(path: &str, watched: bool) -> (r: String)
    ensures
        r@ == if watched {
            "no longer watching "@ + path@
        } else {
            path@ + " was not being watched"@
        },
{
    if watched {
        option("no longer watching ", path)
    } else {
        option(path, " was not being watched")
    }
}

/// What is said when playback is paused or goes on.
pub fn paused_text(paused: bool) -> (r: &'static str)
    ensures
        r@ == if paused {
            "⏸ paused"@
        } else {
            "▶ playing"@
        },
{
    if paused {
        "⏸ paused"
    } else {
        "▶ playing"
    }
}

/// What is said of a track that plays, or of there being none.
pub fn playing_text(track: &Option<Track>, otherwise: &str) -> (r: String)
    ensures
        r@ == match *track {
            Some(t) => "▶ "@ + t.label_text(),
            None => otherwise@,
        },
{
    match track {
        Some(t) => {
            let label = t.display_label();
            option("▶ ", label.as_str())
        },
        None => otherwise.to_owned(),
    }
}

/// What is said of the position after a seek.
pub fn sought_text(target: Fixed) -> (r: String)
    ensures
        r@ == "⇥ "@ + duration_text(target),
{
    let at = format_duration(target);
    option("⇥ ", at.as_str())
}

/// What is said of the volume: its percentage to the nearest whole one.
pub fn volume_text(percent: Fixed) -> (r: String)
    ensures
        r@ == "volume "@ + to_places(percent, 0) + "%"@,
{
    let level = places(percent, 0);
    let mut out = chars_of("volume ");
    add_chars(&mut out, level.as_slice());
    add_text(&mut out, "%");
    string_of(out.as_slice())
}

/// What is said of the rate, to two places.
pub fn speed_text(rate: Fixed) -> (r: String)
    ensures
        r@ == "speed "@ + to_places(rate, 2) + "x"@,
{
    let speed = places(rate, 2);
    let mut out = chars_of("speed ");
    add_chars(&mut out, speed.as_slice());
    add_text(&mut out, "x");
    string_of(out.as_slice())
}

/// What is said when no engine can be had, and how the program then ends. That
/// the engine is not installed is something the user can mend.
pub fn setup_failure(error: &EngineError) -> (r: (String, i32))
    ensures
        match error@ {
            EngineErrorView::EngineMissing { display_name, hint } => r.0@ == "setwave: "@
                + display_name + " is not installed.\n  "@ + hint && r.1 == 2,
            _ => r.0@ == "setwave: "@ + error@.text() && r.1 == 1,
        },
{
    match error {
        EngineError::EngineMissing { display_name, hint } => {
            let mut out = chars_of("setwave: ");
            add_text(&mut out, display_name.as_str());
            add_text(&mut out, " is not installed.\n  ");
            add_text(&mut out, hint.as_str());
            (string_of(out.as_slice()), 2)
        },
        _ => {
            let message = error.message();
            (option("setwave: ", message.as_str()), 1)
        },
    }
}

/// The bar always has the same width.
pub proof fn law_bar_has_one_width(position: Fixed, duration: Fixed)
    requires
        lt(Fixed::Nanos(0), duration),
    ensures
        bar_text(Some(position), Some(duration)).len() == 2 + WIDTH,
{
    reveal_strlit("  ");
}

/// The words that are read are all different.
pub proof fn lemma_words_differ()
    ensures
        "on"@ != "off"@,
        "on"@ != "no"@,
        "on"@ != "hide"@,
        "on"@ != "toggle"@,
        "off"@ != "yes"@,
        "off"@ != "true"@,
        "off"@ != "1"@,
        "off"@ != "show"@,
        "off"@ != "toggle"@,
        "no"@ != "yes"@,
        "no"@ != "true"@,
        "no"@ != "1"@,
        "false"@ != "on"@,
        "false"@ != "yes"@,
        "false"@ != "true"@,
        "false"@ != "1"@,
        "0"@ != "on"@,
        "0"@ != "yes"@,
        "0"@ != "true"@,
        "0"@ != "1"@,
        "hide"@ != "show"@,
        "toggle"@ != "show"@,
        "toggle"@ != "hide"@,
{
    reveal_strlit("on");
    reveal_strlit("off");
    reveal_strlit("yes");
    reveal_strlit("no");
    reveal_strlit("true");
    reveal_strlit("false");
    reveal_strlit("1");
    reveal_strlit("0");
    reveal_strlit("show");
    reveal_strlit("hide");
    reveal_strlit("toggle");
    assert("on"@[0] == 'o' && "no"@[0] == 'n');
    assert("off"@[0] == 'o' && "yes"@[0] == 'y');
    assert("0"@[0] == '0' && "1"@[0] == '1');
    assert("hide"@[0] == 'h' && "show"@[0] == 's');
    assert("on"@.len() == 2 && "off"@.len() == 3 && "hide"@.len() == 4 && "toggle"@.len() == 6);
    assert("true"@.len() == 4 && "false"@.len() == 5 && "yes"@.len() == 3 && "no"@.len() == 2);
    assert("1"@.len() == 1 && "0"@.len() == 1 && "show"@.len() == 4);
}

/// A switch is on by `on`, `yes`, `true` or `1`, off by `off`, `no`, `false` or `0`,
/// and nothing by any other word.
pub proof fn law_switch_words(word: Seq<char>)
    ensures
        switched(word) == Some(true) <==> word == "on"@ || word == "yes"@ || word == "true"@
            || word == "1"@,
        switched(word) == Some(false) <==> word == "off"@ || word == "no"@ || word == "false"@
            || word == "0"@,
{
    lemma_words_differ();
}

/// The picture is shown by `on` or `show`, hidden by `off` or `hide`, and toggled by
/// `toggle`.
pub proof fn law_video_words(word: Seq<char>)
    ensures
        video_named(word) == Some(VideoState::Show) <==> word == "on"@ || word == "show"@,
        video_named(word) == Some(VideoState::Hide) <==> word == "off"@ || word == "hide"@,
        video_named(word) == Some(VideoState::Toggle) <==> word == "toggle"@,
{
    lemma_words_differ();
}

} // verus!
