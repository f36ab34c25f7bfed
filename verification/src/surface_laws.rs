//! What holds of what the user is told: lines, messages, and what the app is handed.

use vstd::prelude::*;

use crate::cli::{
    bar_text, filled_cells, flag_texts, found_text, mark_text, queue_text, queue_texts, row_text,
    spaces, state_text, status_texts, track_text, WIDTH,
};
use crate::engine::EngineErrorView;
use crate::error::ErrorView;
use crate::ffi::{
    engine_failure, failure, foreign_failure, low_bits, shows_status, PlayerSnapshot,
    SetbuddyErrorView,
};
use crate::fixed::{lt, Fixed};
use crate::library::ScanReport;
use crate::number::digits;
use crate::player_model::StatusView;
use crate::queue::{mode_named, mode_text, RepeatMode};
use crate::text::joined;
use crate::timecode::{duration_text, optional_duration_text};
use crate::track::Track;

verus! {

/// Whether a text begins with another.
pub open spec fn begins(s: Seq<char>, front: Seq<char>) -> bool {
    s.len() >= front.len() && s.take(front.len() as int) == front
}

/// Whether a text ends in another.
pub open spec fn ends(s: Seq<char>, back: Seq<char>) -> bool {
    s.len() >= back.len() && s.skip(s.len() - back.len()) == back
}

/// A track's line: what it is, how long, what it is called, and where it would be
/// taken up again.
pub proof fn law_track_lines(track: Track, at: Fixed)
    ensures
        begins(
            track_text(track, None),
            (if track.has_video {
                "▣"@
            } else {
                "♪"@
            }) + " "@ + optional_duration_text(track.duration_secs),
        ),
        ends(track_text(track, None), " "@ + track.label_text()),
        track_text(track, Some(at)) == track_text(track, None) + "  [resume "@ + duration_text(at)
            + "]"@,
{
    let d = optional_duration_text(track.duration_secs);
    let front = mark_text(track.has_video) + " "@ + d;
    let bare = track_text(track, None);
    assert(bare =~= front + spaces(8 - d.len()) + " "@ + track.label_text());
    assert(bare.take(front.len() as int) =~= front);
    let back = " "@ + track.label_text();
    assert(bare.skip(bare.len() - back.len()) =~= back);
    assert(track_text(track, Some(at)) =~= bare + "  [resume "@ + duration_text(at) + "]"@);
}

/// Labels in a list stand in one column, whatever the durations, as long as those
/// are of eight characters or less.
pub proof fn law_labels_are_aligned(a: Track, b: Track)
    requires
        optional_duration_text(a.duration_secs).len() <= 8,
        optional_duration_text(b.duration_secs).len() <= 8,
    ensures
        track_text(a, None).len() - a.label_text().len() == track_text(b, None).len()
            - b.label_text().len(),
{
    reveal_strlit("▣");
    reveal_strlit("♪");
}

/// What the player is doing: stopped, paused or playing, in this order.
pub proof fn law_state_marks(paused: bool)
    ensures
        state_text(true, paused) == "◼"@,
        state_text(false, true) == "⏸"@,
        state_text(false, false) == "▶"@,
{
}

/// The bar grows with the position and is full at the end.
pub proof fn law_bar(d: Fixed, p: Fixed)
    requires
        lt(Fixed::Nanos(0), d),
    ensures
        bar_text(None, Some(d)).len() == 0,
        bar_text(Some(p), None).len() == 0,
        bar_text(Some(p), Some(d)).len() == WIDTH + 2,
        p matches Fixed::Nanos(n) && n <= 0 ==> filled_cells(p, d) == 0,
        filled_cells(p, d) <= WIDTH,
        forall|i: int|
            0 <= i < WIDTH ==> #[trigger] bar_text(Some(p), Some(d))[i + 2] == if i
                < filled_cells(p, d) {
                '━'
            } else {
                '─'
            },
{
    reveal_strlit("  ");
}

/// Without a track there is one line; with one, its state and name come first, then
/// where it is, then its picture if it has one, then the queue if there is one.
pub proof fn law_status_lines(status: StatusView)
    ensures
        status.track is None ==> status_texts(status) == seq!["nothing playing"@],
        status.track is Some ==> {
            let lines = status_texts(status);
            let seen: int = if status.has_video {
                1
            } else {
                0
            };
            let queued: int = if status.queue_len > 0 {
                1
            } else {
                0
            };
            &&& lines.len() == 2 + seen + queued
            &&& lines[0] == state_text(status.idle, status.paused) + " "@
                + status.track->0.label_text()
            &&& begins(
                lines[1],
                "  "@ + optional_duration_text(status.position_secs) + " / "@
                    + optional_duration_text(status.duration_secs),
            )
            &&& ends(lines[1], bar_text(status.position_secs, status.duration_secs))
            &&& status.has_video && status.video_visible ==> lines[2] == "  video: popped out"@
            &&& status.has_video && !status.video_visible ==> lines[2] == "  video: hidden"@
            &&& status.queue_len > 0 ==> begins(
                lines.last(),
                "  "@ + queue_text(status.queue_len, status.queue_index),
            )
        },
{
    if status.track is Some {
        let lines = status_texts(status);
        let front = "  "@ + optional_duration_text(status.position_secs) + " / "@
            + optional_duration_text(status.duration_secs);
        let bar = bar_text(status.position_secs, status.duration_secs);
        assert(lines[1] == front + bar);
        assert(lines[1].take(front.len() as int) =~= front);
        assert(lines[1].skip(lines[1].len() - bar.len()) =~= bar);
        if status.queue_len > 0 {
            let place = queue_text(status.queue_len, status.queue_index);
            lemma_first_flag(status);
            let all = joined(flag_texts(status), " · "@);
            let head = "  "@ + place;
            assert(lines.last() == "  "@ + all);
            assert(("  "@ + all).take(head.len() as int) =~= "  "@ + all.take(place.len() as int));
        }
    }
}

proof fn lemma_joined_begins(parts: Seq<Seq<char>>, sep: Seq<char>)
    requires
        parts.len() > 0,
    ensures
        begins(joined(parts, sep), parts[0]),
    decreases parts.len(),
{
    if parts.len() > 1 {
        lemma_joined_begins(parts.drop_last(), sep);
        let head = joined(parts.drop_last(), sep);
        let n = parts[0].len() as int;
        assert(joined(parts, sep).take(n) =~= head.take(n));
    } else {
        assert(parts[0].take(parts[0].len() as int) =~= parts[0]);
    }
}

proof fn lemma_first_flag(status: StatusView)
    ensures
        flag_texts(status).len() > 0,
        begins(
            joined(flag_texts(status), " · "@),
            queue_text(status.queue_len, status.queue_index),
        ),
{
    lemma_joined_begins(flag_texts(status), " · "@);
}

/// The queue's line counts from one and names what is on: repeating, looping and
/// shuffling, each only where it is, in this order.
pub proof fn law_queue_flags(status: StatusView)
    ensures
        ({
            let flags = flag_texts(status);
            let repeats: int = if status.repeat is Off {
                0
            } else {
                1
            };
            let loops: int = if status.loop_positions.len() == 0 {
                0
            } else {
                1
            };
            let shuffles: int = if status.shuffle {
                1
            } else {
                0
            };
            &&& flags.len() == 1 + repeats + loops + shuffles
            &&& status.queue_index is None ==> flags[0] == "queue "@ + digits(status.queue_len)
                + " tracks"@
            &&& status.queue_index is Some ==> flags[0] == "queue "@ + digits(
                (status.queue_index->0 + 1) as nat,
            ) + " of "@ + digits(status.queue_len)
            &&& status.repeat !is Off ==> flags[1] == "repeat "@ + mode_text(status.repeat)
            &&& status.loop_positions.len() > 0 ==> flags[1 + repeats] == "loop "@ + digits(
                status.loop_positions.len(),
            ) + " rows"@
            &&& status.shuffle ==> flags.last() == "shuffle"@
        }),
{
}

/// Repeat modes are told by the words they are read from, and no two by one.
pub proof fn law_mode_words(mode: RepeatMode)
    ensures
        mode_named(mode_text(mode)) == Some(mode),
        mode_named("none"@) == Some(RepeatMode::Off),
        mode_named("queue"@) == Some(RepeatMode::All),
        mode_named("track"@) == Some(RepeatMode::One),
        mode_named("single"@) == Some(RepeatMode::One),
        mode_text(RepeatMode::Off) == "off"@,
        mode_text(RepeatMode::All) == "all"@,
        mode_text(RepeatMode::One) == "one"@,
{
    reveal_strlit("off");
    reveal_strlit("none");
    reveal_strlit("all");
    reveal_strlit("queue");
    reveal_strlit("one");
    reveal_strlit("track");
    reveal_strlit("single");
    assert("off"@[1] == 'f' && "all"@[0] == 'a' && "one"@[1] == 'n');
    assert("none"@[0] == 'n' && "queue"@[0] == 'q' && "track"@[0] == 't' && "single"@[0] == 's');
    assert("off"@[0] == 'o' && "one"@[0] == 'o');
    assert("off"@.len() == 3 && "one"@.len() == 3 && "all"@.len() == 3 && "none"@.len() == 4);
    assert("queue"@.len() == 5 && "track"@.len() == 5 && "single"@.len() == 6);
}

/// The queue has a line for each row, in its order, counted from one; only the row
/// that plays is marked.
pub proof fn law_queue_lines(tracks: Seq<Track>, current: Option<usize>, i: int)
    ensures
        tracks.len() == 0 ==> queue_texts(tracks, current) == seq!["queue is empty"@],
        tracks.len() > 0 ==> queue_texts(tracks, current).len() == tracks.len(),
        0 <= i < tracks.len() ==> {
            let line = queue_texts(tracks, current)[i];
            &&& ends(line, digits((i + 1) as nat) + ". "@ + tracks[i].label_text())
            &&& current == Some(i as usize) && i <= usize::MAX ==> begins(line, "▶"@ + " "@)
            &&& current is None || current->0 != i ==> begins(line, " "@ + " "@)
        },
{
    if 0 <= i < tracks.len() {
        let line = queue_texts(tracks, current)[i];
        let n = digits((i + 1) as nat);
        let back = n + ". "@ + tracks[i].label_text();
        let here = match current {
            Some(c) => c == i,
            None => false,
        };
        let mark = if here {
            "▶"@
        } else {
            " "@
        };
        let front = mark + " "@;
        assert(line == row_text(i as nat, here, tracks[i]));
        assert(line =~= front + spaces(3 - n.len()) + back);
        assert(line.skip(line.len() - back.len()) =~= back);
        assert(line.take(front.len() as int) =~= front);
    }
}

/// A scan's counts are told in the order seen, added, updated, unchanged.
pub proof fn law_scan_line(report: ScanReport)
    ensures
        found_text(report) == digits(report.seen as nat) + " found, "@ + digits(
            report.added as nat,
        ) + " added, "@ + digits(report.updated as nat) + " updated, "@ + digits(
            report.unchanged as nat,
        ) + " unchanged"@,
{
}

/// Every message names what it is about.
pub proof fn law_messages_name_their_subject(
    name: Seq<char>,
    more: Seq<char>,
    path: Seq<char>,
    ms: u64,
)
    ensures
        begins(
            (EngineErrorView::EngineMissing { display_name: name, hint: more }).text(),
            name + " is not installed. "@,
        ),
        ends((EngineErrorView::EngineMissing { display_name: name, hint: more }).text(), more),
        ends((EngineErrorView::Spawn { display_name: name, message: more }).text(), more),
        ends((EngineErrorView::Disconnected { display_name: name, message: more }).text(), more),
        ends((EngineErrorView::Rejected { operation: name, message: more }).text(), more),
        ends((EngineErrorView::Unsupported { path }).text(), path),
        (EngineErrorView::Internal { message: more }).text() == more,
        ends((ErrorView::Storage { message: more }).text(), more),
        begins((ErrorView::NotMedia { path }).text(), path),
        (ErrorView::Io { message: more }).text() == more,
        (ErrorView::Internal { message: more }).text() == more,
{
    let e1 = (EngineErrorView::EngineMissing { display_name: name, hint: more }).text();
    assert(e1.skip(e1.len() - more.len()) =~= more);
    let head = name + " is not installed. "@;
    assert(e1.take(head.len() as int) =~= head);
    let e2 = (EngineErrorView::Spawn { display_name: name, message: more }).text();
    assert(e2.skip(e2.len() - more.len()) =~= more);
    let e3 = (EngineErrorView::Disconnected { display_name: name, message: more }).text();
    assert(e3.skip(e3.len() - more.len()) =~= more);
    let e4 = (EngineErrorView::Rejected { operation: name, message: more }).text();
    assert(e4.skip(e4.len() - more.len()) =~= more);
    let e5 = (EngineErrorView::Unsupported { path }).text();
    assert(e5.skip(e5.len() - path.len()) =~= path);
    let e6 = (ErrorView::Storage { message: more }).text();
    assert(e6.skip(e6.len() - more.len()) =~= more);
    let e7 = (ErrorView::NotMedia { path }).text();
    assert(e7.take(path.len() as int) =~= path);
}

/// The app is told what it can act on as what it is: a missing engine, a file that
/// no engine plays or that is no media, a search without a match, that nothing plays,
/// and that the library cannot be written. Anything else is a message.
pub proof fn law_failures_as_the_app_is_told(
    name: Seq<char>,
    hint: Seq<char>,
    path: Seq<char>,
    query: Seq<char>,
    message: Seq<char>,
    e: EngineErrorView,
)
    ensures
        failure(
            ErrorView::Engine(EngineErrorView::EngineMissing { display_name: name, hint }),
        ) == (SetbuddyErrorView::EngineMissing { display_name: name, hint }),
        failure(ErrorView::Engine(EngineErrorView::Unsupported { path })) == (
        SetbuddyErrorView::UnsupportedFile { path }),
        failure(ErrorView::NotMedia { path }) == (SetbuddyErrorView::UnsupportedFile { path }),
        failure(ErrorView::NoMatch { query }) == (SetbuddyErrorView::NoMatch { query }),
        failure(ErrorView::NothingPlaying) == SetbuddyErrorView::NothingPlaying,
        failure(ErrorView::Storage { message }) == (SetbuddyErrorView::Storage { message }),
        failure(ErrorView::Io { message }) == (SetbuddyErrorView::Playback { message }),
        failure(ErrorView::Internal { message }) == (SetbuddyErrorView::Playback { message }),
        e !is EngineMissing && e !is Unsupported ==> engine_failure(e) == (
        SetbuddyErrorView::Playback { message: e.text() }),
{
}

/// What comes back from an engine of the app is a missing engine or a file it cannot
/// play, where it says so, and else its words.
pub proof fn law_failures_from_the_app(path: Seq<char>, message: Seq<char>, query: Seq<char>)
    ensures
        foreign_failure(SetbuddyErrorView::UnsupportedFile { path }) == (
        EngineErrorView::Unsupported { path }),
        foreign_failure(SetbuddyErrorView::Playback { message }) == (EngineErrorView::Internal {
            message,
        }),
        foreign_failure(SetbuddyErrorView::Storage { message }) == (EngineErrorView::Internal {
            message,
        }),
        foreign_failure(SetbuddyErrorView::NothingPlaying) == (EngineErrorView::Internal {
            message: "nothing is playing"@,
        }),
        foreign_failure(SetbuddyErrorView::NoMatch { query }) == (EngineErrorView::Internal {
            message: "nothing matches \""@ + query + "\""@,
        }),
{
}

/// A count that thirty-two bits hold is told as it is.
pub proof fn law_small_counts_are_exact(n: usize)
    ensures
        n <= u32::MAX ==> low_bits(n) == n,
        low_bits(n) <= n,
        (n - low_bits(n)) % 0x1_0000_0000 == 0,
{
}

/// Two snapshots of one status are the same in all that is drawn.
pub proof fn law_snapshot_shows_the_status(
    shot: PlayerSnapshot,
    status: crate::player::PlayerStatus,
    stored: Option<Fixed>,
)
    requires
        shows_status(shot, status, stored),
    ensures
        shot.position_secs == status.position_secs && shot.duration_secs == status.duration_secs,
        shot.paused == status.paused && shot.idle == status.idle,
        shot.has_video == status.has_video && shot.video_visible == status.video_visible,
        shot.repeat == status.repeat && shot.shuffle == status.shuffle,
        shot.engine_id == status.engine_id,
        shot.track is Some <==> status.track is Some,
        shot.track is Some ==> shot.track->0.id == status.track->0.id
            && shot.track->0.display_label@ == status.track->0.label_text(),
        shot.loop_positions@.len() == status.loop_positions@.len(),
        status.queue_len <= u32::MAX ==> shot.queue_len == status.queue_len,
        status.queue_index is Some <==> shot.queue_index is Some,
        status.queue_index is Some && status.queue_index->0 <= u32::MAX
            ==> shot.queue_index->0 == status.queue_index->0,
{
}

} // verus!
