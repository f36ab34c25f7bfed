//! What each command comes to: which operation of the player it carries out, and what
//! it says when that has come to its end.

use vstd::prelude::*;

use crate::cli::{found_text, status_texts, track_text};
use crate::commands::{resolves, run_of, scan_of, Command};
use crate::control_laws::refuses;
use crate::error::ErrorView;
use crate::fixed::{to_places, Fixed};
use crate::library::ScanReport;
use crate::number::digits;
use crate::playback_laws::{leaves, wants};
use crate::player_model::{
    command_of, ensure_indexed_of, find_track_of, next_of, previous_of, queue_add_of, quit_of,
    requeued, seek_relative_of, set_paused_of, set_policy_of, set_repeat_of, set_shuffle_of,
    start_track_of, status_of, stop_of, tick_of, toggle_paused_of, toggle_video_of, ActionView,
    Answer, EngineCall, PlayerView, Run,
};
use crate::queue::{mode_named, mode_text};
use crate::script::Progress;
use crate::selection::policy_of;
use crate::text::{joined, lowered, texts, trimmed};
use crate::timecode::{duration_text, seek_of, Seek};
use crate::track::Track;

verus! {

/// Whether a command does what an operation does, and says a line once that has come
/// to its end; and where the operation fails, fails with it.
pub open spec fn tells<T>(
    command: Run<()>,
    operation: Run<T>,
    said: Seq<Answer>,
    line: Seq<char>,
) -> bool {
    &&& operation.end matches Progress::Ask(a) ==> wants(command, a)
    &&& operation.end matches Progress::Failed(e) ==> refuses(command, e) && command.state
        == operation.state
    &&& operation.end is Done && operation.at == said.len() ==> wants(
        command,
        ActionView::Say(line),
    )
    &&& operation.end is Done && 0 <= operation.at < said.len() && said[operation.at] is Finished
        ==> leaves(command, operation.state)
}

/// Pausing, going on and toggling say what became of it.
pub proof fn law_pause_commands(p: PlayerView, said: Seq<Answer>)
    ensures
        tells(
            run_of(p, said, 0, Command::Pause),
            set_paused_of(p, said, 0, true),
            said,
            "⏸ paused"@,
        ),
        tells(
            run_of(p, said, 0, Command::Resume),
            set_paused_of(p, said, 0, false),
            said,
            "▶ playing"@,
        ),
        ({
            let o = toggle_paused_of(p, said, 0);
            tells(
                run_of(p, said, 0, Command::Toggle),
                o,
                said,
                if o.end == Progress::<ActionView, bool, ErrorView>::Done(true) {
                    "⏸ paused"@
                } else {
                    "▶ playing"@
                },
            )
        }),
{
}

/// Going on and back say what plays then, or that the queue has come to its end, or
/// to its start.
pub proof fn law_walk_commands(p: PlayerView, said: Seq<Answer>)
    ensures
        ({
            let o = next_of(p, said, 0);
            tells(
                run_of(p, said, 0, Command::Next),
                o,
                said,
                match o.end {
                    Progress::Done(Some(t)) => "▶ "@ + t.label_text(),
                    _ => "end of queue"@,
                },
            )
        }),
        ({
            let o = previous_of(p, said, 0);
            tells(
                run_of(p, said, 0, Command::Prev),
                o,
                said,
                match o.end {
                    Progress::Done(Some(t)) => "▶ "@ + t.label_text(),
                    _ => "start of queue"@,
                },
            )
        }),
{
}

/// Stopping and quitting say so.
pub proof fn law_stop_commands(p: PlayerView, said: Seq<Answer>)
    ensures
        tells(run_of(p, said, 0, Command::Stop), stop_of(p, said, 0), said, "stopped"@),
        tells(
            run_of(p, said, 0, Command::Quit),
            quit_of(p, said, 0),
            said,
            "stopped and shut down"@,
        ),
{
}

/// Volume and speed go to the engine as they were given, and are told.
pub proof fn law_level_commands(p: PlayerView, said: Seq<Answer>, x: Fixed)
    ensures
        tells(
            run_of(p, said, 0, Command::Volume(x)),
            command_of(p, said, 0, EngineCall::SetVolume(x)),
            said,
            "volume "@ + to_places(x, 0) + "%"@,
        ),
        tells(
            run_of(p, said, 0, Command::Speed(x)),
            command_of(p, said, 0, EngineCall::SetSpeed(x)),
            said,
            "speed "@ + to_places(x, 2) + "x"@,
        ),
{
}

/// A seek to a time goes there, though not before the start; one by an offset goes by
/// that much, and where it led is told.
pub proof fn law_seek_commands(p: PlayerView, said: Seq<Answer>, input: String)
    ensures
        seek_of(input@) matches Some(Seek::Absolute(Fixed::Nanos(n))) ==> tells(
            run_of(p, said, 0, Command::Seek(input)),
            command_of(
                p,
                said,
                0,
                EngineCall::SeekAbsolute(
                    Fixed::Nanos(
                        if n < 0 {
                            0
                        } else {
                            n
                        },
                    ),
                ),
            ),
            said,
            "⇥ "@ + duration_text(Fixed::Nanos(n)),
        ),
        seek_of(input@) matches Some(Seek::Relative(delta)) ==> {
            let o = seek_relative_of(p, said, 0, delta);
            tells(
                run_of(p, said, 0, Command::Seek(input)),
                o,
                said,
                "⇥ "@ + duration_text(o.end->Done_0),
            )
        },
{
    if let Some(Seek::Relative(delta)) = seek_of(input@) {
        let o = seek_relative_of(p, said, 0, delta);
    }
}

/// The picture is shown, hidden or toggled by its word, and which is told.
pub proof fn law_video_commands(p: PlayerView, said: Seq<Answer>, input: String)
    ensures
        ({
            let word = lowered(trimmed(input@));
            let run = run_of(p, said, 0, Command::Video(input));
            &&& word == "on"@ || word == "show"@ ==> tells(
                run,
                command_of(p, said, 0, EngineCall::SetVideoVisible(true)),
                said,
                "video shown"@,
            )
            &&& word == "off"@ || word == "hide"@ ==> tells(
                run,
                command_of(p, said, 0, EngineCall::SetVideoVisible(false)),
                said,
                "video hidden"@,
            )
            &&& word == "toggle"@ ==> {
                let o = toggle_video_of(p, said, 0);
                tells(
                    run,
                    o,
                    said,
                    if o.end == Progress::<ActionView, bool, ErrorView>::Done(true) {
                        "video shown"@
                    } else {
                        "video hidden"@
                    },
                )
            }
        }),
{
    crate::cli::lemma_words_differ();
    let a = command_of(p, said, 0, EngineCall::SetVideoVisible(true));
    let b = command_of(p, said, 0, EngineCall::SetVideoVisible(false));
    let c = toggle_video_of(p, said, 0);
}

/// A repeat mode is set by its name, and shuffle by a switch; both are told.
pub proof fn law_rule_commands(p: PlayerView, said: Seq<Answer>, input: String)
    ensures
        mode_named(lowered(trimmed(input@))) matches Some(mode) ==> tells(
            run_of(p, said, 0, Command::Repeat(input)),
            set_repeat_of(p, said, 0, mode),
            said,
            "repeat "@ + mode_text(mode),
        ),
        lowered(trimmed(input@)) == "on"@ ==> tells(
            run_of(p, said, 0, Command::Shuffle(input)),
            set_shuffle_of(p, said, 0, true),
            said,
            "shuffle on"@,
        ),
        lowered(trimmed(input@)) == "off"@ ==> tells(
            run_of(p, said, 0, Command::Shuffle(input)),
            set_shuffle_of(p, said, 0, false),
            said,
            "shuffle off"@,
        ),
{
    crate::cli::lemma_words_differ();
    let a = set_shuffle_of(p, said, 0, true);
    let b = set_shuffle_of(p, said, 0, false);
    if let Some(mode) = mode_named(lowered(trimmed(input@))) {
        let c = set_repeat_of(p, said, 0, mode);
    }
}

/// The queue is cleared, and the engine policy set, and that is told.
pub proof fn law_other_settings_commands(p: PlayerView, said: Seq<Answer>, id: String)
    ensures
        tells(
            run_of(p, said, 0, Command::QueueClear),
            requeued(p, said, 0, p.queue.cleared()),
            said,
            "queue cleared"@,
        ),
        tells(
            run_of(p, said, 0, Command::EngineUse(id)),
            set_policy_of(p, said, 0, policy_of(id@)),
            said,
            "engine set to "@ + id@,
        ),
{
}

/// A target is a file where there is one of that name, and else some words to search
/// for.
pub proof fn law_targets_are_files_or_words(
    p: PlayerView,
    said: Seq<Answer>,
    words: Seq<Seq<char>>,
    there: bool,
)
    requires
        words.len() > 0,
        said.len() > 0,
        said[0] == Answer::Flag(there),
    ensures
        wants(resolves(p, Seq::empty(), 0, words), ActionView::Exists(joined(words, " "@))),
        there ==> resolves(p, said, 0, words) == ensure_indexed_of(p, said, 1, joined(words, " "@)),
        !there ==> resolves(p, said, 0, words) == find_track_of(p, said, 1, joined(words, " "@)),
{
}

/// Playing resolves its target, starts that track, from its start where that was asked
/// for, and says what plays.
pub proof fn law_play_command(
    p: PlayerView,
    said: Seq<Answer>,
    target: Vec<String>,
    restart: bool,
)
    ensures
        ({
            let found = resolves(p, said, 0, texts(target@));
            let run = run_of(p, said, 0, Command::Play { target, restart });
            &&& found.end matches Progress::Ask(a) ==> wants(run, a)
            &&& found.end matches Progress::Failed(e) ==> refuses(run, e)
            &&& found.end matches Progress::Done(track) ==> {
                let o = start_track_of(found.state, said, found.at, track.id, restart);
                tells(run, o, said, "▶ "@ + track.label_text())
            }
        }),
{
    let found = resolves(p, said, 0, texts(target@));
    if let Progress::Done(track) = found.end {
        let o = start_track_of(found.state, said, found.at, track.id, restart);
    }
}

/// A search asks for the matches of its words, and the tracks played last are asked
/// for as they are; no more than the limit. Where there are none, that is said.
pub proof fn law_library_lists(
    p: PlayerView,
    query: Vec<String>,
    limit: usize,
    none: Vec<Track>,
)
    requires
        none@.len() == 0,
    ensures
        ({
            let search = Command::LibrarySearch { query, limit };
            let recent = Command::LibraryRecent(limit);
            let empty = seq![Answer::Tracks(none)];
            &&& wants(
                run_of(p, Seq::empty(), 0, search),
                ActionView::Matches { query: joined(texts(query@), " "@), limit },
            )
            &&& wants(run_of(p, empty, 0, search), ActionView::Say("nothing matched"@))
            &&& wants(run_of(p, Seq::empty(), 0, recent), ActionView::Recents(limit))
            &&& wants(run_of(p, empty, 0, recent), ActionView::Say("nothing played yet"@))
        }),
{
}

/// Each track of a list is looked up for where it is taken up again, and then told.
pub proof fn law_listed_tracks_are_told(
    p: PlayerView,
    query: Vec<String>,
    limit: usize,
    found: Vec<Track>,
    resume: Option<Fixed>,
)
    requires
        found@.len() > 0,
    ensures
        ({
            let search = Command::LibrarySearch { query, limit };
            let a = seq![Answer::Tracks(found)];
            let b = seq![Answer::Tracks(found), Answer::Position(resume)];
            &&& wants(run_of(p, a, 0, search), ActionView::ResumeFor(found@[0].id))
            &&& wants(
                run_of(p, b, 0, search),
                ActionView::Say(track_text(found@[0], resume)),
            )
        }),
{
    let a = seq![Answer::Tracks(found)];
    let b = seq![Answer::Tracks(found), Answer::Position(resume)];
    assert(crate::commands::lists_one(p, a, 1, found@[0]).end is Ask);
    assert(crate::commands::lists_one(p, b, 1, found@[0]).end is Ask);
}

proof fn lemma_watching(
    p: PlayerView,
    folder: String,
    path: String,
    report: ScanReport,
    s: Seq<Answer>,
)
    requires
        s.len() <= 3,
        s.len() > 0 ==> s[0] == Answer::Path(path),
        s.len() > 1 ==> s[1] is Finished,
        s.len() > 2 ==> s[2] == Answer::Report(report),
    ensures
        wants(
            run_of(p, s, 0, Command::LibraryAdd(folder)),
            if s.len() == 0 {
                ActionView::Canonical(folder@)
            } else if s.len() == 1 {
                ActionView::AddFolder(path@)
            } else if s.len() == 2 {
                ActionView::ScanFolder(path@)
            } else {
                ActionView::Say("watching "@ + path@ + "\n  "@ + found_text(report))
            },
        ),
{
}

/// A folder is watched under its canonical name and scanned at once.
pub proof fn law_watching_a_folder(
    p: PlayerView,
    folder: String,
    path: String,
    report: ScanReport,
)
    ensures
        ({
            let add = Command::LibraryAdd(folder);
            let a = seq![Answer::Path(path)];
            let b = seq![Answer::Path(path), Answer::Finished];
            let c = seq![Answer::Path(path), Answer::Finished, Answer::Report(report)];
            &&& wants(run_of(p, Seq::empty(), 0, add), ActionView::Canonical(folder@))
            &&& wants(run_of(p, a, 0, add), ActionView::AddFolder(path@))
            &&& wants(run_of(p, b, 0, add), ActionView::ScanFolder(path@))
            &&& wants(
                run_of(p, c, 0, add),
                ActionView::Say("watching "@ + path@ + "\n  "@ + found_text(report)),
            )
        }),
{
    lemma_watching(p, folder, path, report, Seq::empty());
    lemma_watching(p, folder, path, report, seq![Answer::Path(path)]);
    lemma_watching(p, folder, path, report, seq![Answer::Path(path), Answer::Finished]);
    lemma_watching(
        p,
        folder,
        path,
        report,
        seq![Answer::Path(path), Answer::Finished, Answer::Report(report)],
    );
}

proof fn lemma_unwatching(p: PlayerView, folder: String, path: String, s: Seq<Answer>)
    requires
        s.len() <= 2,
        s.len() > 0 ==> s[0] == Answer::Path(path),
        s.len() > 1 ==> s[1] is Flag,
    ensures
        wants(
            run_of(p, s, 0, Command::LibraryRemove(folder)),
            if s.len() == 0 {
                ActionView::Canonical(folder@)
            } else if s.len() == 1 {
                ActionView::RemoveFolder(path@)
            } else if s[1] == Answer::Flag(true) {
                ActionView::Say("no longer watching "@ + path@)
            } else {
                ActionView::Say(path@ + " was not being watched"@)
            },
        ),
{
}

/// A folder is watched no longer under its canonical name, and whether it was is
/// told.
pub proof fn law_unwatching_a_folder(
    p: PlayerView,
    folder: String,
    path: String,
    watched: bool,
)
    ensures
        ({
            let remove = Command::LibraryRemove(folder);
            let a = seq![Answer::Path(path)];
            let b = seq![Answer::Path(path), Answer::Flag(watched)];
            &&& wants(run_of(p, Seq::empty(), 0, remove), ActionView::Canonical(folder@))
            &&& wants(run_of(p, a, 0, remove), ActionView::RemoveFolder(path@))
            &&& wants(
                run_of(p, b, 0, remove),
                ActionView::Say(
                    if watched {
                        "no longer watching "@ + path@
                    } else {
                        path@ + " was not being watched"@
                    },
                ),
            )
        }),
{
    lemma_unwatching(p, folder, path, Seq::empty());
    lemma_unwatching(p, folder, path, seq![Answer::Path(path)]);
    lemma_unwatching(p, folder, path, seq![Answer::Path(path), Answer::Flag(watched)]);
}

proof fn lemma_scanning(p: PlayerView, report: ScanReport, n: usize, s: Seq<Answer>)
    requires
        s.len() <= 3,
        s.len() > 0 ==> s[0] == Answer::Report(report),
        s.len() > 1 ==> s[1] is Finished,
        s.len() > 2 ==> s[2] == Answer::Count(n),
    ensures
        wants(
            run_of(p, s, 0, Command::LibraryScan),
            if s.len() == 0 {
                ActionView::ScanLibrary
            } else if s.len() == 1 {
                ActionView::Say(
                    found_text(report) + ", "@ + digits(report.removed as nat) + " removed"@,
                )
            } else if s.len() == 2 {
                ActionView::TrackCount
            } else {
                ActionView::Say(digits(n as nat) + " tracks in the library"@)
            },
        ),
{
    assert(run_of(p, s, 0, Command::LibraryScan) == scan_of(p, s, 0));
}

/// A scan of the library tells what it came to, and how many tracks there are.
#[verifier::spinoff_prover]
#[verifier::rlimit(60)]
pub proof fn law_scan_command(p: PlayerView, report: ScanReport, n: usize)
    ensures
        ({
            let c = Command::LibraryScan;
            let a = seq![Answer::Report(report)];
            let b = seq![Answer::Report(report), Answer::Finished];
            let d = seq![Answer::Report(report), Answer::Finished, Answer::Count(n)];
            &&& wants(run_of(p, Seq::empty(), 0, c), ActionView::ScanLibrary)
            &&& wants(
                run_of(p, a, 0, c),
                ActionView::Say(
                    found_text(report) + ", "@ + digits(report.removed as nat) + " removed"@,
                ),
            )
            &&& wants(run_of(p, b, 0, c), ActionView::TrackCount)
            &&& wants(
                run_of(p, d, 0, c),
                ActionView::Say(digits(n as nat) + " tracks in the library"@),
            )
        }),
{
    lemma_scanning(p, report, n, Seq::empty());
    lemma_scanning(p, report, n, seq![Answer::Report(report)]);
    lemma_scanning(p, report, n, seq![Answer::Report(report), Answer::Finished]);
    lemma_scanning(
        p,
        report,
        n,
        seq![Answer::Report(report), Answer::Finished, Answer::Count(n)],
    );
}

/// The status is told after upkeep, whatever became of that.
pub proof fn law_status_command(p: PlayerView, said: Seq<Answer>)
    ensures
        ({
            let run = run_of(p, said, 0, Command::Status);
            let ticked = tick_of(p, said, 0);
            let shown = status_of(ticked.state, said, ticked.at);
            &&& ticked.end matches Progress::Ask(a) ==> wants(run, a)
            &&& !(ticked.end is Ask) && shown.end is Ask ==> wants(run, shown.end->Ask_0)
            &&& !(ticked.end is Ask) && shown.end is Done && shown.at == said.len()
                && status_texts(shown.end->Done_0).len() > 0 ==> wants(
                run,
                ActionView::Say(status_texts(shown.end->Done_0)[0]),
            )
        }),
{
    let ticked = tick_of(p, said, 0);
    let shown = status_of(ticked.state, said, ticked.at);
}

/// A target that is added to the queue goes to its end, by its id, and is told.
pub proof fn law_add_command(p: PlayerView, said: Seq<Answer>, target: Vec<String>)
    requires
        target@.len() > 0,
    ensures
        ({
            let run = run_of(p, said, 0, Command::QueueAdd(target));
            let found = resolves(p, said, 0, seq![target@[0]@]);
            &&& found.end matches Progress::Ask(a) ==> wants(run, a)
            &&& found.end matches Progress::Failed(e) ==> refuses(run, e)
            &&& found.end matches Progress::Done(track) ==> {
                let o = queue_add_of(found.state, said, found.at, seq![track.id]);
                &&& o.end matches Progress::Ask(a) ==> wants(run, a)
                &&& o.end matches Progress::Failed(e) ==> refuses(run, e)
                &&& o.end is Done && o.at == said.len() ==> wants(
                    run,
                    ActionView::Say("+ "@ + track.label_text()),
                )
            }
        }),
{
    let found = resolves(p, said, 0, seq![target@[0]@]);
    assert(texts(target@)[0] == target@[0]@);
    let one = crate::commands::adds_one(p, said, 0, texts(target@)[0]);
    if let Progress::Done(track) = found.end {
        let o = queue_add_of(found.state, said, found.at, seq![track.id]);
    }
}

} // verus!
