//! What each command of the command line does, and what it says.
//!
//! A command is an operation like those of the player: it takes the answers its
//! host has given so far, and printing a line is one of the things it asks for.
//! What was printed before a command failed stays printed.

use vstd::prelude::*;

use crate::cli::{
    choose_target, found_text, parse_on_off, parse_repeat, parse_video_state, paused_text,
    playing_text, queue_lines, queue_texts, scan_text, sought_text, speed_text, status_lines,
    status_texts, switched, target_text, track_line, track_text, unwatched_text, video_named,
    volume_text, watching_text, Target, VideoState,
};
use crate::error::{CoreError, ErrorView};
use crate::fixed::{larger, max_of, to_places, Fixed};
use crate::layout::option;
use crate::library::ScanReport;
use crate::number::{digits, print};
use crate::player::{
    ask, came_to, committed, other_than, stepped, waiting, waits, Halt, Player, Step,
};
use crate::player_model::{
    asks, command_of, does, ends, ensure_indexed_of, fails, find_track_of, finds, next_of, other,
    previous_of, queue_add_of, queue_tracks_of, quit_of, remembered, reports, requeued,
    seek_relative_of, set_paused_of, set_policy_of, set_repeat_of, set_shuffle_of, start_track_of,
    status_of, stop_of, tick_of, toggle_paused_of, toggle_video_of, wonders, Action, ActionView,
    Answer, EngineCall, PlayerView, Run, StatusView,
};
use crate::player_laws::law_status_changes_nothing;
use crate::queue::{mode_named, mode_text};
use crate::script::{then_do, Progress, Script};
use crate::selection::{policy_of, EnginePolicy};
use crate::text::{add_text, chars_of, join_texts, joined, lowered, string_of, texts, trimmed};
use crate::timecode::{duration_text, parse_seek, seek_complaint, seek_of, Seek};
use crate::track::Track;

verus! {

/// A command.
#[derive(Debug)]
pub enum Command {
    /// Play a file, or the best match for some words.
    Play { target: Vec<String>, restart: bool },
    Pause,
    Resume,
    Toggle,
    Next,
    Prev,
    Stop,
    /// Go to a time, or by an offset.
    Seek(String),
    /// Show or hide the video.
    Video(String),
    Volume(Fixed),
    Speed(Fixed),
    Repeat(String),
    Shuffle(String),
    Status,
    QueueAdd(Vec<String>),
    QueueList,
    QueueClear,
    LibraryAdd(String),
    LibraryRemove(String),
    LibraryList,
    LibraryScan,
    LibrarySearch { query: Vec<String>, limit: usize },
    LibraryRecent(usize),
    EngineList,
    EngineUse(String),
    Quit,
}

/// What is said of a command that cannot be carried out as it was given.
pub open spec fn complaint(message: Seq<char>) -> ErrorView {
    ErrorView::Internal { message }
}

/// A line printed.
pub open spec fn says(p: PlayerView, said: Seq<Answer>, at: int, line: Seq<char>) -> Run<()> {
    does(p, said, at, ActionView::Say(line))
}

/// The lines from `i` on printed.
pub open spec fn says_all(
    p: PlayerView,
    said: Seq<Answer>,
    at: int,
    lines: Seq<Seq<char>>,
    i: int,
) -> Run<()>
    decreases lines.len() - i,
{
    if 0 <= i < lines.len() {
        let first = says(p, said, at, lines[i]);
        match first.end {
            Progress::Done(_) => says_all(first.state, said, first.at, lines, i + 1),
            _ => first,
        }
    } else {
        ends(p, at, ())
    }
}

/// A target found: a file of that name, indexed where it is not yet, or the best
/// match for the words.
pub open spec fn resolves(p: PlayerView, said: Seq<Answer>, at: int, words: Seq<Seq<char>>) -> Run<
    Track,
> {
    if words.len() == 0 {
        fails(p, at, complaint("nothing to play"@))
    } else {
        let text = joined(words, " "@);
        then_do(
            wonders(p, said, at, ActionView::Exists(text)),
            |p: PlayerView, at: int, there: bool|
                if there {
                    ensure_indexed_of(p, said, at, text)
                } else {
                    find_track_of(p, said, at, text)
                },
        )
    }
}

/// What is said of a track that plays.
pub open spec fn now_text(track: Option<Track>, otherwise: Seq<char>) -> Seq<char> {
    match track {
        Some(t) => "▶ "@ + t.label_text(),
        None => otherwise,
    }
}

pub open spec fn play_of(
    p: PlayerView,
    said: Seq<Answer>,
    at: int,
    words: Seq<Seq<char>>,
    restart: bool,
) -> Run<()> {
    then_do(
        resolves(p, said, at, words),
        |p: PlayerView, at: int, track: Track|
            then_do(
                start_track_of(p, said, at, track.id, restart),
                |p: PlayerView, at: int, started: Track|
                    says(p, said, at, now_text(Some(track), Seq::empty())),
            ),
    )
}

pub open spec fn pause_text(paused: bool) -> Seq<char> {
    if paused {
        "⏸ paused"@
    } else {
        "▶ playing"@
    }
}

pub open spec fn pause_of(p: PlayerView, said: Seq<Answer>, at: int, paused: bool) -> Run<()> {
    then_do(
        set_paused_of(p, said, at, paused),
        |p: PlayerView, at: int, u: ()| says(p, said, at, pause_text(paused)),
    )
}

pub open spec fn toggle_of(p: PlayerView, said: Seq<Answer>, at: int) -> Run<()> {
    then_do(
        toggle_paused_of(p, said, at),
        |p: PlayerView, at: int, paused: bool| says(p, said, at, pause_text(paused)),
    )
}

pub open spec fn go_next_of(p: PlayerView, said: Seq<Answer>, at: int) -> Run<()> {
    then_do(
        next_of(p, said, at),
        |p: PlayerView, at: int, track: Option<Track>|
            says(p, said, at, now_text(track, "end of queue"@)),
    )
}

pub open spec fn go_back_of(p: PlayerView, said: Seq<Answer>, at: int) -> Run<()> {
    then_do(
        previous_of(p, said, at),
        |p: PlayerView, at: int, track: Option<Track>|
            says(p, said, at, now_text(track, "start of queue"@)),
    )
}

/// A seek to a time is told as that time, even where playback cannot be before
/// its start; one by an offset as where it led.
pub open spec fn go_to_of(p: PlayerView, said: Seq<Answer>, at: int, input: Seq<char>) -> Run<()> {
    match seek_of(input) {
        None => fails(p, at, complaint(seek_complaint(input))),
        Some(Seek::Absolute(secs)) => then_do(
            command_of(p, said, at, EngineCall::SeekAbsolute(larger(secs, Fixed::Nanos(0)))),
            |p: PlayerView, at: int, u: ()| says(p, said, at, "⇥ "@ + duration_text(secs)),
        ),
        Some(Seek::Relative(delta)) => then_do(
            seek_relative_of(p, said, at, delta),
            |p: PlayerView, at: int, target: Fixed|
                says(p, said, at, "⇥ "@ + duration_text(target)),
        ),
    }
}

pub open spec fn video_text(visible: bool) -> Seq<char> {
    if visible {
        "video shown"@
    } else {
        "video hidden"@
    }
}

pub open spec fn video_of(p: PlayerView, said: Seq<Answer>, at: int, input: Seq<char>) -> Run<()> {
    let word = lowered(trimmed(input));
    match video_named(word) {
        None => fails(
            p,
            at,
            complaint("unknown video state \""@ + word + "\" (on, off, toggle)"@),
        ),
        Some(VideoState::Show) => then_do(
            command_of(p, said, at, EngineCall::SetVideoVisible(true)),
            |p: PlayerView, at: int, u: ()| says(p, said, at, video_text(true)),
        ),
        Some(VideoState::Hide) => then_do(
            command_of(p, said, at, EngineCall::SetVideoVisible(false)),
            |p: PlayerView, at: int, u: ()| says(p, said, at, video_text(false)),
        ),
        Some(VideoState::Toggle) => then_do(
            toggle_video_of(p, said, at),
            |p: PlayerView, at: int, visible: bool| says(p, said, at, video_text(visible)),
        ),
    }
}

pub open spec fn volume_of(p: PlayerView, said: Seq<Answer>, at: int, percent: Fixed) -> Run<()> {
    then_do(
        command_of(p, said, at, EngineCall::SetVolume(percent)),
        |p: PlayerView, at: int, u: ()|
            says(p, said, at, "volume "@ + to_places(percent, 0) + "%"@),
    )
}

pub open spec fn speed_of(p: PlayerView, said: Seq<Answer>, at: int, rate: Fixed) -> Run<()> {
    then_do(
        command_of(p, said, at, EngineCall::SetSpeed(rate)),
        |p: PlayerView, at: int, u: ()| says(p, said, at, "speed "@ + to_places(rate, 2) + "x"@),
    )
}

pub open spec fn repeat_of(p: PlayerView, said: Seq<Answer>, at: int, input: Seq<char>) -> Run<()> {
    match mode_named(lowered(trimmed(input))) {
        None => fails(p, at, complaint("unknown repeat mode (off, all, one)"@)),
        Some(mode) => then_do(
            set_repeat_of(p, said, at, mode),
            |p: PlayerView, at: int, u: ()| says(p, said, at, "repeat "@ + mode_text(mode)),
        ),
    }
}

pub open spec fn shuffle_of(
    p: PlayerView,
    said: Seq<Answer>,
    at: int,
    input: Seq<char>,
) -> Run<()> {
    let word = lowered(trimmed(input));
    match switched(word) {
        None => fails(p, at, complaint("expected on or off, got \""@ + word + "\""@)),
        Some(on) => then_do(
            set_shuffle_of(p, said, at, on),
            |p: PlayerView, at: int, u: ()|
                says(
                    p,
                    said,
                    at,
                    if on {
                        "shuffle on"@
                    } else {
                        "shuffle off"@
                    },
                ),
        ),
    }
}

/// The status. A position is recorded first, whatever comes of that: nothing else
/// may be driving the player.
pub open spec fn tell_status_of(p: PlayerView, said: Seq<Answer>, at: int) -> Run<()> {
    let ticked = tick_of(p, said, at);
    match ticked.end {
        Progress::Ask(_) => ticked,
        _ => then_do(
            status_of(ticked.state, said, ticked.at),
            |p: PlayerView, at: int, status: StatusView|
                says_all(p, said, at, status_texts(status), 0),
        ),
    }
}

/// The targets from `i` on added to the queue, each told as it is.
pub open spec fn adds(
    p: PlayerView,
    said: Seq<Answer>,
    at: int,
    targets: Seq<Seq<char>>,
    i: int,
) -> Run<()>
    decreases targets.len() - i,
{
    if 0 <= i < targets.len() {
        let added = adds_one(p, said, at, targets[i]);
        match added.end {
            Progress::Done(_) => adds(added.state, said, added.at, targets, i + 1),
            _ => added,
        }
    } else {
        says(p, said, at, digits(targets.len()) + " added"@)
    }
}

pub open spec fn adds_one(p: PlayerView, said: Seq<Answer>, at: int, target: Seq<char>) -> Run<()> {
    then_do(
        resolves(p, said, at, seq![target]),
        |p: PlayerView, at: int, track: Track|
            then_do(
                queue_add_of(p, said, at, seq![track.id]),
                |p: PlayerView, at: int, u: ()| says(p, said, at, "+ "@ + track.label_text()),
            ),
    )
}

pub open spec fn add_of(p: PlayerView, said: Seq<Answer>, at: int, targets: Seq<Seq<char>>) -> Run<
    (),
> {
    if targets.len() == 0 {
        fails(p, at, complaint("nothing to add"@))
    } else {
        adds(p, said, at, targets, 0)
    }
}

/// The queue, row by row. Which row is current is only asked for where there are
/// rows.
pub open spec fn list_queue_of(p: PlayerView, said: Seq<Answer>, at: int) -> Run<()> {
    then_do(
        queue_tracks_of(p, said, at, 0),
        |p: PlayerView, at: int, tracks: Seq<Track>|
            if tracks.len() == 0 {
                says(p, said, at, "queue is empty"@)
            } else {
                then_do(
                    status_of(p, said, at),
                    |p: PlayerView, at: int, status: StatusView|
                        says_all(p, said, at, queue_texts(tracks, status.queue_index), 0),
                )
            },
    )
}

pub open spec fn clear_of(p: PlayerView, said: Seq<Answer>, at: int) -> Run<()> {
    then_do(
        requeued(p, said, at, p.queue.cleared()),
        |p: PlayerView, at: int, u: ()| says(p, said, at, "queue cleared"@),
    )
}

/// A folder watched and indexed.
pub open spec fn watch_of(p: PlayerView, said: Seq<Answer>, at: int, folder: Seq<char>) -> Run<()> {
    then_do(
        asks(p, said, at, ActionView::Canonical(folder)),
        |p: PlayerView, at: int, answer: Answer|
            match answer {
                Answer::Path(path) => then_do(
                    does(p, said, at, ActionView::AddFolder(path@)),
                    |p: PlayerView, at: int, u: ()|
                        then_do(
                            reports(p, said, at, ActionView::ScanFolder(path@)),
                            |p: PlayerView, at: int, report: ScanReport|
                                says(
                                    p,
                                    said,
                                    at,
                                    "watching "@ + path@ + "\n  "@ + found_text(report),
                                ),
                        ),
                ),
                Answer::Failed(e) => fails(
                    p,
                    at,
                    complaint("no such folder: "@ + folder + ": "@ + e@.text()),
                ),
                _ => other(p, at, answer),
            },
    )
}

/// A folder watched no longer. One that is gone goes by the name it had.
pub open spec fn unwatch_of(
    p: PlayerView,
    said: Seq<Answer>,
    at: int,
    folder: Seq<char>,
) -> Run<()> {
    then_do(
        asks(p, said, at, ActionView::Canonical(folder)),
        |p: PlayerView, at: int, answer: Answer|
            {
                let path = match answer {
                    Answer::Path(path) => path@,
                    _ => folder,
                };
                then_do(
                    wonders(p, said, at, ActionView::RemoveFolder(path)),
                    |p: PlayerView, at: int, watched: bool|
                        says(
                            p,
                            said,
                            at,
                            if watched {
                                "no longer watching "@ + path
                            } else {
                                path + " was not being watched"@
                            },
                        ),
                )
            },
    )
}

pub open spec fn list_folders_of(p: PlayerView, said: Seq<Answer>, at: int) -> Run<()> {
    then_do(
        asks(p, said, at, ActionView::Folders),
        |p: PlayerView, at: int, answer: Answer|
            match answer {
                Answer::Texts(folders) => if folders@.len() == 0 {
                    says(
                        p,
                        said,
                        at,
                        "no watched folders — add one with `setwave library add <dir>`"@,
                    )
                } else {
                    says_all(p, said, at, texts(folders@), 0)
                },
                _ => other(p, at, answer),
            },
    )
}

pub open spec fn scan_of(p: PlayerView, said: Seq<Answer>, at: int) -> Run<()> {
    then_do(
        reports(p, said, at, ActionView::ScanLibrary),
        |p: PlayerView, at: int, report: ScanReport|
            then_do(
                says(
                    p,
                    said,
                    at,
                    found_text(report) + ", "@ + digits(report.removed as nat) + " removed"@,
                ),
                |p: PlayerView, at: int, u: ()|
                    then_do(
                        asks(p, said, at, ActionView::TrackCount),
                        |p: PlayerView, at: int, answer: Answer|
                            match answer {
                                Answer::Count(n) => says(
                                    p,
                                    said,
                                    at,
                                    digits(n as nat) + " tracks in the library"@,
                                ),
                                _ => other(p, at, answer),
                            },
                    ),
            ),
    )
}

/// The tracks from `i` on listed, each with where it is taken up again.
pub open spec fn lists(
    p: PlayerView,
    said: Seq<Answer>,
    at: int,
    tracks: Seq<Track>,
    i: int,
) -> Run<()>
    decreases tracks.len() - i,
{
    if 0 <= i < tracks.len() {
        let listed = lists_one(p, said, at, tracks[i]);
        match listed.end {
            Progress::Done(_) => lists(listed.state, said, listed.at, tracks, i + 1),
            _ => listed,
        }
    } else {
        ends(p, at, ())
    }
}

pub open spec fn lists_one(p: PlayerView, said: Seq<Answer>, at: int, track: Track) -> Run<()> {
    then_do(
        remembered(p, said, at, track.id),
        |p: PlayerView, at: int, resume: Option<Fixed>|
            says(p, said, at, track_text(track, resume)),
    )
}

/// Tracks asked for and listed; or what is said where there are none.
pub open spec fn list_of(
    p: PlayerView,
    said: Seq<Answer>,
    at: int,
    a: ActionView,
    otherwise: Seq<char>,
) -> Run<()> {
    then_do(
        asks(p, said, at, a),
        |p: PlayerView, at: int, answer: Answer|
            match answer {
                Answer::Tracks(tracks) => if tracks@.len() == 0 {
                    says(p, said, at, otherwise)
                } else {
                    lists(p, said, at, tracks@, 0)
                },
                _ => other(p, at, answer),
            },
    )
}

pub open spec fn choose_engine_of(p: PlayerView, said: Seq<Answer>, at: int, id: Seq<char>) -> Run<
    (),
> {
    then_do(
        set_policy_of(p, said, at, policy_of(id)),
        |p: PlayerView, at: int, u: ()| says(p, said, at, "engine set to "@ + id),
    )
}

/// What a command does.
pub open spec fn run_of(p: PlayerView, said: Seq<Answer>, at: int, command: Command) -> Run<()> {
    match command {
        Command::Play { target, restart } => play_of(p, said, at, texts(target@), restart),
        Command::Pause => pause_of(p, said, at, true),
        Command::Resume => pause_of(p, said, at, false),
        Command::Toggle => toggle_of(p, said, at),
        Command::Next => go_next_of(p, said, at),
        Command::Prev => go_back_of(p, said, at),
        Command::Stop => then_do(
            stop_of(p, said, at),
            |p: PlayerView, at: int, u: ()| says(p, said, at, "stopped"@),
        ),
        Command::Seek(input) => go_to_of(p, said, at, input@),
        Command::Video(input) => video_of(p, said, at, input@),
        Command::Volume(percent) => volume_of(p, said, at, percent),
        Command::Speed(rate) => speed_of(p, said, at, rate),
        Command::Repeat(input) => repeat_of(p, said, at, input@),
        Command::Shuffle(input) => shuffle_of(p, said, at, input@),
        Command::Status => tell_status_of(p, said, at),
        Command::QueueAdd(targets) => add_of(p, said, at, texts(targets@)),
        Command::QueueList => list_queue_of(p, said, at),
        Command::QueueClear => clear_of(p, said, at),
        Command::LibraryAdd(folder) => watch_of(p, said, at, folder@),
        Command::LibraryRemove(folder) => unwatch_of(p, said, at, folder@),
        Command::LibraryList => list_folders_of(p, said, at),
        Command::LibraryScan => scan_of(p, said, at),
        Command::LibrarySearch { query, limit } => list_of(
            p,
            said,
            at,
            ActionView::Matches { query: joined(texts(query@), " "@), limit },
            "nothing matched"@,
        ),
        Command::LibraryRecent(limit) => list_of(
            p,
            said,
            at,
            ActionView::Recents(limit),
            "nothing played yet"@,
        ),
        Command::EngineList => says_all(p, said, at, p.registry.ids(), 0),
        Command::EngineUse(id) => choose_engine_of(p, said, at, id@),
        Command::Quit => then_do(
            quit_of(p, said, at),
            |p: PlayerView, at: int, u: ()| says(p, said, at, "stopped and shut down"@),
        ),
    }
}

fn complain(message: String) -> (r: Halt)
    ensures
        r matches Halt::Failed(e) && e@ == complaint(message@),
{
    Halt::Failed(CoreError::Internal { message })
}

impl Player {
    fn say(&self, script: &mut Script<Answer>, line: String) -> (r: Step<()>)
        ensures
            final(script).said() == old(script).said(),
            stepped(self@, final(script).place(), r) == says(
                self@,
                old(script).said(),
                old(script).place(),
                line@,
            ),
    {
        self.run(script, Action::Say(line))
    }

    fn say_all(&self, script: &mut Script<Answer>, lines: &Vec<String>) -> (r: Step<()>)
        ensures
            final(script).said() == old(script).said(),
            stepped(self@, final(script).place(), r) == says_all(
                self@,
                old(script).said(),
                old(script).place(),
                texts(lines@),
                0,
            ),
    {
        let ghost from = script.place();
        let ghost said = script.said();
        let ghost all = texts(lines@);
        let mut i: usize = 0;
        while i < lines.len()
            invariant
                i <= lines@.len(),
                all == texts(lines@),
                said == old(script).said(),
                from == old(script).place(),
                script.said() == said,
                says_all(self@, said, from, all, 0) == says_all(
                    self@,
                    said,
                    script.place(),
                    all,
                    i as int,
                ),
            decreases lines@.len() - i,
        {
            assert(all[i as int] == lines@[i as int]@);
            self.say(script, lines[i].clone())?;
            i = i + 1;
        }
        Ok(())
    }

    fn resolve(&self, script: &mut Script<Answer>, words: &Vec<String>) -> (r: Step<Track>)
        ensures
            final(script).said() == old(script).said(),
            stepped(self@, final(script).place(), r) == resolves(
                self@,
                old(script).said(),
                old(script).place(),
                texts(words@),
            ),
    {
        let text = match target_text(words) {
            Ok(text) => text,
            Err(e) => {
                return Err(complain(e));
            },
        };
        let there = self.wonder(script, Action::Exists(text.clone()))?;
        match choose_target(text, there) {
            Target::File(path) => self.indexed(script, path.as_str()),
            Target::Search(query) => self.found(script, query.as_str()),
        }
    }

    fn do_play(&mut self, script: &mut Script<Answer>, target: &Vec<String>, restart: bool) -> (r:
        Step<()>)
        requires
            old(self)@.wf(),
        ensures
            final(self)@.wf(),
            final(script).said() == old(script).said(),
            stepped(final(self)@, final(script).place(), r) == play_of(
                old(self)@,
                old(script).said(),
                old(script).place(),
                texts(target@),
                restart,
            ),
    {
        let track = self.resolve(script, target)?;
        let _ = self.start_track(script, track.id, restart)?;
        let line = playing_text(&Some(track), "");
        self.say(script, line)
    }

    fn do_pause(&mut self, script: &mut Script<Answer>, paused: bool) -> (r: Step<()>)
        requires
            old(self)@.wf(),
        ensures
            final(self)@.wf(),
            final(script).said() == old(script).said(),
            stepped(final(self)@, final(script).place(), r) == pause_of(
                old(self)@,
                old(script).said(),
                old(script).place(),
                paused,
            ),
    {
        self.do_set_paused(script, paused)?;
        self.say(script, paused_text(paused).to_owned())
    }

    fn do_toggle(&mut self, script: &mut Script<Answer>) -> (r: Step<()>)
        requires
            old(self)@.wf(),
        ensures
            final(self)@.wf(),
            final(script).said() == old(script).said(),
            stepped(final(self)@, final(script).place(), r) == toggle_of(
                old(self)@,
                old(script).said(),
                old(script).place(),
            ),
    {
        let paused = self.do_toggle_paused(script)?;
        self.say(script, paused_text(paused).to_owned())
    }

    fn go_next(&mut self, script: &mut Script<Answer>) -> (r: Step<()>)
        requires
            old(self)@.wf(),
        ensures
            final(self)@.wf(),
            final(script).said() == old(script).said(),
            stepped(final(self)@, final(script).place(), r) == go_next_of(
                old(self)@,
                old(script).said(),
                old(script).place(),
            ),
    {
        let track = self.do_next(script)?;
        let line = playing_text(&track, "end of queue");
        self.say(script, line)
    }

    fn go_back(&mut self, script: &mut Script<Answer>) -> (r: Step<()>)
        requires
            old(self)@.wf(),
        ensures
            final(self)@.wf(),
            final(script).said() == old(script).said(),
            stepped(final(self)@, final(script).place(), r) == go_back_of(
                old(self)@,
                old(script).said(),
                old(script).place(),
            ),
    {
        let track = self.do_previous(script)?;
        let line = playing_text(&track, "start of queue");
        self.say(script, line)
    }

    fn go_to(&self, script: &mut Script<Answer>, input: &String) -> (r: Step<()>)
        ensures
            final(script).said() == old(script).said(),
            stepped(self@, final(script).place(), r) == go_to_of(
                self@,
                old(script).said(),
                old(script).place(),
                input@,
            ),
    {
        match parse_seek(input.as_str()) {
            Err(e) => Err(complain(e)),
            Ok(Seek::Absolute(secs)) => {
                self.command(
                    script,
                    EngineCall::SeekAbsolute(max_of(secs, Fixed::Nanos(0))),
                )?;
                self.say(script, sought_text(secs))
            },
            Ok(Seek::Relative(delta)) => {
                let target: Fixed = self.do_seek_relative(script, delta)?;
                self.say(script, sought_text(target))
            },
        }
    }

    fn say_video(&self, script: &mut Script<Answer>, visible: bool) -> (r: Step<()>)
        ensures
            final(script).said() == old(script).said(),
            stepped(self@, final(script).place(), r) == says(
                self@,
                old(script).said(),
                old(script).place(),
                video_text(visible),
            ),
    {
        let line = if visible {
            "video shown"
        } else {
            "video hidden"
        };
        self.say(script, line.to_owned())
    }

    fn do_video(&self, script: &mut Script<Answer>, input: &String) -> (r: Step<()>)
        ensures
            final(script).said() == old(script).said(),
            stepped(self@, final(script).place(), r) == video_of(
                self@,
                old(script).said(),
                old(script).place(),
                input@,
            ),
    {
        match parse_video_state(input.as_str()) {
            Err(e) => Err(complain(e)),
            Ok(VideoState::Show) => {
                self.command(script, EngineCall::SetVideoVisible(true))?;
                self.say_video(script, true)
            },
            Ok(VideoState::Hide) => {
                self.command(script, EngineCall::SetVideoVisible(false))?;
                self.say_video(script, false)
            },
            Ok(VideoState::Toggle) => {
                let visible = self.do_toggle_video(script)?;
                self.say_video(script, visible)
            },
        }
    }

    fn do_volume(&self, script: &mut Script<Answer>, percent: Fixed) -> (r: Step<()>)
        ensures
            final(script).said() == old(script).said(),
            stepped(self@, final(script).place(), r) == volume_of(
                self@,
                old(script).said(),
                old(script).place(),
                percent,
            ),
    {
        self.command(script, EngineCall::SetVolume(percent))?;
        self.say(script, volume_text(percent))
    }

    fn do_speed(&self, script: &mut Script<Answer>, rate: Fixed) -> (r: Step<()>)
        ensures
            final(script).said() == old(script).said(),
            stepped(self@, final(script).place(), r) == speed_of(
                self@,
                old(script).said(),
                old(script).place(),
                rate,
            ),
    {
        self.command(script, EngineCall::SetSpeed(rate))?;
        self.say(script, speed_text(rate))
    }

    fn do_repeat(&mut self, script: &mut Script<Answer>, input: &String) -> (r: Step<()>)
        requires
            old(self)@.wf(),
        ensures
            final(self)@.wf(),
            final(script).said() == old(script).said(),
            stepped(final(self)@, final(script).place(), r) == repeat_of(
                old(self)@,
                old(script).said(),
                old(script).place(),
                input@,
            ),
    {
        match parse_repeat(input.as_str()) {
            Err(e) => Err(complain(e)),
            Ok(mode) => {
                self.do_set_repeat(script, mode)?;
                self.say(script, option("repeat ", mode.as_str()))
            },
        }
    }

    fn do_shuffle(&mut self, script: &mut Script<Answer>, input: &String) -> (r: Step<()>)
        requires
            old(self)@.wf(),
        ensures
            final(self)@.wf(),
            final(script).said() == old(script).said(),
            stepped(final(self)@, final(script).place(), r) == shuffle_of(
                old(self)@,
                old(script).said(),
                old(script).place(),
                input@,
            ),
    {
        match parse_on_off(input.as_str()) {
            Err(e) => Err(complain(e)),
            Ok(on) => {
                self.do_set_shuffle(script, on)?;
                let line = if on {
                    "shuffle on"
                } else {
                    "shuffle off"
                };
                self.say(script, line.to_owned())
            },
        }
    }

    fn tell_status(&mut self, script: &mut Script<Answer>) -> (r: Step<()>)
        requires
            old(self)@.wf(),
        ensures
            final(self)@.wf(),
            final(script).said() == old(script).said(),
            stepped(final(self)@, final(script).place(), r) == tell_status_of(
                old(self)@,
                old(script).said(),
                old(script).place(),
            ),
    {
        match self.do_tick(script) {
            Err(Halt::Ask(a)) => {
                return Err(Halt::Ask(a));
            },
            _ => {},
        }
        let status = self.do_status(script)?;
        let lines = status_lines(&status);
        self.say_all(script, &lines)
    }

    fn add_one(&mut self, script: &mut Script<Answer>, target: &String) -> (r: Step<()>)
        requires
            old(self)@.wf(),
        ensures
            final(self)@.wf(),
            final(script).said() == old(script).said(),
            stepped(final(self)@, final(script).place(), r) == adds_one(
                old(self)@,
                old(script).said(),
                old(script).place(),
                target@,
            ),
    {
        let mut words: Vec<String> = Vec::new();
        words.push(target.clone());
        assert(texts(words@) =~= seq![target@]);
        let track = self.resolve(script, &words)?;
        let mut ids: Vec<i64> = Vec::new();
        ids.push(track.id);
        assert(ids@ =~= seq![track.id]);
        self.do_queue_add(script, ids)?;
        let label = track.display_label();
        self.say(script, option("+ ", label.as_str()))
    }

    fn do_add(&mut self, script: &mut Script<Answer>, targets: &Vec<String>) -> (r: Step<()>)
        requires
            old(self)@.wf(),
        ensures
            final(self)@.wf(),
            final(script).said() == old(script).said(),
            stepped(final(self)@, final(script).place(), r) == add_of(
                old(self)@,
                old(script).said(),
                old(script).place(),
                texts(targets@),
            ),
    {
        if targets.len() == 0 {
            return Err(complain("nothing to add".to_owned()));
        }
        let ghost from = script.place();
        let ghost said = script.said();
        let ghost all = texts(targets@);
        let ghost before = self@;
        let mut i: usize = 0;
        while i < targets.len()
            invariant
                i <= targets@.len(),
                all == texts(targets@),
                said == old(script).said(),
                from == old(script).place(),
                before == old(self)@,
                targets@.len() > 0,
                self@.wf(),
                script.said() == said,
                adds(before, said, from, all, 0) == adds(
                    self@,
                    said,
                    script.place(),
                    all,
                    i as int,
                ),
            decreases targets@.len() - i,
        {
            assert(all[i as int] == targets@[i as int]@);
            self.add_one(script, &targets[i])?;
            i = i + 1;
        }
        let mut out = print(targets.len() as u128);
        add_text(&mut out, " added");
        self.say(script, string_of(out.as_slice()))
    }

    fn list_queue(&self, script: &mut Script<Answer>) -> (r: Step<()>)
        requires
            self@.wf(),
        ensures
            final(script).said() == old(script).said(),
            stepped(self@, final(script).place(), r) == list_queue_of(
                self@,
                old(script).said(),
                old(script).place(),
            ),
    {
        let tracks = self.do_queue_tracks(script)?;
        if tracks.len() == 0 {
            return self.say(script, "queue is empty".to_owned());
        }
        let status = self.do_status(script)?;
        let lines = queue_lines(&tracks, status.queue_index);
        self.say_all(script, &lines)
    }

    fn do_clear(&mut self, script: &mut Script<Answer>) -> (r: Step<()>)
        requires
            old(self)@.wf(),
        ensures
            final(self)@.wf(),
            final(script).said() == old(script).said(),
            stepped(final(self)@, final(script).place(), r) == clear_of(
                old(self)@,
                old(script).said(),
                old(script).place(),
            ),
    {
        self.do_queue_clear(script)?;
        self.say(script, "queue cleared".to_owned())
    }

    fn watch(&self, script: &mut Script<Answer>, folder: &String) -> (r: Step<()>)
        ensures
            final(script).said() == old(script).said(),
            stepped(self@, final(script).place(), r) == watch_of(
                self@,
                old(script).said(),
                old(script).place(),
                folder@,
            ),
    {
        let answer = ask(script, Action::Canonical(folder.clone()))?;
        match answer {
            Answer::Path(path) => {
                self.run(script, Action::AddFolder(path.clone()))?;
                let report = self.report(script, Action::ScanFolder(path.clone()))?;
                self.say(script, watching_text(path.as_str(), &report))
            },
            Answer::Failed(e) => {
                let why = e.message();
                let mut out = chars_of("no such folder: ");
                add_text(&mut out, folder.as_str());
                add_text(&mut out, ": ");
                add_text(&mut out, why.as_str());
                Err(complain(string_of(out.as_slice())))
            },
            _ => Err(other_than(answer)),
        }
    }

    fn unwatch(&self, script: &mut Script<Answer>, folder: &String) -> (r: Step<()>)
        ensures
            final(script).said() == old(script).said(),
            stepped(self@, final(script).place(), r) == unwatch_of(
                self@,
                old(script).said(),
                old(script).place(),
                folder@,
            ),
    {
        let answer = ask(script, Action::Canonical(folder.clone()))?;
        let path = match answer {
            Answer::Path(path) => path.clone(),
            _ => folder.clone(),
        };
        let watched = self.wonder(script, Action::RemoveFolder(path.clone()))?;
        self.say(script, unwatched_text(path.as_str(), watched))
    }

    fn list_folders(&self, script: &mut Script<Answer>) -> (r: Step<()>)
        ensures
            final(script).said() == old(script).said(),
            stepped(self@, final(script).place(), r) == list_folders_of(
                self@,
                old(script).said(),
                old(script).place(),
            ),
    {
        let answer = ask(script, Action::Folders)?;
        match answer {
            Answer::Texts(folders) => {
                if folders.len() == 0 {
                    return self.say(
                        script,
                        "no watched folders — add one with `setwave library add <dir>`".to_owned(),
                    );
                }
                self.say_all(script, folders)
            },
            _ => Err(other_than(answer)),
        }
    }

    fn scan(&self, script: &mut Script<Answer>) -> (r: Step<()>)
        ensures
            final(script).said() == old(script).said(),
            stepped(self@, final(script).place(), r) == scan_of(
                self@,
                old(script).said(),
                old(script).place(),
            ),
    {
        let report = self.report(script, Action::ScanLibrary)?;
        self.say(script, scan_text(&report))?;
        let answer = ask(script, Action::TrackCount)?;
        match answer {
            Answer::Count(n) => {
                let mut out = print(*n as u128);
                add_text(&mut out, " tracks in the library");
                self.say(script, string_of(out.as_slice()))
            },
            _ => Err(other_than(answer)),
        }
    }

    fn list_one(&self, script: &mut Script<Answer>, track: &Track) -> (r: Step<()>)
        ensures
            final(script).said() == old(script).said(),
            stepped(self@, final(script).place(), r) == lists_one(
                self@,
                old(script).said(),
                old(script).place(),
                *track,
            ),
    {
        let resume: Option<Fixed> = self.stored_position(script, track.id)?;
        self.say(script, track_line(track, resume))
    }

    fn list(&self, script: &mut Script<Answer>, action: Action, otherwise: &str) -> (r: Step<()>)
        ensures
            final(script).said() == old(script).said(),
            stepped(self@, final(script).place(), r) == list_of(
                self@,
                old(script).said(),
                old(script).place(),
                action@,
                otherwise@,
            ),
    {
        let answer = ask(script, action)?;
        match answer {
            Answer::Tracks(tracks) => {
                if tracks.len() == 0 {
                    return self.say(script, otherwise.to_owned());
                }
                let ghost from = script.place();
                let ghost said = script.said();
                let mut i: usize = 0;
                while i < tracks.len()
                    invariant
                        i <= tracks@.len(),
                        said == old(script).said(),
                        tracks@.len() > 0,
                        0 <= old(script).place() < said.len(),
                        said[old(script).place()] == *answer,
                        *answer == Answer::Tracks(*tracks),
                        from == old(script).place() + 1,
                        script.said() == said,
                        lists(self@, said, from, tracks@, 0) == lists(
                            self@,
                            said,
                            script.place(),
                            tracks@,
                            i as int,
                        ),
                    decreases tracks@.len() - i,
                {
                    self.list_one(script, &tracks[i])?;
                    i = i + 1;
                }
                Ok(())
            },
            _ => Err(other_than(answer)),
        }
    }

    fn choose_engine(&mut self, script: &mut Script<Answer>, id: &String) -> (r: Step<()>)
        requires
            old(self)@.wf(),
        ensures
            final(self)@.wf(),
            final(script).said() == old(script).said(),
            stepped(final(self)@, final(script).place(), r) == choose_engine_of(
                old(self)@,
                old(script).said(),
                old(script).place(),
                id@,
            ),
    {
        self.do_set_policy(script, EnginePolicy::parse(id.as_str()))?;
        self.say(script, option("engine set to ", id.as_str()))
    }

    fn do_command(&mut self, script: &mut Script<Answer>, command: &Command) -> (r: Step<()>)
        requires
            old(self)@.wf(),
        ensures
            final(self)@.wf(),
            final(script).said() == old(script).said(),
            stepped(final(self)@, final(script).place(), r) == run_of(
                old(self)@,
                old(script).said(),
                old(script).place(),
                *command,
            ),
    {
        match command {
            Command::Play { target, restart } => self.do_play(script, target, *restart),
            Command::Pause => self.do_pause(script, true),
            Command::Resume => self.do_pause(script, false),
            Command::Toggle => self.do_toggle(script),
            Command::Next => self.go_next(script),
            Command::Prev => self.go_back(script),
            Command::Stop => {
                self.do_stop(script)?;
                self.say(script, "stopped".to_owned())
            },
            Command::Seek(input) => self.go_to(script, input),
            Command::Video(input) => self.do_video(script, input),
            Command::Volume(percent) => self.do_volume(script, *percent),
            Command::Speed(rate) => self.do_speed(script, *rate),
            Command::Repeat(input) => self.do_repeat(script, input),
            Command::Shuffle(input) => self.do_shuffle(script, input),
            Command::Status => self.tell_status(script),
            Command::QueueAdd(targets) => self.do_add(script, targets),
            Command::QueueList => self.list_queue(script),
            Command::QueueClear => self.do_clear(script),
            Command::LibraryAdd(folder) => self.watch(script, folder),
            Command::LibraryRemove(folder) => self.unwatch(script, folder),
            Command::LibraryList => self.list_folders(script),
            Command::LibraryScan => self.scan(script),
            Command::LibrarySearch { query, limit } => {
                let text = join_texts(query, " ");
                let query = string_of(text.as_slice());
                self.list(script, Action::Matches { query, limit: *limit }, "nothing matched")
            },
            Command::LibraryRecent(limit) => self.list(
                script,
                Action::Recents(*limit),
                "nothing played yet",
            ),
            Command::EngineList => {
                let ids = self.engine_ids();
                self.say_all(script, &ids)
            },
            Command::EngineUse(id) => self.choose_engine(script, id),
            Command::Quit => {
                self.do_quit(script)?;
                self.say(script, "stopped and shut down".to_owned())
            },
        }
    }

    /// Carry out a command of the command line.
    pub fn run_command(&mut self, command: &Command, answers: &Vec<Answer>) -> (r: Step<()>)
        requires
            old(self)@.wf(),
        ensures
            final(self)@.wf(),
            came_to(r) == run_of(old(self)@, answers@, 0, *command).end,
            committed(
                old(self)@,
                final(self)@,
                run_of(old(self)@, answers@, 0, *command).state,
                waiting(r),
            ),
    {
        let mut script = Script::new(answers);
        let mut trial = self.clone();
        let r = trial.do_command(&mut script, command);
        if !waits(&r) {
            *self = trial;
        }
        r
    }
}

/// Whether a command cannot be carried out as it was given.
pub open spec fn misread(command: Command) -> bool {
    match command {
        Command::Play { target, .. } => target@.len() == 0,
        Command::Seek(input) => seek_of(input@) is None,
        Command::Video(input) => video_named(lowered(trimmed(input@))) is None,
        Command::Repeat(input) => mode_named(lowered(trimmed(input@))) is None,
        Command::Shuffle(input) => switched(lowered(trimmed(input@))) is None,
        Command::QueueAdd(targets) => targets@.len() == 0,
        _ => false,
    }
}

/// A command that cannot be read fails before it does or says anything.
pub proof fn law_misread_commands_do_nothing(
    p: PlayerView,
    said: Seq<Answer>,
    at: int,
    command: Command,
)
    requires
        misread(command),
    ensures
        run_of(p, said, at, command).end is Failed,
        run_of(p, said, at, command).at == at,
        run_of(p, said, at, command).state == p,
{
}

proof fn lemma_says_all_keeps(
    p: PlayerView,
    said: Seq<Answer>,
    at: int,
    lines: Seq<Seq<char>>,
    i: int,
)
    ensures
        says_all(p, said, at, lines, i).state == p,
    decreases lines.len() - i,
{
    if 0 <= i < lines.len() {
        lemma_says_all_keeps(p, said, says(p, said, at, lines[i]).at, lines, i + 1);
    }
}

proof fn lemma_lists_keeps(
    p: PlayerView,
    said: Seq<Answer>,
    at: int,
    tracks: Seq<Track>,
    i: int,
)
    ensures
        lists(p, said, at, tracks, i).state == p,
    decreases tracks.len() - i,
{
    if 0 <= i < tracks.len() {
        lemma_lists_keeps(p, said, lists_one(p, said, at, tracks[i]).at, tracks, i + 1);
    }
}

proof fn lemma_queue_tracks_keep(p: PlayerView, said: Seq<Answer>, at: int, i: int)
    ensures
        queue_tracks_of(p, said, at, i).state == p,
    decreases p.queue.items.len() - i,
{
    if 0 <= i < p.queue.items.len() {
        let o = finds(p, said, at, ActionView::TrackById(p.queue.items[i]));
        lemma_queue_tracks_keep(p, said, o.at, i + 1);
    }
}

/// Whether a command only lists something.
pub open spec fn listing(command: Command) -> bool {
    match command {
        Command::QueueList | Command::LibraryList | Command::LibrarySearch { .. }
        | Command::LibraryRecent(_) | Command::EngineList => true,
        _ => false,
    }
}

/// Listing something leaves the player as it is.
pub proof fn law_listing_changes_nothing(
    p: PlayerView,
    said: Seq<Answer>,
    at: int,
    command: Command,
)
    requires
        listing(command),
    ensures
        run_of(p, said, at, command).state == p,
{
    match command {
        Command::QueueList => {
            lemma_queue_tracks_keep(p, said, at, 0);
            let listed = queue_tracks_of(p, said, at, 0);
            if let Progress::Done(tracks) = listed.end {
                law_status_changes_nothing(p, said, listed.at);
                let shown = status_of(p, said, listed.at);
                if let Progress::Done(status) = shown.end {
                    lemma_says_all_keeps(
                        p,
                        said,
                        shown.at,
                        queue_texts(tracks, status.queue_index),
                        0,
                    );
                }
            }
        },
        Command::LibraryList => {
            if let Progress::Done(Answer::Texts(folders)) = asks(
                p,
                said,
                at,
                ActionView::Folders,
            ).end {
                lemma_says_all_keeps(p, said, at + 1, texts(folders@), 0);
            }
        },
        Command::LibrarySearch { query, limit } => {
            lemma_list_keeps(
                p,
                said,
                at,
                ActionView::Matches { query: joined(texts(query@), " "@), limit },
                "nothing matched"@,
            );
        },
        Command::LibraryRecent(limit) => {
            lemma_list_keeps(p, said, at, ActionView::Recents(limit), "nothing played yet"@);
        },
        _ => {
            lemma_says_all_keeps(p, said, at, p.registry.ids(), 0);
        },
    }
}

proof fn lemma_list_keeps(
    p: PlayerView,
    said: Seq<Answer>,
    at: int,
    a: ActionView,
    otherwise: Seq<char>,
)
    ensures
        list_of(p, said, at, a, otherwise).state == p,
{
    if let Progress::Done(Answer::Tracks(tracks)) = asks(p, said, at, a).end {
        lemma_lists_keeps(p, said, at + 1, tracks@, 0);
    }
}

/// What is printed is printed in order, line by line: a host that answers every
/// line is asked for the next, and then nothing more.
pub proof fn law_lines_are_printed_in_order(
    p: PlayerView,
    said: Seq<Answer>,
    at: int,
    lines: Seq<Seq<char>>,
    k: int,
)
    requires
        0 <= at,
        0 <= k <= lines.len(),
        said.len() == at + k,
        forall|i: int| at <= i < said.len() ==> #[trigger] said[i] == Answer::Finished,
    ensures
        k < lines.len() ==> says_all(p, said, at, lines, 0).end == Progress::<
            ActionView,
            (),
            ErrorView,
        >::Ask(ActionView::Say(lines[k])),
        k == lines.len() ==> says_all(p, said, at, lines, 0).end == Progress::<
            ActionView,
            (),
            ErrorView,
        >::Done(()),
{
    lemma_lines_in_order(p, said, at, lines, 0, k);
}

proof fn lemma_lines_in_order(
    p: PlayerView,
    said: Seq<Answer>,
    at: int,
    lines: Seq<Seq<char>>,
    i: int,
    k: int,
)
    requires
        0 <= at,
        0 <= i <= k <= lines.len(),
        said.len() == at + (k - i),
        forall|j: int| at <= j < said.len() ==> #[trigger] said[j] == Answer::Finished,
    ensures
        k < lines.len() ==> says_all(p, said, at, lines, i).end == Progress::<
            ActionView,
            (),
            ErrorView,
        >::Ask(ActionView::Say(lines[k])),
        k == lines.len() ==> says_all(p, said, at, lines, i).end == Progress::<
            ActionView,
            (),
            ErrorView,
        >::Done(()),
    decreases k - i,
{
    if i < k {
        assert(said[at] == Answer::Finished);
        lemma_lines_in_order(p, said, at + 1, lines, i + 1, k);
    }
}

} // verus!
