//! What the player does, as functions of its state and its host's answers.

use vstd::prelude::*;

use crate::engine::EngineSnapshot;
use crate::error::{CoreError, ErrorView};
use crate::fixed::{larger, smaller, sum, Fixed};
use crate::layout::{layout_of, layout_text, VideoWindowLayout};
use crate::library::ScanReport;
use crate::number::{digits, parsed_upto, signed_digits};
use crate::probe::Probed;
use crate::queue::{mode_named, mode_text, QueueView, RepeatMode};
use crate::resume::{start_offset, worth_keeping};
use crate::script::{asked, done, failed, then_do, Outcome, Progress};
use crate::selection::{policy_of, policy_text, Choice, EnginePolicy, PolicyView, RegistryView};
use crate::store::ScannedFile;
use crate::text::{joined, lowered, split, trimmed};
use crate::track::{media_extension, path_extension, Track};

verus! {

/// What an engine is asked to do.
#[derive(Debug, PartialEq)]
pub enum EngineCall {
    /// Load a file, from an offset or from its start.
    Load { path: String, start_at: Option<Fixed> },
    SetPaused(bool),
    SeekAbsolute(Fixed),
    SetVolume(Fixed),
    SetSpeed(Fixed),
    SetVideoVisible(bool),
    SetVideoOntop(bool),
    SetLayout(VideoWindowLayout),
    /// Show an empty window to place by hand; answered with its process.
    BeginPlacement,
    EndPlacement,
    Stop,
    Snapshot,
    Shutdown,
}

impl Clone for EngineCall {
    fn clone(&self) -> (r: Self)
        ensures
            r == *self,
    {
        match self {
            EngineCall::Load { path, start_at } => EngineCall::Load {
                path: path.clone(),
                start_at: *start_at,
            },
            EngineCall::SetPaused(paused) => EngineCall::SetPaused(*paused),
            EngineCall::SeekAbsolute(secs) => EngineCall::SeekAbsolute(*secs),
            EngineCall::SetVolume(percent) => EngineCall::SetVolume(*percent),
            EngineCall::SetSpeed(rate) => EngineCall::SetSpeed(*rate),
            EngineCall::SetVideoVisible(visible) => EngineCall::SetVideoVisible(*visible),
            EngineCall::SetVideoOntop(ontop) => EngineCall::SetVideoOntop(*ontop),
            EngineCall::SetLayout(layout) => EngineCall::SetLayout(*layout),
            EngineCall::BeginPlacement => EngineCall::BeginPlacement,
            EngineCall::EndPlacement => EngineCall::EndPlacement,
            EngineCall::Stop => EngineCall::Stop,
            EngineCall::Snapshot => EngineCall::Snapshot,
            EngineCall::Shutdown => EngineCall::Shutdown,
        }
    }
}

/// What the settings hold.
#[derive(Debug, Clone, Copy, PartialEq, Eq, Structural)]
pub enum SettingKey {
    Repeat,
    Shuffle,
    EnginePolicy,
    /// Comma-separated queue positions; empty when playback walks the queue.
    Loop,
    /// A window layout in its settings form.
    VideoWindow,
    VideoSurface,
}

/// The name a setting is stored under.
pub open spec fn key_text(key: SettingKey) -> Seq<char> {
    match key {
        SettingKey::Repeat => "repeat"@,
        SettingKey::Shuffle => "shuffle"@,
        SettingKey::EnginePolicy => "engine_policy"@,
        SettingKey::Loop => "queue_loop"@,
        SettingKey::VideoWindow => "video_window_size"@,
        SettingKey::VideoSurface => "video_surface"@,
    }
}

impl SettingKey {
    /// The name the setting is stored under.
    pub fn name(&self) -> (r: &'static str)
        ensures
            r@ == key_text(*self),
    {
        match self {
            SettingKey::Repeat => "repeat",
            SettingKey::Shuffle => "shuffle",
            SettingKey::EnginePolicy => "engine_policy",
            SettingKey::Loop => "queue_loop",
            SettingKey::VideoWindow => "video_window_size",
            SettingKey::VideoSurface => "video_surface",
        }
    }
}

/// What the host is asked to do.
#[derive(Debug)]
pub enum Action {
    /// Address an engine by its place in the registry.
    Engine { index: usize, call: EngineCall },
    /// The stored queue.
    LoadQueue,
    /// Store the queue.
    SaveQueue { items: Vec<i64>, current: Option<usize> },
    /// A setting's stored value.
    Setting(SettingKey),
    /// Store a setting.
    SetSetting { key: SettingKey, value: String },
    TrackById(i64),
    TrackByPath(String),
    /// The best match in the library.
    Search(String),
    /// Which of these tracks are still in the library.
    ExistingTracks(Vec<i64>),
    /// Every indexed track inside a folder, in path order.
    TracksUnder(String),
    ResumeFor(i64),
    SetResume(i64, Fixed),
    ClearResume(i64),
    MarkPlayed(i64),
    SetDuration(i64, Fixed),
    /// A path without links and relative parts.
    Canonical(String),
    /// Whether a path is a folder.
    IsFolder(String),
    /// Size and modified time of a file.
    Stat(String),
    /// A file's metadata.
    Probe(String),
    /// Insert or update a file, answered with its id.
    Upsert { file: ScannedFile, probed: Probed },
    /// Index everything under a folder, answered with a report.
    ScanFolder(String),
    /// Index every watched folder and forget what is gone.
    ScanLibrary,
    /// A fresh seed for shuffling.
    Seed,
    /// Print a line.
    Say(String),
    /// Whether there is anything of this name.
    Exists(String),
    /// Watch a folder.
    AddFolder(String),
    /// Stop watching a folder, answered with whether it was watched.
    RemoveFolder(String),
    /// The watched folders.
    Folders,
    /// How many tracks are indexed.
    TrackCount,
    /// The matches in the library, best first.
    Matches { query: String, limit: usize },
    /// The tracks played last.
    Recents(usize),
}

/// What the host is asked to do, with its texts and lists as sequences.
pub enum ActionView {
    Engine { index: usize, call: EngineCall },
    LoadQueue,
    SaveQueue { items: Seq<i64>, current: Option<usize> },
    Setting(SettingKey),
    SetSetting { key: SettingKey, value: Seq<char> },
    TrackById(i64),
    TrackByPath(Seq<char>),
    Search(Seq<char>),
    ExistingTracks(Seq<i64>),
    TracksUnder(Seq<char>),
    ResumeFor(i64),
    SetResume(i64, Fixed),
    ClearResume(i64),
    MarkPlayed(i64),
    SetDuration(i64, Fixed),
    Canonical(Seq<char>),
    IsFolder(Seq<char>),
    Stat(Seq<char>),
    Probe(Seq<char>),
    Upsert { file: ScannedFile, probed: Probed },
    ScanFolder(Seq<char>),
    ScanLibrary,
    Seed,
    Say(Seq<char>),
    Exists(Seq<char>),
    AddFolder(Seq<char>),
    RemoveFolder(Seq<char>),
    Folders,
    TrackCount,
    Matches { query: Seq<char>, limit: usize },
    Recents(usize),
}

impl View for Action {
    type V = ActionView;

    open spec fn view(&self) -> ActionView {
        match *self {
            Action::Engine { index, call } => ActionView::Engine { index, call },
            Action::LoadQueue => ActionView::LoadQueue,
            Action::SaveQueue { items, current } => ActionView::SaveQueue {
                items: items@,
                current,
            },
            Action::Setting(key) => ActionView::Setting(key),
            Action::SetSetting { key, value } => ActionView::SetSetting { key, value: value@ },
            Action::TrackById(id) => ActionView::TrackById(id),
            Action::TrackByPath(path) => ActionView::TrackByPath(path@),
            Action::Search(query) => ActionView::Search(query@),
            Action::ExistingTracks(ids) => ActionView::ExistingTracks(ids@),
            Action::TracksUnder(folder) => ActionView::TracksUnder(folder@),
            Action::ResumeFor(id) => ActionView::ResumeFor(id),
            Action::SetResume(id, position) => ActionView::SetResume(id, position),
            Action::ClearResume(id) => ActionView::ClearResume(id),
            Action::MarkPlayed(id) => ActionView::MarkPlayed(id),
            Action::SetDuration(id, duration) => ActionView::SetDuration(id, duration),
            Action::Canonical(path) => ActionView::Canonical(path@),
            Action::IsFolder(path) => ActionView::IsFolder(path@),
            Action::Stat(path) => ActionView::Stat(path@),
            Action::Probe(path) => ActionView::Probe(path@),
            Action::Upsert { file, probed } => ActionView::Upsert { file, probed },
            Action::ScanFolder(path) => ActionView::ScanFolder(path@),
            Action::ScanLibrary => ActionView::ScanLibrary,
            Action::Seed => ActionView::Seed,
            Action::Say(line) => ActionView::Say(line@),
            Action::Exists(path) => ActionView::Exists(path@),
            Action::AddFolder(path) => ActionView::AddFolder(path@),
            Action::RemoveFolder(path) => ActionView::RemoveFolder(path@),
            Action::Folders => ActionView::Folders,
            Action::TrackCount => ActionView::TrackCount,
            Action::Matches { query, limit } => ActionView::Matches { query: query@, limit },
            Action::Recents(limit) => ActionView::Recents(limit),
        }
    }
}

/// What the host says of what it was asked to do.
#[derive(Debug)]
pub enum Answer {
    /// It is done.
    Finished,
    /// It failed.
    Failed(CoreError),
    Snapshot(EngineSnapshot),
    Track(Option<Track>),
    Tracks(Vec<Track>),
    Ids(Vec<i64>),
    Queue { items: Vec<i64>, current: Option<usize> },
    Text(Option<String>),
    Path(String),
    Position(Option<Fixed>),
    Process(Option<u32>),
    Flag(bool),
    File(ScannedFile),
    Probed(Probed),
    Id(i64),
    Report(ScanReport),
    Seed(u64),
    Texts(Vec<String>),
    Count(usize),
}

/// What the player holds.
#[verifier::ext_equal]
pub struct PlayerView {
    pub queue: QueueView,
    /// The track that was last loaded and not stopped.
    pub current: Option<Track>,
    /// The engine it was loaded on.
    pub active: Option<usize>,
    /// The position last written; no number where there is none.
    pub last_written: Fixed,
    pub registry: RegistryView,
}

pub type Run<T> = Outcome<PlayerView, ActionView, T, ErrorView>;

impl PlayerView {
    /// The queue is well formed, and the active engine is one of the registry's.
    pub open spec fn wf(self) -> bool {
        &&& self.queue.wf()
        &&& self.registry.engines.len() <= usize::MAX
        &&& match self.active {
            Some(i) => i < self.registry.engines.len(),
            None => true,
        }
    }

    pub open spec fn with_queue(self, queue: QueueView) -> PlayerView {
        PlayerView { queue, ..self }
    }

    pub open spec fn written(self, position: Fixed) -> PlayerView {
        PlayerView { last_written: position, ..self }
    }
}

/// What is said of an answer that does not fit the request.
pub open spec fn misfit() -> ErrorView {
    ErrorView::Internal { message: "the answer does not fit the request"@ }
}

/// What is said when the queue cannot hold any more rows.
pub open spec fn overfull() -> ErrorView {
    ErrorView::Internal { message: "the queue is full"@ }
}

pub open spec fn fails<T>(p: PlayerView, at: int, e: ErrorView) -> Run<T> {
    failed(p, at, e)
}

pub open spec fn ends<T>(p: PlayerView, at: int, t: T) -> Run<T> {
    done(p, at, t)
}

pub open spec fn asks(p: PlayerView, said: Seq<Answer>, at: int, a: ActionView) -> Run<Answer> {
    asked(p, said, at, a)
}

/// An answer of another kind than the request calls for: a failure, or a misfit.
pub open spec fn other<T>(p: PlayerView, at: int, answer: Answer) -> Run<T> {
    match answer {
        Answer::Failed(e) => fails(p, at, e@),
        _ => fails(p, at, misfit()),
    }
}

/// Something done for its effect.
pub open spec fn does(p: PlayerView, said: Seq<Answer>, at: int, a: ActionView) -> Run<()> {
    then_do(
        asks(p, said, at, a),
        |p: PlayerView, at: int, answer: Answer|
            match answer {
                Answer::Finished => ends(p, at, ()),
                _ => other(p, at, answer),
            },
    )
}

/// A question that is answered by yes or no.
pub open spec fn wonders(p: PlayerView, said: Seq<Answer>, at: int, a: ActionView) -> Run<bool> {
    then_do(
        asks(p, said, at, a),
        |p: PlayerView, at: int, answer: Answer|
            match answer {
                Answer::Flag(b) => ends(p, at, b),
                _ => other(p, at, answer),
            },
    )
}

/// A scan, and what it came to.
pub open spec fn reports(p: PlayerView, said: Seq<Answer>, at: int, a: ActionView) -> Run<
    ScanReport,
> {
    then_do(
        asks(p, said, at, a),
        |p: PlayerView, at: int, answer: Answer|
            match answer {
                Answer::Report(report) => ends(p, at, report),
                _ => other(p, at, answer),
            },
    )
}

/// An engine told to do something.
pub open spec fn tells(
    p: PlayerView,
    said: Seq<Answer>,
    at: int,
    index: usize,
    call: EngineCall,
) -> Run<()> {
    does(p, said, at, ActionView::Engine { index, call })
}

pub open spec fn looks(p: PlayerView, said: Seq<Answer>, at: int, index: usize) -> Run<
    EngineSnapshot,
> {
    then_do(
        asks(p, said, at, ActionView::Engine { index, call: EngineCall::Snapshot }),
        |p: PlayerView, at: int, answer: Answer|
            match answer {
                Answer::Snapshot(s) => ends(p, at, s),
                _ => other(p, at, answer),
            },
    )
}

pub open spec fn finds(p: PlayerView, said: Seq<Answer>, at: int, a: ActionView) -> Run<
    Option<Track>,
> {
    then_do(
        asks(p, said, at, a),
        |p: PlayerView, at: int, answer: Answer|
            match answer {
                Answer::Track(t) => ends(p, at, t),
                _ => other(p, at, answer),
            },
    )
}

pub open spec fn seeded(p: PlayerView, said: Seq<Answer>, at: int) -> Run<u64> {
    then_do(
        asks(p, said, at, ActionView::Seed),
        |p: PlayerView, at: int, answer: Answer|
            match answer {
                Answer::Seed(s) => ends(p, at, s),
                _ => other(p, at, answer),
            },
    )
}

pub open spec fn settled(p: PlayerView, said: Seq<Answer>, at: int, key: SettingKey) -> Run<
    Option<String>,
> {
    then_do(
        asks(p, said, at, ActionView::Setting(key)),
        |p: PlayerView, at: int, answer: Answer|
            match answer {
                Answer::Text(t) => ends(p, at, t),
                _ => other(p, at, answer),
            },
    )
}

/// The engine that is addressed, where there is one.
pub open spec fn addressed(p: PlayerView, at: int) -> Run<usize> {
    match p.active {
        Some(i) => ends(p, at, i),
        None => fails(p, at, ErrorView::NothingPlaying),
    }
}

/// The duration that the engine reports, else the one that the index holds.
pub open spec fn known_duration(snap: EngineSnapshot, track: Track) -> Option<Fixed> {
    match snap.duration_secs {
        Some(d) => Some(d),
        None => track.duration_secs,
    }
}

/// The current position, written where it is worth keeping.
pub open spec fn persist_resume_of(p: PlayerView, said: Seq<Answer>, at: int) -> Run<()> {
    match p.active {
        None => ends(p, at, ()),
        Some(i) => then_do(
            looks(p, said, at, i),
            |p: PlayerView, at: int, snap: EngineSnapshot|
                match (snap.position_secs, p.current) {
                    (Some(position), Some(track)) => if worth_keeping(
                        position,
                        known_duration(snap, track),
                    ) {
                        then_do(
                            does(p, said, at, ActionView::SetResume(track.id, position)),
                            |p: PlayerView, at: int, u: ()| ends(p.written(position), at, ()),
                        )
                    } else {
                        ends(p, at, ())
                    },
                    _ => ends(p, at, ()),
                },
        ),
    }
}

/// Positions as they are stored.
pub open spec fn loop_text(set: Option<Seq<usize>>) -> Seq<char> {
    match set {
        Some(set) => joined(Seq::new(set.len(), |i: int| digits(set[i] as nat)), ","@),
        None => Seq::empty(),
    }
}

/// The positions among the parts of a stored text; what is no number is left
/// out.
pub open spec fn positions_of(parts: Seq<Seq<char>>) -> Seq<usize>
    decreases parts.len(),
{
    if parts.len() == 0 {
        Seq::empty()
    } else {
        let rest = positions_of(parts.drop_last());
        match parsed_upto(trimmed(parts.last()), usize::MAX as nat) {
            Some(n) => rest.push(n as usize),
            None => rest,
        }
    }
}

/// The positions that a stored text names.
pub open spec fn loop_of(text: Seq<char>) -> Seq<usize> {
    positions_of(split(text, ','))
}

/// Repeat and loop, which the queue keeps exclusive, are written as a pair, so
/// that the store never shows one without the other's reset.
pub open spec fn persist_rules_of(p: PlayerView, said: Seq<Answer>, at: int) -> Run<()> {
    then_do(
        does(
            p,
            said,
            at,
            ActionView::SetSetting { key: SettingKey::Repeat, value: mode_text(p.queue.repeat) },
        ),
        |p: PlayerView, at: int, u: ()|
            does(
                p,
                said,
                at,
                ActionView::SetSetting {
                    key: SettingKey::Loop,
                    value: loop_text(p.queue.loop_set),
                },
            ),
    )
}

/// Staging, moving and clearing all shift or drop the loop with them, so the
/// rules are written whenever the queue is.
pub open spec fn persist_queue_of(p: PlayerView, said: Seq<Answer>, at: int) -> Run<()> {
    then_do(
        does(
            p,
            said,
            at,
            ActionView::SaveQueue { items: p.queue.items, current: p.queue.current },
        ),
        |p: PlayerView, at: int, u: ()| persist_rules_of(p, said, at),
    )
}

/// A queue put in place and stored.
pub open spec fn requeued(p: PlayerView, said: Seq<Answer>, at: int, queue: QueueView) -> Run<()> {
    persist_queue_of(p.with_queue(queue), said, at)
}

/// An engine that is left behind is stopped, whatever it says of it: it must not
/// go on holding the audio device.
pub open spec fn leave_of(p: PlayerView, said: Seq<Answer>, at: int, next: int) -> Run<()> {
    match p.active {
        Some(i) => if p.registry.engines[i as int].id != p.registry.engines[next].id {
            then_do(
                asks(p, said, at, ActionView::Engine { index: i, call: EngineCall::Stop }),
                |p: PlayerView, at: int, answer: Answer| ends(p, at, ()),
            )
        } else {
            ends(p, at, ())
        },
        None => ends(p, at, ()),
    }
}

/// The stored position of a track.
pub open spec fn remembered(p: PlayerView, said: Seq<Answer>, at: int, id: i64) -> Run<
    Option<Fixed>,
> {
    then_do(
        asks(p, said, at, ActionView::ResumeFor(id)),
        |p: PlayerView, at: int, answer: Answer|
            match answer {
                Answer::Position(s) => ends(p, at, s),
                _ => other(p, at, answer),
            },
    )
}

/// The player with a track loaded on an engine.
pub open spec fn now_playing(
    p: PlayerView,
    track: Track,
    engine: usize,
    start: Option<Fixed>,
) -> PlayerView {
    PlayerView {
        active: Some(engine),
        current: Some(track),
        last_written: match start {
            Some(s) => s,
            None => Fixed::Nanos(0),
        },
        ..p
    }
}

/// A track loaded on an engine that has been chosen, from the position worth
/// resuming from, if there is one.
pub open spec fn load_of(
    p: PlayerView,
    said: Seq<Answer>,
    at: int,
    track: Track,
    engine: int,
) -> Run<()> {
    then_do(
        leave_of(p, said, at, engine),
        |p: PlayerView, at: int, u: ()|
            then_do(
                remembered(p, said, at, track.id),
                |p: PlayerView, at: int, stored: Option<Fixed>|
                    {
                        let start = start_offset(stored, track.duration_secs);
                        then_do(
                            tells(
                                p,
                                said,
                                at,
                                engine as usize,
                                EngineCall::Load { path: track.path, start_at: start },
                            ),
                            |p: PlayerView, at: int, u: ()|
                                then_do(
                                    does(p, said, at, ActionView::MarkPlayed(track.id)),
                                    |p: PlayerView, at: int, u: ()|
                                        ends(
                                            now_playing(p, track, engine as usize, start),
                                            at,
                                            (),
                                        ),
                                ),
                        )
                    },
            ),
    )
}

/// Whatever was playing gets its position written first, including when it is
/// this same track; a restart forgets the position only after that.
pub open spec fn play_track_of(
    p: PlayerView,
    said: Seq<Answer>,
    at: int,
    track: Track,
    restart: bool,
) -> Run<()> {
    then_do(
        persist_resume_of(p, said, at),
        |p: PlayerView, at: int, u: ()|
            then_do(
                if restart {
                    does(p, said, at, ActionView::ClearResume(track.id))
                } else {
                    ends(p, at, ())
                },
                |p: PlayerView, at: int, u: ()|
                    match p.registry.chosen(track.path@) {
                        Choice::Failed(e) => fails(p, at, e),
                        Choice::Engine(engine) => load_of(p, said, at, track, engine),
                    },
            ),
    )
}

/// A track selected in the queue, added at its end where it is not in it.
pub open spec fn choose_row_of(p: PlayerView, said: Seq<Answer>, at: int, id: i64) -> Run<()> {
    if p.queue.items.contains(id) {
        ends(p.with_queue(p.queue.selected(id)), at, ())
    } else if p.queue.items.len() >= usize::MAX {
        fails(p, at, overfull())
    } else {
        then_do(
            seeded(p, said, at),
            |p: PlayerView, at: int, s: u64|
                ends(p.with_queue(p.queue.extended(seq![id], s).selected(id)), at, ()),
        )
    }
}

pub open spec fn start_track_of(
    p: PlayerView,
    said: Seq<Answer>,
    at: int,
    id: i64,
    restart: bool,
) -> Run<Track> {
    then_do(
        finds(p, said, at, ActionView::TrackById(id)),
        |p: PlayerView, at: int, found: Option<Track>|
            match found {
                None => fails(p, at, ErrorView::NoMatch { query: signed_digits(id as int) }),
                Some(track) => then_do(
                    choose_row_of(p, said, at, id),
                    |p: PlayerView, at: int, u: ()|
                        then_do(
                            persist_queue_of(p, said, at),
                            |p: PlayerView, at: int, u: ()|
                                then_do(
                                    play_track_of(p, said, at, track, restart),
                                    |p: PlayerView, at: int, u: ()| ends(p, at, track),
                                ),
                        ),
                ),
            },
    )
}

/// The size and time of a file, and what can be learned of it, put in the index.
pub open spec fn index_of(p: PlayerView, said: Seq<Answer>, at: int, path: Seq<char>) -> Run<i64> {
    then_do(
        asks(p, said, at, ActionView::Stat(path)),
        |p: PlayerView, at: int, answer: Answer|
            match answer {
                Answer::File(file) => then_do(
                    asks(p, said, at, ActionView::Probe(path)),
                    |p: PlayerView, at: int, answer: Answer|
                        match answer {
                            Answer::Probed(probed) => then_do(
                                asks(p, said, at, ActionView::Upsert { file, probed }),
                                |p: PlayerView, at: int, answer: Answer|
                                    match answer {
                                        Answer::Id(id) => ends(p, at, id),
                                        _ => other(p, at, answer),
                                    },
                            ),
                            _ => other(p, at, answer),
                        },
                ),
                _ => other(p, at, answer),
            },
    )
}

pub open spec fn vanished() -> ErrorView {
    ErrorView::Internal { message: "track vanished immediately after indexing"@ }
}

/// A file's track, indexed where it is not known yet.
pub open spec fn ensure_indexed_of(
    p: PlayerView,
    said: Seq<Answer>,
    at: int,
    path: Seq<char>,
) -> Run<Track> {
    then_do(
        asks(p, said, at, ActionView::Canonical(path)),
        |p: PlayerView, at: int, answer: Answer|
            match answer {
                Answer::Path(canonical) => if !(path_extension(canonical@) matches Some(ext)
                    && media_extension(ext)) {
                    fails(p, at, ErrorView::NotMedia { path: canonical@ })
                } else {
                    then_do(
                        finds(p, said, at, ActionView::TrackByPath(canonical@)),
                        |p: PlayerView, at: int, found: Option<Track>|
                            match found {
                                Some(track) => ends(p, at, track),
                                None => then_do(
                                    index_of(p, said, at, canonical@),
                                    |p: PlayerView, at: int, id: i64|
                                        then_do(
                                            finds(p, said, at, ActionView::TrackById(id)),
                                            |p: PlayerView, at: int, found: Option<Track>|
                                                match found {
                                                    Some(track) => ends(p, at, track),
                                                    None => fails(p, at, vanished()),
                                                },
                                        ),
                                ),
                            },
                    )
                },
                _ => other(p, at, answer),
            },
    )
}

/// The first match in the library.
pub open spec fn find_track_of(p: PlayerView, said: Seq<Answer>, at: int, query: Seq<char>) -> Run<
    Track,
> {
    then_do(
        finds(p, said, at, ActionView::Search(query)),
        |p: PlayerView, at: int, found: Option<Track>|
            match found {
                Some(track) => ends(p, at, track),
                None => fails(p, at, ErrorView::NoMatch { query }),
            },
    )
}

/// A new queue, with one of its rows selected or none.
pub open spec fn set_queue_of(
    p: PlayerView,
    said: Seq<Answer>,
    at: int,
    ids: Seq<i64>,
    start: Option<usize>,
) -> Run<()> {
    then_do(
        seeded(p, said, at),
        |p: PlayerView, at: int, s: u64| requeued(p, said, at, p.queue.replaced(ids, start, s)),
    )
}

/// A file played, the queue replaced with it.
pub open spec fn play_path_of(p: PlayerView, said: Seq<Answer>, at: int, path: Seq<char>) -> Run<
    Track,
> {
    then_do(
        ensure_indexed_of(p, said, at, path),
        |p: PlayerView, at: int, track: Track|
            then_do(
                set_queue_of(p, said, at, seq![track.id], Some(0)),
                |p: PlayerView, at: int, u: ()|
                    then_do(
                        play_track_of(p, said, at, track, false),
                        |p: PlayerView, at: int, u: ()| ends(p, at, track),
                    ),
            ),
    )
}

/// Pausing is a natural point to save the position.
pub open spec fn set_paused_of(p: PlayerView, said: Seq<Answer>, at: int, paused: bool) -> Run<()> {
    then_do(
        addressed(p, at),
        |p: PlayerView, at: int, i: usize|
            then_do(
                tells(p, said, at, i, EngineCall::SetPaused(paused)),
                |p: PlayerView, at: int, u: ()| persist_resume_of(p, said, at),
            ),
    )
}

pub open spec fn toggle_paused_of(p: PlayerView, said: Seq<Answer>, at: int) -> Run<bool> {
    then_do(
        addressed(p, at),
        |p: PlayerView, at: int, i: usize|
            then_do(
                looks(p, said, at, i),
                |p: PlayerView, at: int, snap: EngineSnapshot|
                    then_do(
                        tells(p, said, at, i, EngineCall::SetPaused(!snap.paused)),
                        |p: PlayerView, at: int, u: ()|
                            then_do(
                                persist_resume_of(p, said, at),
                                |p: PlayerView, at: int, u: ()| ends(p, at, !snap.paused),
                            ),
                    ),
            ),
    )
}

/// Stopping writes the position first, and leaves nothing current.
pub open spec fn stop_of(p: PlayerView, said: Seq<Answer>, at: int) -> Run<()> {
    then_do(
        persist_resume_of(p, said, at),
        |p: PlayerView, at: int, u: ()|
            then_do(
                match p.active {
                    Some(i) => tells(p, said, at, i, EngineCall::Stop),
                    None => ends(p, at, ()),
                },
                |p: PlayerView, at: int, u: ()|
                    ends(PlayerView { current: None, last_written: Fixed::NaN, ..p }, at, ()),
            ),
    )
}

pub open spec fn lost_text(id: i64) -> Seq<char> {
    "queued track "@ + signed_digits(id as int) + " is no longer in the library"@
}

pub open spec fn play_or_stop_of(
    p: PlayerView,
    said: Seq<Answer>,
    at: int,
    id: Option<i64>,
) -> Run<Option<Track>> {
    match id {
        Some(id) => then_do(
            finds(p, said, at, ActionView::TrackById(id)),
            |p: PlayerView, at: int, found: Option<Track>|
                match found {
                    None => fails(p, at, ErrorView::Internal { message: lost_text(id) }),
                    Some(track) => then_do(
                        play_track_of(p, said, at, track, false),
                        |p: PlayerView, at: int, u: ()| ends(p, at, Some(track)),
                    ),
                },
        ),
        None => then_do(
            stop_of(p, said, at),
            |p: PlayerView, at: int, u: ()| ends(p, at, None),
        ),
    }
}

/// On to a position of the queue, which is stored before it plays.
pub open spec fn walk_of(p: PlayerView, said: Seq<Answer>, at: int, to: Option<usize>) -> Run<
    Option<Track>,
> {
    then_do(
        requeued(p, said, at, p.queue.gone_to(to)),
        |q: PlayerView, at: int, u: ()| play_or_stop_of(q, said, at, p.queue.id_at(to)),
    )
}

pub open spec fn next_of(p: PlayerView, said: Seq<Answer>, at: int) -> Run<Option<Track>> {
    then_do(
        persist_resume_of(p, said, at),
        |p: PlayerView, at: int, u: ()| walk_of(p, said, at, p.queue.next_position()),
    )
}

pub open spec fn previous_of(p: PlayerView, said: Seq<Answer>, at: int) -> Run<Option<Track>> {
    then_do(
        persist_resume_of(p, said, at),
        |p: PlayerView, at: int, u: ()| walk_of(p, said, at, p.queue.previous_position()),
    )
}

/// A call to the engine that is addressed.
pub open spec fn command_of(p: PlayerView, said: Seq<Answer>, at: int, call: EngineCall) -> Run<
    (),
> {
    then_do(
        addressed(p, at),
        |p: PlayerView, at: int, i: usize| tells(p, said, at, i, call),
    )
}

/// Where a relative seek goes: held within the file, as far as its end is known.
pub open spec fn seek_target(snap: EngineSnapshot, delta: Fixed) -> Fixed {
    let from = match snap.position_secs {
        Some(position) => position,
        None => Fixed::Nanos(0),
    };
    let end = match snap.duration_secs {
        Some(d) => d,
        None => Fixed::Nanos(i128::MAX),
    };
    smaller(larger(sum(from, delta), Fixed::Nanos(0)), end)
}

pub open spec fn seek_relative_of(p: PlayerView, said: Seq<Answer>, at: int, delta: Fixed) -> Run<
    Fixed,
> {
    then_do(
        addressed(p, at),
        |p: PlayerView, at: int, i: usize|
            then_do(
                looks(p, said, at, i),
                |p: PlayerView, at: int, snap: EngineSnapshot|
                    then_do(
                        tells(
                            p,
                            said,
                            at,
                            i,
                            EngineCall::SeekAbsolute(seek_target(snap, delta)),
                        ),
                        |p: PlayerView, at: int, u: ()| ends(p, at, seek_target(snap, delta)),
                    ),
            ),
    )
}

pub open spec fn no_video() -> ErrorView {
    ErrorView::Internal { message: "the current track has no video to pop out"@ }
}

pub open spec fn toggle_video_of(p: PlayerView, said: Seq<Answer>, at: int) -> Run<bool> {
    then_do(
        addressed(p, at),
        |p: PlayerView, at: int, i: usize|
            then_do(
                looks(p, said, at, i),
                |p: PlayerView, at: int, snap: EngineSnapshot|
                    if !snap.has_video {
                        fails(p, at, no_video())
                    } else {
                        then_do(
                            tells(
                                p,
                                said,
                                at,
                                i,
                                EngineCall::SetVideoVisible(!snap.video_visible),
                            ),
                            |p: PlayerView, at: int, u: ()| ends(p, at, !snap.video_visible),
                        )
                    },
            ),
    )
}

/// Every engine from `i` on told the same.
pub open spec fn tell_all_of(
    p: PlayerView,
    said: Seq<Answer>,
    at: int,
    call: EngineCall,
    i: int,
) -> Run<()>
    decreases p.registry.engines.len() - i,
{
    if 0 <= i < p.registry.engines.len() {
        let o = tells(p, said, at, i as usize, call);
        match o.end {
            Progress::Done(u) => tell_all_of(p, said, o.at, call, i + 1),
            _ => o,
        }
    } else {
        ends(p, at, ())
    }
}

/// The saved layout of the pop-out, if one has been chosen.
pub open spec fn layout_setting_of(p: PlayerView, said: Seq<Answer>, at: int) -> Run<
    Option<VideoWindowLayout>,
> {
    then_do(
        settled(p, said, at, SettingKey::VideoWindow),
        |p: PlayerView, at: int, text: Option<String>|
            ends(
                p,
                at,
                match text {
                    Some(t) => layout_of(t@),
                    None => None,
                },
            ),
    )
}

/// A layout is stored, and pushed to every engine: the choice is about the
/// window, whichever engine ends up drawing it.
pub open spec fn set_layout_of(
    p: PlayerView,
    said: Seq<Answer>,
    at: int,
    layout: VideoWindowLayout,
) -> Run<()> {
    then_do(
        does(
            p,
            said,
            at,
            ActionView::SetSetting { key: SettingKey::VideoWindow, value: layout_text(layout) },
        ),
        |p: PlayerView, at: int, u: ()|
            tell_all_of(p, said, at, EngineCall::SetLayout(layout), 0),
    )
}

/// A run whose list has more tracks in front.
pub open spec fn prefixed(front: Seq<Track>, o: Run<Seq<Track>>) -> Run<Seq<Track>> {
    match o.end {
        Progress::Done(tracks) => ends(o.state, o.at, front + tracks),
        _ => o,
    }
}

/// The first engine from `i` on that can show a window to place.
pub open spec fn begin_placement_of(p: PlayerView, said: Seq<Answer>, at: int, i: int) -> Run<
    Option<u32>,
>
    decreases p.registry.engines.len() - i,
{
    if 0 <= i < p.registry.engines.len() {
        let o = asks(
            p,
            said,
            at,
            ActionView::Engine { index: i as usize, call: EngineCall::BeginPlacement },
        );
        match o.end {
            Progress::Done(Answer::Process(Some(pid))) => ends(p, o.at, Some(pid)),
            Progress::Done(Answer::Process(None)) => begin_placement_of(p, said, o.at, i + 1),
            Progress::Done(answer) => other(p, o.at, answer),
            Progress::Ask(a) => Outcome { state: p, at: o.at, end: Progress::Ask(a) },
            Progress::Failed(e) => fails(p, o.at, e),
        }
    } else {
        ends(p, at, None)
    }
}

pub open spec fn queue_add_of(p: PlayerView, said: Seq<Answer>, at: int, ids: Seq<i64>) -> Run<
    (),
> {
    if p.queue.items.len() + ids.len() > usize::MAX {
        fails(p, at, overfull())
    } else {
        then_do(
            seeded(p, said, at),
            |p: PlayerView, at: int, s: u64| requeued(p, said, at, p.queue.extended(ids, s)),
        )
    }
}

/// The ids of a list of tracks.
pub open spec fn ids_of(tracks: Seq<Track>) -> Seq<i64> {
    Seq::new(tracks.len(), |i: int| tracks[i].id)
}

/// The tracks of a folder, indexed first; a folder without any is no match.
pub open spec fn folder_tracks_of(
    p: PlayerView,
    said: Seq<Answer>,
    at: int,
    path: Seq<char>,
) -> Run<Seq<Track>> {
    then_do(
        asks(p, said, at, ActionView::Canonical(path)),
        |p: PlayerView, at: int, answer: Answer|
            match answer {
                Answer::Path(root) => then_do(
                    reports(p, said, at, ActionView::ScanFolder(root@)),
                    |p: PlayerView, at: int, report: ScanReport|
                        then_do(
                            asks(p, said, at, ActionView::TracksUnder(root@)),
                            |p: PlayerView, at: int, answer: Answer|
                                match answer {
                                    Answer::Tracks(found) => if found@.len() == 0 {
                                        fails(p, at, ErrorView::NoMatch { query: root@ })
                                    } else {
                                        ends(p, at, found@)
                                    },
                                    _ => other(p, at, answer),
                                },
                        ),
                ),
                _ => other(p, at, answer),
            },
    )
}

/// A file, or everything under a folder.
pub open spec fn staged_of(p: PlayerView, said: Seq<Answer>, at: int, path: Seq<char>) -> Run<
    Seq<Track>,
> {
    then_do(
        asks(p, said, at, ActionView::IsFolder(path)),
        |p: PlayerView, at: int, answer: Answer|
            match answer {
                Answer::Flag(folder) => if folder {
                    folder_tracks_of(p, said, at, path)
                } else {
                    then_do(
                        ensure_indexed_of(p, said, at, path),
                        |p: PlayerView, at: int, track: Track| ends(p, at, seq![track]),
                    )
                },
                _ => other(p, at, answer),
            },
    )
}

/// Staging puts tracks at the top of the queue and starts nothing.
pub open spec fn stage_path_of(p: PlayerView, said: Seq<Answer>, at: int, path: Seq<char>) -> Run<
    Seq<Track>,
> {
    then_do(
        staged_of(p, said, at, path),
        |p: PlayerView, at: int, tracks: Seq<Track>|
            if p.queue.items.len() + tracks.len() > usize::MAX {
                fails(p, at, overfull())
            } else {
                then_do(
                    seeded(p, said, at),
                    |p: PlayerView, at: int, s: u64|
                        then_do(
                            requeued(p, said, at, p.queue.staged(ids_of(tracks), s)),
                            |p: PlayerView, at: int, u: ()| ends(p, at, tracks),
                        ),
                )
            },
    )
}

pub open spec fn queue_move_of(
    p: PlayerView,
    said: Seq<Answer>,
    at: int,
    from: usize,
    to: usize,
) -> Run<bool> {
    if !p.queue.moves(from, to) {
        ends(p, at, false)
    } else {
        then_do(
            seeded(p, said, at),
            |p: PlayerView, at: int, s: u64|
                then_do(
                    requeued(p, said, at, p.queue.moved(from, to, s)),
                    |p: PlayerView, at: int, u: ()| ends(p, at, true),
                ),
        )
    }
}

pub open spec fn queue_scramble_of(
    p: PlayerView,
    said: Seq<Answer>,
    at: int,
    chosen: Option<Seq<usize>>,
) -> Run<()> {
    then_do(
        seeded(p, said, at),
        |p: PlayerView, at: int, s: u64|
            then_do(
                seeded(p, said, at),
                |p: PlayerView, at: int, t: u64|
                    requeued(p, said, at, p.queue.scrambled(chosen, s, t)),
            ),
    )
}

/// The queue resets repeat when it takes a loop, so both are stored.
pub open spec fn set_loop_of(
    p: PlayerView,
    said: Seq<Answer>,
    at: int,
    chosen: Option<Seq<usize>>,
) -> Run<()> {
    persist_rules_of(p.with_queue(p.queue.looped(chosen)), said, at)
}

pub open spec fn set_repeat_of(p: PlayerView, said: Seq<Answer>, at: int, mode: RepeatMode) -> Run<
    (),
> {
    persist_rules_of(p.with_queue(p.queue.with_repeat(mode)), said, at)
}

pub open spec fn switch_text(on: bool) -> Seq<char> {
    if on {
        "on"@
    } else {
        "off"@
    }
}

pub open spec fn set_shuffle_of(p: PlayerView, said: Seq<Answer>, at: int, on: bool) -> Run<()> {
    then_do(
        seeded(p, said, at),
        |p: PlayerView, at: int, s: u64|
            does(
                p.with_queue(p.queue.with_shuffle(on, s)),
                said,
                at,
                ActionView::SetSetting { key: SettingKey::Shuffle, value: switch_text(on) },
            ),
    )
}

/// Rows whose track is gone are dropped; whether any went.
pub open spec fn prune_of(p: PlayerView, said: Seq<Answer>, at: int) -> Run<bool> {
    if p.queue.items.len() == 0 {
        ends(p, at, false)
    } else {
        then_do(
            asks(p, said, at, ActionView::ExistingTracks(p.queue.items)),
            |p: PlayerView, at: int, answer: Answer|
                match answer {
                    Answer::Ids(alive) => if p.queue.items.all(|id: i64| alive@.contains(id)) {
                        ends(p, at, false)
                    } else {
                        then_do(
                            seeded(p, said, at),
                            |p: PlayerView, at: int, s: u64|
                                then_do(
                                    requeued(p, said, at, p.queue.pruned(alive@, s)),
                                    |p: PlayerView, at: int, u: ()| ends(p, at, true),
                                ),
                        )
                    },
                    _ => other(p, at, answer),
                },
        )
    }
}

/// A rescan, after which library and queue agree with each other.
pub open spec fn rescan_of(p: PlayerView, said: Seq<Answer>, at: int) -> Run<ScanReport> {
    then_do(
        asks(p, said, at, ActionView::ScanLibrary),
        |p: PlayerView, at: int, answer: Answer|
            match answer {
                Answer::Report(report) => if report.removed > 0 {
                    then_do(
                        prune_of(p, said, at),
                        |p: PlayerView, at: int, changed: bool| ends(p, at, report),
                    )
                } else {
                    ends(p, at, report)
                },
                _ => other(p, at, answer),
            },
    )
}

/// The tracks of the rows from `i` on that are still in the library.
pub open spec fn queue_tracks_of(p: PlayerView, said: Seq<Answer>, at: int, i: int) -> Run<
    Seq<Track>,
>
    decreases p.queue.items.len() - i,
{
    if 0 <= i < p.queue.items.len() {
        let o = finds(p, said, at, ActionView::TrackById(p.queue.items[i]));
        match o.end {
            Progress::Done(found) => {
                let rest = queue_tracks_of(p, said, o.at, i + 1);
                match (rest.end, found) {
                    (Progress::Done(tracks), Some(track)) => ends(
                        rest.state,
                        rest.at,
                        seq![track] + tracks,
                    ),
                    _ => rest,
                }
            },
            Progress::Ask(a) => Outcome { state: p, at: o.at, end: Progress::Ask(a) },
            Progress::Failed(e) => fails(p, o.at, e),
        }
    } else {
        ends(p, at, Seq::empty())
    }
}

pub open spec fn unknown_engine(p: PlayerView, id: Seq<char>) -> ErrorView {
    ErrorView::Internal {
        message: "no engine with id \""@ + id + "\" is available (have: "@ + joined(
            p.registry.ids(),
            ", "@,
        ) + ")"@,
    }
}

/// An id that no engine answers to is refused rather than stored: it would leave
/// every file unplayable, far from the choice that caused it.
pub open spec fn set_policy_of(
    p: PlayerView,
    said: Seq<Answer>,
    at: int,
    policy: PolicyView,
) -> Run<()> {
    if policy matches PolicyView::Force(id) && !p.registry.has(id) {
        fails(p, at, unknown_engine(p, policy->Force_0))
    } else {
        then_do(
            does(
                p,
                said,
                at,
                ActionView::SetSetting {
                    key: SettingKey::EnginePolicy,
                    value: policy_text(policy),
                },
            ),
            |p: PlayerView, at: int, u: ()|
                ends(
                    PlayerView {
                        registry: RegistryView { policy, ..p.registry },
                        ..p
                    },
                    at,
                    (),
                ),
        )
    }
}

/// What is shown of the player.
#[verifier::ext_equal]
pub struct StatusView {
    pub track: Option<Track>,
    pub position_secs: Option<Fixed>,
    pub duration_secs: Option<Fixed>,
    pub paused: bool,
    pub idle: bool,
    pub has_video: bool,
    pub video_visible: bool,
    pub queue_len: nat,
    pub queue_index: Option<usize>,
    pub repeat: RepeatMode,
    pub shuffle: bool,
    pub loop_positions: Seq<usize>,
    pub engine_id: Option<Seq<char>>,
}

/// What is shown, given what the engine reports and the track it plays.
pub open spec fn shown_status(
    p: PlayerView,
    snap: EngineSnapshot,
    track: Option<Track>,
) -> StatusView {
    StatusView {
        track,
        position_secs: snap.position_secs,
        duration_secs: match (snap.duration_secs, track) {
            (Some(d), _) => Some(d),
            (None, Some(t)) => t.duration_secs,
            (None, None) => None,
        },
        paused: snap.paused,
        idle: snap.idle || p.active is None,
        has_video: snap.has_video || (track matches Some(t) && t.has_video),
        video_visible: snap.video_visible,
        queue_len: p.queue.items.len(),
        queue_index: p.queue.current,
        repeat: p.queue.repeat,
        shuffle: p.queue.shuffle,
        loop_positions: match p.queue.loop_set {
            Some(set) => set,
            None => Seq::empty(),
        },
        engine_id: match p.active {
            Some(i) => Some(p.registry.engines[i as int].id),
            None => None,
        },
    }
}

pub open spec fn status_of(p: PlayerView, said: Seq<Answer>, at: int) -> Run<StatusView> {
    then_do(
        match p.active {
            Some(i) => looks(p, said, at, i),
            None => ends(p, at, EngineSnapshot::nothing()),
        },
        |p: PlayerView, at: int, snap: EngineSnapshot|
            match (p.current, snap.path) {
                (None, Some(path)) => then_do(
                    finds(p, said, at, ActionView::TrackByPath(path@)),
                    |p: PlayerView, at: int, found: Option<Track>|
                        ends(p, at, shown_status(p, snap, found)),
                ),
                _ => ends(p, at, shown_status(p, snap, p.current)),
            },
    )
}

/// A track with the duration that playing it revealed.
pub open spec fn lasting(track: Track, duration: Fixed) -> Track {
    Track { duration_secs: Some(duration), ..track }
}

/// A duration that could not be probed is learned the first time it plays.
pub open spec fn learn_duration_of(
    p: PlayerView,
    said: Seq<Answer>,
    at: int,
    snap: EngineSnapshot,
) -> Run<()> {
    match (p.current, snap.duration_secs) {
        (Some(track), Some(duration)) => if track.duration_secs is None {
            then_do(
                does(p, said, at, ActionView::SetDuration(track.id, duration)),
                |p: PlayerView, at: int, u: ()|
                    ends(
                        PlayerView { current: Some(lasting(track, duration)), ..p },
                        at,
                        (),
                    ),
            )
        } else {
            ends(p, at, ())
        },
        _ => ends(p, at, ()),
    }
}

/// How far playback must have moved before its position is written again.
pub open spec fn moved_enough(position: Fixed, last: Fixed) -> bool {
    match (position, last) {
        (Fixed::Nanos(a), Fixed::Nanos(b)) => a - b >= 15_000_000_000 || b - a
            >= 15_000_000_000,
        (Fixed::NaN, Fixed::Nanos(_)) => false,
        _ => true,
    }
}

/// The position as playback goes on: written where it is worth keeping, and
/// forgotten where it is not, so that going back to the start is not undone by
/// a stale position later.
pub open spec fn follow_resume_of(
    p: PlayerView,
    said: Seq<Answer>,
    at: int,
    snap: EngineSnapshot,
) -> Run<()> {
    match (snap.position_secs, p.current) {
        (Some(position), Some(track)) => if moved_enough(position, p.last_written) {
            then_do(
                does(
                    p,
                    said,
                    at,
                    if worth_keeping(position, known_duration(snap, track)) {
                        ActionView::SetResume(track.id, position)
                    } else {
                        ActionView::ClearResume(track.id)
                    },
                ),
                |p: PlayerView, at: int, u: ()| ends(p.written(position), at, ()),
            )
        } else {
            ends(p, at, ())
        },
        _ => ends(p, at, ()),
    }
}

/// Where the queue goes at the end of a file.
pub open spec fn after_eof(queue: QueueView) -> (QueueView, Option<i64>) {
    if queue.repeat == RepeatMode::One {
        (queue, queue.playing())
    } else {
        (queue.gone_to(queue.next_position()), queue.id_at(queue.next_position()))
    }
}

/// A finished track has no position worth keeping, and the queue moves on.
pub open spec fn end_of_file_of(p: PlayerView, said: Seq<Answer>, at: int) -> Run<()> {
    then_do(
        match p.current {
            Some(track) => does(p, said, at, ActionView::ClearResume(track.id)),
            None => ends(p, at, ()),
        },
        |p: PlayerView, at: int, u: ()|
            {
                let (queue, id) = after_eof(p.queue);
                then_do(
                    requeued(p.written(Fixed::NaN), said, at, queue),
                    |p: PlayerView, at: int, u: ()|
                        match id {
                            Some(id) => then_do(
                                finds(p, said, at, ActionView::TrackById(id)),
                                |p: PlayerView, at: int, found: Option<Track>|
                                    match found {
                                        Some(track) => play_track_of(p, said, at, track, false),
                                        None => stop_of(p, said, at),
                                    },
                            ),
                            None => stop_of(p, said, at),
                        },
                )
            },
    )
}

/// Periodic upkeep: learn durations, move on at the end, else write positions.
pub open spec fn tick_of(p: PlayerView, said: Seq<Answer>, at: int) -> Run<()> {
    match p.active {
        None => ends(p, at, ()),
        Some(i) => then_do(
            looks(p, said, at, i),
            |p: PlayerView, at: int, snap: EngineSnapshot|
                then_do(
                    learn_duration_of(p, said, at, snap),
                    |p: PlayerView, at: int, u: ()|
                        if snap.eof {
                            end_of_file_of(p, said, at)
                        } else {
                            follow_resume_of(p, said, at, snap)
                        },
                ),
        ),
    }
}

/// Every engine from `i` on shut down, whatever each says to it.
pub open spec fn shut_all_of(p: PlayerView, said: Seq<Answer>, at: int, i: int) -> Run<()>
    decreases p.registry.engines.len() - i,
{
    if 0 <= i < p.registry.engines.len() {
        let o = asks(
            p,
            said,
            at,
            ActionView::Engine { index: i as usize, call: EngineCall::Shutdown },
        );
        match o.end {
            Progress::Ask(a) => Outcome { state: p, at: o.at, end: Progress::Ask(a) },
            _ => shut_all_of(p, said, o.at, i + 1),
        }
    } else {
        ends(p, at, ())
    }
}

/// State saved, and every engine shut down.
pub open spec fn quit_of(p: PlayerView, said: Seq<Answer>, at: int) -> Run<()> {
    then_do(
        persist_resume_of(p, said, at),
        |p: PlayerView, at: int, u: ()|
            then_do(
                persist_queue_of(p, said, at),
                |p: PlayerView, at: int, u: ()| shut_all_of(p, said, at, 0),
            ),
    )
}

/// The first engine from `i` on that has something loaded, taken over.
pub open spec fn adopt_of(p: PlayerView, said: Seq<Answer>, at: int, i: int) -> Run<()>
    decreases p.registry.engines.len() - i,
{
    if 0 <= i < p.registry.engines.len() {
        let o = looks(p, said, at, i as usize);
        match o.end {
            Progress::Done(snap) => match snap.path {
                Some(path) => then_do(
                    finds(p, said, o.at, ActionView::TrackByPath(path@)),
                    |p: PlayerView, at: int, found: Option<Track>|
                        ends(
                            match found {
                                Some(track) => PlayerView {
                                    active: Some(i as usize),
                                    current: Some(track),
                                    queue: p.queue.selected(track.id),
                                    ..p
                                },
                                None => PlayerView { active: Some(i as usize), ..p },
                            },
                            at,
                            (),
                        ),
                ),
                None => adopt_of(p, said, o.at, i + 1),
            },
            Progress::Ask(a) => Outcome { state: p, at: o.at, end: Progress::Ask(a) },
            Progress::Failed(e) => fails(p, o.at, e),
        }
    } else {
        ends(p, at, ())
    }
}

/// The stored queue, in the order it is to be walked in.
pub open spec fn restore_queue_of(p: PlayerView, said: Seq<Answer>, at: int) -> Run<()> {
    then_do(
        asks(p, said, at, ActionView::LoadQueue),
        |p: PlayerView, at: int, answer: Answer|
            match answer {
                Answer::Queue { items, current } => then_do(
                    seeded(p, said, at),
                    |p: PlayerView, at: int, s: u64|
                        ends(p.with_queue(p.queue.replaced(items@, current, s)), at, ()),
                ),
                _ => other(p, at, answer),
            },
    )
}

pub open spec fn restored_repeat(queue: QueueView, text: Option<String>) -> QueueView {
    match text {
        Some(t) => match mode_named(lowered(trimmed(t@))) {
            Some(mode) => queue.with_repeat(mode),
            None => queue,
        },
        None => queue,
    }
}

pub open spec fn restored_loop(queue: QueueView, text: Option<String>) -> QueueView {
    match text {
        Some(t) => if loop_of(t@).len() > 0 {
            queue.looped(Some(loop_of(t@)))
        } else {
            queue
        },
        None => queue,
    }
}

/// Repeat, shuffle and loop as they were stored; the loop last, so that it wins
/// over repeat the way it did when it was set.
pub open spec fn restore_rules_of(p: PlayerView, said: Seq<Answer>, at: int) -> Run<()> {
    then_do(
        settled(p, said, at, SettingKey::Repeat),
        |p: PlayerView, at: int, repeat: Option<String>|
            then_do(
                settled(
                    p.with_queue(restored_repeat(p.queue, repeat)),
                    said,
                    at,
                    SettingKey::Shuffle,
                ),
                |p: PlayerView, at: int, shuffle: Option<String>|
                    then_do(
                        seeded(p, said, at),
                        |p: PlayerView, at: int, s: u64|
                            then_do(
                                settled(
                                    p.with_queue(
                                        p.queue.with_shuffle(
                                            shuffle matches Some(t) && t@ == "on"@,
                                            s,
                                        ),
                                    ),
                                    said,
                                    at,
                                    SettingKey::Loop,
                                ),
                                |p: PlayerView, at: int, saved: Option<String>|
                                    ends(p.with_queue(restored_loop(p.queue, saved)), at, ()),
                            ),
                    ),
            ),
    )
}

pub open spec fn restore_policy_of(p: PlayerView, said: Seq<Answer>, at: int) -> Run<()> {
    then_do(
        settled(p, said, at, SettingKey::EnginePolicy),
        |p: PlayerView, at: int, text: Option<String>|
            ends(
                PlayerView {
                    registry: RegistryView {
                        policy: match text {
                            Some(t) => policy_of(t@),
                            None => PolicyView::Auto,
                        },
                        ..p.registry
                    },
                    ..p
                },
                at,
                (),
            ),
    )
}

/// Queue, rules and policy from the store; the saved layout handed to the
/// engines before anything can pop a window out; and whatever is already playing
/// taken over.
pub open spec fn restore_of(p: PlayerView, said: Seq<Answer>, at: int) -> Run<()> {
    then_do(
        restore_queue_of(p, said, at),
        |p: PlayerView, at: int, u: ()|
            then_do(
                restore_rules_of(p, said, at),
                |p: PlayerView, at: int, u: ()|
                    then_do(
                        restore_policy_of(p, said, at),
                        |p: PlayerView, at: int, u: ()|
                            then_do(
                                layout_setting_of(p, said, at),
                                |p: PlayerView, at: int, layout: Option<VideoWindowLayout>|
                                    then_do(
                                        match layout {
                                            Some(l) => tell_all_of(
                                                p,
                                                said,
                                                at,
                                                EngineCall::SetLayout(l),
                                                0,
                                            ),
                                            None => ends(p, at, ()),
                                        },
                                        |p: PlayerView, at: int, u: ()| adopt_of(p, said, at, 0),
                                    ),
                            ),
                    ),
            ),
    )
}

} // verus!
