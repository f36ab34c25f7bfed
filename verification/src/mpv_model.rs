//! What the mpv engine does, as functions of its state and its host's answers.

use vstd::prelude::*;

use crate::engine::{EngineErrorView, SnapshotView};
use crate::fixed::{clamped, larger, lt, to_places, Fixed};
use crate::ipc::{observed_names, Arg, ArgView};
use crate::json::{Json, JsonView};
use crate::layout::{autofit_text, geometry_text, layout_args_text, screen_name, VideoWindowLayout};
use crate::number::digits;
use crate::script::{asked, done, failed, then_do, Outcome, Progress};

verus! {

/// How long a request may take.
pub const DEFAULT_TIMEOUT_MS: u64 = 5_000;

/// How long a file may take to load.
pub const LOAD_TIMEOUT_MS: u64 = 20_000;

/// How long mpv may take to accept that it is asked to quit.
pub const QUIT_TIMEOUT_MS: u64 = 500;

/// How long mpv may take to accept a connection, and how often that is tried.
pub const SOCKET_WAIT_MS: u64 = 10_000;

pub const SOCKET_STEP_MS: u64 = 20;

/// How long mpv may take to end, and how often that is looked at.
pub const END_WAIT_MS: u64 = 1_500;

pub const END_STEP_MS: u64 = 25;

/// What the host is asked to do. Everything is done on the session that was
/// opened last.
#[derive(Debug)]
pub enum MpvAction {
    /// Whether the session is connected and its process runs.
    Alive,
    /// Why the session ended.
    Reason,
    /// Choose the socket of a new session: the shared one, or one of its own.
    NewSocket,
    /// Connect to an mpv that is listening on the socket.
    Connect,
    /// Remove what an earlier mpv left of the socket.
    RemoveSocket,
    /// Make the folder that the socket is in.
    MakeFolder,
    /// Start mpv, apart from the terminal where it is to outlive it.
    Launch { layout: VideoWindowLayout, detached: bool },
    /// Look whether mpv accepts a connection.
    Watch,
    /// Kill the process and wait for its end.
    Kill,
    /// Read what is said on the connection.
    Listen,
    /// Send a command and wait for its reply.
    Request { args: Vec<Arg>, timeout_ms: u64 },
    /// Record a property's value.
    Cache { name: String, value: Arg },
    /// The latest value of a property.
    Property(String),
    /// How often a file was loaded.
    Generation,
    /// Wait until a file is loaded past a count.
    WaitLoaded { since: u64, timeout_ms: u64 },
    /// Look whether the session has ended after it was asked to.
    Fate,
    /// The process that was started, if it was.
    Process,
    /// Whether an mpv is listening on the shared socket.
    Running,
}

/// What the host is asked to do, with its texts and lists as sequences.
pub enum MpvActionView {
    Alive,
    Reason,
    NewSocket,
    Connect,
    RemoveSocket,
    MakeFolder,
    Launch { layout: VideoWindowLayout, detached: bool },
    Watch,
    Kill,
    Listen,
    Request { args: Seq<ArgView>, timeout_ms: u64 },
    Cache { name: Seq<char>, value: ArgView },
    Property(Seq<char>),
    Generation,
    WaitLoaded { since: u64, timeout_ms: u64 },
    Fate,
    Process,
    Running,
}

impl View for MpvAction {
    type V = MpvActionView;

    open spec fn view(&self) -> MpvActionView {
        match *self {
            MpvAction::Alive => MpvActionView::Alive,
            MpvAction::Reason => MpvActionView::Reason,
            MpvAction::NewSocket => MpvActionView::NewSocket,
            MpvAction::Connect => MpvActionView::Connect,
            MpvAction::RemoveSocket => MpvActionView::RemoveSocket,
            MpvAction::MakeFolder => MpvActionView::MakeFolder,
            MpvAction::Launch { layout, detached } => MpvActionView::Launch { layout, detached },
            MpvAction::Watch => MpvActionView::Watch,
            MpvAction::Kill => MpvActionView::Kill,
            MpvAction::Listen => MpvActionView::Listen,
            MpvAction::Request { args, timeout_ms } => MpvActionView::Request {
                args: crate::ipc::arg_views(args@),
                timeout_ms,
            },
            MpvAction::Cache { name, value } => MpvActionView::Cache {
                name: name@,
                value: value@,
            },
            MpvAction::Property(name) => MpvActionView::Property(name@),
            MpvAction::Generation => MpvActionView::Generation,
            MpvAction::WaitLoaded { since, timeout_ms } => MpvActionView::WaitLoaded {
                since,
                timeout_ms,
            },
            MpvAction::Fate => MpvActionView::Fate,
            MpvAction::Process => MpvActionView::Process,
            MpvAction::Running => MpvActionView::Running,
        }
    }
}

/// What the host says of what it was asked to do.
#[derive(Debug)]
pub enum MpvAnswer {
    /// It is done.
    Finished,
    /// It failed, and why.
    Failed(String),
    /// Yes or no.
    Flag(bool),
    /// A text, if there is one.
    Text(Option<String>),
    /// There is a connection.
    Connected,
    /// Nothing is listening.
    Refused,
    /// There is no such program.
    Missing,
    /// The process has ended, and how.
    Exited(String),
    /// Not yet, but there is time.
    NotYet,
    /// There is no time left.
    GaveUp { socket: String, error: String },
    /// A reply: its data, and the error it names.
    Reply { data: Json, error: String },
    /// No reply came in time.
    TimedOut,
    /// The connection is gone, and why.
    Lost(String),
    /// The command could not be written down, and why.
    Unsent(String),
    /// A property's value.
    Value(Json),
    /// A count.
    Count(u64),
    /// A process, if there is one.
    Process(Option<u32>),
}

/// What is applied again when mpv is started again, so that a crash is no more
/// than a gap.
#[derive(Debug)]
pub struct Desired {
    pub video_visible: bool,
    pub ontop: bool,
    pub layout: VideoWindowLayout,
    pub volume: Fixed,
    pub speed: Fixed,
    pub paused: bool,
    pub path: Option<String>,
    pub position: Fixed,
    pub has_video: bool,
}

/// What is applied again, with the path as a sequence of characters.
#[verifier::ext_equal]
pub struct DesiredView {
    pub video_visible: bool,
    pub ontop: bool,
    pub layout: VideoWindowLayout,
    pub volume: Fixed,
    pub speed: Fixed,
    pub paused: bool,
    pub path: Option<Seq<char>>,
    pub position: Fixed,
    pub has_video: bool,
}

impl View for Desired {
    type V = DesiredView;

    open spec fn view(&self) -> DesiredView {
        DesiredView {
            video_visible: self.video_visible,
            ontop: self.ontop,
            layout: self.layout,
            volume: self.volume,
            speed: self.speed,
            paused: self.paused,
            path: crate::text::text_view(self.path),
            position: self.position,
            has_video: self.has_video,
        }
    }
}

/// What the engine holds.
#[verifier::ext_equal]
pub struct MpvView {
    pub desired: DesiredView,
    /// Whether it has not been shut down.
    pub live: bool,
    /// Whether there is a session, and then whether its mpv was started by another.
    pub session: Option<bool>,
    /// Whether its socket is shared between processes. Playback on a shared one
    /// outlives the engine.
    pub shared: bool,
}

pub type MpvRun<T> = Outcome<MpvView, MpvActionView, T, EngineErrorView>;

impl MpvView {
    pub open spec fn wanting(self, desired: DesiredView) -> MpvView {
        MpvView { desired, ..self }
    }

    pub open spec fn with_session(self, session: Option<bool>) -> MpvView {
        MpvView { session, ..self }
    }

    /// The position that was last reported, recorded.
    pub open spec fn reached(self, position: JsonView) -> MpvView {
        self.wanting(
            DesiredView {
                position: number_or(Some(position), self.desired.position),
                ..self.desired
            },
        )
    }
}

/// What is wanted before anything was asked for. No window shows until it is
/// called for.
pub open spec fn unasked() -> DesiredView {
    DesiredView {
        video_visible: false,
        ontop: true,
        layout: VideoWindowLayout::ScreenFraction(Fixed::Nanos(400_000_000)),
        volume: Fixed::Nanos(100_000_000_000),
        speed: Fixed::Nanos(1_000_000_000),
        paused: false,
        path: None,
        position: Fixed::Nanos(0),
        has_video: false,
    }
}

/// An engine that has started nothing yet.
pub open spec fn dormant(shared: bool) -> MpvView {
    MpvView { desired: unasked(), live: true, session: None, shared }
}

pub open spec fn no_mpv() -> EngineErrorView {
    EngineErrorView::EngineMissing {
        display_name: "mpv"@,
        hint: "Install it with `brew install mpv`, then try again."@,
    }
}

pub open spec fn not_started(message: Seq<char>) -> EngineErrorView {
    EngineErrorView::Spawn { display_name: "mpv"@, message }
}

pub open spec fn ill_fitting() -> EngineErrorView {
    EngineErrorView::Internal { message: "the answer does not fit the request"@ }
}

pub open spec fn shut_down() -> EngineErrorView {
    EngineErrorView::Internal { message: "engine has been shut down"@ }
}

/// Something done for its effect, whatever is said of it.
pub open spec fn tries(m: MpvView, said: Seq<MpvAnswer>, at: int, a: MpvActionView) -> MpvRun<()> {
    then_do(
        asked(m, said, at, a),
        |m: MpvView, at: int, answer: MpvAnswer| done(m, at, ()),
    )
}

/// A question that is answered by yes or no.
pub open spec fn wonders(m: MpvView, said: Seq<MpvAnswer>, at: int, a: MpvActionView) -> MpvRun<
    bool,
> {
    then_do(
        asked(m, said, at, a),
        |m: MpvView, at: int, answer: MpvAnswer|
            match answer {
                MpvAnswer::Flag(b) => done(m, at, b),
                _ => failed(m, at, ill_fitting()),
            },
    )
}

/// What an answer to a request comes to.
pub open spec fn replied(answer: MpvAnswer, operation: Seq<char>, timeout_ms: u64) -> Result<
    JsonView,
    EngineErrorView,
> {
    match answer {
        MpvAnswer::Reply { data, error } => if error@ == "success"@ {
            Ok(data@)
        } else {
            Err(EngineErrorView::Rejected { operation, message: error@ })
        },
        MpvAnswer::TimedOut => Err(EngineErrorView::Timeout { operation, timeout_ms }),
        MpvAnswer::Lost(message) => Err(
            EngineErrorView::Disconnected { display_name: "mpv"@, message: message@ },
        ),
        MpvAnswer::Unsent(message) => Err(EngineErrorView::Internal { message: message@ }),
        _ => Err(ill_fitting()),
    }
}

/// A command, and the data of its reply.
pub open spec fn requests(
    m: MpvView,
    said: Seq<MpvAnswer>,
    at: int,
    operation: Seq<char>,
    args: Seq<ArgView>,
    timeout_ms: u64,
) -> MpvRun<JsonView> {
    then_do(
        asked(m, said, at, MpvActionView::Request { args, timeout_ms }),
        |m: MpvView, at: int, answer: MpvAnswer|
            match replied(answer, operation, timeout_ms) {
                Ok(data) => done(m, at, data),
                Err(e) => failed(m, at, e),
            },
    )
}

/// The same run, with its failure as an outcome.
pub open spec fn attempted<T>(run: MpvRun<T>) -> MpvRun<Option<T>> {
    Outcome {
        state: run.state,
        at: run.at,
        end: match run.end {
            Progress::Ask(a) => Progress::Ask(a),
            Progress::Done(t) => Progress::Done(Some(t)),
            Progress::Failed(_) => Progress::Done(None),
        },
    }
}

/// A property set, and its value recorded: the reply comes before the
/// notification.
pub open spec fn sets(
    m: MpvView,
    said: Seq<MpvAnswer>,
    at: int,
    name: Seq<char>,
    value: ArgView,
) -> MpvRun<()> {
    then_do(
        requests(
            m,
            said,
            at,
            "set "@ + name,
            seq![ArgView::Text("set_property"@), ArgView::Text(name), value],
            DEFAULT_TIMEOUT_MS,
        ),
        |m: MpvView, at: int, data: JsonView|
            tries(m, said, at, MpvActionView::Cache { name, value }),
    )
}

/// A property's value as mpv has it, or nothing where it does not say.
pub open spec fn gets(
    m: MpvView,
    said: Seq<MpvAnswer>,
    at: int,
    operation: Seq<char>,
    name: Seq<char>,
) -> MpvRun<Option<JsonView>> {
    attempted(
        requests(
            m,
            said,
            at,
            operation,
            seq![ArgView::Text("get_property"@), ArgView::Text(name)],
            DEFAULT_TIMEOUT_MS,
        ),
    )
}

/// The latest value of a property that was observed.
pub open spec fn reads_prop(m: MpvView, said: Seq<MpvAnswer>, at: int, name: Seq<char>) -> MpvRun<
    JsonView,
> {
    then_do(
        asked(m, said, at, MpvActionView::Property(name)),
        |m: MpvView, at: int, answer: MpvAnswer|
            match answer {
                MpvAnswer::Value(v) => done(m, at, v@),
                _ => failed(m, at, ill_fitting()),
            },
    )
}

/// Whether a track of the list is video. Cover art is a video track to mpv, but
/// not something to pop out.
pub open spec fn is_picture(track: JsonView) -> bool {
    (match track.get("type"@) {
        Some(v) => v.text() == Some("video"@),
        None => false,
    }) && !(match track.get("albumart"@) {
        Some(v) => v.flag() == Some(true),
        None => false,
    })
}

/// Whether a track list holds video.
pub open spec fn shows_video(tracks: Option<JsonView>) -> bool {
    match tracks {
        Some(list) => match list.array() {
            Some(items) => exists|i: int| 0 <= i < items.len() && is_picture(#[trigger] items[i]),
            None => false,
        },
        None => false,
    }
}

pub open spec fn number_or(v: Option<JsonView>, default: Fixed) -> Fixed {
    match v {
        Some(v) => match v.number() {
            Some(n) => n,
            None => default,
        },
        None => default,
    }
}

pub open spec fn flag_or(v: Option<JsonView>, default: bool) -> bool {
    match v {
        Some(v) => match v.flag() {
            Some(b) => b,
            None => default,
        },
        None => default,
    }
}

/// `vid` takes a track or `no`; `auto` restores the default selection.
pub open spec fn selection_text(visible: bool) -> Seq<char> {
    if visible {
        "auto"@
    } else {
        "no"@
    }
}

/// The properties from `i` on, subscribed to.
pub open spec fn observes(m: MpvView, said: Seq<MpvAnswer>, at: int, i: nat) -> MpvRun<()>
    decreases observed_names().len() - i,
{
    if i >= observed_names().len() {
        done(m, at, ())
    } else {
        let first = requests(
            m,
            said,
            at,
            "observe_property"@,
            seq![
                ArgView::Text("observe_property"@),
                ArgView::Whole((i + 1) as u64),
                ArgView::Text(observed_names()[i as int]),
            ],
            DEFAULT_TIMEOUT_MS,
        );
        match first.end {
            Progress::Done(_) => observes(first.state, said, first.at, i + 1),
            Progress::Ask(a) => Outcome { state: first.state, at: first.at, end: Progress::Ask(a) },
            Progress::Failed(e) => failed(first.state, first.at, e),
        }
    }
}

/// The same run, except that an mpv which was started and cannot be used is killed
/// and its socket removed before the failure is told: no process is left behind.
pub open spec fn gives_up<T>(run: MpvRun<T>, said: Seq<MpvAnswer>) -> MpvRun<T> {
    match run.end {
        Progress::Failed(e) => then_do(
            tries(run.state, said, run.at, MpvActionView::Kill),
            |m: MpvView, at: int, u: ()|
                then_do(
                    tries(m, said, at, MpvActionView::RemoveSocket),
                    |m: MpvView, at: int, u: ()| failed(m, at, e),
                ),
        ),
        _ => run,
    }
}

/// A look after another, until mpv accepts a connection or will not.
pub open spec fn watches(m: MpvView, said: Seq<MpvAnswer>, at: int) -> MpvRun<()>
    decreases said.len() - at,
{
    if 0 <= at < said.len() {
        match said[at] {
            MpvAnswer::Connected => done(m, at + 1, ()),
            MpvAnswer::NotYet => watches(m, said, at + 1),
            MpvAnswer::Exited(status) => then_do(
                tries(m, said, at + 1, MpvActionView::RemoveSocket),
                |m: MpvView, at: int, u: ()|
                    failed(m, at, not_started("mpv exited immediately with "@ + status@)),
            ),
            MpvAnswer::GaveUp { socket, error } => gives_up(
                failed(
                    m,
                    at + 1,
                    not_started(
                        "mpv never accepted a connection on "@ + socket@ + ": "@ + error@,
                    ),
                ),
                said,
            ),
            _ => gives_up(failed(m, at + 1, ill_fitting()), said),
        }
    } else {
        Outcome { state: m, at, end: Progress::Ask(MpvActionView::Watch) }
    }
}

/// An mpv that accepts a connection, listened to.
pub open spec fn listens(m: MpvView, said: Seq<MpvAnswer>, at: int) -> MpvRun<()> {
    then_do(
        asked(m, said, at, MpvActionView::Listen),
        |m: MpvView, at: int, answer: MpvAnswer|
            match answer {
                MpvAnswer::Finished => observes(m, said, at, 0),
                MpvAnswer::Failed(e) => failed(m, at, deaf(e@)),
                _ => failed(m, at, ill_fitting()),
            },
    )
}

/// mpv started, connected to and listened to.
pub open spec fn launches(m: MpvView, said: Seq<MpvAnswer>, at: int) -> MpvRun<()> {
    then_do(
        asked(
            m,
            said,
            at,
            MpvActionView::Launch { layout: m.desired.layout, detached: m.shared },
        ),
        |m: MpvView, at: int, answer: MpvAnswer|
            match answer {
                MpvAnswer::Finished => then_do(
                    watches(m, said, at),
                    |m: MpvView, at: int, u: ()| gives_up(listens(m, said, at), said),
                ),
                MpvAnswer::Missing => failed(m, at, no_mpv()),
                MpvAnswer::Failed(e) => failed(m, at, not_started(e@)),
                _ => failed(m, at, ill_fitting()),
            },
    )
}

pub open spec fn deaf(e: Seq<char>) -> EngineErrorView {
    not_started("could not start IPC reader: "@ + e)
}

/// A session of its own, from a clean socket on.
pub open spec fn spawns_own(m: MpvView, said: Seq<MpvAnswer>, at: int) -> MpvRun<bool> {
    then_do(
        tries(m, said, at, MpvActionView::RemoveSocket),
        |m: MpvView, at: int, u: ()|
            then_do(
                if m.shared {
                    tries(m, said, at, MpvActionView::MakeFolder)
                } else {
                    done(m, at, ())
                },
                |m: MpvView, at: int, u: ()|
                    then_do(
                        launches(m, said, at),
                        |m: MpvView, at: int, u: ()| done(m, at, false),
                    ),
            ),
    )
}

/// A new session, and whether its mpv was already running. A running one is
/// adopted before another is started.
pub open spec fn spawns(m: MpvView, said: Seq<MpvAnswer>, at: int) -> MpvRun<bool> {
    then_do(
        tries(m, said, at, MpvActionView::NewSocket),
        |m: MpvView, at: int, u: ()|
            if m.shared {
                then_do(
                    asked(m, said, at, MpvActionView::Connect),
                    |m: MpvView, at: int, answer: MpvAnswer|
                        match answer {
                            MpvAnswer::Connected => then_do(
                                observes(m, said, at, 0),
                                |m: MpvView, at: int, u: ()| done(m, at, true),
                            ),
                            MpvAnswer::Refused => spawns_own(m, said, at),
                            MpvAnswer::Failed(e) => failed(m, at, deaf(e@)),
                            _ => failed(m, at, ill_fitting()),
                        },
                )
            } else {
                spawns_own(m, said, at)
            },
    )
}

/// What an mpv that was already running is found to be doing.
pub open spec fn synced(
    d: DesiredView,
    path: Option<JsonView>,
    tracks: Option<JsonView>,
    position: Option<JsonView>,
    paused: Option<JsonView>,
    volume: Option<JsonView>,
    speed: Option<JsonView>,
    ontop: Option<JsonView>,
    output: Option<JsonView>,
) -> DesiredView {
    DesiredView {
        video_visible: match output {
            Some(v) => !(v is Null),
            None => false,
        },
        ontop: flag_or(ontop, d.ontop),
        layout: d.layout,
        volume: number_or(volume, d.volume),
        speed: number_or(speed, d.speed),
        paused: flag_or(paused, false),
        path: match path {
            Some(v) => v.text(),
            None => None,
        },
        position: number_or(position, Fixed::Nanos(0)),
        has_video: shows_video(tracks),
    }
}

pub open spec fn get_op() -> Seq<char> {
    "get_property"@
}

/// The state of an mpv that was already running is read, not overwritten.
pub open spec fn syncs(m: MpvView, said: Seq<MpvAnswer>, at: int) -> MpvRun<()> {
    then_do(
        gets(m, said, at, get_op(), "path"@),
        |m: MpvView, at: int, path: Option<JsonView>|
            then_do(
                gets(m, said, at, get_op(), "track-list"@),
                |m: MpvView, at: int, tracks: Option<JsonView>|
                    then_do(
                        gets(m, said, at, get_op(), "time-pos"@),
                        |m: MpvView, at: int, position: Option<JsonView>|
                            then_do(
                                gets(m, said, at, get_op(), "pause"@),
                                |m: MpvView, at: int, paused: Option<JsonView>|
                                    syncs_rest(m, said, at, path, tracks, position, paused),
                            ),
                    ),
            ),
    )
}

pub open spec fn syncs_rest(
    m: MpvView,
    said: Seq<MpvAnswer>,
    at: int,
    path: Option<JsonView>,
    tracks: Option<JsonView>,
    position: Option<JsonView>,
    paused: Option<JsonView>,
) -> MpvRun<()> {
    then_do(
        gets(m, said, at, get_op(), "volume"@),
        |m: MpvView, at: int, volume: Option<JsonView>|
            then_do(
                gets(m, said, at, get_op(), "speed"@),
                |m: MpvView, at: int, speed: Option<JsonView>|
                    then_do(
                        gets(m, said, at, get_op(), "ontop"@),
                        |m: MpvView, at: int, ontop: Option<JsonView>|
                            then_do(
                                gets(m, said, at, get_op(), "current-vo"@),
                                |m: MpvView, at: int, output: Option<JsonView>|
                                    done(
                                        m.wanting(
                                            synced(
                                                m.desired,
                                                path,
                                                tracks,
                                                position,
                                                paused,
                                                volume,
                                                speed,
                                                ontop,
                                                output,
                                            ),
                                        ),
                                        at,
                                        (),
                                    ),
                            ),
                    ),
            ),
    )
}

/// A layout pushed to the session. The geometry lands on the next window; a
/// showing one goes to or leaves the full screen at once.
pub open spec fn frames(
    m: MpvView,
    said: Seq<MpvAnswer>,
    at: int,
    layout: VideoWindowLayout,
    full: bool,
) -> MpvRun<()> {
    then_do(
        sets(m, said, at, "screen"@, ArgView::Text(screen_name(layout))),
        |m: MpvView, at: int, u: ()|
            then_do(
                sets(m, said, at, "geometry"@, ArgView::Text(geometry_text(layout))),
                |m: MpvView, at: int, u: ()|
                    then_do(
                        sets(m, said, at, "autofit"@, ArgView::Text(autofit_text(layout))),
                        |m: MpvView, at: int, u: ()|
                            sets(m, said, at, "fullscreen"@, ArgView::Flag(full)),
                    ),
            ),
    )
}

pub open spec fn lays_out(
    m: MpvView,
    said: Seq<MpvAnswer>,
    at: int,
    layout: VideoWindowLayout,
) -> MpvRun<()> {
    frames(m, said, at, layout, layout is Fullscreen)
}

/// What is wanted, applied to the session.
pub open spec fn applies(m: MpvView, said: Seq<MpvAnswer>, at: int) -> MpvRun<()> {
    let d = m.desired;
    then_do(
        sets(m, said, at, "volume"@, ArgView::Number(d.volume)),
        |m: MpvView, at: int, u: ()|
            then_do(
                sets(m, said, at, "speed"@, ArgView::Number(d.speed)),
                |m: MpvView, at: int, u: ()|
                    then_do(
                        sets(m, said, at, "ontop"@, ArgView::Flag(d.ontop)),
                        |m: MpvView, at: int, u: ()|
                            then_do(
                                lays_out(m, said, at, d.layout),
                                |m: MpvView, at: int, u: ()|
                                    sets(
                                        m,
                                        said,
                                        at,
                                        "vid"@,
                                        ArgView::Text(selection_text(d.video_visible)),
                                    ),
                            ),
                    ),
            ),
    )
}

/// Where a file starts, as mpv reads it.
pub open spec fn start_text(start_at: Option<Fixed>) -> Seq<char> {
    match start_at {
        Some(secs) => if lt(Fixed::Nanos(0), secs) {
            to_places(secs, 3)
        } else {
            "none"@
        },
        None => "none"@,
    }
}

/// The start cleared, whatever comes of it, so that it cannot leak into the next
/// file.
pub open spec fn clears_start(m: MpvView, said: Seq<MpvAnswer>, at: int) -> MpvRun<Option<()>> {
    attempted(sets(m, said, at, "start"@, ArgView::Text("none"@)))
}

/// What is wanted once a file is loaded.
pub open spec fn holding(
    d: DesiredView,
    path: Seq<char>,
    start_at: Option<Fixed>,
    has_video: bool,
) -> DesiredView {
    DesiredView {
        path: Some(path),
        position: match start_at {
            Some(secs) => secs,
            None => Fixed::Nanos(0),
        },
        has_video,
        paused: false,
        ..d
    }
}

/// What follows once a file is queued: mpv reads the start only when the file
/// opens, so it is cleared after that.
pub open spec fn awaits(
    m: MpvView,
    said: Seq<MpvAnswer>,
    at: int,
    path: Seq<char>,
    start_at: Option<Fixed>,
    since: u64,
) -> MpvRun<()> {
    then_do(
        wonders(
            m,
            said,
            at,
            MpvActionView::WaitLoaded { since, timeout_ms: LOAD_TIMEOUT_MS },
        ),
        |m: MpvView, at: int, loaded: bool|
            then_do(
                clears_start(m, said, at),
                |m: MpvView, at: int, cleared: Option<()>|
                    if !loaded {
                        failed(
                            m,
                            at,
                            EngineErrorView::Timeout {
                                operation: "load "@ + path,
                                timeout_ms: LOAD_TIMEOUT_MS,
                            },
                        )
                    } else {
                        then_do(
                            gets(m, said, at, "get_property track-list"@, "track-list"@),
                            |m: MpvView, at: int, tracks: Option<JsonView>|
                                done(
                                    m.wanting(
                                        holding(m.desired, path, start_at, shows_video(tracks)),
                                    ),
                                    at,
                                    (),
                                ),
                        )
                    },
            ),
    )
}

/// A file queued, and its start cleared where that is refused.
pub open spec fn queues(m: MpvView, said: Seq<MpvAnswer>, at: int, path: Seq<char>) -> MpvRun<()> {
    let queued = requests(
        m,
        said,
        at,
        "loadfile"@,
        seq![ArgView::Text("loadfile"@), ArgView::Text(path), ArgView::Text("replace"@)],
        DEFAULT_TIMEOUT_MS,
    );
    match queued.end {
        Progress::Ask(a) => Outcome { state: queued.state, at: queued.at, end: Progress::Ask(a) },
        Progress::Done(_) => done(queued.state, queued.at, ()),
        Progress::Failed(e) => then_do(
            clears_start(queued.state, said, queued.at),
            |m: MpvView, at: int, cleared: Option<()>| failed(m, at, e),
        ),
    }
}

/// A file loaded into the session. Video is selected before, or a window would
/// come and go with every file that is heard only.
pub open spec fn loads(
    m: MpvView,
    said: Seq<MpvAnswer>,
    at: int,
    path: Seq<char>,
    start_at: Option<Fixed>,
) -> MpvRun<()> {
    then_do(
        sets(m, said, at, "vid"@, ArgView::Text(selection_text(m.desired.video_visible))),
        |m: MpvView, at: int, u: ()|
            then_do(
                sets(m, said, at, "start"@, ArgView::Text(start_text(start_at))),
                |m: MpvView, at: int, u: ()|
                    then_do(
                        asked(m, said, at, MpvActionView::Generation),
                        |m: MpvView, at: int, answer: MpvAnswer|
                            match answer {
                                MpvAnswer::Count(since) => then_do(
                                    queues(m, said, at, path),
                                    |m: MpvView, at: int, u: ()|
                                        awaits(m, said, at, path, start_at, since),
                                ),
                                _ => failed(m, at, ill_fitting()),
                            },
                    ),
            ),
    )
}

/// What is seen of the process that was started.
#[derive(Debug, Clone, Copy, PartialEq, Eq)]
pub enum Sighting {
    Ended,
    Running,
    /// It could not be looked at.
    Unknown,
}

/// What is said of a session that was asked to end. One whose process was started
/// here has ended with the process; one that was adopted, with its connection.
/// There is nothing to wait for where the process cannot be looked at.
pub open spec fn fate_of(started: Option<Sighting>, connected: bool, time_left: bool) -> MpvAnswer {
    match started {
        Some(Sighting::Ended) => MpvAnswer::Finished,
        Some(Sighting::Unknown) => MpvAnswer::TimedOut,
        _ => if started is None && !connected {
            MpvAnswer::Finished
        } else if time_left {
            MpvAnswer::NotYet
        } else {
            MpvAnswer::TimedOut
        },
    }
}

/// A look after another, until the session has ended. An mpv of its own that
/// does not end in time is killed: it would hold the audio device.
pub open spec fn outlasts(m: MpvView, said: Seq<MpvAnswer>, at: int, own: bool) -> MpvRun<()>
    decreases said.len() - at,
{
    if 0 <= at < said.len() {
        match said[at] {
            MpvAnswer::NotYet => outlasts(m, said, at + 1, own),
            MpvAnswer::Finished => done(m, at + 1, ()),
            _ => if own {
                tries(m, said, at + 1, MpvActionView::Kill)
            } else {
                done(m, at + 1, ())
            },
        }
    } else {
        Outcome { state: m, at, end: Progress::Ask(MpvActionView::Fate) }
    }
}

/// The session ended and its socket removed. mpv is asked first, so that it can
/// let go of the audio device.
pub open spec fn terminates(m: MpvView, said: Seq<MpvAnswer>, at: int) -> MpvRun<()> {
    match m.session {
        None => done(m, at, ()),
        Some(adopted) => then_do(
            tries(
                m,
                said,
                at,
                MpvActionView::Request {
                    args: seq![ArgView::Text("quit"@)],
                    timeout_ms: QUIT_TIMEOUT_MS,
                },
            ),
            |m: MpvView, at: int, u: ()|
                then_do(
                    outlasts(m, said, at, !adopted),
                    |m: MpvView, at: int, u: ()|
                        then_do(
                            tries(m, said, at, MpvActionView::RemoveSocket),
                            |m: MpvView, at: int, u: ()| done(m.with_session(None), at, ()),
                        ),
                ),
        ),
    }
}

/// Why no session could be had, with why the one before it ended.
pub open spec fn explained(e: EngineErrorView, ended: Option<Seq<char>>) -> EngineErrorView {
    match (e, ended) {
        (EngineErrorView::Spawn { display_name, message }, Some(reason)) => EngineErrorView::Spawn {
            display_name,
            message: message + " (previous instance ended: "@ + reason + ")"@,
        },
        _ => e,
    }
}

/// Where playback is taken up again after mpv was started again.
pub open spec fn taken_up(position: Fixed) -> Option<Fixed> {
    if lt(Fixed::Nanos(500_000_000), position) {
        Some(position)
    } else {
        None
    }
}

/// What was playing, loaded again, and paused where it was.
pub open spec fn restores(m: MpvView, said: Seq<MpvAnswer>, at: int) -> MpvRun<()> {
    let d = m.desired;
    match d.path {
        None => done(m, at, ()),
        Some(path) => then_do(
            loads(m, said, at, path, taken_up(d.position)),
            |m: MpvView, at: int, u: ()|
                {
                    let m = m.wanting(DesiredView { paused: d.paused, ..m.desired });
                    if d.paused {
                        sets(m, said, at, "pause"@, ArgView::Flag(true))
                    } else {
                        done(m, at, ())
                    }
                },
        ),
    }
}

/// A session where there was none.
pub open spec fn opens(
    m: MpvView,
    said: Seq<MpvAnswer>,
    at: int,
    ended: Option<Seq<char>>,
) -> MpvRun<()> {
    let spawned = spawns(m, said, at);
    match spawned.end {
        Progress::Ask(a) => Outcome { state: spawned.state, at: spawned.at, end: Progress::Ask(a) },
        Progress::Failed(e) => failed(spawned.state, spawned.at, explained(e, ended)),
        Progress::Done(adopted) => if adopted {
            then_do(
                syncs(spawned.state, said, spawned.at),
                |m: MpvView, at: int, u: ()| done(m.with_session(Some(true)), at, ()),
            )
        } else {
            then_do(
                gives_up(applies(spawned.state, said, spawned.at), said),
                |m: MpvView, at: int, u: ()| restores(m.with_session(Some(false)), said, at),
            )
        },
    }
}

/// A live session, started or started again where needed. Where mpv has ended, how
/// far it last said it had come is where its file is taken up again.
pub open spec fn holds_session(m: MpvView, said: Seq<MpvAnswer>, at: int) -> MpvRun<()> {
    if !m.live {
        failed(m, at, shut_down())
    } else if m.session is Some {
        then_do(
            wonders(m, said, at, MpvActionView::Alive),
            |m: MpvView, at: int, alive: bool|
                if alive {
                    done(m, at, ())
                } else {
                    then_do(
                        reads_prop(m, said, at, "time-pos"@),
                        |m: MpvView, at: int, position: JsonView|
                            replaces(m.reached(position), said, at),
                    )
                },
        )
    } else {
        opens(m, said, at, None)
    }
}

/// A session that has ended, replaced by another.
pub open spec fn replaces(m: MpvView, said: Seq<MpvAnswer>, at: int) -> MpvRun<()> {
    then_do(
        asked(m, said, at, MpvActionView::Reason),
        |m: MpvView, at: int, answer: MpvAnswer|
            match answer {
                MpvAnswer::Text(ended) => then_do(
                    terminates(m, said, at),
                    |m: MpvView, at: int, u: ()|
                        opens(m, said, at, crate::text::text_view(ended)),
                ),
                _ => failed(m, at, ill_fitting()),
            },
    )
}

pub open spec fn load_of(
    m: MpvView,
    said: Seq<MpvAnswer>,
    at: int,
    path: Seq<char>,
    start_at: Option<Fixed>,
) -> MpvRun<()> {
    then_do(
        holds_session(m, said, at),
        |m: MpvView, at: int, u: ()| loads(m, said, at, path, start_at),
    )
}

pub open spec fn set_paused_of(m: MpvView, said: Seq<MpvAnswer>, at: int, paused: bool) -> MpvRun<
    (),
> {
    then_do(
        holds_session(m, said, at),
        |m: MpvView, at: int, u: ()|
            then_do(
                sets(m, said, at, "pause"@, ArgView::Flag(paused)),
                |m: MpvView, at: int, u: ()|
                    then_do(
                        reads_prop(m, said, at, "time-pos"@),
                        |m: MpvView, at: int, position: JsonView|
                            done(
                                m.wanting(
                                    DesiredView {
                                        position: number_or(Some(position), m.desired.position),
                                        paused,
                                        ..m.desired
                                    },
                                ),
                                at,
                                (),
                            ),
                    ),
            ),
    )
}

/// A seek. The position and the end of the file are recorded at once: mpv says
/// that it has sought before it says where it is.
pub open spec fn seek_of(m: MpvView, said: Seq<MpvAnswer>, at: int, seconds: Fixed) -> MpvRun<()> {
    let target = larger(seconds, Fixed::Nanos(0));
    then_do(
        holds_session(m, said, at),
        |m: MpvView, at: int, u: ()|
            then_do(
                requests(
                    m,
                    said,
                    at,
                    "seek"@,
                    seq![
                        ArgView::Text("seek"@),
                        ArgView::Number(target),
                        ArgView::Text("absolute"@),
                    ],
                    DEFAULT_TIMEOUT_MS,
                ),
                |m: MpvView, at: int, data: JsonView|
                    then_do(
                        tries(
                            m,
                            said,
                            at,
                            MpvActionView::Cache {
                                name: "time-pos"@,
                                value: ArgView::Number(target),
                            },
                        ),
                        |m: MpvView, at: int, u: ()|
                            then_do(
                                tries(
                                    m,
                                    said,
                                    at,
                                    MpvActionView::Cache {
                                        name: "eof-reached"@,
                                        value: ArgView::Flag(false),
                                    },
                                ),
                                |m: MpvView, at: int, u: ()|
                                    done(
                                        m.wanting(
                                            DesiredView { position: target, ..m.desired },
                                        ),
                                        at,
                                        (),
                                    ),
                            ),
                    ),
            ),
    )
}

/// A property set on a live session, and then wanted.
pub open spec fn demands(
    m: MpvView,
    said: Seq<MpvAnswer>,
    at: int,
    name: Seq<char>,
    value: ArgView,
    wish: spec_fn(DesiredView) -> DesiredView,
) -> MpvRun<()> {
    then_do(
        holds_session(m, said, at),
        |m: MpvView, at: int, u: ()|
            then_do(
                sets(m, said, at, name, value),
                |m: MpvView, at: int, u: ()| done(m.wanting(wish(m.desired)), at, ()),
            ),
    )
}

/// The loudest, in percent.
pub open spec fn loudness(percent: Fixed) -> Fixed {
    clamped(percent, Fixed::Nanos(0), Fixed::Nanos(100_000_000_000))
}

/// From a hundredth to a hundred times the normal rate.
pub open spec fn pace(rate: Fixed) -> Fixed {
    clamped(rate, Fixed::Nanos(10_000_000), Fixed::Nanos(100_000_000_000))
}

pub open spec fn set_volume_of(m: MpvView, said: Seq<MpvAnswer>, at: int, percent: Fixed) -> MpvRun<
    (),
> {
    demands(
        m,
        said,
        at,
        "volume"@,
        ArgView::Number(loudness(percent)),
        |d: DesiredView| DesiredView { volume: loudness(percent), ..d },
    )
}

pub open spec fn set_speed_of(m: MpvView, said: Seq<MpvAnswer>, at: int, rate: Fixed) -> MpvRun<
    (),
> {
    demands(
        m,
        said,
        at,
        "speed"@,
        ArgView::Number(pace(rate)),
        |d: DesiredView| DesiredView { speed: pace(rate), ..d },
    )
}

pub open spec fn set_visible_of(m: MpvView, said: Seq<MpvAnswer>, at: int, visible: bool) -> MpvRun<
    (),
> {
    demands(
        m,
        said,
        at,
        "vid"@,
        ArgView::Text(selection_text(visible)),
        |d: DesiredView| DesiredView { video_visible: visible, ..d },
    )
}

pub open spec fn set_ontop_of(m: MpvView, said: Seq<MpvAnswer>, at: int, ontop: bool) -> MpvRun<
    (),
> {
    demands(
        m,
        said,
        at,
        "ontop"@,
        ArgView::Flag(ontop),
        |d: DesiredView| DesiredView { ontop, ..d },
    )
}

/// A new layout. It is only a setting, so it starts nothing; a session that is up
/// gets it at once.
pub open spec fn set_layout_of(
    m: MpvView,
    said: Seq<MpvAnswer>,
    at: int,
    layout: VideoWindowLayout,
) -> MpvRun<()> {
    let m = m.wanting(DesiredView { layout, ..m.desired });
    if m.session is Some {
        then_do(
            wonders(m, said, at, MpvActionView::Alive),
            |m: MpvView, at: int, alive: bool|
                if alive {
                    lays_out(m, said, at, layout)
                } else {
                    done(m, at, ())
                },
        )
    } else {
        done(m, at, ())
    }
}

/// The low half of a number: a process number.
pub open spec fn process_number(n: nat) -> u32 {
    (n % 0x1_0000_0000) as u32
}

/// An empty window to place by hand, and the process that shows it. It is never
/// on the full screen: it could not be dragged there.
pub open spec fn begin_placement_of(m: MpvView, said: Seq<MpvAnswer>, at: int) -> MpvRun<
    Option<u32>,
> {
    then_do(
        holds_session(m, said, at),
        |m: MpvView, at: int, u: ()|
            then_do(
                frames(m, said, at, m.desired.layout, false),
                |m: MpvView, at: int, u: ()|
                    then_do(
                        sets(m, said, at, "force-window"@, ArgView::Flag(true)),
                        |m: MpvView, at: int, u: ()| finds_process(m, said, at),
                    ),
            ),
    )
}

/// The process that mpv says it is, else the one that was started.
pub open spec fn finds_process(m: MpvView, said: Seq<MpvAnswer>, at: int) -> MpvRun<Option<u32>> {
    then_do(
        gets(m, said, at, "get pid"@, "pid"@),
        |m: MpvView, at: int, pid: Option<JsonView>|
            match (match pid {
                Some(v) => v.whole(),
                None => None,
            }) {
                Some(n) => done(m, at, Some(process_number(n))),
                None => then_do(
                    asked(m, said, at, MpvActionView::Process),
                    |m: MpvView, at: int, answer: MpvAnswer|
                        match answer {
                            MpvAnswer::Process(p) => done(m, at, p),
                            _ => failed(m, at, ill_fitting()),
                        },
                ),
            },
    )
}

/// The empty window taken down, and the layout as it is set.
pub open spec fn end_placement_of(m: MpvView, said: Seq<MpvAnswer>, at: int) -> MpvRun<()> {
    if m.session is None {
        done(m, at, ())
    } else {
        then_do(
            wonders(m, said, at, MpvActionView::Alive),
            |m: MpvView, at: int, alive: bool|
                if !alive {
                    done(m, at, ())
                } else {
                    then_do(
                        sets(m, said, at, "force-window"@, ArgView::Flag(false)),
                        |m: MpvView, at: int, u: ()| lays_out(m, said, at, m.desired.layout),
                    )
                },
        )
    }
}

pub open spec fn stop_of(m: MpvView, said: Seq<MpvAnswer>, at: int) -> MpvRun<()> {
    then_do(
        holds_session(m, said, at),
        |m: MpvView, at: int, u: ()|
            then_do(
                requests(
                    m,
                    said,
                    at,
                    "stop"@,
                    seq![ArgView::Text("stop"@)],
                    DEFAULT_TIMEOUT_MS,
                ),
                |m: MpvView, at: int, data: JsonView|
                    done(
                        m.wanting(
                            DesiredView {
                                path: None,
                                position: Fixed::Nanos(0),
                                has_video: false,
                                ..m.desired
                            },
                        ),
                        at,
                        (),
                    ),
            ),
    )
}

/// What is known while nothing runs.
pub open spec fn at_rest(d: DesiredView) -> SnapshotView {
    SnapshotView {
        position_secs: None,
        duration_secs: None,
        paused: d.paused,
        idle: true,
        eof: false,
        has_video: d.has_video,
        video_visible: false,
        path: d.path,
    }
}

/// What is known of a session from the properties it has reported. Before the
/// first frame the last known position is better than none.
pub open spec fn in_session(
    d: DesiredView,
    position: JsonView,
    duration: JsonView,
    paused: JsonView,
    idle: JsonView,
    eof: JsonView,
    output: JsonView,
) -> SnapshotView {
    SnapshotView {
        position_secs: match position.number() {
            Some(p) => Some(p),
            None => if d.path is Some {
                Some(d.position)
            } else {
                None
            },
        },
        duration_secs: duration.number(),
        paused: flag_or(Some(paused), d.paused),
        idle: flag_or(Some(idle), d.path is None),
        eof: flag_or(Some(eof), false),
        has_video: d.has_video,
        video_visible: !(output is Null),
        path: d.path,
    }
}

/// The properties of a session, read one after another.
pub open spec fn surveys(m: MpvView, said: Seq<MpvAnswer>, at: int) -> MpvRun<SnapshotView> {
    then_do(
        reads_prop(m, said, at, "time-pos"@),
        |m: MpvView, at: int, position: JsonView|
            then_do(
                reads_prop(m, said, at, "duration"@),
                |m: MpvView, at: int, duration: JsonView|
                    then_do(
                        reads_prop(m, said, at, "pause"@),
                        |m: MpvView, at: int, paused: JsonView|
                            surveys_rest(m, said, at, position, duration, paused),
                    ),
            ),
    )
}

pub open spec fn surveys_rest(
    m: MpvView,
    said: Seq<MpvAnswer>,
    at: int,
    position: JsonView,
    duration: JsonView,
    paused: JsonView,
) -> MpvRun<SnapshotView> {
    then_do(
        reads_prop(m, said, at, "idle-active"@),
        |m: MpvView, at: int, idle: JsonView|
            then_do(
                reads_prop(m, said, at, "eof-reached"@),
                |m: MpvView, at: int, eof: JsonView|
                    then_do(
                        reads_prop(m, said, at, "current-vo"@),
                        |m: MpvView, at: int, output: JsonView|
                            done(
                                m,
                                at,
                                in_session(
                                    m.desired,
                                    position,
                                    duration,
                                    paused,
                                    idle,
                                    eof,
                                    output,
                                ),
                            ),
                    ),
            ),
    )
}

/// Whether there is a session, adopting an mpv that runs on the shared socket.
pub open spec fn adopts_running(m: MpvView, said: Seq<MpvAnswer>, at: int) -> MpvRun<bool> {
    if m.session is Some {
        done(m, at, true)
    } else if m.shared && m.live {
        then_do(
            wonders(m, said, at, MpvActionView::Running),
            |m: MpvView, at: int, running: bool|
                if running {
                    then_do(
                        attempted(holds_session(m, said, at)),
                        |m: MpvView, at: int, held: Option<()>| done(m, at, held is Some),
                    )
                } else {
                    done(m, at, false)
                },
        )
    } else {
        done(m, at, false)
    }
}

/// What plays. A look never starts mpv.
pub open spec fn snapshot_of(m: MpvView, said: Seq<MpvAnswer>, at: int) -> MpvRun<SnapshotView> {
    then_do(
        adopts_running(m, said, at),
        |m: MpvView, at: int, up: bool|
            if up {
                surveys(m, said, at)
            } else {
                done(m, at, at_rest(m.desired))
            },
    )
}

/// The end of the engine and of its mpv. Once only.
pub open spec fn shutdown_of(m: MpvView, said: Seq<MpvAnswer>, at: int) -> MpvRun<()> {
    if !m.live {
        done(m, at, ())
    } else {
        terminates(MpvView { live: false, ..m }, said, at)
    }
}

/// The engine let go. A shared mpv plays on.
pub open spec fn release_of(m: MpvView, said: Seq<MpvAnswer>, at: int) -> MpvRun<()> {
    if m.shared {
        done(m, at, ())
    } else {
        shutdown_of(m, said, at)
    }
}

/// What mpv can play and show.
pub open spec fn mpv_containers() -> Seq<Seq<char>> {
    seq![
        "webm"@,
        "mkv"@,
        "mp4"@,
        "m4v"@,
        "mov"@,
        "avi"@,
        "flv"@,
        "ts"@,
        "m4a"@,
        "mp3"@,
        "wav"@,
        "flac"@,
        "opus"@,
        "ogg"@,
        "oga"@,
        "aac"@,
        "alac"@,
        "aiff"@,
        "aif"@,
        "wma"@,
        "wv"@,
        "ape"@,
    ]
}

/// The arguments that every mpv is started with.
pub open spec fn fixed_args() -> Seq<Seq<char>> {
    seq![
        "--no-config"@,
        "--load-scripts=no"@,
        "--idle=yes"@,
        "--no-terminal"@,
        "--force-window=no"@,
        "--keep-open=yes"@,
        "--input-media-keys=no"@,
        "--media-controls=no"@,
        "--macos-app-activation-policy=accessory"@,
        "--macos-menu-shortcuts=no"@,
        "--title-bar=no"@,
        "--border=no"@,
        "--ontop=yes"@,
        "--ontop-level=system"@,
        "--native-fs=no"@,
    ]
}

/// The arguments of an mpv that listens on a socket.
pub open spec fn spawn_texts(socket: Seq<char>, layout: VideoWindowLayout) -> Seq<Seq<char>> {
    fixed_args() + layout_args_text(layout) + seq!["--input-ipc-server="@ + socket]
}

/// The socket of an engine of its own.
pub open spec fn socket_text(process: u32, n: u64) -> Seq<char> {
    "setwave-mpv-"@ + digits(process as nat) + "-"@ + digits(n as nat) + ".sock"@
}

} // verus!
