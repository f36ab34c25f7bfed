//! The mpv playback engine.
//!
//! This is the only part of the library that knows mpv exists. mpv runs as a
//! process of its own and is driven over a socket; the host owns both. Each
//! operation takes the answers its host has given so far; see [`crate::script`].

use vstd::prelude::*;

use crate::engine::{joined_text, EngineCapabilities, EngineError, EngineErrorView, EngineSnapshot};
use crate::fixed::{clamp_to, less, max_of, places, Fixed};
use crate::ipc::{arg_views, observed, observed_names, Arg, ArgView};
use crate::json::{Json, JsonView};
use crate::layout::{layout_args, option, window_options, VideoWindowLayout};
use crate::mpv_model::{
    adopts_running, applies, awaits, begin_placement_of, clears_start, deaf, dormant,
    end_placement_of, explained, fate_of, finds_process, fixed_args, flag_or, frames, gets,
    gives_up, holds_session, ill_fitting, is_picture, launches, lays_out, listens, load_of, loads,
    mpv_containers, no_mpv, not_started, number_or, observes, opens, outlasts, queues, reads_prop,
    release_of, replaces, requests, restores, seek_of, selection_text, set_layout_of, set_ontop_of,
    set_paused_of, set_speed_of, set_visible_of, set_volume_of, sets, shows_video, shutdown_of,
    snapshot_of, socket_text, spawn_texts, spawns, spawns_own, start_text, stop_of, surveys,
    surveys_rest, syncs, syncs_rest, terminates, tries, unasked, watches, wonders,
    DEFAULT_TIMEOUT_MS, Desired, LOAD_TIMEOUT_MS, MpvAction, MpvActionView, MpvAnswer, MpvRun,
    MpvView, QUIT_TIMEOUT_MS, Sighting,
};
use crate::number::number_string;
use crate::script::{Outcome, Progress, Script};
use crate::text::{chars_of, copy_text, reads, string_of, text_view, texts};

verus! {

/// Why a run stops before its end.
pub enum MpvHalt {
    Ask(MpvAction),
    Failed(EngineError),
}

/// A step of a run.
pub type MpvStep<T> = Result<T, MpvHalt>;

/// How far a step came, in terms of views.
pub open spec fn came_to<T>(r: MpvStep<T>) -> Progress<MpvActionView, T, EngineErrorView> {
    match r {
        Ok(t) => Progress::Done(t),
        Err(MpvHalt::Ask(a)) => Progress::Ask(a@),
        Err(MpvHalt::Failed(e)) => Progress::Failed(e@),
    }
}

/// How far a step that ends in a value came.
pub open spec fn came_to_view<T: View>(r: MpvStep<T>) -> Progress<
    MpvActionView,
    T::V,
    EngineErrorView,
> {
    match r {
        Ok(t) => Progress::Done(t@),
        Err(MpvHalt::Ask(a)) => Progress::Ask(a@),
        Err(MpvHalt::Failed(e)) => Progress::Failed(e@),
    }
}

/// A step, with the state and the place it leaves.
pub open spec fn stepped<T>(m: MpvView, at: int, r: MpvStep<T>) -> MpvRun<T> {
    Outcome { state: m, at, end: came_to(r) }
}

pub open spec fn stepped_view<T: View>(m: MpvView, at: int, r: MpvStep<T>) -> MpvRun<T::V> {
    Outcome { state: m, at, end: came_to_view(r) }
}

/// A value that may be absent.
pub open spec fn json_view(o: Option<&Json>) -> Option<JsonView> {
    match o {
        Some(v) => Some(v@),
        None => None,
    }
}

pub open spec fn stepped_option(m: MpvView, at: int, r: MpvStep<Option<&Json>>) -> MpvRun<
    Option<JsonView>,
> {
    Outcome {
        state: m,
        at,
        end: match r {
            Ok(t) => Progress::Done(json_view(t)),
            Err(MpvHalt::Ask(a)) => Progress::Ask(a@),
            Err(MpvHalt::Failed(e)) => Progress::Failed(e@),
        },
    }
}

/// Whether a step waits for its host.
pub open spec fn waiting<T>(r: MpvStep<T>) -> bool {
    r matches Err(MpvHalt::Ask(_))
}

/// An operation that waits for its host has changed nothing. One that has come to
/// an end leaves what its run leaves.
pub open spec fn settled_on(before: MpvView, after: MpvView, ran: MpvView, waits: bool) -> bool {
    after == if waits {
        before
    } else {
        ran
    }
}

fn waits<T>(r: &MpvStep<T>) -> (w: bool)
    ensures
        w == waiting(*r),
{
    match r {
        Err(MpvHalt::Ask(_)) => true,
        _ => false,
    }
}

fn ill_fitting_halt() -> (r: MpvHalt)
    ensures
        r matches MpvHalt::Failed(e) && e@ == ill_fitting(),
{
    MpvHalt::Failed(
        EngineError::Internal { message: "the answer does not fit the request".to_owned() },
    )
}

fn spawn_halt(message: String) -> (r: MpvHalt)
    ensures
        r matches MpvHalt::Failed(e) && e@ == not_started(message@),
{
    MpvHalt::Failed(EngineError::Spawn { display_name: "mpv".to_owned(), message })
}

fn deaf_halt(e: &String) -> (r: MpvHalt)
    ensures
        r matches MpvHalt::Failed(err) && err@ == deaf(e@),
{
    spawn_halt(option("could not start IPC reader: ", e.as_str()))
}

/// The answer to [`MpvAction::Fate`], from what is seen of a session.
pub fn fate(started: Option<Sighting>, connected: bool, time_left: bool) -> (r: MpvAnswer)
    ensures
        r == fate_of(started, connected, time_left),
{
    match started {
        Some(Sighting::Ended) => MpvAnswer::Finished,
        Some(Sighting::Unknown) => MpvAnswer::TimedOut,
        _ => if started.is_none() && !connected {
            MpvAnswer::Finished
        } else if time_left {
            MpvAnswer::NotYet
        } else {
            MpvAnswer::TimedOut
        },
    }
}

/// That mpv is not installed, and what to do about it.
pub fn missing_mpv() -> (r: EngineError)
    ensures
        r@ == no_mpv(),
{
    EngineError::EngineMissing {
        display_name: "mpv".to_owned(),
        hint: "Install it with `brew install mpv`, then try again.".to_owned(),
    }
}

fn ask<'a>(script: &mut Script<'a, MpvAnswer>, action: MpvAction) -> (r: MpvStep<&'a MpvAnswer>)
    ensures
        final(script).said() == old(script).said(),
        match r {
            Ok(answer) => 0 <= old(script).place() < old(script).said().len() && *answer
                == old(script).said()[old(script).place()] && final(script).place()
                == old(script).place() + 1,
            Err(MpvHalt::Ask(a)) => a@ == action@ && !(0 <= old(script).place()
                < old(script).said().len()) && final(script).place() == old(script).place(),
            Err(MpvHalt::Failed(e)) => false,
        },
{
    match script.next_answer() {
        Some(answer) => Ok(answer),
        None => Err(MpvHalt::Ask(action)),
    }
}

fn text(t: &str) -> (r: Arg)
    ensures
        r@ == ArgView::Text(t@),
{
    Arg::Text(t.to_owned())
}

fn args_one(a: Arg) -> (r: Vec<Arg>)
    ensures
        arg_views(r@) == seq![a@],
{
    let mut v: Vec<Arg> = Vec::new();
    v.push(a);
    assert(arg_views(v@) =~= seq![a@]);
    v
}

fn args_two(a: Arg, b: Arg) -> (r: Vec<Arg>)
    ensures
        arg_views(r@) == seq![a@, b@],
{
    let mut v: Vec<Arg> = Vec::new();
    v.push(a);
    v.push(b);
    assert(arg_views(v@) =~= seq![a@, b@]);
    v
}

fn args_three(a: Arg, b: Arg, c: Arg) -> (r: Vec<Arg>)
    ensures
        arg_views(r@) == seq![a@, b@, c@],
{
    let mut v: Vec<Arg> = Vec::new();
    v.push(a);
    v.push(b);
    v.push(c);
    assert(arg_views(v@) =~= seq![a@, b@, c@]);
    v
}

/// Whether a track of the list is video.
fn pictures(track: &Json) -> (r: bool)
    ensures
        r == is_picture(track@),
{
    let video = match track.get("type") {
        Some(v) => match v.as_str() {
            Some(t) => {
                let chars = chars_of(t.as_str());
                reads(chars.as_slice(), "video")
            },
            None => false,
        },
        None => false,
    };
    let cover = match track.get("albumart") {
        Some(v) => match v.as_bool() {
            Some(b) => b,
            None => false,
        },
        None => false,
    };
    video && !cover
}

/// Whether a track list holds video.
pub fn has_video(tracks: Option<&Json>) -> (r: bool)
    ensures
        r == shows_video(json_view(tracks)),
{
    match tracks {
        Some(list) => match list.as_array() {
            Some(items) => {
                let ghost all = list@.array()->0;
                let mut i: usize = 0;
                while i < items.len()
                    invariant
                        i <= items@.len(),
                        all.len() == items@.len(),
                        list@.array() == Some(all),
                        tracks == Some(list),
                        forall|k: int| 0 <= k < items@.len() ==> all[k] == (#[trigger] items@[k])@,
                        forall|k: int| 0 <= k < i ==> !is_picture(#[trigger] all[k]),
                    decreases items@.len() - i,
                {
                    let picture = pictures(&items[i]);
                    assert(all[i as int] == items@[i as int]@);
                    if picture {
                        assert(is_picture(list@.array()->0[i as int]));
                        return true;
                    }
                    i = i + 1;
                }
                false
            },
            None => false,
        },
        None => false,
    }
}

fn number_else(v: Option<&Json>, default: Fixed) -> (r: Fixed)
    ensures
        r == number_or(json_view(v), default),
{
    match v {
        Some(v) => match v.as_number() {
            Some(n) => n,
            None => default,
        },
        None => default,
    }
}

fn flag_else(v: Option<&Json>, default: bool) -> (r: bool)
    ensures
        r == flag_or(json_view(v), default),
{
    match v {
        Some(v) => match v.as_bool() {
            Some(b) => b,
            None => default,
        },
        None => default,
    }
}

/// `vid` takes a track or `no`; `auto` restores the default selection.
pub fn video_selection(visible: bool) -> (r: &'static str)
    ensures
        r@ == selection_text(visible),
{
    if visible {
        "auto"
    } else {
        "no"
    }
}

/// Where a file starts, as mpv reads it.
fn start_option(start_at: Option<Fixed>) -> (r: String)
    ensures
        r@ == start_text(start_at),
{
    match start_at {
        Some(secs) => if less(Fixed::Nanos(0), secs) {
            let chars = places(secs, 3);
            string_of(chars.as_slice())
        } else {
            "none".to_owned()
        },
        None => "none".to_owned(),
    }
}

/// The socket of an engine of its own, among those of a process.
pub fn socket_name(process: u32, n: u64) -> (r: String)
    ensures
        r@ == socket_text(process, n),
{
    let p = number_string(process as u64);
    let k = number_string(n);
    let front = joined_text("setwave-mpv-", p.as_str(), "-", k.as_str());
    option(front.as_str(), ".sock")
}

/// The arguments of an mpv that listens on a socket. Every one of these is
/// needed.
pub fn spawn_args(socket: &str, layout: VideoWindowLayout) -> (r: Vec<String>)
    ensures
        texts(r@) == spawn_texts(socket@, layout),
{
    let mut out: Vec<String> = Vec::new();
    // Never the user's own setup: it can store positions, use a socket of its
    // own and run scripts inside this player.
    out.push("--no-config".to_owned());
    out.push("--load-scripts=no".to_owned());
    // Stay alive with nothing loaded.
    out.push("--idle=yes".to_owned());
    out.push("--no-terminal".to_owned());
    // No window until video is switched on.
    out.push("--force-window=no".to_owned());
    // Hold the last frame instead of quitting: the queue decides what is next.
    out.push("--keep-open=yes".to_owned());
    // Leave the media keys and the now-playing widget to the app.
    out.push("--input-media-keys=no".to_owned());
    out.push("--media-controls=no".to_owned());
    // No dock icon and no entry among the applications.
    out.push("--macos-app-activation-policy=accessory".to_owned());
    out.push("--macos-menu-shortcuts=no".to_owned());
    // A floating window without decoration.
    out.push("--title-bar=no".to_owned());
    out.push("--border=no".to_owned());
    out.push("--ontop=yes".to_owned());
    out.push("--ontop-level=system".to_owned());
    // The full screen in place rather than in a space of its own.
    out.push("--native-fs=no".to_owned());
    assert(texts(out@) =~= fixed_args());
    let mut layout = layout_args(layout);
    let ghost front = out@;
    let ghost middle = layout@;
    out.append(&mut layout);
    let ghost both = out@;
    out.push(option("--input-ipc-server=", socket));
    proof {
        assert(texts(both) =~= texts(front) + texts(middle));
        assert(texts(out@) =~= texts(both) + seq!["--input-ipc-server="@ + socket@]);
    }
    out
}

impl Default for Desired {
    fn default() -> (r: Self)
        ensures
            r@ == unasked(),
    {
        Desired {
            video_visible: false,
            ontop: true,
            layout: VideoWindowLayout::default(),
            volume: Fixed::Nanos(100_000_000_000),
            speed: Fixed::Nanos(1_000_000_000),
            paused: false,
            path: None,
            position: Fixed::Nanos(0),
            has_video: false,
        }
    }
}

impl Clone for Desired {
    fn clone(&self) -> (r: Self)
        ensures
            r == *self,
    {
        Desired {
            video_visible: self.video_visible,
            ontop: self.ontop,
            layout: self.layout,
            volume: self.volume,
            speed: self.speed,
            paused: self.paused,
            path: copy_text(&self.path),
            position: self.position,
            has_video: self.has_video,
        }
    }
}

/// mpv as an engine.
#[derive(Debug)]
pub struct MpvEngine {
    desired: Desired,
    live: bool,
    session: Option<bool>,
    shared: bool,
}

impl View for MpvEngine {
    type V = MpvView;

    closed spec fn view(&self) -> MpvView {
        MpvView {
            desired: self.desired@,
            live: self.live,
            session: self.session,
            shared: self.shared,
        }
    }
}

impl Clone for MpvEngine {
    fn clone(&self) -> (r: Self)
        ensures
            r@ == self@,
    {
        MpvEngine {
            desired: self.desired.clone(),
            live: self.live,
            session: self.session,
            shared: self.shared,
        }
    }
}

impl MpvEngine {
    fn attempt(&self, script: &mut Script<MpvAnswer>, action: MpvAction) -> (r: MpvStep<()>)
        ensures
            final(script).said() == old(script).said(),
            stepped(self@, final(script).place(), r) == tries(
                self@,
                old(script).said(),
                old(script).place(),
                action@,
            ),
    {
        let _ = ask(script, action)?;
        Ok(())
    }

    fn wonder(&self, script: &mut Script<MpvAnswer>, action: MpvAction) -> (r: MpvStep<bool>)
        ensures
            final(script).said() == old(script).said(),
            stepped(self@, final(script).place(), r) == wonders(
                self@,
                old(script).said(),
                old(script).place(),
                action@,
            ),
    {
        let answer = ask(script, action)?;
        match answer {
            MpvAnswer::Flag(b) => Ok(*b),
            _ => Err(ill_fitting_halt()),
        }
    }

    fn request<'a>(
        &self,
        script: &mut Script<'a, MpvAnswer>,
        operation: &str,
        args: Vec<Arg>,
        timeout_ms: u64,
    ) -> (r: MpvStep<&'a Json>)
        ensures
            final(script).said() == old(script).said(),
            stepped_view(self@, final(script).place(), r) == requests(
                self@,
                old(script).said(),
                old(script).place(),
                operation@,
                arg_views(args@),
                timeout_ms,
            ),
    {
        let answer = ask(script, MpvAction::Request { args, timeout_ms })?;
        match answer {
            MpvAnswer::Reply { data, error } => {
                let chars = chars_of(error.as_str());
                if reads(chars.as_slice(), "success") {
                    Ok(data)
                } else {
                    Err(
                        MpvHalt::Failed(
                            EngineError::Rejected {
                                operation: operation.to_owned(),
                                message: error.clone(),
                            },
                        ),
                    )
                }
            },
            MpvAnswer::TimedOut => Err(
                MpvHalt::Failed(
                    EngineError::Timeout { operation: operation.to_owned(), timeout_ms },
                ),
            ),
            MpvAnswer::Lost(message) => Err(
                MpvHalt::Failed(
                    EngineError::Disconnected {
                        display_name: "mpv".to_owned(),
                        message: message.clone(),
                    },
                ),
            ),
            MpvAnswer::Unsent(message) => Err(
                MpvHalt::Failed(EngineError::Internal { message: message.clone() }),
            ),
            _ => Err(ill_fitting_halt()),
        }
    }

    fn set_property(&self, script: &mut Script<MpvAnswer>, name: &str, value: Arg) -> (r: MpvStep<
        (),
    >)
        ensures
            final(script).said() == old(script).said(),
            stepped(self@, final(script).place(), r) == sets(
                self@,
                old(script).said(),
                old(script).place(),
                name@,
                value@,
            ),
    {
        let operation = option("set ", name);
        let again = value.clone();
        let args = args_three(text("set_property"), text(name), value);
        let _ = self.request(script, operation.as_str(), args, DEFAULT_TIMEOUT_MS)?;
        self.attempt(script, MpvAction::Cache { name: name.to_owned(), value: again })
    }

    fn get_property<'a>(
        &self,
        script: &mut Script<'a, MpvAnswer>,
        operation: &str,
        name: &str,
    ) -> (r: MpvStep<Option<&'a Json>>)
        ensures
            final(script).said() == old(script).said(),
            stepped_option(self@, final(script).place(), r) == gets(
                self@,
                old(script).said(),
                old(script).place(),
                operation@,
                name@,
            ),
    {
        let args = args_two(text("get_property"), text(name));
        match self.request(script, operation, args, DEFAULT_TIMEOUT_MS) {
            Ok(data) => Ok(Some(data)),
            Err(MpvHalt::Ask(a)) => Err(MpvHalt::Ask(a)),
            Err(MpvHalt::Failed(_)) => Ok(None),
        }
    }

    fn property<'a>(&self, script: &mut Script<'a, MpvAnswer>, name: &str) -> (r: MpvStep<&'a Json>)
        ensures
            final(script).said() == old(script).said(),
            stepped_view(self@, final(script).place(), r) == reads_prop(
                self@,
                old(script).said(),
                old(script).place(),
                name@,
            ),
    {
        let answer = ask(script, MpvAction::Property(name.to_owned()))?;
        match answer {
            MpvAnswer::Value(v) => Ok(v),
            _ => Err(ill_fitting_halt()),
        }
    }

    fn observe_properties(&self, script: &mut Script<MpvAnswer>) -> (r: MpvStep<()>)
        ensures
            final(script).said() == old(script).said(),
            stepped(self@, final(script).place(), r) == observes(
                self@,
                old(script).said(),
                old(script).place(),
                0,
            ),
    {
        let names = observed();
        let ghost from = script.place();
        let ghost said = script.said();
        let mut i: usize = 0;
        while i < names.len()
            invariant
                i <= names@.len(),
                crate::null::slices(names@) == observed_names(),
                names@.len() == 11,
                said == old(script).said(),
                from == old(script).place(),
                script.said() == said,
                observes(self@, said, from, 0) == observes(self@, said, script.place(), i as nat),
            decreases names@.len() - i,
        {
            assert(crate::null::slices(names@)[i as int] == names@[i as int]@);
            let args = args_three(
                text("observe_property"),
                Arg::Whole(i as u64 + 1),
                text(names[i]),
            );
            let _ = self.request(script, "observe_property", args, DEFAULT_TIMEOUT_MS)?;
            i = i + 1;
        }
        Ok(())
    }

    fn watch(&self, script: &mut Script<MpvAnswer>) -> (r: MpvStep<()>)
        ensures
            final(script).said() == old(script).said(),
            stepped(self@, final(script).place(), r) == watches(
                self@,
                old(script).said(),
                old(script).place(),
            ),
    {
        let ghost from = script.place();
        let ghost said = script.said();
        loop
            invariant
                said == old(script).said(),
                from == old(script).place(),
                script.said() == said,
                watches(self@, said, from) == watches(self@, said, script.place()),
            decreases said.len() - script.place(),
        {
            let answer = ask(script, MpvAction::Watch)?;
            match answer {
                MpvAnswer::Connected => {
                    return Ok(());
                },
                MpvAnswer::NotYet => {},
                MpvAnswer::Exited(status) => {
                    self.attempt(script, MpvAction::RemoveSocket)?;
                    return Err(
                        spawn_halt(option("mpv exited immediately with ", status.as_str())),
                    );
                },
                MpvAnswer::GaveUp { socket, error } => {
                    let halt = spawn_halt(
                        joined_text(
                            "mpv never accepted a connection on ",
                            socket.as_str(),
                            ": ",
                            error.as_str(),
                        ),
                    );
                    return self.give_up(script, Err(halt));
                },
                _ => {
                    return self.give_up(script, Err(ill_fitting_halt()));
                },
            }
        }
    }

    fn give_up(&self, script: &mut Script<MpvAnswer>, came: MpvStep<()>) -> (r: MpvStep<()>)
        ensures
            final(script).said() == old(script).said(),
            stepped(self@, final(script).place(), r) == gives_up(
                stepped(self@, old(script).place(), came),
                old(script).said(),
            ),
    {
        match came {
            Err(MpvHalt::Failed(e)) => {
                self.attempt(script, MpvAction::Kill)?;
                self.attempt(script, MpvAction::RemoveSocket)?;
                Err(MpvHalt::Failed(e))
            },
            _ => came,
        }
    }

    fn listen(&self, script: &mut Script<MpvAnswer>) -> (r: MpvStep<()>)
        ensures
            final(script).said() == old(script).said(),
            stepped(self@, final(script).place(), r) == listens(
                self@,
                old(script).said(),
                old(script).place(),
            ),
    {
        let answer = ask(script, MpvAction::Listen)?;
        match answer {
            MpvAnswer::Finished => self.observe_properties(script),
            MpvAnswer::Failed(e) => Err(deaf_halt(e)),
            _ => Err(ill_fitting_halt()),
        }
    }

    fn launch(&self, script: &mut Script<MpvAnswer>) -> (r: MpvStep<()>)
        ensures
            final(script).said() == old(script).said(),
            stepped(self@, final(script).place(), r) == launches(
                self@,
                old(script).said(),
                old(script).place(),
            ),
    {
        let answer = ask(
            script,
            MpvAction::Launch { layout: self.desired.layout, detached: self.shared },
        )?;
        match answer {
            MpvAnswer::Finished => {
                self.watch(script)?;
                let came = self.listen(script);
                self.give_up(script, came)
            },
            MpvAnswer::Missing => Err(MpvHalt::Failed(missing_mpv())),
            MpvAnswer::Failed(e) => Err(spawn_halt(e.clone())),
            _ => Err(ill_fitting_halt()),
        }
    }

    fn spawn_own(&self, script: &mut Script<MpvAnswer>) -> (r: MpvStep<bool>)
        ensures
            final(script).said() == old(script).said(),
            stepped(self@, final(script).place(), r) == spawns_own(
                self@,
                old(script).said(),
                old(script).place(),
            ),
    {
        self.attempt(script, MpvAction::RemoveSocket)?;
        if self.shared {
            self.attempt(script, MpvAction::MakeFolder)?;
        }
        self.launch(script)?;
        Ok(false)
    }

    fn spawn(&self, script: &mut Script<MpvAnswer>) -> (r: MpvStep<bool>)
        ensures
            final(script).said() == old(script).said(),
            stepped(self@, final(script).place(), r) == spawns(
                self@,
                old(script).said(),
                old(script).place(),
            ),
    {
        self.attempt(script, MpvAction::NewSocket)?;
        if self.shared {
            let answer = ask(script, MpvAction::Connect)?;
            match answer {
                MpvAnswer::Connected => {
                    self.observe_properties(script)?;
                    Ok(true)
                },
                MpvAnswer::Refused => self.spawn_own(script),
                MpvAnswer::Failed(e) => Err(deaf_halt(e)),
                _ => Err(ill_fitting_halt()),
            }
        } else {
            self.spawn_own(script)
        }
    }

    fn sync(&mut self, script: &mut Script<MpvAnswer>) -> (r: MpvStep<()>)
        ensures
            final(script).said() == old(script).said(),
            stepped(final(self)@, final(script).place(), r) == syncs(
                old(self)@,
                old(script).said(),
                old(script).place(),
            ),
    {
        let path = self.get_property(script, "get_property", "path")?;
        let tracks = self.get_property(script, "get_property", "track-list")?;
        let position = self.get_property(script, "get_property", "time-pos")?;
        let paused = self.get_property(script, "get_property", "pause")?;
        self.sync_rest(script, path, tracks, position, paused)
    }

    fn sync_rest(
        &mut self,
        script: &mut Script<MpvAnswer>,
        path: Option<&Json>,
        tracks: Option<&Json>,
        position: Option<&Json>,
        paused: Option<&Json>,
    ) -> (r: MpvStep<()>)
        ensures
            final(script).said() == old(script).said(),
            stepped(final(self)@, final(script).place(), r) == syncs_rest(
                old(self)@,
                old(script).said(),
                old(script).place(),
                json_view(path),
                json_view(tracks),
                json_view(position),
                json_view(paused),
            ),
    {
        let volume = self.get_property(script, "get_property", "volume")?;
        let speed = self.get_property(script, "get_property", "speed")?;
        let ontop = self.get_property(script, "get_property", "ontop")?;
        let output = self.get_property(script, "get_property", "current-vo")?;
        self.desired.position = number_else(position, Fixed::Nanos(0));
        self.desired.paused = flag_else(paused, false);
        self.desired.volume = number_else(volume, self.desired.volume);
        self.desired.speed = number_else(speed, self.desired.speed);
        self.desired.ontop = flag_else(ontop, self.desired.ontop);
        self.desired.video_visible = match output {
            Some(v) => !v.is_null(),
            None => false,
        };
        self.desired.has_video = has_video(tracks);
        self.desired.path = match path {
            Some(v) => match v.as_str() {
                Some(t) => Some(t.clone()),
                None => None,
            },
            None => None,
        };
        Ok(())
    }

    fn frame(&self, script: &mut Script<MpvAnswer>, layout: VideoWindowLayout, full: bool) -> (r:
        MpvStep<()>)
        ensures
            final(script).said() == old(script).said(),
            stepped(self@, final(script).place(), r) == frames(
                self@,
                old(script).said(),
                old(script).place(),
                layout,
                full,
            ),
    {
        let options = window_options(layout);
        self.set_property(script, "screen", Arg::Text(options.screen))?;
        self.set_property(script, "geometry", Arg::Text(options.geometry))?;
        self.set_property(script, "autofit", Arg::Text(options.autofit))?;
        self.set_property(script, "fullscreen", Arg::Flag(full))
    }

    fn apply_layout(
        &self,
        script: &mut Script<MpvAnswer>,
        layout: VideoWindowLayout,
    ) -> (r: MpvStep<
        (),
    >)
        ensures
            final(script).said() == old(script).said(),
            stepped(self@, final(script).place(), r) == lays_out(
                self@,
                old(script).said(),
                old(script).place(),
                layout,
            ),
    {
        let full = match layout {
            VideoWindowLayout::Fullscreen => true,
            _ => false,
        };
        self.frame(script, layout, full)
    }

    fn apply_desired(&self, script: &mut Script<MpvAnswer>) -> (r: MpvStep<()>)
        ensures
            final(script).said() == old(script).said(),
            stepped(self@, final(script).place(), r) == applies(
                self@,
                old(script).said(),
                old(script).place(),
            ),
    {
        self.set_property(script, "volume", Arg::Number(self.desired.volume))?;
        self.set_property(script, "speed", Arg::Number(self.desired.speed))?;
        self.set_property(script, "ontop", Arg::Flag(self.desired.ontop))?;
        self.apply_layout(script, self.desired.layout)?;
        self.set_property(script, "vid", text(video_selection(self.desired.video_visible)))
    }

    fn clear_start(&self, script: &mut Script<MpvAnswer>) -> (r: MpvStep<Option<()>>)
        ensures
            final(script).said() == old(script).said(),
            stepped(self@, final(script).place(), r) == clears_start(
                self@,
                old(script).said(),
                old(script).place(),
            ),
    {
        match self.set_property(script, "start", text("none")) {
            Ok(()) => Ok(Some(())),
            Err(MpvHalt::Ask(a)) => Err(MpvHalt::Ask(a)),
            Err(MpvHalt::Failed(_)) => Ok(None),
        }
    }

    fn enqueue(&self, script: &mut Script<MpvAnswer>, path: &str) -> (r: MpvStep<()>)
        ensures
            final(script).said() == old(script).said(),
            stepped(self@, final(script).place(), r) == queues(
                self@,
                old(script).said(),
                old(script).place(),
                path@,
            ),
    {
        let args = args_three(text("loadfile"), text(path), text("replace"));
        match self.request(script, "loadfile", args, DEFAULT_TIMEOUT_MS) {
            Ok(_) => Ok(()),
            Err(MpvHalt::Ask(a)) => Err(MpvHalt::Ask(a)),
            Err(MpvHalt::Failed(e)) => {
                let _ = self.clear_start(script)?;
                Err(MpvHalt::Failed(e))
            },
        }
    }

    fn await_load(
        &mut self,
        script: &mut Script<MpvAnswer>,
        path: &str,
        start_at: Option<Fixed>,
        since: u64,
    ) -> (r: MpvStep<()>)
        ensures
            final(script).said() == old(script).said(),
            stepped(final(self)@, final(script).place(), r) == awaits(
                old(self)@,
                old(script).said(),
                old(script).place(),
                path@,
                start_at,
                since,
            ),
    {
        let loaded = self.wonder(
            script,
            MpvAction::WaitLoaded { since, timeout_ms: LOAD_TIMEOUT_MS },
        )?;
        let _ = self.clear_start(script)?;
        if !loaded {
            return Err(
                MpvHalt::Failed(
                    EngineError::Timeout {
                        operation: option("load ", path),
                        timeout_ms: LOAD_TIMEOUT_MS,
                    },
                ),
            );
        }
        let tracks = self.get_property(script, "get_property track-list", "track-list")?;
        self.desired.path = Some(path.to_owned());
        self.desired.position = match start_at {
            Some(secs) => secs,
            None => Fixed::Nanos(0),
        };
        self.desired.has_video = has_video(tracks);
        self.desired.paused = false;
        Ok(())
    }

    fn load_into(
        &mut self,
        script: &mut Script<MpvAnswer>,
        path: &str,
        start_at: Option<Fixed>,
    ) -> (r:
        MpvStep<()>)
        ensures
            final(script).said() == old(script).said(),
            stepped(final(self)@, final(script).place(), r) == loads(
                old(self)@,
                old(script).said(),
                old(script).place(),
                path@,
                start_at,
            ),
    {
        self.set_property(script, "vid", text(video_selection(self.desired.video_visible)))?;
        self.set_property(script, "start", Arg::Text(start_option(start_at)))?;
        let answer = ask(script, MpvAction::Generation)?;
        match answer {
            MpvAnswer::Count(since) => {
                self.enqueue(script, path)?;
                self.await_load(script, path, start_at, *since)
            },
            _ => Err(ill_fitting_halt()),
        }
    }

    fn outlast(&self, script: &mut Script<MpvAnswer>, own: bool) -> (r: MpvStep<()>)
        ensures
            final(script).said() == old(script).said(),
            stepped(self@, final(script).place(), r) == outlasts(
                self@,
                old(script).said(),
                old(script).place(),
                own,
            ),
    {
        let ghost from = script.place();
        let ghost said = script.said();
        loop
            invariant
                said == old(script).said(),
                from == old(script).place(),
                script.said() == said,
                outlasts(self@, said, from, own) == outlasts(self@, said, script.place(), own),
            decreases said.len() - script.place(),
        {
            let answer = ask(script, MpvAction::Fate)?;
            match answer {
                MpvAnswer::NotYet => {},
                MpvAnswer::Finished => {
                    return Ok(());
                },
                _ => {
                    if own {
                        return self.attempt(script, MpvAction::Kill);
                    }
                    return Ok(());
                },
            }
        }
    }

    fn terminate(&mut self, script: &mut Script<MpvAnswer>) -> (r: MpvStep<()>)
        ensures
            final(script).said() == old(script).said(),
            stepped(final(self)@, final(script).place(), r) == terminates(
                old(self)@,
                old(script).said(),
                old(script).place(),
            ),
    {
        match self.session {
            None => Ok(()),
            Some(adopted) => {
                self.attempt(
                    script,
                    MpvAction::Request {
                        args: args_one(text("quit")),
                        timeout_ms: QUIT_TIMEOUT_MS,
                    },
                )?;
                self.outlast(script, !adopted)?;
                self.attempt(script, MpvAction::RemoveSocket)?;
                self.session = None;
                Ok(())
            },
        }
    }

    fn restore(&mut self, script: &mut Script<MpvAnswer>) -> (r: MpvStep<()>)
        ensures
            final(script).said() == old(script).said(),
            stepped(final(self)@, final(script).place(), r) == restores(
                old(self)@,
                old(script).said(),
                old(script).place(),
            ),
    {
        match copy_text(&self.desired.path) {
            None => Ok(()),
            Some(path) => {
                let paused = self.desired.paused;
                let position: Fixed = self.desired.position;
                let resume_at = if less(Fixed::Nanos(500_000_000), position) {
                    Some(position)
                } else {
                    None
                };
                self.load_into(script, path.as_str(), resume_at)?;
                self.desired.paused = paused;
                if paused {
                    self.set_property(script, "pause", Arg::Flag(true))?;
                }
                Ok(())
            },
        }
    }

    fn open(&mut self, script: &mut Script<MpvAnswer>, ended: &Option<String>) -> (r: MpvStep<()>)
        ensures
            final(script).said() == old(script).said(),
            stepped(final(self)@, final(script).place(), r) == opens(
                old(self)@,
                old(script).said(),
                old(script).place(),
                text_view(*ended),
            ),
    {
        match self.spawn(script) {
            Err(MpvHalt::Ask(a)) => Err(MpvHalt::Ask(a)),
            Err(MpvHalt::Failed(e)) => Err(MpvHalt::Failed(explain(e, ended))),
            Ok(adopted) => {
                if adopted {
                    self.sync(script)?;
                    self.session = Some(true);
                    Ok(())
                } else {
                    let came = self.apply_desired(script);
                    self.give_up(script, came)?;
                    self.session = Some(false);
                    self.restore(script)
                }
            },
        }
    }

    fn replace(&mut self, script: &mut Script<MpvAnswer>) -> (r: MpvStep<()>)
        ensures
            final(script).said() == old(script).said(),
            stepped(final(self)@, final(script).place(), r) == replaces(
                old(self)@,
                old(script).said(),
                old(script).place(),
            ),
    {
        let answer = ask(script, MpvAction::Reason)?;
        match answer {
            MpvAnswer::Text(ended) => {
                self.terminate(script)?;
                self.open(script, ended)
            },
            _ => Err(ill_fitting_halt()),
        }
    }

    fn hold_session(&mut self, script: &mut Script<MpvAnswer>) -> (r: MpvStep<()>)
        ensures
            final(script).said() == old(script).said(),
            stepped(final(self)@, final(script).place(), r) == holds_session(
                old(self)@,
                old(script).said(),
                old(script).place(),
            ),
    {
        if !self.live {
            return Err(
                MpvHalt::Failed(
                    EngineError::Internal { message: "engine has been shut down".to_owned() },
                ),
            );
        }
        if self.session.is_some() {
            let alive = self.wonder(script, MpvAction::Alive)?;
            if alive {
                return Ok(());
            }
            let position = self.property(script, "time-pos")?;
            self.desired.position = number_else(Some(position), self.desired.position);
            self.replace(script)
        } else {
            let ended: Option<String> = None;
            self.open(script, &ended)
        }
    }

    fn do_load(
        &mut self,
        script: &mut Script<MpvAnswer>,
        path: &str,
        start_at: Option<Fixed>,
    ) -> (r:
        MpvStep<()>)
        ensures
            final(script).said() == old(script).said(),
            stepped(final(self)@, final(script).place(), r) == load_of(
                old(self)@,
                old(script).said(),
                old(script).place(),
                path@,
                start_at,
            ),
    {
        self.hold_session(script)?;
        self.load_into(script, path, start_at)
    }

    fn do_set_paused(&mut self, script: &mut Script<MpvAnswer>, paused: bool) -> (r: MpvStep<()>)
        ensures
            final(script).said() == old(script).said(),
            stepped(final(self)@, final(script).place(), r) == set_paused_of(
                old(self)@,
                old(script).said(),
                old(script).place(),
                paused,
            ),
    {
        self.hold_session(script)?;
        self.set_property(script, "pause", Arg::Flag(paused))?;
        let position = self.property(script, "time-pos")?;
        self.desired.position = number_else(Some(position), self.desired.position);
        self.desired.paused = paused;
        Ok(())
    }

    fn do_seek(&mut self, script: &mut Script<MpvAnswer>, seconds: Fixed) -> (r: MpvStep<()>)
        ensures
            final(script).said() == old(script).said(),
            stepped(final(self)@, final(script).place(), r) == seek_of(
                old(self)@,
                old(script).said(),
                old(script).place(),
                seconds,
            ),
    {
        let target: Fixed = max_of(seconds, Fixed::Nanos(0));
        self.hold_session(script)?;
        let args = args_three(text("seek"), Arg::Number(target), text("absolute"));
        let _ = self.request(script, "seek", args, DEFAULT_TIMEOUT_MS)?;
        self.attempt(
            script,
            MpvAction::Cache { name: "time-pos".to_owned(), value: Arg::Number(target) },
        )?;
        self.attempt(
            script,
            MpvAction::Cache { name: "eof-reached".to_owned(), value: Arg::Flag(false) },
        )?;
        self.desired.position = target;
        Ok(())
    }

    fn do_set_volume(&mut self, script: &mut Script<MpvAnswer>, percent: Fixed) -> (r: MpvStep<()>)
        ensures
            final(script).said() == old(script).said(),
            stepped(final(self)@, final(script).place(), r) == set_volume_of(
                old(self)@,
                old(script).said(),
                old(script).place(),
                percent,
            ),
    {
        let level: Fixed = clamp_to(percent, Fixed::Nanos(0), Fixed::Nanos(100_000_000_000));
        self.hold_session(script)?;
        self.set_property(script, "volume", Arg::Number(level))?;
        self.desired.volume = level;
        Ok(())
    }

    fn do_set_speed(&mut self, script: &mut Script<MpvAnswer>, rate: Fixed) -> (r: MpvStep<()>)
        ensures
            final(script).said() == old(script).said(),
            stepped(final(self)@, final(script).place(), r) == set_speed_of(
                old(self)@,
                old(script).said(),
                old(script).place(),
                rate,
            ),
    {
        let speed: Fixed = clamp_to(
            rate,
            Fixed::Nanos(10_000_000),
            Fixed::Nanos(100_000_000_000),
        );
        self.hold_session(script)?;
        self.set_property(script, "speed", Arg::Number(speed))?;
        self.desired.speed = speed;
        Ok(())
    }

    fn do_set_visible(&mut self, script: &mut Script<MpvAnswer>, visible: bool) -> (r: MpvStep<()>)
        ensures
            final(script).said() == old(script).said(),
            stepped(final(self)@, final(script).place(), r) == set_visible_of(
                old(self)@,
                old(script).said(),
                old(script).place(),
                visible,
            ),
    {
        self.hold_session(script)?;
        self.set_property(script, "vid", text(video_selection(visible)))?;
        self.desired.video_visible = visible;
        Ok(())
    }

    fn do_set_ontop(&mut self, script: &mut Script<MpvAnswer>, ontop: bool) -> (r: MpvStep<()>)
        ensures
            final(script).said() == old(script).said(),
            stepped(final(self)@, final(script).place(), r) == set_ontop_of(
                old(self)@,
                old(script).said(),
                old(script).place(),
                ontop,
            ),
    {
        self.hold_session(script)?;
        self.set_property(script, "ontop", Arg::Flag(ontop))?;
        self.desired.ontop = ontop;
        Ok(())
    }

    fn do_set_layout(&mut self, script: &mut Script<MpvAnswer>, layout: VideoWindowLayout) -> (r:
        MpvStep<()>)
        ensures
            final(script).said() == old(script).said(),
            stepped(final(self)@, final(script).place(), r) == set_layout_of(
                old(self)@,
                old(script).said(),
                old(script).place(),
                layout,
            ),
    {
        self.desired.layout = layout;
        if self.session.is_some() {
            let alive = self.wonder(script, MpvAction::Alive)?;
            if alive {
                return self.apply_layout(script, layout);
            }
        }
        Ok(())
    }

    fn find_process(&self, script: &mut Script<MpvAnswer>) -> (r: MpvStep<Option<u32>>)
        ensures
            final(script).said() == old(script).said(),
            stepped(self@, final(script).place(), r) == finds_process(
                self@,
                old(script).said(),
                old(script).place(),
            ),
    {
        let pid = self.get_property(script, "get pid", "pid")?;
        let number: Option<u64> = match pid {
            Some(v) => v.as_u64(),
            None => None,
        };
        match number {
            Some(n) => {
                let low: u64 = n % 0x1_0000_0000;
                Ok(Some(low as u32))
            },
            None => {
                let answer = ask(script, MpvAction::Process)?;
                match answer {
                    MpvAnswer::Process(p) => Ok(*p),
                    _ => Err(ill_fitting_halt()),
                }
            },
        }
    }

    fn do_begin_placement(&mut self, script: &mut Script<MpvAnswer>) -> (r: MpvStep<Option<u32>>)
        ensures
            final(script).said() == old(script).said(),
            stepped(final(self)@, final(script).place(), r) == begin_placement_of(
                old(self)@,
                old(script).said(),
                old(script).place(),
            ),
    {
        self.hold_session(script)?;
        self.frame(script, self.desired.layout, false)?;
        self.set_property(script, "force-window", Arg::Flag(true))?;
        self.find_process(script)
    }

    fn do_end_placement(&mut self, script: &mut Script<MpvAnswer>) -> (r: MpvStep<()>)
        ensures
            final(script).said() == old(script).said(),
            stepped(final(self)@, final(script).place(), r) == end_placement_of(
                old(self)@,
                old(script).said(),
                old(script).place(),
            ),
    {
        if self.session.is_none() {
            return Ok(());
        }
        let alive = self.wonder(script, MpvAction::Alive)?;
        if !alive {
            return Ok(());
        }
        self.set_property(script, "force-window", Arg::Flag(false))?;
        self.apply_layout(script, self.desired.layout)
    }

    fn do_stop(&mut self, script: &mut Script<MpvAnswer>) -> (r: MpvStep<()>)
        ensures
            final(script).said() == old(script).said(),
            stepped(final(self)@, final(script).place(), r) == stop_of(
                old(self)@,
                old(script).said(),
                old(script).place(),
            ),
    {
        self.hold_session(script)?;
        let _ = self.request(script, "stop", args_one(text("stop")), DEFAULT_TIMEOUT_MS)?;
        self.desired.path = None;
        self.desired.position = Fixed::Nanos(0);
        self.desired.has_video = false;
        Ok(())
    }

    fn survey(&self, script: &mut Script<MpvAnswer>) -> (r: MpvStep<EngineSnapshot>)
        ensures
            final(script).said() == old(script).said(),
            stepped_view(self@, final(script).place(), r) == surveys(
                self@,
                old(script).said(),
                old(script).place(),
            ),
    {
        let position = self.property(script, "time-pos")?;
        let duration = self.property(script, "duration")?;
        let paused = self.property(script, "pause")?;
        self.survey_rest(script, position, duration, paused)
    }

    fn survey_rest(
        &self,
        script: &mut Script<MpvAnswer>,
        position: &Json,
        duration: &Json,
        paused: &Json,
    ) -> (r: MpvStep<EngineSnapshot>)
        ensures
            final(script).said() == old(script).said(),
            stepped_view(self@, final(script).place(), r) == surveys_rest(
                self@,
                old(script).said(),
                old(script).place(),
                position@,
                duration@,
                paused@,
            ),
    {
        let idle = self.property(script, "idle-active")?;
        let eof = self.property(script, "eof-reached")?;
        let output = self.property(script, "current-vo")?;
        Ok(
            EngineSnapshot {
                position_secs: match position.as_number() {
                    Some(p) => Some(p),
                    None => if self.desired.path.is_some() {
                        Some(self.desired.position)
                    } else {
                        None
                    },
                },
                duration_secs: duration.as_number(),
                paused: flag_else(Some(paused), self.desired.paused),
                idle: flag_else(Some(idle), self.desired.path.is_none()),
                eof: flag_else(Some(eof), false),
                has_video: self.desired.has_video,
                video_visible: !output.is_null(),
                path: copy_text(&self.desired.path),
            },
        )
    }

    fn adopt_running(&mut self, script: &mut Script<MpvAnswer>) -> (r: MpvStep<bool>)
        ensures
            final(script).said() == old(script).said(),
            stepped(final(self)@, final(script).place(), r) == adopts_running(
                old(self)@,
                old(script).said(),
                old(script).place(),
            ),
    {
        if self.session.is_some() {
            return Ok(true);
        }
        if self.shared && self.live {
            let running = self.wonder(script, MpvAction::Running)?;
            if running {
                return match self.hold_session(script) {
                    Ok(()) => Ok(true),
                    Err(MpvHalt::Ask(a)) => Err(MpvHalt::Ask(a)),
                    Err(MpvHalt::Failed(_)) => Ok(false),
                };
            }
        }
        Ok(false)
    }

    fn do_snapshot(&mut self, script: &mut Script<MpvAnswer>) -> (r: MpvStep<EngineSnapshot>)
        ensures
            final(script).said() == old(script).said(),
            stepped_view(final(self)@, final(script).place(), r) == snapshot_of(
                old(self)@,
                old(script).said(),
                old(script).place(),
            ),
    {
        let up = self.adopt_running(script)?;
        if up {
            self.survey(script)
        } else {
            Ok(
                EngineSnapshot {
                    position_secs: None,
                    duration_secs: None,
                    paused: self.desired.paused,
                    idle: true,
                    eof: false,
                    has_video: self.desired.has_video,
                    video_visible: false,
                    path: copy_text(&self.desired.path),
                },
            )
        }
    }

    fn do_shutdown(&mut self, script: &mut Script<MpvAnswer>) -> (r: MpvStep<()>)
        ensures
            final(script).said() == old(script).said(),
            stepped(final(self)@, final(script).place(), r) == shutdown_of(
                old(self)@,
                old(script).said(),
                old(script).place(),
            ),
    {
        if !self.live {
            return Ok(());
        }
        self.live = false;
        self.terminate(script)
    }

    fn do_release(&mut self, script: &mut Script<MpvAnswer>) -> (r: MpvStep<()>)
        ensures
            final(script).said() == old(script).said(),
            stepped(final(self)@, final(script).place(), r) == release_of(
                old(self)@,
                old(script).said(),
                old(script).place(),
            ),
    {
        if self.shared {
            Ok(())
        } else {
            self.do_shutdown(script)
        }
    }
}

/// Why no session could be had, with why the one before it ended.
fn explain(e: EngineError, ended: &Option<String>) -> (r: EngineError)
    ensures
        r@ == explained(e@, text_view(*ended)),
{
    match (e, ended) {
        (EngineError::Spawn { display_name, message }, Some(reason)) => {
            let m = joined_text(
                message.as_str(),
                " (previous instance ended: ",
                reason.as_str(),
                ")",
            );
            EngineError::Spawn { display_name, message: m }
        },
        (e, _) => e,
    }
}

impl MpvEngine {
    /// An engine with an mpv of its own, which is not started yet. It ends with the
    /// engine.
    pub fn new() -> (r: Self)
        ensures
            r@ == dormant(false),
    {
        MpvEngine { desired: Desired::default(), live: true, session: None, shared: false }
    }

    /// An engine on a well-known socket, shared between processes. An mpv that
    /// listens there is adopted with what it plays; otherwise one is started. It
    /// plays on when the engine is let go.
    pub fn shared() -> (r: Self)
        ensures
            r@ == dormant(true),
    {
        MpvEngine { desired: Desired::default(), live: true, session: None, shared: true }
    }

    /// What mpv can play and show.
    pub fn capabilities(&self) -> (r: EngineCapabilities)
        ensures
            r@.id == "mpv"@,
            r@.display_name == "mpv"@,
            r@.containers == mpv_containers(),
            r@.video,
            r@.ontop_window,
            !r@.native_pip,
    {
        let mut containers: Vec<String> = Vec::new();
        containers.push("webm".to_owned());
        containers.push("mkv".to_owned());
        containers.push("mp4".to_owned());
        containers.push("m4v".to_owned());
        containers.push("mov".to_owned());
        containers.push("avi".to_owned());
        containers.push("flv".to_owned());
        containers.push("ts".to_owned());
        containers.push("m4a".to_owned());
        containers.push("mp3".to_owned());
        containers.push("wav".to_owned());
        containers.push("flac".to_owned());
        containers.push("opus".to_owned());
        containers.push("ogg".to_owned());
        containers.push("oga".to_owned());
        containers.push("aac".to_owned());
        containers.push("alac".to_owned());
        containers.push("aiff".to_owned());
        containers.push("aif".to_owned());
        containers.push("wma".to_owned());
        containers.push("wv".to_owned());
        containers.push("ape".to_owned());
        assert(texts(containers@) =~= mpv_containers());
        EngineCapabilities {
            id: "mpv".to_owned(),
            display_name: "mpv".to_owned(),
            containers,
            video: true,
            ontop_window: true,
            native_pip: false,
        }
    }

    /// Load a file, from an offset or from its start.
    pub fn load(
        &mut self,
        path: &str,
        start_at: Option<Fixed>,
        answers: &Vec<MpvAnswer>,
    ) -> (r: MpvStep<()>)
        ensures
            came_to(r) == load_of(old(self)@, answers@, 0, path@, start_at).end,
            settled_on(
                old(self)@,
                final(self)@,
                load_of(old(self)@, answers@, 0, path@, start_at).state,
                waiting(r),
            ),
    {
        let mut script = Script::new(answers);
        let mut trial = self.clone();
        let r = trial.do_load(&mut script, path, start_at);
        if !waits(&r) {
            *self = trial;
        }
        r
    }

    /// Pause or go on.
    pub fn set_paused(&mut self, paused: bool, answers: &Vec<MpvAnswer>) -> (r: MpvStep<()>)
        ensures
            came_to(r) == set_paused_of(old(self)@, answers@, 0, paused).end,
            settled_on(
                old(self)@,
                final(self)@,
                set_paused_of(old(self)@, answers@, 0, paused).state,
                waiting(r),
            ),
    {
        let mut script = Script::new(answers);
        let mut trial = self.clone();
        let r = trial.do_set_paused(&mut script, paused);
        if !waits(&r) {
            *self = trial;
        }
        r
    }

    /// Go to a position, not before the start.
    pub fn seek_absolute(&mut self, seconds: Fixed, answers: &Vec<MpvAnswer>) -> (r: MpvStep<()>)
        ensures
            came_to(r) == seek_of(old(self)@, answers@, 0, seconds).end,
            settled_on(
                old(self)@,
                final(self)@,
                seek_of(old(self)@, answers@, 0, seconds).state,
                waiting(r),
            ),
    {
        let mut script = Script::new(answers);
        let mut trial = self.clone();
        let r = trial.do_seek(&mut script, seconds);
        if !waits(&r) {
            *self = trial;
        }
        r
    }

    /// Set the volume, from nothing to a hundred percent.
    pub fn set_volume(&mut self, percent: Fixed, answers: &Vec<MpvAnswer>) -> (r: MpvStep<()>)
        ensures
            came_to(r) == set_volume_of(old(self)@, answers@, 0, percent).end,
            settled_on(
                old(self)@,
                final(self)@,
                set_volume_of(old(self)@, answers@, 0, percent).state,
                waiting(r),
            ),
    {
        let mut script = Script::new(answers);
        let mut trial = self.clone();
        let r = trial.do_set_volume(&mut script, percent);
        if !waits(&r) {
            *self = trial;
        }
        r
    }

    /// Set the rate, from a hundredth to a hundred times the normal one.
    pub fn set_speed(&mut self, rate: Fixed, answers: &Vec<MpvAnswer>) -> (r: MpvStep<()>)
        ensures
            came_to(r) == set_speed_of(old(self)@, answers@, 0, rate).end,
            settled_on(
                old(self)@,
                final(self)@,
                set_speed_of(old(self)@, answers@, 0, rate).state,
                waiting(r),
            ),
    {
        let mut script = Script::new(answers);
        let mut trial = self.clone();
        let r = trial.do_set_speed(&mut script, rate);
        if !waits(&r) {
            *self = trial;
        }
        r
    }

    /// Show or hide the video. Playback is not interrupted and stays where it is.
    pub fn set_video_visible(&mut self, visible: bool, answers: &Vec<MpvAnswer>) -> (r: MpvStep<()>)
        ensures
            came_to(r) == set_visible_of(old(self)@, answers@, 0, visible).end,
            settled_on(
                old(self)@,
                final(self)@,
                set_visible_of(old(self)@, answers@, 0, visible).state,
                waiting(r),
            ),
    {
        let mut script = Script::new(answers);
        let mut trial = self.clone();
        let r = trial.do_set_visible(&mut script, visible);
        if !waits(&r) {
            *self = trial;
        }
        r
    }

    /// Keep the window above others, or not.
    pub fn set_video_ontop(&mut self, ontop: bool, answers: &Vec<MpvAnswer>) -> (r: MpvStep<()>)
        ensures
            came_to(r) == set_ontop_of(old(self)@, answers@, 0, ontop).end,
            settled_on(
                old(self)@,
                final(self)@,
                set_ontop_of(old(self)@, answers@, 0, ontop).state,
                waiting(r),
            ),
    {
        let mut script = Script::new(answers);
        let mut trial = self.clone();
        let r = trial.do_set_ontop(&mut script, ontop);
        if !waits(&r) {
            *self = trial;
        }
        r
    }

    /// Set where and how large the window is. This starts nothing.
    pub fn set_video_window_layout(
        &mut self,
        layout: VideoWindowLayout,
        answers: &Vec<MpvAnswer>,
    ) -> (r: MpvStep<()>)
        ensures
            came_to(r) == set_layout_of(old(self)@, answers@, 0, layout).end,
            settled_on(
                old(self)@,
                final(self)@,
                set_layout_of(old(self)@, answers@, 0, layout).state,
                waiting(r),
            ),
    {
        let mut script = Script::new(answers);
        let mut trial = self.clone();
        let r = trial.do_set_layout(&mut script, layout);
        if !waits(&r) {
            *self = trial;
        }
        r
    }

    /// Show an empty window to place by hand, and say whose it is.
    pub fn begin_window_placement(&mut self, answers: &Vec<MpvAnswer>) -> (r: MpvStep<Option<u32>>)
        ensures
            came_to(r) == begin_placement_of(old(self)@, answers@, 0).end,
            settled_on(
                old(self)@,
                final(self)@,
                begin_placement_of(old(self)@, answers@, 0).state,
                waiting(r),
            ),
    {
        let mut script = Script::new(answers);
        let mut trial = self.clone();
        let r = trial.do_begin_placement(&mut script);
        if !waits(&r) {
            *self = trial;
        }
        r
    }

    /// Take the empty window down.
    pub fn end_window_placement(&mut self, answers: &Vec<MpvAnswer>) -> (r: MpvStep<()>)
        ensures
            came_to(r) == end_placement_of(old(self)@, answers@, 0).end,
            settled_on(
                old(self)@,
                final(self)@,
                end_placement_of(old(self)@, answers@, 0).state,
                waiting(r),
            ),
    {
        let mut script = Script::new(answers);
        let mut trial = self.clone();
        let r = trial.do_end_placement(&mut script);
        if !waits(&r) {
            *self = trial;
        }
        r
    }

    /// Stop playback and unload the file.
    pub fn stop(&mut self, answers: &Vec<MpvAnswer>) -> (r: MpvStep<()>)
        ensures
            came_to(r) == stop_of(old(self)@, answers@, 0).end,
            settled_on(
                old(self)@,
                final(self)@,
                stop_of(old(self)@, answers@, 0).state,
                waiting(r),
            ),
    {
        let mut script = Script::new(answers);
        let mut trial = self.clone();
        let r = trial.do_stop(&mut script);
        if !waits(&r) {
            *self = trial;
        }
        r
    }

    /// What plays. This never starts mpv.
    pub fn snapshot(&mut self, answers: &Vec<MpvAnswer>) -> (r: MpvStep<EngineSnapshot>)
        ensures
            came_to_view(r) == snapshot_of(old(self)@, answers@, 0).end,
            settled_on(
                old(self)@,
                final(self)@,
                snapshot_of(old(self)@, answers@, 0).state,
                waiting(r),
            ),
    {
        let mut script = Script::new(answers);
        let mut trial = self.clone();
        let r = trial.do_snapshot(&mut script);
        if !waits(&r) {
            *self = trial;
        }
        r
    }

    /// End mpv for good.
    pub fn shutdown(&mut self, answers: &Vec<MpvAnswer>) -> (r: MpvStep<()>)
        ensures
            came_to(r) == shutdown_of(old(self)@, answers@, 0).end,
            settled_on(
                old(self)@,
                final(self)@,
                shutdown_of(old(self)@, answers@, 0).state,
                waiting(r),
            ),
    {
        let mut script = Script::new(answers);
        let mut trial = self.clone();
        let r = trial.do_shutdown(&mut script);
        if !waits(&r) {
            *self = trial;
        }
        r
    }

    /// Let the engine go. A shared mpv plays on.
    pub fn release(&mut self, answers: &Vec<MpvAnswer>) -> (r: MpvStep<()>)
        ensures
            came_to(r) == release_of(old(self)@, answers@, 0).end,
            settled_on(
                old(self)@,
                final(self)@,
                release_of(old(self)@, answers@, 0).state,
                waiting(r),
            ),
    {
        let mut script = Script::new(answers);
        let mut trial = self.clone();
        let r = trial.do_release(&mut script);
        if !waits(&r) {
            *self = trial;
        }
        r
    }
}

} // verus!
