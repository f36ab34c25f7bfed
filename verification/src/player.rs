//! The facade the command line and the menu bar app both drive.
//!
//! Owns the queue, decides which positions are written, and routes every
//! playback call to whichever engine the registry selected. Each operation takes
//! the answers its host has given so far; see [`crate::script`].

use vstd::prelude::*;

use crate::engine::{EngineCapabilities, EngineSnapshot};
use crate::error::{CoreError, ErrorView};
use crate::fixed::{larger, less, max_of, min_of, minus, plus, Fixed};
use crate::layout::VideoWindowLayout;
use crate::library::ScanReport;
use crate::number::{digits, parse_upto, print, print_signed};
use crate::player_model::{
    addressed, adopt_of, after_eof, begin_placement_of, choose_row_of, command_of, does,
    end_of_file_of, ensure_indexed_of, find_track_of, finds, folder_tracks_of, follow_resume_of,
    ids_of, index_of, layout_setting_of, learn_duration_of, leave_of, load_of, looks, loop_of,
    loop_text, misfit, moved_enough, next_of, overfull, persist_queue_of, persist_resume_of,
    persist_rules_of, play_or_stop_of, play_path_of, play_track_of, positions_of, prefixed,
    previous_of, prune_of, queue_add_of, queue_move_of, queue_scramble_of, queue_tracks_of, quit_of,
    remembered, reports, requeued, rescan_of, restore_of, restore_policy_of, restore_queue_of,
    restore_rules_of, restored_loop, restored_repeat, seek_relative_of, seeded, set_layout_of,
    set_loop_of, set_paused_of, set_policy_of, set_queue_of, set_repeat_of, set_shuffle_of,
    shut_all_of, settled, shown_status, stage_path_of, staged_of, start_track_of, status_of,
    stop_of, tell_all_of, tells, tick_of, toggle_paused_of, toggle_video_of, vanished, wonders,
    Action, ActionView, Answer, EngineCall, PlayerView, Run, SettingKey, StatusView,
};
use crate::queue::{Queue, QueueView, RepeatMode};
use crate::resume::{should_store, start_at};
use crate::script::{Outcome, Progress, Script};
use crate::selection::{EnginePolicy, EngineRegistry, RegistryView};
use crate::text::{
    add_chars, add_text, chars_of, join, join_texts, reads, split_at_char, string_of, text_view,
    texts, trim, views,
};
use crate::track::{is_media_file, Track};

verus! {

/// Why a run stops before its end.
pub enum Halt {
    Ask(Action),
    Failed(CoreError),
}

/// A step of a run.
pub type Step<T> = Result<T, Halt>;

/// How far a step came, in terms of views.
pub open spec fn came_to<T>(r: Step<T>) -> Progress<ActionView, T, ErrorView> {
    match r {
        Ok(t) => Progress::Done(t),
        Err(Halt::Ask(a)) => Progress::Ask(a@),
        Err(Halt::Failed(e)) => Progress::Failed(e@),
    }
}

/// A step, with the state and the place it leaves.
pub open spec fn stepped<T>(p: PlayerView, at: int, r: Step<T>) -> Run<T> {
    Outcome { state: p, at, end: came_to(r) }
}

/// How often a position is written while playing, in billionths of a second.
/// Frequent enough that a crash costs seconds, rare enough not to wake the disk
/// all the time.
pub const RESUME_WRITE_INTERVAL_NANOS: i128 = 15_000_000_000;

/// What is shown of the player.
#[derive(Debug, PartialEq)]
pub struct PlayerStatus {
    pub track: Option<Track>,
    pub position_secs: Option<Fixed>,
    pub duration_secs: Option<Fixed>,
    pub paused: bool,
    pub idle: bool,
    pub has_video: bool,
    pub video_visible: bool,
    pub queue_len: usize,
    pub queue_index: Option<usize>,
    pub repeat: RepeatMode,
    pub shuffle: bool,
    /// Queue positions playback is confined to; empty when it is not.
    pub loop_positions: Vec<usize>,
    pub engine_id: Option<String>,
}

impl View for PlayerStatus {
    type V = StatusView;

    open spec fn view(&self) -> StatusView {
        StatusView {
            track: self.track,
            position_secs: self.position_secs,
            duration_secs: self.duration_secs,
            paused: self.paused,
            idle: self.idle,
            has_video: self.has_video,
            video_visible: self.video_visible,
            queue_len: self.queue_len as nat,
            queue_index: self.queue_index,
            repeat: self.repeat,
            shuffle: self.shuffle,
            loop_positions: self.loop_positions@,
            engine_id: text_view(self.engine_id),
        }
    }
}

/// A step that ends in a list of tracks.
pub open spec fn listed(p: PlayerView, at: int, r: Step<Vec<Track>>) -> Run<Seq<Track>> {
    Outcome {
        state: p,
        at,
        end: match r {
            Ok(tracks) => Progress::Done(tracks@),
            Err(Halt::Ask(a)) => Progress::Ask(a@),
            Err(Halt::Failed(e)) => Progress::Failed(e@),
        },
    }
}

/// A step that ends in what is shown of the player.
pub open spec fn status_seen(p: PlayerView, at: int, r: Step<PlayerStatus>) -> Run<StatusView> {
    Outcome {
        state: p,
        at,
        end: match r {
            Ok(status) => Progress::Done(status@),
            Err(Halt::Ask(a)) => Progress::Ask(a@),
            Err(Halt::Failed(e)) => Progress::Failed(e@),
        },
    }
}

/// The positions in a slice, if there is one.
pub open spec fn slice_view(positions: Option<&[usize]>) -> Option<Seq<usize>> {
    match positions {
        Some(p) => Some(p@),
        None => None,
    }
}

/// Whether a step waits for its host.
pub open spec fn waiting<T>(r: Step<T>) -> bool {
    r matches Err(Halt::Ask(_))
}

/// An operation that waits for its host has changed nothing. One that has come to
/// an end leaves what its run leaves.
pub open spec fn committed(
    before: PlayerView,
    after: PlayerView,
    ran: PlayerView,
    waits: bool,
) -> bool {
    after == if waits {
        before
    } else {
        ran
    }
}

/// The player.
pub struct Player {
    queue: Queue,
    current: Option<Track>,
    active: Option<usize>,
    last_written: Fixed,
    registry: EngineRegistry,
}

impl View for Player {
    type V = PlayerView;

    closed spec fn view(&self) -> PlayerView {
        PlayerView {
            queue: self.queue@,
            current: self.current,
            active: self.active,
            last_written: self.last_written,
            registry: self.registry@,
        }
    }
}

/// A player that has restored nothing yet.
pub open spec fn fresh(registry: RegistryView) -> PlayerView {
    PlayerView {
        queue: QueueView::fresh(),
        current: None,
        active: None,
        last_written: Fixed::NaN,
        registry,
    }
}

/// The positions in a list, if there is one.
pub open spec fn vec_view(positions: Option<Vec<usize>>) -> Option<Seq<usize>> {
    match positions {
        Some(p) => Some(p@),
        None => None,
    }
}

pub(crate) fn waits<T>(r: &Step<T>) -> (w: bool)
    ensures
        w == waiting(*r),
{
    match r {
        Err(Halt::Ask(_)) => true,
        _ => false,
    }
}

pub(crate) fn misfit_error() -> (r: CoreError)
    ensures
        r@ == misfit(),
{
    CoreError::Internal { message: "the answer does not fit the request".to_owned() }
}

pub(crate) fn ask<'a>(script: &mut Script<'a, Answer>, action: Action) -> (r: Step<&'a Answer>)
    ensures
        final(script).said() == old(script).said(),
        match r {
            Ok(answer) => 0 <= old(script).place() < old(script).said().len() && *answer
                == old(script).said()[old(script).place()] && final(script).place()
                == old(script).place() + 1,
            Err(Halt::Ask(a)) => a@ == action@ && !(0 <= old(script).place()
                < old(script).said().len()) && final(script).place() == old(script).place(),
            Err(Halt::Failed(e)) => false,
        },
{
    match script.next_answer() {
        Some(answer) => Ok(answer),
        None => Err(Halt::Ask(action)),
    }
}

/// What an answer of another kind comes to.
pub(crate) fn other_than(answer: &Answer) -> (r: Halt)
    ensures
        match *answer {
            Answer::Failed(e) => r == Halt::Failed(e),
            _ => r matches Halt::Failed(e) && e@ == misfit(),
        },
{
    match answer {
        Answer::Failed(e) => Halt::Failed(e.clone()),
        _ => Halt::Failed(misfit_error()),
    }
}

/// The positions as they are stored.
fn positions_text(set: &[usize]) -> (r: String)
    ensures
        r@ == loop_text(Some(set@)),
{
    let mut parts: Vec<Vec<char>> = Vec::new();
    let mut i: usize = 0;
    let ghost wanted = Seq::new(set@.len(), |i: int| digits(set@[i] as nat));
    while i < set.len()
        invariant
            i <= set@.len(),
            wanted == Seq::new(set@.len(), |i: int| digits(set@[i] as nat)),
            views(parts@) == wanted.take(i as int),
        decreases set@.len() - i,
    {
        let ghost before = parts@;
        parts.push(print(set[i] as u128));
        proof {
            assert(views(parts@) =~= views(before).push(digits(set@[i as int] as nat)));
            assert(wanted.take(i as int + 1) =~= wanted.take(i as int).push(wanted[i as int]));
        }
        i = i + 1;
    }
    assert(wanted.take(i as int) =~= wanted);
    let out = join(&parts, ",");
    string_of(out.as_slice())
}

/// The positions that a stored text names.
fn read_positions(text: &str) -> (r: Vec<usize>)
    ensures
        r@ == loop_of(text@),
{
    let chars = chars_of(text);
    let parts = split_at_char(chars.as_slice(), ',');
    let ghost all = views(parts@);
    let mut out: Vec<usize> = Vec::new();
    let mut i: usize = 0;
    while i < parts.len()
        invariant
            i <= parts@.len(),
            all == views(parts@),
            out@ == positions_of(all.take(i as int)),
        decreases parts@.len() - i,
    {
        proof {
            assert(all.take(i as int + 1).drop_last() =~= all.take(i as int));
            assert(all.take(i as int + 1).last() == parts@[i as int]@);
        }
        match parse_upto(trim(parts[i].as_slice()), usize::MAX as u64) {
            Some(n) => out.push(n as usize),
            None => {},
        }
        i = i + 1;
    }
    assert(all.take(i as int) =~= all);
    out
}

fn copy_ids(ids: &[i64]) -> (r: Vec<i64>)
    ensures
        r@ == ids@,
{
    vstd::slice::slice_to_vec(ids)
}

fn copy_positions(set: &[usize]) -> (r: Vec<usize>)
    ensures
        r@ == set@,
{
    vstd::slice::slice_to_vec(set)
}

fn copy_tracks(tracks: &Vec<Track>) -> (r: Vec<Track>)
    ensures
        r@ == tracks@,
{
    let mut out: Vec<Track> = Vec::new();
    let mut i: usize = 0;
    while i < tracks.len()
        invariant
            i <= tracks@.len(),
            out@ == tracks@.take(i as int),
        decreases tracks@.len() - i,
    {
        out.push(tracks[i].clone());
        assert(tracks@.take(i as int + 1) =~= tracks@.take(i as int).push(tracks@[i as int]));
        i = i + 1;
    }
    assert(tracks@.take(i as int) =~= tracks@);
    out
}

fn track_ids(tracks: &Vec<Track>) -> (r: Vec<i64>)
    ensures
        r@ == ids_of(tracks@),
{
    let mut out: Vec<i64> = Vec::new();
    let mut i: usize = 0;
    while i < tracks.len()
        invariant
            i <= tracks@.len(),
            out@ == ids_of(tracks@).take(i as int),
        decreases tracks@.len() - i,
    {
        out.push(tracks[i].id);
        assert(ids_of(tracks@).take(i as int + 1) =~= ids_of(tracks@).take(i as int).push(
            tracks@[i as int].id,
        ));
        i = i + 1;
    }
    assert(ids_of(tracks@).take(i as int) =~= ids_of(tracks@));
    out
}

fn among(id: i64, ids: &[i64]) -> (r: bool)
    ensures
        r == ids@.contains(id),
{
    let mut i: usize = 0;
    while i < ids.len()
        invariant
            i <= ids@.len(),
            forall|k: int| 0 <= k < i ==> ids@[k] != id,
        decreases ids@.len() - i,
    {
        if ids[i] == id {
            return true;
        }
        i = i + 1;
    }
    false
}

fn all_among(items: &[i64], ids: &[i64]) -> (r: bool)
    ensures
        r == items@.all(|id: i64| ids@.contains(id)),
{
    let mut i: usize = 0;
    while i < items.len()
        invariant
            i <= items@.len(),
            forall|k: int| 0 <= k < i ==> ids@.contains(#[trigger] items@[k]),
        decreases items@.len() - i,
    {
        if !among(items[i], ids) {
            proof {
                let kept = |id: i64| ids@.contains(id);
                assert(!kept(items@[i as int]));
            }
            return false;
        }
        i = i + 1;
    }
    true
}

/// Whether playback has moved far enough for its position to be written again.
fn far_apart(position: Fixed, last: Fixed) -> (r: bool)
    ensures
        r == moved_enough(position, last),
{
    match (position, last) {
        (Fixed::Nanos(a), Fixed::Nanos(b)) => {
            let interval: Fixed = Fixed::Nanos(RESUME_WRITE_INTERVAL_NANOS);
            !less(minus(a, b), interval) || !less(minus(b, a), interval)
        },
        (Fixed::NaN, Fixed::Nanos(_)) => false,
        _ => true,
    }
}

fn full() -> (r: CoreError)
    ensures
        r@ == overfull(),
{
    CoreError::Internal { message: "the queue is full".to_owned() }
}

impl Clone for Player {
    fn clone(&self) -> (r: Self)
        ensures
            r@ == self@,
    {
        Player {
            queue: self.queue.clone(),
            current: match &self.current {
                Some(track) => Some(track.clone()),
                None => None,
            },
            active: self.active,
            last_written: self.last_written,
            registry: self.registry.clone(),
        }
    }
}

impl Player {
    pub(crate) fn run(&self, script: &mut Script<Answer>, action: Action) -> (r: Step<()>)
        ensures
            final(script).said() == old(script).said(),
            stepped(self@, final(script).place(), r) == does(
                self@,
                old(script).said(),
                old(script).place(),
                action@,
            ),
    {
        let answer = ask(script, action)?;
        match answer {
            Answer::Finished => Ok(()),
            _ => Err(other_than(answer)),
        }
    }

    pub(crate) fn wonder(&self, script: &mut Script<Answer>, action: Action) -> (r: Step<bool>)
        ensures
            final(script).said() == old(script).said(),
            stepped(self@, final(script).place(), r) == wonders(
                self@,
                old(script).said(),
                old(script).place(),
                action@,
            ),
    {
        let answer = ask(script, action)?;
        match answer {
            Answer::Flag(b) => Ok(*b),
            _ => Err(other_than(answer)),
        }
    }

    pub(crate) fn report(&self, script: &mut Script<Answer>, action: Action) -> (r: Step<
        ScanReport,
    >)
        ensures
            final(script).said() == old(script).said(),
            stepped(self@, final(script).place(), r) == reports(
                self@,
                old(script).said(),
                old(script).place(),
                action@,
            ),
    {
        let answer = ask(script, action)?;
        match answer {
            Answer::Report(report) => Ok(*report),
            _ => Err(other_than(answer)),
        }
    }

    fn tell(&self, script: &mut Script<Answer>, index: usize, call: EngineCall) -> (r: Step<()>)
        ensures
            final(script).said() == old(script).said(),
            stepped(self@, final(script).place(), r) == tells(
                self@,
                old(script).said(),
                old(script).place(),
                index,
                call,
            ),
    {
        self.run(script, Action::Engine { index, call })
    }

    fn look(&self, script: &mut Script<Answer>, index: usize) -> (r: Step<EngineSnapshot>)
        ensures
            final(script).said() == old(script).said(),
            stepped(self@, final(script).place(), r) == looks(
                self@,
                old(script).said(),
                old(script).place(),
                index,
            ),
    {
        let answer = ask(script, Action::Engine { index, call: EngineCall::Snapshot })?;
        match answer {
            Answer::Snapshot(s) => Ok(s.clone()),
            _ => Err(other_than(answer)),
        }
    }

    fn find(&self, script: &mut Script<Answer>, action: Action) -> (r: Step<Option<Track>>)
        ensures
            final(script).said() == old(script).said(),
            stepped(self@, final(script).place(), r) == finds(
                self@,
                old(script).said(),
                old(script).place(),
                action@,
            ),
    {
        let answer = ask(script, action)?;
        match answer {
            Answer::Track(Some(t)) => Ok(Some(t.clone())),
            Answer::Track(None) => Ok(None),
            _ => Err(other_than(answer)),
        }
    }

    fn fresh_seed(&self, script: &mut Script<Answer>) -> (r: Step<u64>)
        ensures
            final(script).said() == old(script).said(),
            stepped(self@, final(script).place(), r) == seeded(
                self@,
                old(script).said(),
                old(script).place(),
            ),
    {
        let answer = ask(script, Action::Seed)?;
        match answer {
            Answer::Seed(s) => Ok(*s),
            _ => Err(other_than(answer)),
        }
    }

    fn setting(&self, script: &mut Script<Answer>, key: SettingKey) -> (r: Step<Option<String>>)
        ensures
            final(script).said() == old(script).said(),
            stepped(self@, final(script).place(), r) == settled(
                self@,
                old(script).said(),
                old(script).place(),
                key,
            ),
    {
        let answer = ask(script, Action::Setting(key))?;
        match answer {
            Answer::Text(Some(t)) => Ok(Some(t.clone())),
            Answer::Text(None) => Ok(None),
            _ => Err(other_than(answer)),
        }
    }

    pub(crate) fn stored_position(
        &self,
        script: &mut Script<Answer>,
        id: i64,
    ) -> (r: Step<Option<Fixed>>)
        ensures
            final(script).said() == old(script).said(),
            stepped(self@, final(script).place(), r) == remembered(
                self@,
                old(script).said(),
                old(script).place(),
                id,
            ),
    {
        let answer = ask(script, Action::ResumeFor(id))?;
        match answer {
            Answer::Position(s) => Ok(*s),
            _ => Err(other_than(answer)),
        }
    }

    /// The engine to address.
    fn engine(&self) -> (r: Step<usize>)
        ensures
            forall|at: int| stepped(self@, at, r) == #[trigger] addressed(self@, at),
    {
        match self.active {
            Some(i) => Ok(i),
            None => Err(Halt::Failed(CoreError::NothingPlaying)),
        }
    }

    fn do_persist_resume(&mut self, script: &mut Script<Answer>) -> (r: Step<()>)
        requires
            old(self)@.wf(),
        ensures
            final(self)@.wf(),
            final(script).said() == old(script).said(),
            stepped(final(self)@, final(script).place(), r) == persist_resume_of(
                old(self)@,
                old(script).said(),
                old(script).place(),
            ),
    {
        let i: usize = match self.active {
            Some(i) => i,
            None => {
                return Ok(());
            },
        };
        let snap = self.look(script, i)?;
        let position: Fixed = match snap.position_secs {
            Some(position) => position,
            None => {
                return Ok(());
            },
        };
        let (id, indexed): (i64, Option<Fixed>) = match &self.current {
            Some(track) => (track.id, track.duration_secs),
            None => {
                return Ok(());
            },
        };
        let duration: Option<Fixed> = match snap.duration_secs {
            Some(d) => Some(d),
            None => indexed,
        };
        if should_store(position, duration) {
            self.run(script, Action::SetResume(id, position))?;
            self.last_written = position;
        }
        Ok(())
    }

    pub(crate) fn persist_rules(&self, script: &mut Script<Answer>) -> (r: Step<()>)
        ensures
            final(script).said() == old(script).said(),
            stepped(self@, final(script).place(), r) == persist_rules_of(
                self@,
                old(script).said(),
                old(script).place(),
            ),
    {
        let repeat: RepeatMode = self.queue.repeat();
        self.run(
            script,
            Action::SetSetting { key: SettingKey::Repeat, value: repeat.as_str().to_owned() },
        )?;
        let value = match self.queue.loop_set() {
            Some(set) => positions_text(set),
            None => String::new(),
        };
        assert(value@ =~= loop_text(self@.queue.loop_set));
        self.run(script, Action::SetSetting { key: SettingKey::Loop, value })
    }

    pub(crate) fn persist_queue(&self, script: &mut Script<Answer>) -> (r: Step<()>)
        ensures
            final(script).said() == old(script).said(),
            stepped(self@, final(script).place(), r) == persist_queue_of(
                self@,
                old(script).said(),
                old(script).place(),
            ),
    {
        let items = copy_ids(self.queue.items());
        let current: Option<usize> = self.queue.current_index();
        self.run(script, Action::SaveQueue { items, current })?;
        self.persist_rules(script)
    }

    fn leave(&self, script: &mut Script<Answer>, next: usize) -> (r: Step<()>)
        requires
            self@.wf(),
            next < self@.registry.engines.len(),
        ensures
            final(script).said() == old(script).said(),
            stepped(self@, final(script).place(), r) == leave_of(
                self@,
                old(script).said(),
                old(script).place(),
                next as int,
            ),
    {
        match self.active {
            Some(i) => {
                let here = self.registry.id_of(i);
                let there = self.registry.id_of(next);
                if here == there {
                    return Ok(());
                }
                ask(script, Action::Engine { index: i, call: EngineCall::Stop })?;
                Ok(())
            },
            None => Ok(()),
        }
    }

    fn load_on(
        &mut self,
        script: &mut Script<Answer>,
        track: &Track,
        engine: usize,
    ) -> (r: Step<()>)
        requires
            old(self)@.wf(),
            engine < old(self)@.registry.engines.len(),
        ensures
            final(self)@.wf(),
            final(script).said() == old(script).said(),
            stepped(final(self)@, final(script).place(), r) == load_of(
                old(self)@,
                old(script).said(),
                old(script).place(),
                *track,
                engine as int,
            ),
    {
        self.leave(script, engine)?;
        let stored: Option<Fixed> = self.stored_position(script, track.id)?;
        let start: Option<Fixed> = start_at(stored, track.duration_secs);
        self.tell(
            script,
            engine,
            EngineCall::Load { path: track.path.clone(), start_at: start },
        )?;
        self.run(script, Action::MarkPlayed(track.id))?;
        self.active = Some(engine);
        self.current = Some(track.clone());
        self.last_written = match start {
            Some(s) => s,
            None => Fixed::Nanos(0),
        };
        Ok(())
    }

    fn play_track(
        &mut self,
        script: &mut Script<Answer>,
        track: &Track,
        restart: bool,
    ) -> (r: Step<()>)
        requires
            old(self)@.wf(),
        ensures
            final(self)@.wf(),
            final(script).said() == old(script).said(),
            stepped(final(self)@, final(script).place(), r) == play_track_of(
                old(self)@,
                old(script).said(),
                old(script).place(),
                *track,
                restart,
            ),
    {
        self.do_persist_resume(script)?;
        if restart {
            self.run(script, Action::ClearResume(track.id))?;
        }
        match self.registry.select_for(track.path.as_str()) {
            Ok(engine) => self.load_on(script, track, engine),
            Err(e) => Err(Halt::Failed(e)),
        }
    }

    fn choose_row(&mut self, script: &mut Script<Answer>, id: i64) -> (r: Step<()>)
        requires
            old(self)@.wf(),
        ensures
            final(self)@.wf(),
            final(script).said() == old(script).said(),
            stepped(final(self)@, final(script).place(), r) == choose_row_of(
                old(self)@,
                old(script).said(),
                old(script).place(),
                id,
            ),
    {
        if self.queue.select_track(id) {
            return Ok(());
        }
        proof {
            old(self)@.queue.items.index_of_first_ensures(id);
            assert(self@ =~= old(self)@);
        }
        if self.queue.len() == usize::MAX {
            return Err(Halt::Failed(full()));
        }
        let s: u64 = self.fresh_seed(script)?;
        let ghost before = self@;
        let mut one: Vec<i64> = Vec::new();
        one.push(id);
        assert(one@ =~= seq![id]);
        self.queue.extend_seeded(one, s);
        self.queue.select_track(id);
        assert(self@ =~= before.with_queue(before.queue.extended(seq![id], s).selected(id)));
        Ok(())
    }

    pub(crate) fn start_track(
        &mut self,
        script: &mut Script<Answer>,
        id: i64,
        restart: bool,
    ) -> (r: Step<Track>)
        requires
            old(self)@.wf(),
        ensures
            final(self)@.wf(),
            final(script).said() == old(script).said(),
            stepped(final(self)@, final(script).place(), r) == start_track_of(
                old(self)@,
                old(script).said(),
                old(script).place(),
                id,
                restart,
            ),
    {
        let track = match self.find(script, Action::TrackById(id))? {
            Some(track) => track,
            None => {
                let query = print_signed(id);
                return Err(
                    Halt::Failed(CoreError::NoMatch { query: string_of(query.as_slice()) }),
                );
            },
        };
        self.choose_row(script, id)?;
        self.persist_queue(script)?;
        self.play_track(script, &track, restart)?;
        Ok(track)
    }

    fn index_file(&self, script: &mut Script<Answer>, path: &String) -> (r: Step<i64>)
        ensures
            final(script).said() == old(script).said(),
            stepped(self@, final(script).place(), r) == index_of(
                self@,
                old(script).said(),
                old(script).place(),
                path@,
            ),
    {
        let answer = ask(script, Action::Stat(path.clone()))?;
        let file = match answer {
            Answer::File(file) => file.clone(),
            _ => {
                return Err(other_than(answer));
            },
        };
        let answer = ask(script, Action::Probe(path.clone()))?;
        let probed = match answer {
            Answer::Probed(probed) => probed.clone(),
            _ => {
                return Err(other_than(answer));
            },
        };
        let answer = ask(script, Action::Upsert { file, probed })?;
        match answer {
            Answer::Id(id) => Ok(*id),
            _ => Err(other_than(answer)),
        }
    }

    pub(crate) fn indexed(&self, script: &mut Script<Answer>, path: &str) -> (r: Step<Track>)
        ensures
            final(script).said() == old(script).said(),
            stepped(self@, final(script).place(), r) == ensure_indexed_of(
                self@,
                old(script).said(),
                old(script).place(),
                path@,
            ),
    {
        let answer = ask(script, Action::Canonical(path.to_owned()))?;
        let canonical = match answer {
            Answer::Path(p) => p.clone(),
            _ => {
                return Err(other_than(answer));
            },
        };
        if !is_media_file(canonical.as_str()) {
            return Err(Halt::Failed(CoreError::NotMedia { path: canonical }));
        }
        match self.find(script, Action::TrackByPath(canonical.clone()))? {
            Some(track) => {
                return Ok(track);
            },
            None => {},
        }
        let id: i64 = self.index_file(script, &canonical)?;
        match self.find(script, Action::TrackById(id))? {
            Some(track) => Ok(track),
            None => Err(
                Halt::Failed(
                    CoreError::Internal {
                        message: "track vanished immediately after indexing".to_owned(),
                    },
                ),
            ),
        }
    }

    pub(crate) fn found(&self, script: &mut Script<Answer>, query: &str) -> (r: Step<Track>)
        ensures
            final(script).said() == old(script).said(),
            stepped(self@, final(script).place(), r) == find_track_of(
                self@,
                old(script).said(),
                old(script).place(),
                query@,
            ),
    {
        match self.find(script, Action::Search(query.to_owned()))? {
            Some(track) => Ok(track),
            None => Err(Halt::Failed(CoreError::NoMatch { query: query.to_owned() })),
        }
    }

    fn replace_queue(
        &mut self,
        script: &mut Script<Answer>,
        ids: Vec<i64>,
        start: Option<usize>,
    ) -> (r: Step<()>)
        requires
            old(self)@.wf(),
        ensures
            final(self)@.wf(),
            final(script).said() == old(script).said(),
            stepped(final(self)@, final(script).place(), r) == set_queue_of(
                old(self)@,
                old(script).said(),
                old(script).place(),
                ids@,
                start,
            ),
    {
        let s: u64 = self.fresh_seed(script)?;
        let ghost before = self@;
        self.queue.replace_seeded(ids, start, s);
        assert(self@ =~= before.with_queue(before.queue.replaced(ids@, start, s)));
        self.persist_queue(script)
    }

    fn do_play_path(&mut self, script: &mut Script<Answer>, path: &str) -> (r: Step<Track>)
        requires
            old(self)@.wf(),
        ensures
            final(self)@.wf(),
            final(script).said() == old(script).said(),
            stepped(final(self)@, final(script).place(), r) == play_path_of(
                old(self)@,
                old(script).said(),
                old(script).place(),
                path@,
            ),
    {
        let track = self.indexed(script, path)?;
        let mut ids: Vec<i64> = Vec::new();
        ids.push(track.id);
        assert(ids@ =~= seq![track.id]);
        self.replace_queue(script, ids, Some(0))?;
        self.play_track(script, &track, false)?;
        Ok(track)
    }

    pub(crate) fn do_set_paused(
        &mut self,
        script: &mut Script<Answer>,
        paused: bool,
    ) -> (r: Step<()>)
        requires
            old(self)@.wf(),
        ensures
            final(self)@.wf(),
            final(script).said() == old(script).said(),
            stepped(final(self)@, final(script).place(), r) == set_paused_of(
                old(self)@,
                old(script).said(),
                old(script).place(),
                paused,
            ),
    {
        let i: usize = self.engine()?;
        self.tell(script, i, EngineCall::SetPaused(paused))?;
        self.do_persist_resume(script)
    }

    pub(crate) fn do_toggle_paused(&mut self, script: &mut Script<Answer>) -> (r: Step<bool>)
        requires
            old(self)@.wf(),
        ensures
            final(self)@.wf(),
            final(script).said() == old(script).said(),
            stepped(final(self)@, final(script).place(), r) == toggle_paused_of(
                old(self)@,
                old(script).said(),
                old(script).place(),
            ),
    {
        let i: usize = self.engine()?;
        let snap = self.look(script, i)?;
        self.tell(script, i, EngineCall::SetPaused(!snap.paused))?;
        self.do_persist_resume(script)?;
        Ok(!snap.paused)
    }

    pub(crate) fn do_stop(&mut self, script: &mut Script<Answer>) -> (r: Step<()>)
        requires
            old(self)@.wf(),
        ensures
            final(self)@.wf(),
            final(script).said() == old(script).said(),
            stepped(final(self)@, final(script).place(), r) == stop_of(
                old(self)@,
                old(script).said(),
                old(script).place(),
            ),
    {
        self.do_persist_resume(script)?;
        match self.active {
            Some(i) => self.tell(script, i, EngineCall::Stop)?,
            None => {},
        }
        self.current = None;
        self.last_written = Fixed::NaN;
        Ok(())
    }

    fn play_or_stop(
        &mut self,
        script: &mut Script<Answer>,
        id: Option<i64>,
    ) -> (r: Step<Option<Track>>)
        requires
            old(self)@.wf(),
        ensures
            final(self)@.wf(),
            final(script).said() == old(script).said(),
            stepped(final(self)@, final(script).place(), r) == play_or_stop_of(
                old(self)@,
                old(script).said(),
                old(script).place(),
                id,
            ),
    {
        match id {
            Some(id) => match self.find(script, Action::TrackById(id))? {
                Some(track) => {
                    self.play_track(script, &track, false)?;
                    Ok(Some(track))
                },
                None => {
                    let number = print_signed(id);
                    let mut out = chars_of("queued track ");
                    add_chars(&mut out, number.as_slice());
                    add_text(&mut out, " is no longer in the library");
                    Err(
                        Halt::Failed(CoreError::Internal { message: string_of(out.as_slice()) }),
                    )
                },
            },
            None => {
                self.do_stop(script)?;
                Ok(None)
            },
        }
    }

    pub(crate) fn do_next(&mut self, script: &mut Script<Answer>) -> (r: Step<Option<Track>>)
        requires
            old(self)@.wf(),
        ensures
            final(self)@.wf(),
            final(script).said() == old(script).said(),
            stepped(final(self)@, final(script).place(), r) == next_of(
                old(self)@,
                old(script).said(),
                old(script).place(),
            ),
    {
        self.do_persist_resume(script)?;
        let ghost before = self@;
        let id: Option<i64> = self.queue.next();
        assert(self@ =~= before.with_queue(
            before.queue.gone_to(before.queue.next_position()),
        ));
        self.persist_queue(script)?;
        self.play_or_stop(script, id)
    }

    pub(crate) fn do_previous(&mut self, script: &mut Script<Answer>) -> (r: Step<Option<Track>>)
        requires
            old(self)@.wf(),
        ensures
            final(self)@.wf(),
            final(script).said() == old(script).said(),
            stepped(final(self)@, final(script).place(), r) == previous_of(
                old(self)@,
                old(script).said(),
                old(script).place(),
            ),
    {
        self.do_persist_resume(script)?;
        let ghost before = self@;
        let id: Option<i64> = self.queue.previous();
        assert(self@ =~= before.with_queue(
            before.queue.gone_to(before.queue.previous_position()),
        ));
        self.persist_queue(script)?;
        self.play_or_stop(script, id)
    }

    pub(crate) fn command(&self, script: &mut Script<Answer>, call: EngineCall) -> (r: Step<()>)
        ensures
            final(script).said() == old(script).said(),
            stepped(self@, final(script).place(), r) == command_of(
                self@,
                old(script).said(),
                old(script).place(),
                call,
            ),
    {
        let i: usize = self.engine()?;
        self.tell(script, i, call)
    }

    pub(crate) fn do_seek_relative(
        &self,
        script: &mut Script<Answer>,
        delta: Fixed,
    ) -> (r: Step<Fixed>)
        ensures
            final(script).said() == old(script).said(),
            stepped(self@, final(script).place(), r) == seek_relative_of(
                self@,
                old(script).said(),
                old(script).place(),
                delta,
            ),
    {
        let i: usize = self.engine()?;
        let snap = self.look(script, i)?;
        let from: Fixed = match snap.position_secs {
            Some(position) => position,
            None => Fixed::Nanos(0),
        };
        let end: Fixed = match snap.duration_secs {
            Some(d) => d,
            None => Fixed::Nanos(i128::MAX),
        };
        let target: Fixed = min_of(max_of(plus(from, delta), Fixed::Nanos(0)), end);
        self.tell(script, i, EngineCall::SeekAbsolute(target))?;
        Ok(target)
    }

    pub(crate) fn do_toggle_video(&self, script: &mut Script<Answer>) -> (r: Step<bool>)
        ensures
            final(script).said() == old(script).said(),
            stepped(self@, final(script).place(), r) == toggle_video_of(
                self@,
                old(script).said(),
                old(script).place(),
            ),
    {
        let i: usize = self.engine()?;
        let snap = self.look(script, i)?;
        if !snap.has_video {
            return Err(
                Halt::Failed(
                    CoreError::Internal {
                        message: "the current track has no video to pop out".to_owned(),
                    },
                ),
            );
        }
        self.tell(script, i, EngineCall::SetVideoVisible(!snap.video_visible))?;
        Ok(!snap.video_visible)
    }

    fn tell_all(&self, script: &mut Script<Answer>, call: EngineCall) -> (r: Step<()>)
        requires
            self@.wf(),
        ensures
            final(script).said() == old(script).said(),
            stepped(self@, final(script).place(), r) == tell_all_of(
                self@,
                old(script).said(),
                old(script).place(),
                call,
                0,
            ),
    {
        let n: usize = self.registry.len();
        let mut i: usize = 0;
        while i < n
            invariant
                n == self@.registry.engines.len(),
                i <= n,
                script.said() == old(script).said(),
                tell_all_of(self@, script.said(), script.place(), call, i as int) == tell_all_of(
                    self@,
                    old(script).said(),
                    old(script).place(),
                    call,
                    0,
                ),
            decreases n - i,
        {
            self.tell(script, i, call.clone())?;
            i = i + 1;
        }
        Ok(())
    }

    fn layout_setting(&self, script: &mut Script<Answer>) -> (r: Step<Option<VideoWindowLayout>>)
        ensures
            final(script).said() == old(script).said(),
            stepped(self@, final(script).place(), r) == layout_setting_of(
                self@,
                old(script).said(),
                old(script).place(),
            ),
    {
        match self.setting(script, SettingKey::VideoWindow)? {
            Some(text) => Ok(VideoWindowLayout::parse(text.as_str())),
            None => Ok(None),
        }
    }

    fn store_layout(&self, script: &mut Script<Answer>, layout: VideoWindowLayout) -> (r: Step<()>)
        requires
            self@.wf(),
        ensures
            final(script).said() == old(script).said(),
            stepped(self@, final(script).place(), r) == set_layout_of(
                self@,
                old(script).said(),
                old(script).place(),
                layout,
            ),
    {
        self.run(
            script,
            Action::SetSetting { key: SettingKey::VideoWindow, value: layout.as_str() },
        )?;
        self.tell_all(script, EngineCall::SetLayout(layout))
    }

    fn do_begin_placement(&self, script: &mut Script<Answer>) -> (r: Step<Option<u32>>)
        requires
            self@.wf(),
        ensures
            final(script).said() == old(script).said(),
            stepped(self@, final(script).place(), r) == begin_placement_of(
                self@,
                old(script).said(),
                old(script).place(),
                0,
            ),
    {
        let n: usize = self.registry.len();
        let mut i: usize = 0;
        while i < n
            invariant
                n == self@.registry.engines.len(),
                i <= n,
                script.said() == old(script).said(),
                begin_placement_of(self@, script.said(), script.place(), i as int)
                    == begin_placement_of(self@, old(script).said(), old(script).place(), 0),
            decreases n - i,
        {
            let answer = ask(
                script,
                Action::Engine { index: i, call: EngineCall::BeginPlacement },
            )?;
            match answer {
                Answer::Process(Some(pid)) => {
                    return Ok(Some(*pid));
                },
                Answer::Process(None) => {},
                _ => {
                    return Err(other_than(answer));
                },
            }
            i = i + 1;
        }
        Ok(None)
    }

    pub(crate) fn do_queue_add(
        &mut self,
        script: &mut Script<Answer>,
        ids: Vec<i64>,
    ) -> (r: Step<()>)
        requires
            old(self)@.wf(),
        ensures
            final(self)@.wf(),
            final(script).said() == old(script).said(),
            stepped(final(self)@, final(script).place(), r) == queue_add_of(
                old(self)@,
                old(script).said(),
                old(script).place(),
                ids@,
            ),
    {
        if ids.len() > usize::MAX - self.queue.len() {
            return Err(Halt::Failed(full()));
        }
        let s: u64 = self.fresh_seed(script)?;
        let ghost before = self@;
        self.queue.extend_seeded(ids, s);
        assert(self@ =~= before.with_queue(before.queue.extended(ids@, s)));
        self.persist_queue(script)
    }

    fn folder_tracks(&self, script: &mut Script<Answer>, path: &str) -> (r: Step<Vec<Track>>)
        ensures
            final(script).said() == old(script).said(),
            listed(self@, final(script).place(), r) == folder_tracks_of(
                self@,
                old(script).said(),
                old(script).place(),
                path@,
            ),
    {
        let answer = ask(script, Action::Canonical(path.to_owned()))?;
        let root = match answer {
            Answer::Path(root) => root.clone(),
            _ => {
                return Err(other_than(answer));
            },
        };
        let _ = self.report(script, Action::ScanFolder(root.clone()))?;
        let answer = ask(script, Action::TracksUnder(root.clone()))?;
        match answer {
            Answer::Tracks(found) => if found.len() == 0 {
                Err(Halt::Failed(CoreError::NoMatch { query: root }))
            } else {
                Ok(copy_tracks(found))
            },
            _ => Err(other_than(answer)),
        }
    }

    fn staged(&self, script: &mut Script<Answer>, path: &str) -> (r: Step<Vec<Track>>)
        ensures
            final(script).said() == old(script).said(),
            listed(self@, final(script).place(), r) == staged_of(
                self@,
                old(script).said(),
                old(script).place(),
                path@,
            ),
    {
        let answer = ask(script, Action::IsFolder(path.to_owned()))?;
        match answer {
            Answer::Flag(folder) => if *folder {
                self.folder_tracks(script, path)
            } else {
                let track = self.indexed(script, path)?;
                let mut one: Vec<Track> = Vec::new();
                one.push(track);
                assert(one@ =~= seq![track]);
                Ok(one)
            },
            _ => Err(other_than(answer)),
        }
    }

    fn do_stage_path(&mut self, script: &mut Script<Answer>, path: &str) -> (r: Step<Vec<Track>>)
        requires
            old(self)@.wf(),
        ensures
            final(self)@.wf(),
            final(script).said() == old(script).said(),
            listed(final(self)@, final(script).place(), r) == stage_path_of(
                old(self)@,
                old(script).said(),
                old(script).place(),
                path@,
            ),
    {
        let tracks = self.staged(script, path)?;
        if tracks.len() > usize::MAX - self.queue.len() {
            return Err(Halt::Failed(full()));
        }
        let s: u64 = self.fresh_seed(script)?;
        let ghost before = self@;
        let ids = track_ids(&tracks);
        self.queue.insert_front_seeded(ids, s);
        assert(self@ =~= before.with_queue(before.queue.staged(ids_of(tracks@), s)));
        self.persist_queue(script)?;
        Ok(tracks)
    }

    fn do_queue_move(
        &mut self,
        script: &mut Script<Answer>,
        from: usize,
        to: usize,
    ) -> (r: Step<bool>)
        requires
            old(self)@.wf(),
        ensures
            final(self)@.wf(),
            final(script).said() == old(script).said(),
            stepped(final(self)@, final(script).place(), r) == queue_move_of(
                old(self)@,
                old(script).said(),
                old(script).place(),
                from,
                to,
            ),
    {
        if !self.queue.can_move(from, to) {
            return Ok(false);
        }
        let s: u64 = self.fresh_seed(script)?;
        let ghost before = self@;
        self.queue.move_item_seeded(from, to, s);
        assert(self@ =~= before.with_queue(before.queue.moved(from, to, s)));
        self.persist_queue(script)?;
        Ok(true)
    }

    fn do_queue_scramble(
        &mut self,
        script: &mut Script<Answer>,
        positions: Option<&[usize]>,
    ) -> (r: Step<()>)
        requires
            old(self)@.wf(),
        ensures
            final(self)@.wf(),
            final(script).said() == old(script).said(),
            stepped(final(self)@, final(script).place(), r) == queue_scramble_of(
                old(self)@,
                old(script).said(),
                old(script).place(),
                slice_view(positions),
            ),
    {
        let s: u64 = self.fresh_seed(script)?;
        let t: u64 = self.fresh_seed(script)?;
        let ghost before = self@;
        self.queue.scramble_seeded(positions, s, t);
        assert(self@ =~= before.with_queue(
            before.queue.scrambled(slice_view(positions), s, t),
        ));
        self.persist_queue(script)
    }

    pub(crate) fn do_set_shuffle(&mut self, script: &mut Script<Answer>, on: bool) -> (r: Step<()>)
        requires
            old(self)@.wf(),
        ensures
            final(self)@.wf(),
            final(script).said() == old(script).said(),
            stepped(final(self)@, final(script).place(), r) == set_shuffle_of(
                old(self)@,
                old(script).said(),
                old(script).place(),
                on,
            ),
    {
        let s: u64 = self.fresh_seed(script)?;
        let ghost before = self@;
        self.queue.set_shuffle_seeded(on, s);
        assert(self@ =~= before.with_queue(before.queue.with_shuffle(on, s)));
        let value = if on {
            "on".to_owned()
        } else {
            "off".to_owned()
        };
        self.run(script, Action::SetSetting { key: SettingKey::Shuffle, value })
    }

    fn do_prune(&mut self, script: &mut Script<Answer>) -> (r: Step<bool>)
        requires
            old(self)@.wf(),
        ensures
            final(self)@.wf(),
            final(script).said() == old(script).said(),
            stepped(final(self)@, final(script).place(), r) == prune_of(
                old(self)@,
                old(script).said(),
                old(script).place(),
            ),
    {
        if self.queue.len() == 0 {
            return Ok(false);
        }
        let items = copy_ids(self.queue.items());
        let answer = ask(script, Action::ExistingTracks(items))?;
        let alive = match answer {
            Answer::Ids(alive) => alive,
            _ => {
                return Err(other_than(answer));
            },
        };
        if all_among(self.queue.items(), alive.as_slice()) {
            return Ok(false);
        }
        let s: u64 = self.fresh_seed(script)?;
        let ghost before = self@;
        self.queue.retain_seeded(alive.as_slice(), s);
        assert(self@ =~= before.with_queue(before.queue.pruned(alive@, s)));
        self.persist_queue(script)?;
        Ok(true)
    }

    fn do_rescan(&mut self, script: &mut Script<Answer>) -> (r: Step<ScanReport>)
        requires
            old(self)@.wf(),
        ensures
            final(self)@.wf(),
            final(script).said() == old(script).said(),
            stepped(final(self)@, final(script).place(), r) == rescan_of(
                old(self)@,
                old(script).said(),
                old(script).place(),
            ),
    {
        let answer = ask(script, Action::ScanLibrary)?;
        match answer {
            Answer::Report(report) => {
                if report.removed > 0 {
                    self.do_prune(script)?;
                }
                Ok(*report)
            },
            _ => Err(other_than(answer)),
        }
    }

    pub(crate) fn do_set_repeat(&mut self, script: &mut Script<Answer>, mode: RepeatMode) -> (r:
        Step<()>)
        requires
            old(self)@.wf(),
        ensures
            final(self)@.wf(),
            final(script).said() == old(script).said(),
            stepped(final(self)@, final(script).place(), r) == set_repeat_of(
                old(self)@,
                old(script).said(),
                old(script).place(),
                mode,
            ),
    {
        let ghost before = self@;
        self.queue.set_repeat(mode);
        assert(self@ =~= before.with_queue(before.queue.with_repeat(mode)));
        self.persist_rules(script)
    }

    pub(crate) fn do_queue_clear(&mut self, script: &mut Script<Answer>) -> (r: Step<()>)
        requires
            old(self)@.wf(),
        ensures
            final(self)@.wf(),
            final(script).said() == old(script).said(),
            stepped(final(self)@, final(script).place(), r) == requeued(
                old(self)@,
                old(script).said(),
                old(script).place(),
                old(self)@.queue.cleared(),
            ),
    {
        let ghost before = self@;
        self.queue.clear();
        assert(self@ =~= before.with_queue(before.queue.cleared()));
        self.persist_queue(script)
    }

    pub(crate) fn do_queue_tracks(&self, script: &mut Script<Answer>) -> (r: Step<Vec<Track>>)
        requires
            self@.wf(),
        ensures
            final(script).said() == old(script).said(),
            listed(self@, final(script).place(), r) == queue_tracks_of(
                self@,
                old(script).said(),
                old(script).place(),
                0,
            ),
    {
        let mut tracks: Vec<Track> = Vec::new();
        let items = self.queue.items();
        let mut i: usize = 0;
        proof {
            let whole = queue_tracks_of(self@, script.said(), script.place(), 0);
            if let Progress::Done(rest) = whole.end {
                assert(tracks@ + rest =~= rest);
            }
        }
        while i < items.len()
            invariant
                items@ == self@.queue.items,
                i <= items@.len(),
                script.said() == old(script).said(),
                prefixed(
                    tracks@,
                    queue_tracks_of(self@, script.said(), script.place(), i as int),
                ) == queue_tracks_of(self@, old(script).said(), old(script).place(), 0),
            decreases items@.len() - i,
        {
            let ghost front = tracks@;
            match self.find(script, Action::TrackById(items[i]))? {
                Some(track) => {
                    tracks.push(track);
                    proof {
                        let after = queue_tracks_of(
                            self@,
                            script.said(),
                            script.place(),
                            i as int + 1,
                        );
                        if let Progress::Done(rest) = after.end {
                            assert(front + (seq![track] + rest) =~= tracks@ + rest);
                        }
                    }
                },
                None => {},
            }
            i = i + 1;
        }
        assert(tracks@ + Seq::<Track>::empty() =~= tracks@);
        Ok(tracks)
    }

    pub(crate) fn do_set_policy(
        &mut self,
        script: &mut Script<Answer>,
        policy: EnginePolicy,
    ) -> (r: Step<()>)
        requires
            old(self)@.wf(),
        ensures
            final(self)@.wf(),
            final(script).said() == old(script).said(),
            stepped(final(self)@, final(script).place(), r) == set_policy_of(
                old(self)@,
                old(script).said(),
                old(script).place(),
                policy@,
            ),
    {
        match &policy {
            EnginePolicy::Force(id) => {
                if self.registry.by_id(id.as_str()).is_none() {
                    let ids = self.registry.ids();
                    let known = join_texts(&ids, ", ");
                    let mut out = chars_of("no engine with id \"");
                    add_text(&mut out, id.as_str());
                    add_text(&mut out, "\" is available (have: ");
                    add_chars(&mut out, known.as_slice());
                    add_text(&mut out, ")");
                    return Err(
                        Halt::Failed(CoreError::Internal { message: string_of(out.as_slice()) }),
                    );
                }
            },
            EnginePolicy::Auto => {},
        }
        self.run(
            script,
            Action::SetSetting { key: SettingKey::EnginePolicy, value: policy.as_str() },
        )?;
        let ghost before = self@;
        self.registry.set_policy(policy);
        assert(self@ =~= (PlayerView {
            registry: RegistryView { policy: policy@, ..before.registry },
            ..before
        }));
        Ok(())
    }

    pub(crate) fn do_status(&self, script: &mut Script<Answer>) -> (r: Step<PlayerStatus>)
        requires
            self@.wf(),
        ensures
            final(script).said() == old(script).said(),
            status_seen(self@, final(script).place(), r) == status_of(
                self@,
                old(script).said(),
                old(script).place(),
            ),
    {
        let snap = match self.active {
            Some(i) => self.look(script, i)?,
            None => EngineSnapshot::default(),
        };
        let track = match (&self.current, &snap.path) {
            (None, Some(path)) => self.find(script, Action::TrackByPath(path.clone()))?,
            (Some(track), _) => Some(track.clone()),
            (None, None) => None,
        };
        let status = self.shown(&snap, track);
        Ok(status)
    }

    fn shown(&self, snap: &EngineSnapshot, track: Option<Track>) -> (r: PlayerStatus)
        requires
            self@.wf(),
        ensures
            r@ == shown_status(self@, *snap, track),
    {
        let (indexed, pictured): (Option<Fixed>, bool) = match &track {
            Some(t) => (t.duration_secs, t.has_video),
            None => (None, false),
        };
        let r = PlayerStatus {
            position_secs: snap.position_secs,
            duration_secs: match snap.duration_secs {
                Some(d) => Some(d),
                None => indexed,
            },
            paused: snap.paused,
            idle: snap.idle || self.active.is_none(),
            has_video: snap.has_video || pictured,
            video_visible: snap.video_visible,
            queue_len: self.queue.len(),
            queue_index: self.queue.current_index(),
            repeat: self.queue.repeat(),
            shuffle: self.queue.shuffle_enabled(),
            loop_positions: match self.queue.loop_set() {
                Some(set) => copy_positions(set),
                None => Vec::new(),
            },
            engine_id: match self.active {
                Some(i) => Some(self.registry.id_of(i)),
                None => None,
            },
            track,
        };
        assert(r@ =~= shown_status(self@, *snap, track));
        r
    }

    fn learn_duration(
        &mut self,
        script: &mut Script<Answer>,
        snap: &EngineSnapshot,
    ) -> (r: Step<()>)
        requires
            old(self)@.wf(),
        ensures
            final(self)@.wf(),
            final(script).said() == old(script).said(),
            stepped(final(self)@, final(script).place(), r) == learn_duration_of(
                old(self)@,
                old(script).said(),
                old(script).place(),
                *snap,
            ),
    {
        let duration: Fixed = match snap.duration_secs {
            Some(d) => d,
            None => {
                return Ok(());
            },
        };
        let track = match &self.current {
            Some(track) => track.clone(),
            None => {
                return Ok(());
            },
        };
        if track.duration_secs.is_some() {
            return Ok(());
        }
        self.run(script, Action::SetDuration(track.id, duration))?;
        self.current = Some(
            Track {
                id: track.id,
                path: track.path,
                size_bytes: track.size_bytes,
                mtime: track.mtime,
                title: track.title,
                artist: track.artist,
                album: track.album,
                duration_secs: Some(duration),
                has_video: track.has_video,
                added_at: track.added_at,
                last_played_at: track.last_played_at,
            },
        );
        Ok(())
    }

    fn follow_resume(&mut self, script: &mut Script<Answer>, snap: &EngineSnapshot) -> (r: Step<()>)
        requires
            old(self)@.wf(),
        ensures
            final(self)@.wf(),
            final(script).said() == old(script).said(),
            stepped(final(self)@, final(script).place(), r) == follow_resume_of(
                old(self)@,
                old(script).said(),
                old(script).place(),
                *snap,
            ),
    {
        let position: Fixed = match snap.position_secs {
            Some(position) => position,
            None => {
                return Ok(());
            },
        };
        let (id, indexed): (i64, Option<Fixed>) = match &self.current {
            Some(track) => (track.id, track.duration_secs),
            None => {
                return Ok(());
            },
        };
        if !far_apart(position, self.last_written) {
            return Ok(());
        }
        let duration: Option<Fixed> = match snap.duration_secs {
            Some(d) => Some(d),
            None => indexed,
        };
        if should_store(position, duration) {
            self.run(script, Action::SetResume(id, position))?;
        } else {
            self.run(script, Action::ClearResume(id))?;
        }
        self.last_written = position;
        Ok(())
    }

    fn end_of_file(&mut self, script: &mut Script<Answer>) -> (r: Step<()>)
        requires
            old(self)@.wf(),
        ensures
            final(self)@.wf(),
            final(script).said() == old(script).said(),
            stepped(final(self)@, final(script).place(), r) == end_of_file_of(
                old(self)@,
                old(script).said(),
                old(script).place(),
            ),
    {
        match &self.current {
            Some(track) => {
                self.run(script, Action::ClearResume(track.id))?;
            },
            None => {},
        }
        let ghost before = self@;
        self.last_written = Fixed::NaN;
        let id: Option<i64> = self.queue.advance_on_eof();
        assert(self@ =~= before.written(Fixed::NaN).with_queue(after_eof(before.queue).0));
        self.persist_queue(script)?;
        match id {
            Some(id) => match self.find(script, Action::TrackById(id))? {
                Some(track) => self.play_track(script, &track, false),
                None => self.do_stop(script),
            },
            None => self.do_stop(script),
        }
    }

    pub(crate) fn do_tick(&mut self, script: &mut Script<Answer>) -> (r: Step<()>)
        requires
            old(self)@.wf(),
        ensures
            final(self)@.wf(),
            final(script).said() == old(script).said(),
            stepped(final(self)@, final(script).place(), r) == tick_of(
                old(self)@,
                old(script).said(),
                old(script).place(),
            ),
    {
        let i: usize = match self.active {
            Some(i) => i,
            None => {
                return Ok(());
            },
        };
        let snap = self.look(script, i)?;
        self.learn_duration(script, &snap)?;
        if snap.eof {
            self.end_of_file(script)
        } else {
            self.follow_resume(script, &snap)
        }
    }

    fn shut_all(&self, script: &mut Script<Answer>) -> (r: Step<()>)
        requires
            self@.wf(),
        ensures
            final(script).said() == old(script).said(),
            stepped(self@, final(script).place(), r) == shut_all_of(
                self@,
                old(script).said(),
                old(script).place(),
                0,
            ),
    {
        let n: usize = self.registry.len();
        let mut i: usize = 0;
        while i < n
            invariant
                n == self@.registry.engines.len(),
                i <= n,
                script.said() == old(script).said(),
                shut_all_of(self@, script.said(), script.place(), i as int) == shut_all_of(
                    self@,
                    old(script).said(),
                    old(script).place(),
                    0,
                ),
            decreases n - i,
        {
            ask(script, Action::Engine { index: i, call: EngineCall::Shutdown })?;
            i = i + 1;
        }
        Ok(())
    }

    pub(crate) fn do_quit(&mut self, script: &mut Script<Answer>) -> (r: Step<()>)
        requires
            old(self)@.wf(),
        ensures
            final(self)@.wf(),
            final(script).said() == old(script).said(),
            stepped(final(self)@, final(script).place(), r) == quit_of(
                old(self)@,
                old(script).said(),
                old(script).place(),
            ),
    {
        self.do_persist_resume(script)?;
        self.persist_queue(script)?;
        self.shut_all(script)
    }

    fn adopt(&mut self, script: &mut Script<Answer>) -> (r: Step<()>)
        requires
            old(self)@.wf(),
        ensures
            final(self)@.wf(),
            final(script).said() == old(script).said(),
            stepped(final(self)@, final(script).place(), r) == adopt_of(
                old(self)@,
                old(script).said(),
                old(script).place(),
                0,
            ),
    {
        let n: usize = self.registry.len();
        let mut i: usize = 0;
        while i < n
            invariant
                n == self@.registry.engines.len(),
                i <= n,
                self@ == old(self)@,
                self@.wf(),
                script.said() == old(script).said(),
                adopt_of(self@, script.said(), script.place(), i as int) == adopt_of(
                    old(self)@,
                    old(script).said(),
                    old(script).place(),
                    0,
                ),
            decreases n - i,
        {
            let snap = self.look(script, i)?;
            match &snap.path {
                Some(path) => {
                    let found = self.find(script, Action::TrackByPath(path.clone()))?;
                    let ghost before = self@;
                    self.active = Some(i);
                    match found {
                        Some(track) => {
                            self.queue.select_track(track.id);
                            self.current = Some(track);
                        },
                        None => {},
                    }
                    return Ok(());
                },
                None => {},
            }
            i = i + 1;
        }
        Ok(())
    }

    fn restore_queue(&mut self, script: &mut Script<Answer>) -> (r: Step<()>)
        requires
            old(self)@.wf(),
        ensures
            final(self)@.wf(),
            final(script).said() == old(script).said(),
            stepped(final(self)@, final(script).place(), r) == restore_queue_of(
                old(self)@,
                old(script).said(),
                old(script).place(),
            ),
    {
        let answer = ask(script, Action::LoadQueue)?;
        match answer {
            Answer::Queue { items, current } => {
                let s: u64 = self.fresh_seed(script)?;
                let ghost before = self@;
                let ids = copy_ids(items.as_slice());
                self.queue.replace_seeded(ids, *current, s);
                assert(self@ =~= before.with_queue(before.queue.replaced(items@, *current, s)));
                Ok(())
            },
            _ => Err(other_than(answer)),
        }
    }

    fn restore_rules(&mut self, script: &mut Script<Answer>) -> (r: Step<()>)
        requires
            old(self)@.wf(),
        ensures
            final(self)@.wf(),
            final(script).said() == old(script).said(),
            stepped(final(self)@, final(script).place(), r) == restore_rules_of(
                old(self)@,
                old(script).said(),
                old(script).place(),
            ),
    {
        let repeat = self.setting(script, SettingKey::Repeat)?;
        let ghost first = self@;
        match &repeat {
            Some(text) => match RepeatMode::parse(text.as_str()) {
                Some(mode) => self.queue.set_repeat(mode),
                None => {},
            },
            None => {},
        }
        assert(self@ =~= first.with_queue(restored_repeat(first.queue, repeat)));
        let shuffle = self.setting(script, SettingKey::Shuffle)?;
        let on: bool = match &shuffle {
            Some(text) => {
                let chars = chars_of(text.as_str());
                reads(chars.as_slice(), "on")
            },
            None => false,
        };
        let s: u64 = self.fresh_seed(script)?;
        let ghost second = self@;
        self.queue.set_shuffle_seeded(on, s);
        assert(self@ =~= second.with_queue(second.queue.with_shuffle(on, s)));
        let saved = self.setting(script, SettingKey::Loop)?;
        let ghost third = self@;
        match &saved {
            Some(text) => {
                let positions = read_positions(text.as_str());
                if positions.len() > 0 {
                    self.queue.set_loop(Some(positions));
                }
            },
            None => {},
        }
        assert(self@ =~= third.with_queue(restored_loop(third.queue, saved)));
        Ok(())
    }

    fn restore_policy(&mut self, script: &mut Script<Answer>) -> (r: Step<()>)
        requires
            old(self)@.wf(),
        ensures
            final(self)@.wf(),
            final(script).said() == old(script).said(),
            stepped(final(self)@, final(script).place(), r) == restore_policy_of(
                old(self)@,
                old(script).said(),
                old(script).place(),
            ),
    {
        let text = self.setting(script, SettingKey::EnginePolicy)?;
        let policy = match &text {
            Some(t) => EnginePolicy::parse(t.as_str()),
            None => EnginePolicy::Auto,
        };
        let ghost before = self@;
        self.registry.set_policy(policy);
        assert(self@ =~= (PlayerView {
            registry: RegistryView { policy: policy@, ..before.registry },
            ..before
        }));
        Ok(())
    }

    fn do_restore(&mut self, script: &mut Script<Answer>) -> (r: Step<()>)
        requires
            old(self)@.wf(),
        ensures
            final(self)@.wf(),
            final(script).said() == old(script).said(),
            stepped(final(self)@, final(script).place(), r) == restore_of(
                old(self)@,
                old(script).said(),
                old(script).place(),
            ),
    {
        self.restore_queue(script)?;
        self.restore_rules(script)?;
        self.restore_policy(script)?;
        match self.layout_setting(script)? {
            Some(layout) => self.tell_all(script, EngineCall::SetLayout(layout))?,
            None => {},
        }
        self.adopt(script)
    }
}

impl Player {
    /// Restore queue, repeat, shuffle, loop and engine policy from the store, then
    /// adopt whatever is already playing.
    pub fn restore(&mut self, answers: &Vec<Answer>) -> (r: Step<()>)
        requires
            old(self)@.wf(),
        ensures
            final(self)@.wf(),
            came_to(r) == restore_of(old(self)@, answers@, 0).end,
            committed(
                old(self)@,
                final(self)@,
                restore_of(old(self)@, answers@, 0).state,
                waiting(r),
            ),
    {
        let mut script = Script::new(answers);
        let mut trial = self.clone();
        let r = trial.do_restore(&mut script);
        if !waits(&r) {
            *self = trial;
        }
        r
    }

    /// Index a file if it is not already known, returning its track.
    pub fn ensure_indexed(&mut self, path: &str, answers: &Vec<Answer>) -> (r: Step<Track>)
        requires
            old(self)@.wf(),
        ensures
            final(self)@.wf(),
            came_to(r) == ensure_indexed_of(old(self)@, answers@, 0, path@).end,
            committed(
                old(self)@,
                final(self)@,
                ensure_indexed_of(old(self)@, answers@, 0, path@).state,
                waiting(r),
            ),
    {
        let mut script = Script::new(answers);
        let mut trial = self.clone();
        let r = trial.indexed(&mut script, path);
        if !waits(&r) {
            *self = trial;
        }
        r
    }

    /// First library match for a free-text query.
    pub fn find_track(&mut self, query: &str, answers: &Vec<Answer>) -> (r: Step<Track>)
        requires
            old(self)@.wf(),
        ensures
            final(self)@.wf(),
            came_to(r) == find_track_of(old(self)@, answers@, 0, query@).end,
            committed(
                old(self)@,
                final(self)@,
                find_track_of(old(self)@, answers@, 0, query@).state,
                waiting(r),
            ),
    {
        let mut script = Script::new(answers);
        let mut trial = self.clone();
        let r = trial.found(&mut script, query);
        if !waits(&r) {
            *self = trial;
        }
        r
    }

    /// Play a file, replacing the queue with it.
    pub fn play_path(&mut self, path: &str, answers: &Vec<Answer>) -> (r: Step<Track>)
        requires
            old(self)@.wf(),
        ensures
            final(self)@.wf(),
            came_to(r) == play_path_of(old(self)@, answers@, 0, path@).end,
            committed(
                old(self)@,
                final(self)@,
                play_path_of(old(self)@, answers@, 0, path@).state,
                waiting(r),
            ),
    {
        let mut script = Script::new(answers);
        let mut trial = self.clone();
        let r = trial.do_play_path(&mut script, path);
        if !waits(&r) {
            *self = trial;
        }
        r
    }

    /// Play a track, from its saved position if that is worth using.
    pub fn play_track_id(&mut self, track_id: i64, answers: &Vec<Answer>) -> (r: Step<Track>)
        requires
            old(self)@.wf(),
        ensures
            final(self)@.wf(),
            came_to(r) == start_track_of(old(self)@, answers@, 0, track_id, false).end,
            committed(
                old(self)@,
                final(self)@,
                start_track_of(old(self)@, answers@, 0, track_id, false).state,
                waiting(r),
            ),
    {
        let mut script = Script::new(answers);
        let mut trial = self.clone();
        let r = trial.start_track(&mut script, track_id, false);
        if !waits(&r) {
            *self = trial;
        }
        r
    }

    /// Play from the beginning, discarding any saved position. The discard comes
    /// after the outgoing position is written: otherwise restarting what is
    /// already playing would write the position straight back.
    pub fn restart_track_id(&mut self, track_id: i64, answers: &Vec<Answer>) -> (r: Step<Track>)
        requires
            old(self)@.wf(),
        ensures
            final(self)@.wf(),
            came_to(r) == start_track_of(old(self)@, answers@, 0, track_id, true).end,
            committed(
                old(self)@,
                final(self)@,
                start_track_of(old(self)@, answers@, 0, track_id, true).state,
                waiting(r),
            ),
    {
        let mut script = Script::new(answers);
        let mut trial = self.clone();
        let r = trial.start_track(&mut script, track_id, true);
        if !waits(&r) {
            *self = trial;
        }
        r
    }

    /// Pause or go on.
    pub fn set_paused(&mut self, paused: bool, answers: &Vec<Answer>) -> (r: Step<()>)
        requires
            old(self)@.wf(),
        ensures
            final(self)@.wf(),
            came_to(r) == set_paused_of(old(self)@, answers@, 0, paused).end,
            committed(
                old(self)@,
                final(self)@,
                set_paused_of(old(self)@, answers@, 0, paused).state,
                waiting(r),
            ),
    {
        let mut script = Script::new(answers);
        let mut trial = self.clone();
        let r = trial.do_set_paused(&mut script, paused);
        if !waits(&r) {
            *self = trial;
        }
        r
    }

    /// Pause what plays, or go on with what is paused; whether it is paused now.
    pub fn toggle_paused(&mut self, answers: &Vec<Answer>) -> (r: Step<bool>)
        requires
            old(self)@.wf(),
        ensures
            final(self)@.wf(),
            came_to(r) == toggle_paused_of(old(self)@, answers@, 0).end,
            committed(
                old(self)@,
                final(self)@,
                toggle_paused_of(old(self)@, answers@, 0).state,
                waiting(r),
            ),
    {
        let mut script = Script::new(answers);
        let mut trial = self.clone();
        let r = trial.do_toggle_paused(&mut script);
        if !waits(&r) {
            *self = trial;
        }
        r
    }

    /// On to the next track of the queue, or stop where there is none.
    pub fn next(&mut self, answers: &Vec<Answer>) -> (r: Step<Option<Track>>)
        requires
            old(self)@.wf(),
        ensures
            final(self)@.wf(),
            came_to(r) == next_of(old(self)@, answers@, 0).end,
            committed(
                old(self)@,
                final(self)@,
                next_of(old(self)@, answers@, 0).state,
                waiting(r),
            ),
    {
        let mut script = Script::new(answers);
        let mut trial = self.clone();
        let r = trial.do_next(&mut script);
        if !waits(&r) {
            *self = trial;
        }
        r
    }

    /// Back to the previous track of the queue, or stop where there is none.
    pub fn previous(&mut self, answers: &Vec<Answer>) -> (r: Step<Option<Track>>)
        requires
            old(self)@.wf(),
        ensures
            final(self)@.wf(),
            came_to(r) == previous_of(old(self)@, answers@, 0).end,
            committed(
                old(self)@,
                final(self)@,
                previous_of(old(self)@, answers@, 0).state,
                waiting(r),
            ),
    {
        let mut script = Script::new(answers);
        let mut trial = self.clone();
        let r = trial.do_previous(&mut script);
        if !waits(&r) {
            *self = trial;
        }
        r
    }

    /// Stop playback and unload the current track.
    pub fn stop(&mut self, answers: &Vec<Answer>) -> (r: Step<()>)
        requires
            old(self)@.wf(),
        ensures
            final(self)@.wf(),
            came_to(r) == stop_of(old(self)@, answers@, 0).end,
            committed(
                old(self)@,
                final(self)@,
                stop_of(old(self)@, answers@, 0).state,
                waiting(r),
            ),
    {
        let mut script = Script::new(answers);
        let mut trial = self.clone();
        let r = trial.do_stop(&mut script);
        if !waits(&r) {
            *self = trial;
        }
        r
    }

    /// Go to a position, at the earliest the start.
    pub fn seek_absolute(&mut self, seconds: Fixed, answers: &Vec<Answer>) -> (r: Step<()>)
        requires
            old(self)@.wf(),
        ensures
            final(self)@.wf(),
            came_to(r) == command_of(
                    old(self)@,
                    answers@,
                    0,
                    EngineCall::SeekAbsolute(larger(seconds, Fixed::Nanos(0))),
                ).end,
            committed(
                old(self)@,
                final(self)@,
                command_of(
                    old(self)@,
                    answers@,
                    0,
                    EngineCall::SeekAbsolute(larger(seconds, Fixed::Nanos(0))),
                ).state,
                waiting(r),
            ),
    {
        let mut script = Script::new(answers);
        let mut trial = self.clone();
        let r = trial.command(
            &mut script,
            EngineCall::SeekAbsolute(max_of(seconds, Fixed::Nanos(0))),
        );
        if !waits(&r) {
            *self = trial;
        }
        r
    }

    /// Seek by a delta, clamped to the file; where that led.
    pub fn seek_relative(&mut self, delta_secs: Fixed, answers: &Vec<Answer>) -> (r: Step<Fixed>)
        requires
            old(self)@.wf(),
        ensures
            final(self)@.wf(),
            came_to(r) == seek_relative_of(old(self)@, answers@, 0, delta_secs).end,
            committed(
                old(self)@,
                final(self)@,
                seek_relative_of(old(self)@, answers@, 0, delta_secs).state,
                waiting(r),
            ),
    {
        let mut script = Script::new(answers);
        let mut trial = self.clone();
        let r = trial.do_seek_relative(&mut script, delta_secs);
        if !waits(&r) {
            *self = trial;
        }
        r
    }

    /// The pop-out. Audio is unaffected either way.
    pub fn set_video_visible(&mut self, visible: bool, answers: &Vec<Answer>) -> (r: Step<()>)
        requires
            old(self)@.wf(),
        ensures
            final(self)@.wf(),
            came_to(r) == command_of(old(self)@, answers@, 0, EngineCall::SetVideoVisible(visible)).end,
            committed(
                old(self)@,
                final(self)@,
                command_of(old(self)@, answers@, 0, EngineCall::SetVideoVisible(visible)).state,
                waiting(r),
            ),
    {
        let mut script = Script::new(answers);
        let mut trial = self.clone();
        let r = trial.command(&mut script, EngineCall::SetVideoVisible(visible));
        if !waits(&r) {
            *self = trial;
        }
        r
    }

    /// Show the picture or hide it; whether it shows now. Refused where the
    /// current track has none.
    pub fn toggle_video(&mut self, answers: &Vec<Answer>) -> (r: Step<bool>)
        requires
            old(self)@.wf(),
        ensures
            final(self)@.wf(),
            came_to(r) == toggle_video_of(old(self)@, answers@, 0).end,
            committed(
                old(self)@,
                final(self)@,
                toggle_video_of(old(self)@, answers@, 0).state,
                waiting(r),
            ),
    {
        let mut script = Script::new(answers);
        let mut trial = self.clone();
        let r = trial.do_toggle_video(&mut script);
        if !waits(&r) {
            *self = trial;
        }
        r
    }

    /// Float the picture above other windows, or not.
    pub fn set_video_ontop(&mut self, ontop: bool, answers: &Vec<Answer>) -> (r: Step<()>)
        requires
            old(self)@.wf(),
        ensures
            final(self)@.wf(),
            came_to(r) == command_of(old(self)@, answers@, 0, EngineCall::SetVideoOntop(ontop)).end,
            committed(
                old(self)@,
                final(self)@,
                command_of(old(self)@, answers@, 0, EngineCall::SetVideoOntop(ontop)).state,
                waiting(r),
            ),
    {
        let mut script = Script::new(answers);
        let mut trial = self.clone();
        let r = trial.command(&mut script, EngineCall::SetVideoOntop(ontop));
        if !waits(&r) {
            *self = trial;
        }
        r
    }

    /// The saved pop-out layout, if one has been chosen.
    pub fn video_window_layout(
        &mut self,
        answers: &Vec<Answer>,
    ) -> (r: Step<Option<VideoWindowLayout>>)
        requires
            old(self)@.wf(),
        ensures
            final(self)@.wf(),
            came_to(r) == layout_setting_of(old(self)@, answers@, 0).end,
            committed(
                old(self)@,
                final(self)@,
                layout_setting_of(old(self)@, answers@, 0).state,
                waiting(r),
            ),
    {
        let mut script = Script::new(answers);
        let mut trial = self.clone();
        let r = trial.layout_setting(&mut script);
        if !waits(&r) {
            *self = trial;
        }
        r
    }

    /// Choose where and how large the pop-out is.
    pub fn set_video_window_layout(
        &mut self,
        layout: VideoWindowLayout,
        answers: &Vec<Answer>,
    ) -> (r: Step<()>)
        requires
            old(self)@.wf(),
        ensures
            final(self)@.wf(),
            came_to(r) == set_layout_of(old(self)@, answers@, 0, layout).end,
            committed(
                old(self)@,
                final(self)@,
                set_layout_of(old(self)@, answers@, 0, layout).state,
                waiting(r),
            ),
    {
        let mut script = Script::new(answers);
        let mut trial = self.clone();
        let r = trial.store_layout(&mut script, layout);
        if !waits(&r) {
            *self = trial;
        }
        r
    }

    /// Where the picture goes when video is switched on, as the app saved it.
    pub fn video_surface(&mut self, answers: &Vec<Answer>) -> (r: Step<Option<String>>)
        requires
            old(self)@.wf(),
        ensures
            final(self)@.wf(),
            came_to(r) == settled(old(self)@, answers@, 0, SettingKey::VideoSurface).end,
            committed(
                old(self)@,
                final(self)@,
                settled(old(self)@, answers@, 0, SettingKey::VideoSurface).state,
                waiting(r),
            ),
    {
        let mut script = Script::new(answers);
        let mut trial = self.clone();
        let r = trial.setting(&mut script, SettingKey::VideoSurface);
        if !waits(&r) {
            *self = trial;
        }
        r
    }

    /// Remember where the picture goes.
    pub fn set_video_surface(&mut self, surface: &str, answers: &Vec<Answer>) -> (r: Step<()>)
        requires
            old(self)@.wf(),
        ensures
            final(self)@.wf(),
            came_to(r) == does(
                    old(self)@,
                    answers@,
                    0,
                    ActionView::SetSetting { key: SettingKey::VideoSurface, value: surface@ },
                ).end,
            committed(
                old(self)@,
                final(self)@,
                does(
                    old(self)@,
                    answers@,
                    0,
                    ActionView::SetSetting { key: SettingKey::VideoSurface, value: surface@ },
                ).state,
                waiting(r),
            ),
    {
        let mut script = Script::new(answers);
        let mut trial = self.clone();
        let r = trial.run(
            &mut script,
            Action::SetSetting { key: SettingKey::VideoSurface, value: surface.to_owned() },
        );
        if !waits(&r) {
            *self = trial;
        }
        r
    }

    /// Put up an empty video window for the user to place by hand. The process that
    /// owns it, or `None` when no engine can show one.
    pub fn begin_window_placement(&mut self, answers: &Vec<Answer>) -> (r: Step<Option<u32>>)
        requires
            old(self)@.wf(),
        ensures
            final(self)@.wf(),
            came_to(r) == begin_placement_of(old(self)@, answers@, 0, 0).end,
            committed(
                old(self)@,
                final(self)@,
                begin_placement_of(old(self)@, answers@, 0, 0).state,
                waiting(r),
            ),
    {
        let mut script = Script::new(answers);
        let mut trial = self.clone();
        let r = trial.do_begin_placement(&mut script);
        if !waits(&r) {
            *self = trial;
        }
        r
    }

    /// Take the placement window down.
    pub fn end_window_placement(&mut self, answers: &Vec<Answer>) -> (r: Step<()>)
        requires
            old(self)@.wf(),
        ensures
            final(self)@.wf(),
            came_to(r) == tell_all_of(old(self)@, answers@, 0, EngineCall::EndPlacement, 0).end,
            committed(
                old(self)@,
                final(self)@,
                tell_all_of(old(self)@, answers@, 0, EngineCall::EndPlacement, 0).state,
                waiting(r),
            ),
    {
        let mut script = Script::new(answers);
        let mut trial = self.clone();
        let r = trial.tell_all(&mut script, EngineCall::EndPlacement);
        if !waits(&r) {
            *self = trial;
        }
        r
    }

    /// Set the volume, in percent.
    pub fn set_volume(&mut self, percent: Fixed, answers: &Vec<Answer>) -> (r: Step<()>)
        requires
            old(self)@.wf(),
        ensures
            final(self)@.wf(),
            came_to(r) == command_of(old(self)@, answers@, 0, EngineCall::SetVolume(percent)).end,
            committed(
                old(self)@,
                final(self)@,
                command_of(old(self)@, answers@, 0, EngineCall::SetVolume(percent)).state,
                waiting(r),
            ),
    {
        let mut script = Script::new(answers);
        let mut trial = self.clone();
        let r = trial.command(&mut script, EngineCall::SetVolume(percent));
        if !waits(&r) {
            *self = trial;
        }
        r
    }

    /// Set the playback rate, one being normal.
    pub fn set_speed(&mut self, rate: Fixed, answers: &Vec<Answer>) -> (r: Step<()>)
        requires
            old(self)@.wf(),
        ensures
            final(self)@.wf(),
            came_to(r) == command_of(old(self)@, answers@, 0, EngineCall::SetSpeed(rate)).end,
            committed(
                old(self)@,
                final(self)@,
                command_of(old(self)@, answers@, 0, EngineCall::SetSpeed(rate)).state,
                waiting(r),
            ),
    {
        let mut script = Script::new(answers);
        let mut trial = self.clone();
        let r = trial.command(&mut script, EngineCall::SetSpeed(rate));
        if !waits(&r) {
            *self = trial;
        }
        r
    }

    /// Replace the queue, selecting one of its rows or none.
    pub fn set_queue(
        &mut self,
        track_ids: Vec<i64>,
        start: Option<usize>,
        answers: &Vec<Answer>,
    ) -> (r: Step<()>)
        requires
            old(self)@.wf(),
        ensures
            final(self)@.wf(),
            came_to(r) == set_queue_of(old(self)@, answers@, 0, track_ids@, start).end,
            committed(
                old(self)@,
                final(self)@,
                set_queue_of(old(self)@, answers@, 0, track_ids@, start).state,
                waiting(r),
            ),
    {
        let mut script = Script::new(answers);
        let mut trial = self.clone();
        let r = trial.replace_queue(&mut script, track_ids, start);
        if !waits(&r) {
            *self = trial;
        }
        r
    }

    /// Append to the queue.
    pub fn queue_add(&mut self, track_ids: Vec<i64>, answers: &Vec<Answer>) -> (r: Step<()>)
        requires
            old(self)@.wf(),
        ensures
            final(self)@.wf(),
            came_to(r) == queue_add_of(old(self)@, answers@, 0, track_ids@).end,
            committed(
                old(self)@,
                final(self)@,
                queue_add_of(old(self)@, answers@, 0, track_ids@).state,
                waiting(r),
            ),
    {
        let mut script = Script::new(answers);
        let mut trial = self.clone();
        let r = trial.do_queue_add(&mut script, track_ids);
        if !waits(&r) {
            *self = trial;
        }
        r
    }

    /// Put a file, or everything under a folder, at the top of the queue, without
    /// starting playback.
    pub fn stage_path(&mut self, path: &str, answers: &Vec<Answer>) -> (r: Step<Vec<Track>>)
        requires
            old(self)@.wf(),
        ensures
            final(self)@.wf(),
            listed(old(self)@, 0, r).end == stage_path_of(old(self)@, answers@, 0, path@).end,
            committed(
                old(self)@,
                final(self)@,
                stage_path_of(old(self)@, answers@, 0, path@).state,
                waiting(r),
            ),
    {
        let mut script = Script::new(answers);
        let mut trial = self.clone();
        let r = trial.do_stage_path(&mut script, path);
        if !waits(&r) {
            *self = trial;
        }
        r
    }

    /// Reorder the queue, returning whether anything moved.
    pub fn queue_move(&mut self, from: usize, to: usize, answers: &Vec<Answer>) -> (r: Step<bool>)
        requires
            old(self)@.wf(),
        ensures
            final(self)@.wf(),
            came_to(r) == queue_move_of(old(self)@, answers@, 0, from, to).end,
            committed(
                old(self)@,
                final(self)@,
                queue_move_of(old(self)@, answers@, 0, from, to).state,
                waiting(r),
            ),
    {
        let mut script = Script::new(answers);
        let mut trial = self.clone();
        let r = trial.do_queue_move(&mut script, from, to);
        if !waits(&r) {
            *self = trial;
        }
        r
    }

    /// Scramble the tracks at `positions` among themselves, or the whole queue with
    /// `None`.
    pub fn queue_scramble(
        &mut self,
        positions: Option<&[usize]>,
        answers: &Vec<Answer>,
    ) -> (r: Step<()>)
        requires
            old(self)@.wf(),
        ensures
            final(self)@.wf(),
            came_to(r) == queue_scramble_of(old(self)@, answers@, 0, slice_view(positions)).end,
            committed(
                old(self)@,
                final(self)@,
                queue_scramble_of(old(self)@, answers@, 0, slice_view(positions)).state,
                waiting(r),
            ),
    {
        let mut script = Script::new(answers);
        let mut trial = self.clone();
        let r = trial.do_queue_scramble(&mut script, positions);
        if !waits(&r) {
            *self = trial;
        }
        r
    }

    /// Drop queued rows whose track is no longer in the library, returning whether
    /// any went. What is playing keeps playing if it survived.
    pub fn prune_missing_tracks(&mut self, answers: &Vec<Answer>) -> (r: Step<bool>)
        requires
            old(self)@.wf(),
        ensures
            final(self)@.wf(),
            came_to(r) == prune_of(old(self)@, answers@, 0).end,
            committed(
                old(self)@,
                final(self)@,
                prune_of(old(self)@, answers@, 0).state,
                waiting(r),
            ),
    {
        let mut script = Script::new(answers);
        let mut trial = self.clone();
        let r = trial.do_prune(&mut script);
        if !waits(&r) {
            *self = trial;
        }
        r
    }

    /// Rescan every watched folder, then drop anything the scan forgot from the
    /// queue.
    pub fn rescan_library(&mut self, answers: &Vec<Answer>) -> (r: Step<ScanReport>)
        requires
            old(self)@.wf(),
        ensures
            final(self)@.wf(),
            came_to(r) == rescan_of(old(self)@, answers@, 0).end,
            committed(
                old(self)@,
                final(self)@,
                rescan_of(old(self)@, answers@, 0).state,
                waiting(r),
            ),
    {
        let mut script = Script::new(answers);
        let mut trial = self.clone();
        let r = trial.do_rescan(&mut script);
        if !waits(&r) {
            *self = trial;
        }
        r
    }

    /// The queued tracks that are in the library, in order.
    pub fn queue_tracks(&mut self, answers: &Vec<Answer>) -> (r: Step<Vec<Track>>)
        requires
            old(self)@.wf(),
        ensures
            final(self)@.wf(),
            listed(old(self)@, 0, r).end == queue_tracks_of(old(self)@, answers@, 0, 0).end,
            committed(
                old(self)@,
                final(self)@,
                queue_tracks_of(old(self)@, answers@, 0, 0).state,
                waiting(r),
            ),
    {
        let mut script = Script::new(answers);
        let mut trial = self.clone();
        let r = trial.do_queue_tracks(&mut script);
        if !waits(&r) {
            *self = trial;
        }
        r
    }

    /// Walk the queue in a shuffled order, or in its own.
    pub fn set_shuffle(&mut self, on: bool, answers: &Vec<Answer>) -> (r: Step<()>)
        requires
            old(self)@.wf(),
        ensures
            final(self)@.wf(),
            came_to(r) == set_shuffle_of(old(self)@, answers@, 0, on).end,
            committed(
                old(self)@,
                final(self)@,
                set_shuffle_of(old(self)@, answers@, 0, on).state,
                waiting(r),
            ),
    {
        let mut script = Script::new(answers);
        let mut trial = self.clone();
        let r = trial.do_set_shuffle(&mut script, on);
        if !waits(&r) {
            *self = trial;
        }
        r
    }

    /// Force an engine, or go back to picking by capability. An id no engine answers
    /// to is refused.
    pub fn set_engine_policy(
        &mut self,
        policy: EnginePolicy,
        answers: &Vec<Answer>,
    ) -> (r: Step<()>)
        requires
            old(self)@.wf(),
        ensures
            final(self)@.wf(),
            came_to(r) == set_policy_of(old(self)@, answers@, 0, policy@).end,
            committed(
                old(self)@,
                final(self)@,
                set_policy_of(old(self)@, answers@, 0, policy@).state,
                waiting(r),
            ),
    {
        let mut script = Script::new(answers);
        let mut trial = self.clone();
        let r = trial.do_set_policy(&mut script, policy);
        if !waits(&r) {
            *self = trial;
        }
        r
    }

    /// What is playing and how.
    pub fn status(&mut self, answers: &Vec<Answer>) -> (r: Step<PlayerStatus>)
        requires
            old(self)@.wf(),
        ensures
            final(self)@.wf(),
            status_seen(old(self)@, 0, r).end == status_of(old(self)@, answers@, 0).end,
            committed(
                old(self)@,
                final(self)@,
                status_of(old(self)@, answers@, 0).state,
                waiting(r),
            ),
    {
        let mut script = Script::new(answers);
        let mut trial = self.clone();
        let r = trial.do_status(&mut script);
        if !waits(&r) {
            *self = trial;
        }
        r
    }

    /// Periodic upkeep: write the position, learn durations, advance at the end.
    pub fn tick(&mut self, answers: &Vec<Answer>) -> (r: Step<()>)
        requires
            old(self)@.wf(),
        ensures
            final(self)@.wf(),
            came_to(r) == tick_of(old(self)@, answers@, 0).end,
            committed(
                old(self)@,
                final(self)@,
                tick_of(old(self)@, answers@, 0).state,
                waiting(r),
            ),
    {
        let mut script = Script::new(answers);
        let mut trial = self.clone();
        let r = trial.do_tick(&mut script);
        if !waits(&r) {
            *self = trial;
        }
        r
    }

    /// Write the current position immediately.
    pub fn persist_resume(&mut self, answers: &Vec<Answer>) -> (r: Step<()>)
        requires
            old(self)@.wf(),
        ensures
            final(self)@.wf(),
            came_to(r) == persist_resume_of(old(self)@, answers@, 0).end,
            committed(
                old(self)@,
                final(self)@,
                persist_resume_of(old(self)@, answers@, 0).state,
                waiting(r),
            ),
    {
        let mut script = Script::new(answers);
        let mut trial = self.clone();
        let r = trial.do_persist_resume(&mut script);
        if !waits(&r) {
            *self = trial;
        }
        r
    }

    /// Save state and stop every engine. Playback does not survive this.
    pub fn quit(&mut self, answers: &Vec<Answer>) -> (r: Step<()>)
        requires
            old(self)@.wf(),
        ensures
            final(self)@.wf(),
            came_to(r) == quit_of(old(self)@, answers@, 0).end,
            committed(
                old(self)@,
                final(self)@,
                quit_of(old(self)@, answers@, 0).state,
                waiting(r),
            ),
    {
        let mut script = Script::new(answers);
        let mut trial = self.clone();
        let r = trial.do_quit(&mut script);
        if !waits(&r) {
            *self = trial;
        }
        r
    }

    /// Confine playback to `positions`, or lift it with `None`. Replaces any repeat
    /// mode.
    pub fn set_loop(&mut self, positions: Option<Vec<usize>>, answers: &Vec<Answer>) -> (r: Step<
        (),
    >)
        requires
            old(self)@.wf(),
        ensures
            final(self)@.wf(),
            came_to(r) == set_loop_of(old(self)@, answers@, 0, vec_view(positions)).end,
            committed(
                old(self)@,
                final(self)@,
                set_loop_of(old(self)@, answers@, 0, vec_view(positions)).state,
                waiting(r),
            ),
    {
        let mut script = Script::new(answers);
        let mut trial = self.clone();
        trial.queue.set_loop(positions);
        assert(trial@ =~= self@.with_queue(self@.queue.looped(vec_view(positions))));
        let r = trial.persist_rules(&mut script);
        if !waits(&r) {
            *self = trial;
        }
        r
    }

    /// Empty the queue.
    pub fn queue_clear(&mut self, answers: &Vec<Answer>) -> (r: Step<()>)
        requires
            old(self)@.wf(),
        ensures
            final(self)@.wf(),
            came_to(r) == requeued(old(self)@, answers@, 0, old(self)@.queue.cleared()).end,
            committed(
                old(self)@,
                final(self)@,
                requeued(old(self)@, answers@, 0, old(self)@.queue.cleared()).state,
                waiting(r),
            ),
    {
        let mut script = Script::new(answers);
        let mut trial = self.clone();
        let r = trial.do_queue_clear(&mut script);
        if !waits(&r) {
            *self = trial;
        }
        r
    }

    /// Set the repeat mode, which lifts any loop.
    pub fn set_repeat(&mut self, mode: RepeatMode, answers: &Vec<Answer>) -> (r: Step<()>)
        requires
            old(self)@.wf(),
        ensures
            final(self)@.wf(),
            came_to(r) == set_repeat_of(old(self)@, answers@, 0, mode).end,
            committed(
                old(self)@,
                final(self)@,
                set_repeat_of(old(self)@, answers@, 0, mode).state,
                waiting(r),
            ),
    {
        let mut script = Script::new(answers);
        let mut trial = self.clone();
        let r = trial.do_set_repeat(&mut script, mode);
        if !waits(&r) {
            *self = trial;
        }
        r
    }

    /// A player over these engines that has restored nothing yet.
    pub fn new(registry: EngineRegistry) -> (r: Self)
        ensures
            r@ == fresh(registry@),
            r@.wf(),
    {
        let r = Player {
            queue: Queue::new(),
            current: None,
            active: None,
            last_written: Fixed::NaN,
            registry,
        };
        let n: usize = r.registry.len();
        assert(n == r@.registry.engines.len());
        r
    }

    /// The policy in force.
    pub fn engine_policy(&self) -> (r: EnginePolicy)
        ensures
            r@ == self@.registry.policy,
    {
        self.registry.policy().clone()
    }

    /// What each registered engine can do, in preference order.
    pub fn engine_capabilities(&self) -> (r: &Vec<EngineCapabilities>)
        ensures
            r@.len() == self@.registry.engines.len(),
            forall|i: int| 0 <= i < r@.len() ==> (#[trigger] r@[i])@ == self@.registry.engines[i],
    {
        self.registry.all()
    }

    /// The ids of the engines, in preference order.
    pub fn engine_ids(&self) -> (r: Vec<String>)
        ensures
            texts(r@) == self@.registry.ids(),
    {
        self.registry.ids()
    }

    /// The track that was last loaded and not stopped.
    pub fn current_track(&self) -> (r: Option<Track>)
        ensures
            r == self@.current,
    {
        match &self.current {
            Some(track) => Some(track.clone()),
            None => None,
        }
    }
}

} // verus!
