//! The player as a whole, driven by engines that only pretend to play.
//!
//! No process, no audio device and no sleeping: time moves only when a test says
//! so. The disk is a list of files.

use std::cell::RefCell;
use std::collections::BTreeMap;
use std::rc::Rc;

use setbuddy::clock::now_unix;
use setbuddy::commands::Command;
use setbuddy::engine::EngineError;
use setbuddy::error::CoreError;
use setbuddy::fixed::Fixed;
use setbuddy::layout::VideoWindowLayout;
use setbuddy::library::{scan_all, scan_folder, Found, Scan, ScanReport};
use setbuddy::null::NullEngine;
use setbuddy::player::{Halt, Player, PlayerStatus, Step};
use setbuddy::player_model::{Action, Answer, EngineCall};
use setbuddy::probe::{probe, Probed};
use setbuddy::queue::RepeatMode;
use setbuddy::selection::{EnginePolicy, EngineRegistry};
use setbuddy::store::{ScannedFile, Store};
use setbuddy::track::Track;

const DIR: &str = "/lib";

fn secs(s: f64) -> Fixed {
    Fixed::Nanos((s * 1e9).round() as i128)
}

/// What the player is hosted on. Several players may share one.
struct World {
    store: Store,
    engines: Vec<NullEngine>,
    files: BTreeMap<String, (i64, i64)>,
    layouts: Vec<(usize, VideoWindowLayout)>,
    seed: u64,
    printed: Vec<String>,
    /// How many files were probed in scans.
    probes: usize,
}

impl World {
    fn is_folder(&self, path: &str) -> bool {
        let prefix = format!("{path}/");
        self.files.keys().any(|f| f.starts_with(&prefix))
    }

    fn probed(path: &str) -> Probed {
        probe(path, Some(None), Some(None)).unwrap()
    }

    fn scan_folder(&mut self, folder: &str) -> ScanReport {
        let prefix = format!("{folder}/");
        let found: Vec<Found> = self
            .files
            .iter()
            .filter(|(f, _)| f.starts_with(&prefix))
            .map(|(f, stat)| Found { path: f.clone(), is_file: true, stat: Some(*stat) })
            .collect();
        let mut scan = Scan::new();
        let mut probed: Option<Probed> = None;
        loop {
            let next =
                scan_folder(&mut self.store, &mut scan, &found, probed.as_ref(), now_unix());
            match next.unwrap() {
                None => return scan.report,
                Some(path) => {
                    self.probes += 1;
                    probed = Some(Self::probed(&path));
                }
            }
        }
    }

    fn scan_library(&mut self) -> ScanReport {
        let folders = self.store.folders().clone();
        let reports: Vec<ScanReport> = folders.iter().map(|f| self.scan_folder(f)).collect();
        let gone: Vec<i64> = self
            .store
            .tracks()
            .iter()
            .filter(|t| !self.files.contains_key(&t.path))
            .map(|t| t.id)
            .collect();
        let removed = self.store.forget_missing(&gone);
        scan_all(&reports, removed)
    }

    fn engine(&mut self, index: usize, call: EngineCall) -> Answer {
        let engine = &mut self.engines[index];
        let r = match call {
            EngineCall::Load { path, start_at } => engine.load(path, start_at),
            EngineCall::SetPaused(p) => engine.set_paused(p),
            EngineCall::SeekAbsolute(s) => engine.seek_absolute(s),
            EngineCall::SetVolume(v) => engine.set_volume(v),
            EngineCall::SetSpeed(s) => engine.set_speed(s),
            EngineCall::SetVideoVisible(v) => engine.set_video_visible(v),
            EngineCall::SetVideoOntop(o) => engine.set_video_ontop(o),
            EngineCall::SetLayout(layout) => {
                self.layouts.push((index, layout));
                Ok(())
            }
            EngineCall::BeginPlacement => return Answer::Process(None),
            EngineCall::EndPlacement => Ok(()),
            EngineCall::Stop => engine.stop(),
            EngineCall::Snapshot => return Answer::Snapshot(engine.snapshot()),
            EngineCall::Shutdown => {
                engine.shutdown();
                Ok(())
            }
        };
        match r {
            Ok(()) => Answer::Finished,
            Err(e) => Answer::Failed(CoreError::Engine(e)),
        }
    }

    fn answer(&mut self, action: Action) -> Answer {
        let s = &mut self.store;
        match action {
            Action::Engine { index, call } => return self.engine(index, call),
            Action::LoadQueue => {
                let (items, current) = s.load_queue();
                return Answer::Queue { items, current };
            }
            Action::SaveQueue { items, current } => s.save_queue(&items, current),
            Action::Setting(key) => return Answer::Text(s.setting(key.name())),
            Action::SetSetting { key, value } => s.set_setting(key.name(), &value),
            Action::TrackById(id) => return Answer::Track(s.track_by_id(id)),
            Action::TrackByPath(path) => return Answer::Track(s.track_by_path(&path)),
            Action::Search(query) => {
                return match s.search(&query, 1) {
                    Ok(found) => Answer::Track(found.into_iter().next()),
                    Err(e) => Answer::Failed(e),
                };
            }
            Action::ExistingTracks(ids) => return Answer::Ids(s.existing_track_ids(&ids)),
            Action::TracksUnder(folder) => {
                return match s.tracks_under(&folder) {
                    Ok(found) => Answer::Tracks(found),
                    Err(e) => Answer::Failed(e),
                };
            }
            Action::ResumeFor(id) => return Answer::Position(s.resume_for(id)),
            Action::SetResume(id, position) => {
                if let Err(e) = s.set_resume(id, position) {
                    return Answer::Failed(e);
                }
            }
            Action::ClearResume(id) => s.clear_resume(id),
            Action::MarkPlayed(id) => s.mark_played(id),
            Action::SetDuration(id, duration) => s.set_duration(id, duration),
            Action::Canonical(path) => {
                if self.files.contains_key(&path) || self.is_folder(&path) {
                    return Answer::Path(path);
                }
                return Answer::Failed(CoreError::Io { message: format!("no such file: {path}") });
            }
            Action::IsFolder(path) => return Answer::Flag(self.is_folder(&path)),
            Action::Stat(path) => {
                let (size_bytes, mtime) = self.files[&path];
                return Answer::File(ScannedFile { path, size_bytes, mtime });
            }
            Action::Probe(path) => return Answer::Probed(Self::probed(&path)),
            Action::Upsert { file, probed } => {
                return match s.upsert_track(&file, &probed) {
                    Ok(id) => Answer::Id(id),
                    Err(e) => Answer::Failed(e),
                };
            }
            Action::ScanFolder(folder) => return Answer::Report(self.scan_folder(&folder)),
            Action::ScanLibrary => return Answer::Report(self.scan_library()),
            Action::Seed => {
                self.seed += 1;
                return Answer::Seed(self.seed);
            }
            Action::Say(line) => self.printed.push(line),
            Action::Exists(path) => {
                return Answer::Flag(self.files.contains_key(&path) || self.is_folder(&path));
            }
            Action::AddFolder(path) => s.add_folder(&path),
            Action::RemoveFolder(path) => return Answer::Flag(s.remove_folder(&path)),
            Action::Folders => return Answer::Texts(s.folders().clone()),
            Action::TrackCount => return Answer::Count(s.track_count()),
            Action::Matches { query, limit } => {
                return match s.search(&query, limit) {
                    Ok(found) => Answer::Tracks(found),
                    Err(e) => Answer::Failed(e),
                };
            }
            Action::Recents(limit) => return Answer::Tracks(s.recents(limit)),
        }
        Answer::Finished
    }
}

/// A player and what it is hosted on.
struct Host {
    player: Player,
    world: Rc<RefCell<World>>,
}

impl Host {
    fn over(world: Rc<RefCell<World>>) -> Host {
        let engines = world.borrow().engines.iter().map(|e| e.capabilities()).collect();
        let mut host = Host { player: Player::new(EngineRegistry::new(engines)), world };
        host.run(|p, said| p.restore(said)).unwrap();
        host
    }

    /// A second player over the same store and engines.
    fn reopened(&self) -> Host {
        Host::over(self.world.clone())
    }

    /// Run an operation to its end, doing what it asks for.
    fn run<T>(
        &mut self,
        op: impl Fn(&mut Player, &Vec<Answer>) -> Step<T>,
    ) -> Result<T, CoreError> {
        let mut said = Vec::new();
        loop {
            match op(&mut self.player, &said) {
                Ok(t) => return Ok(t),
                Err(Halt::Failed(e)) => return Err(e),
                Err(Halt::Ask(action)) => said.push(self.world.borrow_mut().answer(action)),
            }
        }
    }

    /// Carry out a command, and give what it printed.
    fn command(&mut self, command: Command) -> Result<Vec<String>, String> {
        self.world.borrow_mut().printed.clear();
        match self.run(|p, said| p.run_command(&command, said)) {
            Ok(()) => Ok(self.printed()),
            Err(e) => Err(e.message()),
        }
    }

    fn printed(&self) -> Vec<String> {
        self.world.borrow().printed.clone()
    }

    fn play_path(&mut self, path: &str) -> Result<Track, CoreError> {
        self.run(|p, said| p.play_path(path, said))
    }

    fn play_track_id(&mut self, id: i64) -> Result<Track, CoreError> {
        self.run(|p, said| p.play_track_id(id, said))
    }

    fn ensure_indexed(&mut self, path: &str) -> Result<Track, CoreError> {
        self.run(|p, said| p.ensure_indexed(path, said))
    }

    fn set_queue(&mut self, ids: Vec<i64>, start: Option<usize>) -> Result<(), CoreError> {
        self.run(|p, said| p.set_queue(ids.clone(), start, said))
    }

    fn stage_path(&mut self, path: &str) -> Result<Vec<Track>, CoreError> {
        self.run(|p, said| p.stage_path(path, said))
    }

    fn set_repeat(&mut self, mode: RepeatMode) -> Result<(), CoreError> {
        self.run(|p, said| p.set_repeat(mode, said))
    }

    fn set_engine_policy(&mut self, policy: EnginePolicy) -> Result<(), CoreError> {
        self.run(|p, said| p.set_engine_policy(policy.clone(), said))
    }

    fn next(&mut self) -> Option<i64> {
        self.run(|p, said| p.next(said)).unwrap().map(|t| t.id)
    }

    fn previous(&mut self) -> Option<i64> {
        self.run(|p, said| p.previous(said)).unwrap().map(|t| t.id)
    }

    fn tick(&mut self) {
        self.run(|p, said| p.tick(said)).unwrap()
    }

    fn status(&mut self) -> PlayerStatus {
        self.run(|p, said| p.status(said)).unwrap()
    }

    fn rescan(&mut self) -> ScanReport {
        self.run(|p, said| p.rescan_library(said)).unwrap()
    }

    fn resume_for(&self, id: i64) -> Option<Fixed> {
        self.world.borrow().store.resume_for(id)
    }

    /// Let time pass on an engine.
    fn pass(&self, engine: usize, s: f64) {
        self.world.borrow_mut().engines[engine].tick(secs(s));
    }

    fn calls(&self, engine: usize) -> Vec<String> {
        self.world.borrow().engines[engine].calls().clone()
    }

    fn loads(&self, engine: usize) -> Vec<String> {
        self.calls(engine).into_iter().filter(|c| c.starts_with("load(")).collect()
    }

    fn idle(&self, engine: usize) -> bool {
        self.world.borrow().engines[engine].snapshot().idle
    }

    fn write(&self, name: &str, size: i64) {
        self.world.borrow_mut().files.insert(at(name), (size, 1));
    }

    fn delete(&self, name: &str) {
        self.world.borrow_mut().files.remove(&at(name));
    }

    fn scan_folder(&self, folder: &str) -> ScanReport {
        self.world.borrow_mut().scan_folder(folder)
    }

    fn track_count(&self) -> usize {
        self.world.borrow().store.track_count()
    }

    fn watch(&self) {
        self.world.borrow_mut().store.add_folder(DIR);
    }
}

fn at(name: &str) -> String {
    format!("{DIR}/{name}")
}

fn host(files: &[&str], engines: Vec<NullEngine>) -> Host {
    let world = World {
        store: Store::in_memory(),
        engines,
        files: files.iter().map(|n| (at(n), (0, 1))).collect(),
        layouts: Vec::new(),
        seed: 7,
        printed: Vec::new(),
        probes: 0,
    };
    Host::over(Rc::new(RefCell::new(world)))
}

/// One engine that plays everything.
fn fixture(files: &[&str], duration: Option<f64>) -> Host {
    host(files, vec![NullEngine::new().with_duration(duration.map(secs))])
}

/// A narrow engine first, a wide one second.
fn pair(files: &[&str]) -> Host {
    host(
        files,
        vec![
            NullEngine::with_containers("native", &["mp3", "mp4"])
                .with_duration(Some(secs(600.0))),
            NullEngine::with_containers("fallback", &["mp3", "mp4", "webm", "mkv"])
                .with_duration(Some(secs(600.0))),
        ],
    )
}

const NATIVE: usize = 0;
const FALLBACK: usize = 1;

// ---- playing and resuming -------------------------------------------------

#[test]
fn playing_a_file_indexes_it_and_starts_from_the_beginning() {
    let mut f = fixture(&["set.webm"], Some(7200.0));
    let track = f.play_path(&at("set.webm")).unwrap();

    assert_eq!(f.player.current_track().map(|t| t.id), Some(track.id));
    assert_eq!(track.display_title(), "set");
    assert!(track.has_video, "a .webm is treated as carrying video");
    assert_eq!(f.track_count(), 1);

    let status = f.status();
    assert_eq!(status.queue_len, 1);
    assert_eq!(status.queue_index, Some(0));
    assert!(!status.idle);
    assert_eq!(status.position_secs, Some(secs(0.0)));
}

#[test]
fn position_is_written_while_playing_and_resumed_on_the_next_play() {
    let mut f = fixture(&["set.webm"], Some(7200.0));
    let track = f.play_path(&at("set.webm")).unwrap();

    // Play an hour and a quarter into the set.
    f.pass(0, 4364.0);
    f.tick();

    assert_eq!(
        f.resume_for(track.id),
        Some(secs(4364.0)),
        "position should have been persisted"
    );

    // Play it again: the engine must be asked to start at the stored offset.
    f.play_path(&at("set.webm")).unwrap();
    let loads = f.loads(0);
    assert_eq!(loads.len(), 2);
    assert!(
        loads[1].contains("Some(4364.0)"),
        "second load should resume, got {}",
        loads[1]
    );
    assert_eq!(f.status().position_secs, Some(secs(4364.0)));
}

#[test]
fn a_position_inside_the_guard_bands_is_never_stored() {
    let mut f = fixture(&["set.webm"], Some(7200.0));
    let track = f.play_path(&at("set.webm")).unwrap();

    f.pass(0, 20.0); // inside the opening 30s
    f.tick();
    assert_eq!(
        f.resume_for(track.id),
        None,
        "the first 30 seconds are not worth resuming"
    );
}

#[test]
fn finishing_a_track_clears_its_resume() {
    let mut f = fixture(&["set.webm"], Some(7200.0));
    let track = f.play_path(&at("set.webm")).unwrap();

    f.pass(0, 3600.0);
    f.tick();
    assert!(f.resume_for(track.id).is_some());

    // Run to the end.
    f.pass(0, 4000.0);
    f.tick();
    assert_eq!(
        f.resume_for(track.id),
        None,
        "a finished track should start from the top next time"
    );
}

#[test]
fn end_of_file_advances_the_queue() {
    let mut f = fixture(&["a.mp3", "b.mp3"], Some(100.0));
    let a = f.ensure_indexed(&at("a.mp3")).unwrap();
    let b = f.ensure_indexed(&at("b.mp3")).unwrap();
    f.set_queue(vec![a.id, b.id], Some(0)).unwrap();
    f.play_track_id(a.id).unwrap();

    f.pass(0, 150.0); // past the end of a
    f.tick();

    let status = f.status();
    assert_eq!(
        status.track.as_ref().map(|t| t.id),
        Some(b.id),
        "playback should have moved on to the next queued track"
    );
    assert_eq!(status.queue_index, Some(1));
}

#[test]
fn end_of_the_last_track_stops_rather_than_looping() {
    let mut f = fixture(&["a.mp3"], Some(100.0));
    let a = f.ensure_indexed(&at("a.mp3")).unwrap();
    f.set_queue(vec![a.id], Some(0)).unwrap();
    f.play_track_id(a.id).unwrap();

    f.pass(0, 150.0);
    f.tick();

    assert!(f.status().idle, "queue exhausted, so idle");
    assert!(f.calls(0).iter().any(|c| c == "stop()"));
}

#[test]
fn repeat_one_replays_the_same_track_at_end_of_file() {
    let mut f = fixture(&["a.mp3", "b.mp3"], Some(100.0));
    let a = f.ensure_indexed(&at("a.mp3")).unwrap();
    let b = f.ensure_indexed(&at("b.mp3")).unwrap();
    f.set_queue(vec![a.id, b.id], Some(0)).unwrap();
    f.set_repeat(RepeatMode::One).unwrap();
    f.play_track_id(a.id).unwrap();

    f.pass(0, 150.0);
    f.tick();

    assert_eq!(f.status().track.map(|t| t.id), Some(a.id));
    assert_ne!(f.status().track.map(|t| t.id), Some(b.id));
}

#[test]
fn next_and_previous_walk_the_queue() {
    let mut f = fixture(&["a.mp3", "b.mp3", "c.mp3"], Some(600.0));
    let ids: Vec<i64> = ["a.mp3", "b.mp3", "c.mp3"]
        .iter()
        .map(|n| f.ensure_indexed(&at(n)).unwrap().id)
        .collect();
    f.set_queue(ids.clone(), Some(0)).unwrap();
    f.play_track_id(ids[0]).unwrap();

    assert_eq!(f.next(), Some(ids[1]));
    assert_eq!(f.next(), Some(ids[2]));
    assert_eq!(f.next(), None, "end of queue");
    assert_eq!(f.previous(), Some(ids[1]));
}

#[test]
fn queue_and_settings_survive_a_new_player_over_the_same_store() {
    let mut f = fixture(&["a.mp3", "b.mp3"], Some(600.0));
    let a = f.ensure_indexed(&at("a.mp3")).unwrap();
    let b = f.ensure_indexed(&at("b.mp3")).unwrap();
    f.set_queue(vec![a.id, b.id], Some(1)).unwrap();
    f.set_repeat(RepeatMode::All).unwrap();
    f.run(|p, said| p.set_shuffle(true, said)).unwrap();

    // A second run over the same database.
    let mut reborn = f.reopened();
    let status = reborn.status();
    assert_eq!(status.queue_len, 2);
    assert_eq!(status.queue_index, Some(1));
    assert_eq!(status.repeat, RepeatMode::All);
    assert!(status.shuffle);
}

#[test]
fn staging_a_folder_queues_everything_in_path_order_without_playing() {
    let mut f = fixture(&["02-second.webm", "01-first.webm"], Some(60.0));
    let staged = f.stage_path(DIR).unwrap();

    let names: Vec<&str> = staged
        .iter()
        .map(|t| t.path.rsplit('/').next().unwrap())
        .collect();
    assert_eq!(names, ["01-first.webm", "02-second.webm"], "path order");

    let status = f.status();
    assert_eq!(status.queue_len, 2);
    assert_eq!(status.queue_index, None, "staging must not select a track");
    assert!(status.track.is_none(), "staging must not start playback");
}

#[test]
fn staging_lands_above_the_playing_track_and_survives_a_restart() {
    let mut f = fixture(&["playing.webm", "staged.webm"], Some(60.0));
    let playing = f.play_path(&at("playing.webm")).unwrap();
    let staged = f.stage_path(&at("staged.webm")).unwrap();
    assert_eq!(staged.len(), 1);

    let status = f.status();
    assert_eq!(status.queue_len, 2);
    assert_eq!(status.queue_index, Some(1), "pushed down by the stage");
    assert_eq!(
        status.track.as_ref().map(|t| t.id),
        Some(playing.id),
        "the stage must not change what is playing"
    );

    // Reordering is persisted, so the arrangement is not lost on relaunch.
    assert!(f.run(|p, said| p.queue_move(1, 0, said)).unwrap());
    let (items, index) = f.world.borrow().store.load_queue();
    assert_eq!(items, vec![playing.id, staged[0].id]);
    assert_eq!(index, Some(0), "the current index followed its track");
}

#[test]
fn a_loop_confines_playback_and_survives_a_new_player() {
    let mut f = fixture(&["a.webm", "b.webm", "c.webm", "d.webm"], Some(60.0));
    let ids: Vec<i64> = ["a.webm", "b.webm", "c.webm", "d.webm"]
        .iter()
        .map(|n| f.ensure_indexed(&at(n)).unwrap().id)
        .collect();
    f.set_queue(ids.clone(), Some(0)).unwrap();
    f.set_repeat(RepeatMode::All).unwrap();

    // Loop rows 1 and 3; repeat is displaced by it.
    f.run(|p, said| p.set_loop(Some(vec![1, 3]), said)).unwrap();
    let status = f.status();
    assert_eq!(status.loop_positions, vec![1, 3]);
    assert_eq!(status.repeat, RepeatMode::Off);

    assert_eq!(f.next(), Some(ids[1]), "enters the loop");
    assert_eq!(f.next(), Some(ids[3]));
    assert_eq!(f.next(), Some(ids[1]), "and wraps inside it");

    // Scrambling the two looped slots keeps the loop on those slots.
    f.run(|p, said| p.queue_scramble(Some(&[1, 3]), said)).unwrap();
    assert_eq!(f.status().loop_positions, vec![1, 3]);

    let mut again = f.reopened();
    let status = again.status();
    assert_eq!(status.loop_positions, vec![1, 3], "the loop is restored");
    assert_eq!(
        status.repeat,
        RepeatMode::Off,
        "without resurrecting repeat"
    );

    again.set_repeat(RepeatMode::One).unwrap();
    assert!(
        again.status().loop_positions.is_empty(),
        "repeat lifts the loop"
    );
}

#[test]
fn seek_relative_is_clamped_to_the_file() {
    let mut f = fixture(&["set.webm"], Some(100.0));
    f.play_path(&at("set.webm")).unwrap();

    assert_eq!(
        f.run(|p, said| p.seek_relative(secs(-30.0), said)).unwrap(),
        secs(0.0),
        "clamped at zero"
    );
    assert_eq!(
        f.run(|p, said| p.seek_relative(secs(5000.0), said)).unwrap(),
        secs(100.0),
        "clamped at the end"
    );
}

#[test]
fn video_pop_out_is_refused_for_audio_only_tracks() {
    let mut f = fixture(&["a.mp3", "set.webm"], Some(600.0));

    f.play_path(&at("a.mp3")).unwrap();
    assert!(
        f.run(|p, said| p.toggle_video(said)).is_err(),
        "an mp3 has nothing to pop out"
    );

    f.play_path(&at("set.webm")).unwrap();
    assert!(
        f.run(|p, said| p.toggle_video(said)).unwrap(),
        "video should pop out"
    );
    assert!(
        !f.run(|p, said| p.toggle_video(said)).unwrap(),
        "and go away again"
    );
}

#[test]
fn duration_discovered_at_playback_time_is_written_back() {
    // Nothing can be probed here, so the index has no duration to start with.
    let mut f = fixture(&["set.webm"], Some(5400.0));
    let track = f.play_path(&at("set.webm")).unwrap();
    assert_eq!(
        track.duration_secs, None,
        "nothing to probe in an empty file"
    );

    f.tick();
    assert_eq!(
        f.world.borrow().store.track_by_id(track.id).unwrap().duration_secs,
        Some(secs(5400.0)),
        "the engine's duration should be learned on first play"
    );
}

#[test]
fn unsupported_files_are_rejected_before_reaching_an_engine() {
    let mut f = fixture(&["notes.txt"], Some(600.0));
    assert!(f.play_path(&at("notes.txt")).is_err());
    assert!(
        f.calls(0).is_empty(),
        "engine should never have been asked to open it"
    );
}

#[test]
fn quitting_shuts_the_engine_down() {
    let mut f = fixture(&["a.mp3"], Some(600.0));
    f.play_path(&at("a.mp3")).unwrap();
    f.run(|p, said| p.quit(said)).unwrap();
    assert!(f.world.borrow().engines[0].was_shutdown());
}

// ---- a stored position ----------------------------------------------------

#[test]
fn player_resumes_from_a_stored_position() {
    let mut f = fixture(&["long.webm"], Some(200.0));
    let track = f.play_path(&at("long.webm")).unwrap();

    // Seed a position the way a previous session would have left one.
    f.world.borrow_mut().store.set_resume(track.id, secs(90.0)).unwrap();
    f.run(|p, said| p.stop(said)).unwrap();

    f.play_track_id(track.id).unwrap();
    assert_eq!(f.status().position_secs, Some(secs(90.0)));
}

#[test]
fn position_survives_a_stop_and_replay() {
    let mut f = fixture(&["long.webm"], Some(200.0));
    let track = f.play_path(&at("long.webm")).unwrap();

    f.run(|p, said| p.seek_absolute(secs(120.0), said)).unwrap();
    f.tick();
    assert_eq!(f.resume_for(track.id), Some(secs(120.0)));

    f.run(|p, said| p.stop(said)).unwrap();
    f.play_track_id(track.id).unwrap();
    assert_eq!(f.status().position_secs, Some(secs(120.0)));
}

/// Restarting must beat the saved position even when the track being restarted is
/// the one already playing.
#[test]
fn restarting_the_currently_playing_track_ignores_its_saved_position() {
    let mut f = fixture(&["long.webm"], Some(200.0));
    let track = f.play_path(&at("long.webm")).unwrap();

    f.run(|p, said| p.seek_absolute(secs(120.0), said)).unwrap();
    f.tick();
    assert!(f.resume_for(track.id).is_some());

    f.run(|p, said| p.restart_track_id(track.id, said)).unwrap();
    assert_eq!(f.status().position_secs, Some(secs(0.0)));
    assert_eq!(
        f.resume_for(track.id),
        None,
        "restarting discards the saved position"
    );
}

#[test]
fn small_moves_are_not_written_again() {
    let mut f = fixture(&["long.webm"], Some(7200.0));
    let track = f.play_path(&at("long.webm")).unwrap();
    f.pass(0, 100.0);
    f.tick();
    assert_eq!(f.resume_for(track.id), Some(secs(100.0)));
    f.pass(0, 14.0);
    f.tick();
    assert_eq!(f.resume_for(track.id), Some(secs(100.0)), "not far enough");
    f.pass(0, 1.0);
    f.tick();
    assert_eq!(f.resume_for(track.id), Some(secs(115.0)));
    f.pass(0, 3.0);
    f.run(|p, said| p.persist_resume(said)).unwrap();
    assert_eq!(f.resume_for(track.id), Some(secs(118.0)), "written at once");
}

// ---- what fails -----------------------------------------------------------

#[test]
fn nothing_playing_is_said_where_there_is_no_engine_to_address() {
    let mut f = fixture(&["a.mp3"], Some(600.0));
    assert!(matches!(
        f.run(|p, said| p.set_paused(true, said)),
        Err(CoreError::NothingPlaying)
    ));
    assert!(matches!(
        f.run(|p, said| p.toggle_paused(said)),
        Err(CoreError::NothingPlaying)
    ));
    assert!(matches!(
        f.run(|p, said| p.seek_absolute(secs(1.0), said)),
        Err(CoreError::NothingPlaying)
    ));
    assert!(f.status().idle);
}

#[test]
fn a_search_without_a_match_says_so() {
    let mut f = fixture(&["a.mp3"], Some(600.0));
    let r = f.run(|p, said| p.find_track("palms", said));
    assert_eq!(r.err().unwrap().message(), "nothing in the library matches \"palms\"");
    f.ensure_indexed(&at("a.mp3")).unwrap();
    let found = f.run(|p, said| p.find_track("a.mp3", said)).unwrap();
    assert_eq!(found.path, at("a.mp3"));
}

#[test]
fn a_file_that_is_not_there_is_not_indexed() {
    let mut f = fixture(&[], Some(600.0));
    assert!(matches!(
        f.ensure_indexed(&at("gone.mp3")),
        Err(CoreError::Io { .. })
    ));
    assert_eq!(f.track_count(), 0);
}

#[test]
fn an_answer_that_does_not_fit_is_no_panic() {
    let mut player = Player::new(EngineRegistry::new(Vec::new()));
    let said = vec![Answer::Seed(1)];
    assert!(matches!(
        player.restore(&said),
        Err(Halt::Failed(CoreError::Internal { .. }))
    ));
}

#[test]
fn an_operation_that_waits_has_changed_nothing() {
    let mut f = fixture(&["a.mp3"], Some(600.0));
    f.play_path(&at("a.mp3")).unwrap();
    let before = f.status();
    assert!(matches!(
        f.player.next(&Vec::new()),
        Err(Halt::Ask(_)) | Ok(None)
    ));
    assert!(matches!(f.player.stop(&Vec::new()), Err(Halt::Ask(_))));
    assert_eq!(f.status(), before);
}

#[test]
fn pausing_keeps_the_position_and_playing_goes_on() {
    let mut f = fixture(&["set.webm"], Some(7200.0));
    let track = f.play_path(&at("set.webm")).unwrap();
    f.pass(0, 300.0);
    f.run(|p, said| p.set_paused(true, said)).unwrap();
    assert_eq!(f.resume_for(track.id), Some(secs(300.0)), "pausing writes it");
    f.pass(0, 300.0);
    assert_eq!(f.status().position_secs, Some(secs(300.0)));
    assert!(f.status().paused);
    assert!(!f.run(|p, said| p.toggle_paused(said)).unwrap());
    f.pass(0, 10.0);
    assert_eq!(f.status().position_secs, Some(secs(310.0)));
}

#[test]
fn the_queue_can_be_added_to_and_cleared() {
    let mut f = fixture(&["a.mp3", "b.mp3"], Some(600.0));
    let a = f.play_path(&at("a.mp3")).unwrap();
    let b = f.ensure_indexed(&at("b.mp3")).unwrap();
    f.run(|p, said| p.queue_add(vec![b.id], said)).unwrap();
    let ids: Vec<i64> = f
        .run(|p, said| p.queue_tracks(said))
        .unwrap()
        .into_iter()
        .map(|t| t.id)
        .collect();
    assert_eq!(ids, vec![a.id, b.id]);
    f.run(|p, said| p.queue_clear(said)).unwrap();
    assert_eq!(f.status().queue_len, 0);
    assert_eq!(f.world.borrow().store.load_queue(), (Vec::new(), None));
}

#[test]
fn volume_speed_and_window_reach_the_engine() {
    let mut f = fixture(&["set.webm"], Some(600.0));
    f.play_path(&at("set.webm")).unwrap();
    f.run(|p, said| p.set_volume(secs(55.0), said)).unwrap();
    f.run(|p, said| p.set_speed(secs(1.5), said)).unwrap();
    f.run(|p, said| p.set_video_visible(true, said)).unwrap();
    f.run(|p, said| p.set_video_ontop(false, said)).unwrap();
    let calls = f.calls(0);
    assert!(calls.contains(&String::from("set_volume(55)")), "{calls:?}");
    assert!(calls.contains(&String::from("set_speed(1.5)")));
    assert!(calls.contains(&String::from("set_video_visible(true)")));
    assert_eq!(f.run(|p, said| p.begin_window_placement(said)).unwrap(), None);
    f.run(|p, said| p.end_window_placement(said)).unwrap();
    assert_eq!(f.run(|p, said| p.video_surface(said)).unwrap(), None);
    f.run(|p, said| p.set_video_surface("panel", said)).unwrap();
    assert_eq!(
        f.run(|p, said| p.video_surface(said)).unwrap().as_deref(),
        Some("panel")
    );
}

// ---- more than one engine -------------------------------------------------

/// Registration order is preference order, and the file decides.
#[test]
fn each_file_goes_to_the_first_engine_that_can_open_it() {
    let mut f = pair(&["track.mp3", "set.webm"]);

    f.play_path(&at("track.mp3")).unwrap();
    assert_eq!(f.loads(NATIVE).len(), 1, "the narrow engine takes the mp3");
    assert!(f.loads(FALLBACK).is_empty());
    assert_eq!(f.status().engine_id.as_deref(), Some("native"));

    f.play_path(&at("set.webm")).unwrap();
    assert_eq!(
        f.loads(FALLBACK).len(),
        1,
        "a container the narrow engine cannot read falls through"
    );
    assert_eq!(f.status().engine_id.as_deref(), Some("fallback"));
}

/// Handing over between engines must not leave two of them playing.
#[test]
fn switching_engines_stops_the_outgoing_one_first() {
    let mut f = pair(&["track.mp3", "set.webm"]);
    f.play_path(&at("track.mp3")).unwrap();
    f.play_path(&at("set.webm")).unwrap();

    assert!(
        f.calls(NATIVE).iter().any(|c| c == "stop()"),
        "the engine that was playing must be stopped: {:?}",
        f.calls(NATIVE)
    );
    assert!(f.idle(NATIVE), "and must actually be idle afterwards");
    assert!(!f.idle(FALLBACK), "while the new one plays");
}

#[test]
fn the_queue_hands_over_between_engines_at_end_of_file() {
    let mut f = pair(&["a.mp3", "b.webm"]);
    let a = f.ensure_indexed(&at("a.mp3")).unwrap();
    let b = f.ensure_indexed(&at("b.webm")).unwrap();
    f.set_queue(vec![a.id, b.id], Some(0)).unwrap();
    f.play_track_id(a.id).unwrap();

    f.pass(NATIVE, 1000.0);
    f.tick();

    let status = f.status();
    assert_eq!(status.track.map(|t| t.id), Some(b.id));
    assert_eq!(status.engine_id.as_deref(), Some("fallback"));
    assert!(f.idle(NATIVE), "no audio left running behind it");
}

#[test]
fn staying_on_one_engine_does_not_stop_it_between_tracks() {
    let mut f = pair(&["a.mp3", "b.mp4"]);
    f.play_path(&at("a.mp3")).unwrap();
    f.play_path(&at("b.mp4")).unwrap();
    assert!(
        !f.calls(NATIVE).iter().any(|c| c == "stop()"),
        "same engine, so no stop: {:?}",
        f.calls(NATIVE)
    );
}

#[test]
fn a_forced_engine_never_falls_back() {
    let mut f = pair(&["track.mp3", "set.webm"]);
    f.set_engine_policy(EnginePolicy::Force("native".into())).unwrap();

    f.play_path(&at("track.mp3")).unwrap();
    assert_eq!(f.status().engine_id.as_deref(), Some("native"));

    assert!(matches!(
        f.play_path(&at("set.webm")),
        Err(CoreError::Engine(EngineError::Unsupported { .. }))
    ));
    assert!(
        f.loads(FALLBACK).is_empty(),
        "the other engine was never asked"
    );
}

/// A policy that names an engine that is not there is refused where it is made.
#[test]
fn forcing_an_engine_that_is_not_registered_is_refused() {
    let mut f = pair(&["track.mp3"]);
    let refused = f.set_engine_policy(EnginePolicy::Force("not-installed".into()));
    assert!(matches!(refused, Err(CoreError::Internal { .. })));
    assert_eq!(
        f.player.engine_policy(),
        EnginePolicy::Auto,
        "the policy in force is unchanged"
    );

    // And it was not written to the store either, so a restart is still sane.
    let mut reopened = f.reopened();
    assert_eq!(reopened.player.engine_policy(), EnginePolicy::Auto);
    assert!(reopened.play_path(&at("track.mp3")).is_ok());
}

#[test]
fn a_chosen_engine_survives_a_restart() {
    let mut f = pair(&["track.mp3"]);
    f.set_engine_policy(EnginePolicy::Force("fallback".into())).unwrap();

    let mut reopened = f.reopened();
    assert_eq!(
        reopened.player.engine_policy(),
        EnginePolicy::Force("fallback".into()),
        "settings must show what is really set, not a default"
    );
    reopened.play_path(&at("track.mp3")).unwrap();
    assert_eq!(reopened.status().engine_id.as_deref(), Some("fallback"));
}

/// The layout is about the window, whichever engine ends up drawing it.
#[test]
fn the_window_layout_reaches_every_engine_and_survives_a_restart() {
    let mut f = pair(&["set.webm"]);
    let layout = VideoWindowLayout::parse("1280+100+50").unwrap();
    f.run(|p, said| p.set_video_window_layout(layout, said)).unwrap();
    assert_eq!(f.world.borrow().layouts, vec![(NATIVE, layout), (FALLBACK, layout)]);

    assert_eq!(
        f.run(|p, said| p.video_window_layout(said)).unwrap(),
        Some(layout)
    );

    f.world.borrow_mut().layouts.clear();
    let mut reopened = f.reopened();
    assert_eq!(
        reopened.run(|p, said| p.video_window_layout(said)).unwrap(),
        Some(layout),
        "the saved layout is handed to engines before anything can pop out"
    );
    assert_eq!(f.world.borrow().layouts, vec![(NATIVE, layout), (FALLBACK, layout)]);
}

#[test]
fn engines_are_reported_by_capability_in_preference_order() {
    let f = pair(&[]);
    let caps = f.player.engine_capabilities();
    assert_eq!(
        caps.iter().map(|c| c.id.as_str()).collect::<Vec<_>>(),
        ["native", "fallback"]
    );
    assert!(
        caps.iter().all(|c| !c.display_name.is_empty()),
        "settings name engines by display_name, so it must exist"
    );
    assert_eq!(f.player.engine_ids(), ["native", "fallback"]);
}

/// Quitting must stop every engine, not just whichever one was playing.
#[test]
fn quitting_shuts_every_engine_down() {
    let mut f = pair(&["track.mp3"]);
    f.play_path(&at("track.mp3")).unwrap();
    f.run(|p, said| p.quit(said)).unwrap();
    assert!(f.world.borrow().engines[NATIVE].was_shutdown());
    assert!(
        f.world.borrow().engines[FALLBACK].was_shutdown(),
        "including the idle one"
    );
}

#[test]
fn quitting_goes_on_when_an_engine_refuses() {
    let mut f = pair(&["a.mp3"]);
    let mut said = Vec::new();
    let mut asked = Vec::new();
    loop {
        match f.player.quit(&said) {
            Ok(()) => break,
            Err(Halt::Failed(e)) => panic!("{}", e.message()),
            Err(Halt::Ask(Action::Engine { index, call: EngineCall::Shutdown })) => {
                asked.push(index);
                said.push(Answer::Failed(CoreError::NothingPlaying));
            }
            Err(Halt::Ask(action)) => {
                let answer = f.world.borrow_mut().answer(action);
                said.push(answer);
            }
        }
    }
    assert_eq!(asked, vec![NATIVE, FALLBACK]);
}

#[test]
fn an_empty_registry_is_an_internal_error_not_an_unsupported_file() {
    let mut f = host(&[], Vec::new());
    assert!(matches!(
        f.play_track_id(1),
        // No track either, so this is about not panicking on the way through.
        Err(CoreError::NoMatch { .. })
    ));
    assert!(f.player.engine_ids().is_empty());
    assert!(f.status().idle);
}

// ---- scanning -------------------------------------------------------------

#[test]
fn a_scan_indexes_media_and_ignores_everything_else() {
    let f = fixture(&["set.webm", "track.mp3", "notes.txt", "cover.jpg"], Some(600.0));
    let report = f.scan_folder(DIR);

    assert_eq!(report.seen, 2, "only media files are seen");
    assert_eq!(report.added, 2);
    assert_eq!(report.updated, 0);
    assert_eq!(report.unchanged, 0);
    assert_eq!(f.track_count(), 2);
}

#[test]
fn a_second_scan_costs_nothing_and_notices_a_changed_file() {
    let f = fixture(&["set.webm", "track.mp3"], Some(600.0));
    f.scan_folder(DIR);

    let again = f.scan_folder(DIR);
    assert_eq!(again.unchanged, 2, "nothing was re-probed");
    assert_eq!(again.added, 0);

    // Rewrite one file: a different size is a different file's worth of content.
    f.write("set.webm", 20);
    let third = f.scan_folder(DIR);
    assert_eq!(third.updated, 1);
    assert_eq!(third.unchanged, 1);
    assert_eq!(f.track_count(), 2, "still the same two files");
}

#[test]
fn a_settled_folder_is_scanned_without_probing() {
    let f = fixture(&["a.mp3", "b.txt", "c.webm"], Some(600.0));
    let first = f.scan_folder(DIR);
    assert_eq!(first, ScanReport { seen: 2, added: 2, updated: 0, unchanged: 0, removed: 0 });
    assert_eq!(f.world.borrow().probes, 2);

    let again = f.scan_folder(DIR);
    assert_eq!(again, ScanReport { seen: 2, added: 0, updated: 0, unchanged: 2, removed: 0 });
    assert_eq!(f.world.borrow().probes, 2);

    f.write("d.mp3", 1);
    let third = f.scan_folder(DIR);
    assert_eq!(third, ScanReport { seen: 3, added: 1, updated: 0, unchanged: 2, removed: 0 });
    assert_eq!(f.world.borrow().probes, 3);
}

#[test]
fn nested_folders_are_walked_and_a_missing_root_is_not_fatal() {
    let f = fixture(&["top.webm"], Some(600.0));
    f.write("deep/deeper/buried.mp3", 0);

    assert_eq!(f.scan_folder(DIR).seen, 2);
    assert_eq!(
        f.scan_folder(&at("not-here")).seen,
        0,
        "a folder that has been unmounted must not fail the scan"
    );
}

#[test]
fn rescanning_forgets_files_that_are_gone() {
    let mut f = fixture(&["keep.webm", "delete-me.webm"], Some(600.0));
    f.watch();
    f.rescan();
    assert_eq!(f.track_count(), 2);

    f.delete("delete-me.webm");
    let report = f.rescan();

    assert_eq!(report.removed, 1);
    assert_eq!(report.unchanged, 1);
    assert_eq!(f.track_count(), 1);
}

#[test]
fn a_rescan_drops_deleted_files_from_the_queue_and_the_queue_still_works() {
    let mut f = fixture(&["a.webm", "gone.webm", "c.webm"], Some(600.0));
    f.watch();
    f.rescan();

    let staged = f.stage_path(DIR).unwrap();
    assert_eq!(staged.len(), 3);
    let surviving: Vec<i64> = staged
        .iter()
        .filter(|t| !t.path.ends_with("gone.webm"))
        .map(|t| t.id)
        .collect();

    f.delete("gone.webm");
    assert_eq!(f.rescan().removed, 1);

    let queue: Vec<i64> = f
        .run(|p, said| p.queue_tracks(said))
        .unwrap()
        .into_iter()
        .map(|t| t.id)
        .collect();
    assert_eq!(queue, surviving, "the deleted file left the queue");
    assert_eq!(f.status().queue_len, 2);

    // The operations that would fail on a row that points at nothing.
    f.run(|p, said| p.queue_move(0, 1, said)).unwrap();
    f.stage_path(&at("a.webm")).unwrap();
    assert_eq!(f.world.borrow().store.load_queue().0.len(), 3);
}

/// What is playing keeps playing when something else is forgotten.
#[test]
fn a_rescan_does_not_disturb_the_track_that_is_playing() {
    let mut f = fixture(&["playing.webm", "gone.webm"], Some(600.0));
    f.watch();
    f.rescan();
    f.stage_path(DIR).unwrap();

    let playing = f.play_path(&at("playing.webm")).unwrap();
    // `play_path` replaces the queue, so put both rows back with the playing
    // one second.
    let gone = f.world.borrow().store.track_by_path(&at("gone.webm")).unwrap();
    f.set_queue(vec![gone.id, playing.id], Some(1)).unwrap();
    assert_eq!(f.status().queue_index, Some(1));

    f.delete("gone.webm");
    f.rescan();

    let status = f.status();
    assert_eq!(status.track.map(|t| t.id), Some(playing.id));
    assert_eq!(status.queue_len, 1);
    assert_eq!(
        status.queue_index,
        Some(0),
        "the playing row moved up with the deletion, and is still selected"
    );
}

#[test]
fn pruning_is_a_no_op_when_every_queued_file_is_still_there() {
    let mut f = fixture(&["a.webm", "b.webm"], Some(600.0));
    f.watch();
    f.rescan();
    f.stage_path(DIR).unwrap();

    assert!(!f.run(|p, said| p.prune_missing_tracks(said)).unwrap());
    assert_eq!(f.status().queue_len, 2);
}

#[test]
fn a_rescan_with_no_watched_folders_reports_nothing_rather_than_emptying_the_library() {
    let mut f = fixture(&["a.webm"], Some(600.0));
    let track = f.ensure_indexed(&at("a.webm")).unwrap();

    let report = f.rescan();
    assert_eq!(report.seen, 0, "no folders are watched");
    assert_eq!(report.removed, 0);
    assert!(
        f.world.borrow().store.track_by_id(track.id).is_some(),
        "a file opened directly is still indexed, watched folder or not"
    );
}

#[test]
fn reports_are_counted_together() {
    let one = ScanReport { seen: 3, added: 1, updated: 1, unchanged: 1, removed: 0 };
    let two = ScanReport { seen: 2, added: 0, updated: 0, unchanged: 2, removed: 1 };
    let all = scan_all(&vec![one, two], 4);
    assert_eq!(all, ScanReport { seen: 5, added: 1, updated: 1, unchanged: 3, removed: 4 });
    let mut merged = one;
    merged.merge(two);
    assert_eq!(merged.seen, 5);
    assert_eq!(merged.removed, 1);
}

// ---- commands ----------------------------------------------------------------

fn words(s: &str) -> Vec<String> {
    s.split(' ').map(|w| w.to_string()).collect()
}

fn one(line: &str) -> Result<Vec<String>, String> {
    Ok(vec![line.to_string()])
}

fn refused(line: &str) -> Result<Vec<String>, String> {
    Err(line.to_string())
}

#[test]
fn play_takes_a_path_or_words_and_says_what_plays() {
    let mut f = fixture(&["Night Set.webm", "other.mp3"], Some(7200.0));
    let target = vec![at("Night Set.webm")];
    assert_eq!(f.command(Command::Play { target, restart: false }), one("▶ Night Set"));
    f.pass(0, 4000.0);
    f.tick();

    let again = Command::Play { target: words("night set"), restart: false };
    assert_eq!(f.command(again), one("▶ Night Set"));
    assert_eq!(f.status().position_secs, Some(secs(4000.0)));

    let restart = Command::Play { target: words("night set"), restart: true };
    assert_eq!(f.command(restart), one("▶ Night Set"));
    assert_eq!(f.status().position_secs, Some(secs(0.0)));

    let nothing = Command::Play { target: vec![], restart: false };
    assert_eq!(f.command(nothing), refused("nothing to play"));
    let unknown = Command::Play { target: words("no such"), restart: false };
    assert_eq!(f.command(unknown), refused("nothing in the library matches \"no such\""));
    assert_eq!(f.printed(), Vec::<String>::new());
}

#[test]
fn pausing_and_skipping_are_told() {
    let mut f = fixture(&["a.mp3", "b.mp3"], Some(600.0));
    f.command(Command::QueueAdd(vec![at("a.mp3"), at("b.mp3")])).unwrap();
    f.command(Command::Play { target: vec![at("a.mp3")], restart: false }).unwrap();

    assert_eq!(f.command(Command::Pause), one("⏸ paused"));
    assert!(f.status().paused);
    assert_eq!(f.command(Command::Resume), one("▶ playing"));
    assert_eq!(f.command(Command::Toggle), one("⏸ paused"));
    assert_eq!(f.command(Command::Toggle), one("▶ playing"));
    assert_eq!(f.command(Command::Next), one("▶ b"));
    assert_eq!(f.command(Command::Next), one("end of queue"));
    assert_eq!(f.command(Command::Play { target: words("a"), restart: false }), one("▶ a"));
    assert_eq!(f.command(Command::Prev), one("start of queue"));
    assert_eq!(f.command(Command::Stop), one("stopped"));
    assert!(f.idle(0));
    assert_eq!(f.command(Command::Quit), one("stopped and shut down"));
}

#[test]
fn a_seek_is_told_as_where_it_went() {
    let mut f = fixture(&["set.webm"], Some(7200.0));
    f.command(Command::Play { target: vec![at("set.webm")], restart: false }).unwrap();
    assert_eq!(f.command(Command::Seek("1:12:44".to_string())), one("⇥ 1:12:44"));
    assert_eq!(f.status().position_secs, Some(secs(4364.0)));
    assert_eq!(f.command(Command::Seek("-1:00".to_string())), one("⇥ 1:11:44"));
    assert_eq!(f.command(Command::Seek("+30".to_string())), one("⇥ 1:12:14"));
    assert_eq!(f.status().position_secs, Some(secs(4334.0)));
    assert!(f.command(Command::Seek("soon".to_string())).is_err());
    assert_eq!(f.status().position_secs, Some(secs(4334.0)));
}

#[test]
fn the_video_is_shown_hidden_and_toggled() {
    let mut f = fixture(&["set.webm"], Some(7200.0));
    f.command(Command::Play { target: vec![at("set.webm")], restart: false }).unwrap();
    assert_eq!(f.command(Command::Video(" Show ".to_string())), one("video shown"));
    assert!(f.status().video_visible);
    assert_eq!(f.command(Command::Video("toggle".to_string())), one("video hidden"));
    assert_eq!(f.command(Command::Video("on".to_string())), one("video shown"));
    assert_eq!(f.command(Command::Video("off".to_string())), one("video hidden"));
    assert!(!f.status().video_visible);
    assert_eq!(
        f.command(Command::Video("Up".to_string())),
        refused("unknown video state \"up\" (on, off, toggle)")
    );
}

#[test]
fn settings_are_told_as_they_were_asked_for() {
    let mut f = fixture(&["set.webm"], Some(7200.0));
    f.command(Command::Play { target: vec![at("set.webm")], restart: false }).unwrap();
    assert_eq!(f.command(Command::Volume(secs(55.4))), one("volume 55%"));
    assert!(f.calls(0).iter().any(|c| c.contains("55.4")));
    assert_eq!(f.command(Command::Speed(secs(1.25))), one("speed 1.25x"));
    assert_eq!(f.command(Command::Repeat("One".to_string())), one("repeat one"));
    assert_eq!(f.status().repeat, RepeatMode::One);
    assert_eq!(
        f.command(Command::Repeat("twice".to_string())),
        refused("unknown repeat mode (off, all, one)")
    );
    assert_eq!(f.command(Command::Shuffle("on".to_string())), one("shuffle on"));
    assert!(f.status().shuffle);
    assert_eq!(f.command(Command::Shuffle("no".to_string())), one("shuffle off"));
    assert_eq!(
        f.command(Command::Shuffle("maybe".to_string())),
        refused("expected on or off, got \"maybe\"")
    );
}

#[test]
fn queue_commands_add_list_and_clear() {
    let mut f = fixture(&["a.mp3", "b.mp3"], Some(600.0));
    assert_eq!(f.command(Command::QueueList), one("queue is empty"));
    assert_eq!(f.command(Command::QueueAdd(vec![])), refused("nothing to add"));
    assert_eq!(
        f.command(Command::QueueAdd(vec![at("a.mp3"), at("b.mp3")])),
        Ok(vec!["+ a".to_string(), "+ b".to_string(), "2 added".to_string()])
    );
    f.command(Command::Play { target: words("b"), restart: false }).unwrap();
    assert_eq!(
        f.command(Command::QueueList),
        Ok(vec!["    1. a".to_string(), "▶   2. b".to_string()])
    );
    assert_eq!(f.command(Command::QueueClear), one("queue cleared"));
    assert_eq!(f.command(Command::QueueList), one("queue is empty"));
}

#[test]
fn what_was_added_before_a_target_failed_stays_added() {
    let mut f = fixture(&["a.mp3"], Some(600.0));
    let targets = vec![at("a.mp3"), "nowhere".to_string()];
    assert_eq!(
        f.command(Command::QueueAdd(targets)),
        refused("nothing in the library matches \"nowhere\"")
    );
    assert_eq!(f.printed(), vec!["+ a"]);
    assert_eq!(f.status().queue_len, 1);
}

#[test]
fn folders_are_watched_scanned_and_let_go() {
    let mut f = fixture(&["a.mp3", "b.webm"], Some(600.0));
    let dir = DIR.to_string();
    assert_eq!(
        f.command(Command::LibraryList),
        one("no watched folders — add one with `setwave library add <dir>`")
    );
    assert_eq!(
        f.command(Command::LibraryAdd("/gone".to_string())),
        refused("no such folder: /gone: no such file: /gone")
    );
    assert_eq!(
        f.command(Command::LibraryAdd(dir.clone())),
        one("watching /lib\n  2 found, 2 added, 0 updated, 0 unchanged")
    );
    assert_eq!(f.command(Command::LibraryList), one("/lib"));
    f.delete("a.mp3");
    f.write("c.mp3", 5);
    assert_eq!(
        f.command(Command::LibraryScan),
        Ok(vec![
            "2 found, 1 added, 0 updated, 1 unchanged, 1 removed".to_string(),
            "2 tracks in the library".to_string(),
        ])
    );
    assert_eq!(f.command(Command::LibraryRemove(dir.clone())), one("no longer watching /lib"));
    assert_eq!(f.command(Command::LibraryRemove(dir)), one("/lib was not being watched"));
    assert_eq!(
        f.command(Command::LibraryRemove("/gone".to_string())),
        one("/gone was not being watched")
    );
}

#[test]
fn searches_and_recents_show_where_a_track_is_taken_up() {
    let mut f = fixture(&["Night Set.webm", "day.mp3"], Some(7200.0));
    assert_eq!(f.command(Command::LibraryRecent(20)), one("nothing played yet"));
    f.command(Command::LibraryAdd(DIR.to_string())).unwrap();
    f.command(Command::Play { target: words("night"), restart: false }).unwrap();
    f.pass(0, 4364.0);
    f.tick();

    let night = "▣ 2:00:00  Night Set  [resume 1:12:44]";
    let search = Command::LibrarySearch { query: words("night set"), limit: 20 };
    assert_eq!(f.command(search), one(night));
    assert_eq!(f.command(Command::LibraryRecent(20)), one(night));
    let none = Command::LibrarySearch { query: words("dusk"), limit: 20 };
    assert_eq!(f.command(none), one("nothing matched"));
    let all = Command::LibrarySearch { query: vec!["".to_string()], limit: 1 };
    assert_eq!(f.command(all).unwrap().len(), 1);
}

#[test]
fn engines_are_listed_and_chosen() {
    let mut f = pair(&["a.mp3"]);
    assert_eq!(
        f.command(Command::EngineList),
        Ok(vec!["native".to_string(), "fallback".to_string()])
    );
    assert_eq!(
        f.command(Command::EngineUse("fallback".to_string())),
        one("engine set to fallback")
    );
    f.command(Command::Play { target: vec![at("a.mp3")], restart: false }).unwrap();
    assert_eq!(f.loads(FALLBACK).len(), 1);
    assert!(f.command(Command::EngineUse("vlc".to_string())).is_err());
    assert_eq!(f.command(Command::EngineUse("auto".to_string())), one("engine set to auto"));
}

#[test]
fn the_status_records_the_position_first() {
    let mut f = fixture(&["set.webm"], Some(7200.0));
    let track = f.play_path(&at("set.webm")).unwrap();
    f.pass(0, 4364.0);
    let lines = f.command(Command::Status).unwrap();
    assert_eq!(f.resume_for(track.id), Some(secs(4364.0)));
    assert!(lines[0].contains("set"));
    assert!(lines.iter().any(|l| l.contains("1:12:44") && l.contains("2:00:00")));
}

#[test]
fn the_status_is_told_where_nothing_plays() {
    let mut f = host(&["set.webm"], vec![]);
    assert_eq!(f.command(Command::Status), one("nothing playing"));
    assert_eq!(f.command(Command::Pause), refused("nothing is playing"));
}
