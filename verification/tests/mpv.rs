//! The mpv engine against a player process that only pretends to play.
//!
//! The process speaks the same lines as the real one, so requests are written,
//! correlated and answered as they are over a socket. Time moves only when a test
//! says so.

use std::cell::RefCell;
use std::rc::Rc;

use serde_json::Value;

use setbuddy::engine::{EngineError, EngineSnapshot};
use setbuddy::fixed::Fixed;
use setbuddy::ipc::{encode_request, Arg, Bus, Poll};
use setbuddy::layout::VideoWindowLayout;
use setbuddy::mpv::{
    fate, has_video, missing_mpv, socket_name, spawn_args, video_selection, MpvEngine, MpvHalt, MpvStep,
};
use setbuddy::mpv_model::{MpvAction, MpvAnswer, Sighting};

fn secs(s: f64) -> Fixed {
    Fixed::Nanos((s * 1e9).round() as i128)
}

fn seconds(s: Option<Fixed>) -> f64 {
    match s {
        Some(Fixed::Nanos(n)) => n as f64 / 1e9,
        _ => f64::NAN,
    }
}

/// A process that plays files by their names: `long` ones for 200 s, others for
/// six; `.webm` has pictures, `_art` cover art only.
#[derive(Default)]
struct Process {
    props: Vec<(String, Value)>,
    observed: Vec<String>,
    lines: Vec<String>,
    commands: Vec<String>,
    refuse: Option<String>,
    stuck: bool,
    ended: bool,
}

impl Process {
    fn get(&self, name: &str) -> Value {
        self.props
            .iter()
            .find(|(n, _)| n == name)
            .map(|(_, v)| v.clone())
            .unwrap_or(Value::Null)
    }

    fn put(&mut self, name: &str, value: Value) {
        self.props.retain(|(n, _)| n != name);
        self.props.push((name.to_string(), value.clone()));
        if self.observed.iter().any(|n| n == name) {
            let data = if value.is_null() { String::new() } else { format!(",\"data\":{value}") };
            self.lines
                .push(format!("{{\"event\":\"property-change\",\"name\":\"{name}\"{data}}}"));
        }
    }

    fn show(&mut self) {
        let pictures = self.get("path").as_str().map(|p| p.ends_with(".webm")).unwrap_or(false);
        let wanted = self.get("vid") == Value::from("auto") && pictures;
        let forced = self.get("force-window") == Value::from(true);
        let output = if wanted || forced { Value::from("gpu") } else { Value::Null };
        self.put("current-vo", output);
    }

    fn open(&mut self, path: &str) {
        let start = self.get("start");
        let at = start.as_str().and_then(|s| s.parse::<f64>().ok()).unwrap_or(0.0);
        let duration = if path.contains("long") { 200.0 } else { 6.0 };
        self.put("path", Value::from(path));
        self.put("duration", Value::from(duration));
        self.put("time-pos", Value::from(at));
        self.put("pause", Value::from(false));
        self.put("eof-reached", Value::from(false));
        self.put("idle-active", Value::from(false));
        let mut tracks = vec![r#"{"type":"audio"}"#.to_string()];
        if path.ends_with(".webm") {
            tracks.push(r#"{"type":"video","albumart":false}"#.to_string());
        }
        if path.contains("_art") {
            tracks.push(r#"{"type":"video","albumart":true}"#.to_string());
        }
        let list: Value = serde_json::from_str(&format!("[{}]", tracks.join(","))).unwrap();
        self.put("track-list", list);
        self.show();
        self.lines.push("{\"event\":\"file-loaded\"}".to_string());
    }

    /// One command, and the error its reply names.
    fn command(&mut self, words: &[Value]) -> (Value, String) {
        let name = words[0].as_str().unwrap();
        self.commands.push(
            words
                .iter()
                .map(|w| w.as_str().map(String::from).unwrap_or_else(|| w.to_string()))
                .collect::<Vec<_>>()
                .join(" "),
        );
        if self.refuse.as_deref() == Some(name) {
            return (Value::Null, "refused".to_string());
        }
        match name {
            "observe_property" => {
                let prop = words[2].as_str().unwrap().to_string();
                let value = self.get(&prop);
                self.observed.push(prop.clone());
                self.put(&prop, value);
            }
            "get_property" => {
                let value = self.get(words[1].as_str().unwrap());
                if value.is_null() {
                    return (Value::Null, "property unavailable".to_string());
                }
                return (value, "success".to_string());
            }
            "set_property" => {
                let prop = words[1].as_str().unwrap().to_string();
                self.put(&prop, words[2].clone());
                self.show();
            }
            "loadfile" => {
                let path = words[1].as_str().unwrap().to_string();
                if path.contains("slow") {
                    return (Value::Null, "success".to_string());
                }
                self.open(&path);
            }
            "seek" => {
                self.put("sought", words[1].clone());
            }
            "stop" => {
                self.put("path", Value::Null);
                self.put("time-pos", Value::Null);
                self.put("idle-active", Value::from(true));
                self.show();
            }
            "quit" => self.ended = !self.stuck,
            other => return (Value::Null, format!("unknown command {other}")),
        }
        (Value::Null, "success".to_string())
    }

    fn receive(&mut self, line: &str) {
        let msg: Value = serde_json::from_str(line).unwrap();
        let words: Vec<Value> = msg["command"].as_array().unwrap().clone();
        let (data, error) = self.command(&words);
        let reply = format!(
            "{{\"request_id\":{},\"error\":\"{error}\",\"data\":{data}}}",
            msg["request_id"]
        );
        self.lines.insert(0, reply);
    }

    /// Let time pass.
    fn pass(&mut self, s: f64) {
        let sought = self.get("sought").as_f64();
        self.put("sought", Value::Null);
        if let Some(at) = sought {
            self.put("time-pos", Value::from(at));
            self.put("eof-reached", Value::from(false));
        }
        if self.get("path").is_null() || self.get("pause") == Value::from(true) {
            return;
        }
        let end = self.get("duration").as_f64().unwrap();
        let now = (self.get("time-pos").as_f64().unwrap_or(0.0) + s).min(end);
        self.put("time-pos", Value::from(now));
        if now >= end {
            self.put("eof-reached", Value::from(true));
        }
    }
}

/// The machine: one process at most, and whether the program is there.
#[derive(Default)]
struct Machine {
    process: Option<Process>,
    missing: bool,
    launches: usize,
    kills: usize,
    exits_with: Option<String>,
    refuse: Option<String>,
    deaf: bool,
}

/// An engine and its host.
struct Host {
    engine: MpvEngine,
    machine: Rc<RefCell<Machine>>,
    bus: Bus,
    own: bool,
    asked: Vec<String>,
}

impl Host {
    fn new(engine: MpvEngine, machine: Rc<RefCell<Machine>>) -> Host {
        Host { engine, machine, bus: Bus::new(), own: false, asked: Vec::new() }
    }

    fn hear(&mut self) {
        let mut machine = self.machine.borrow_mut();
        if let Some(process) = machine.process.as_mut() {
            for line in process.lines.drain(..) {
                self.bus.hear(&line);
            }
        }
    }

    fn request(&mut self, args: Vec<Arg>) -> MpvAnswer {
        let rid = self.bus.next_request();
        let line = match encode_request(&args, rid) {
            Ok(line) => line,
            Err(e) => return MpvAnswer::Unsent(e),
        };
        if self.machine.borrow().deaf {
            let Poll::Timeout = self.bus.poll(rid, true, true) else { panic!("no reply came") };
            return MpvAnswer::TimedOut;
        }
        if let Some(process) = self.machine.borrow_mut().process.as_mut() {
            process.receive(&line);
        }
        self.hear();
        let ended = self.machine.borrow().process.as_ref().map(|p| p.ended).unwrap_or(true);
        if ended {
            self.bus.mark_disconnected("mpv closed the socket".into());
        }
        match self.bus.poll(rid, false, true) {
            Poll::Reply { data, error } => MpvAnswer::Reply { data, error },
            Poll::Disconnected(reason) => MpvAnswer::Lost(reason),
            _ => MpvAnswer::TimedOut,
        }
    }

    fn answer(&mut self, action: MpvAction) -> MpvAnswer {
        self.asked.push(format!("{action:?}"));
        let alive = self.machine.borrow().process.as_ref().map(|p| !p.ended).unwrap_or(false);
        match action {
            MpvAction::Alive => MpvAnswer::Flag(alive && self.bus.is_connected()),
            MpvAction::Reason => MpvAnswer::Text(self.bus.disconnect_reason()),
            MpvAction::Connect => {
                if !alive {
                    return MpvAnswer::Refused;
                }
                self.bus = Bus::new();
                self.own = false;
                MpvAnswer::Connected
            }
            MpvAction::Launch { .. } => {
                let mut machine = self.machine.borrow_mut();
                if machine.missing {
                    return MpvAnswer::Missing;
                }
                machine.launches += 1;
                let refuse = machine.refuse.clone();
                machine.process = Some(Process { refuse, ..Process::default() });
                self.bus = Bus::new();
                self.own = true;
                MpvAnswer::Finished
            }
            MpvAction::Watch => {
                if let Some(status) = self.machine.borrow().exits_with.clone() {
                    return MpvAnswer::Exited(status);
                }
                if self.asked.iter().rev().take_while(|a| *a == "Watch").count() < 3 {
                    return MpvAnswer::NotYet;
                }
                MpvAnswer::Connected
            }
            MpvAction::Kill => {
                let mut machine = self.machine.borrow_mut();
                machine.kills += 1;
                machine.process = None;
                MpvAnswer::Finished
            }
            MpvAction::Request { args, .. } => self.request(args),
            MpvAction::Cache { name, value } => {
                self.bus.cache_prop(&name, value.value());
                MpvAnswer::Finished
            }
            MpvAction::Property(name) => MpvAnswer::Value(self.bus.prop(&name)),
            MpvAction::Generation => MpvAnswer::Count(self.bus.file_loaded_generation()),
            MpvAction::WaitLoaded { since, .. } => {
                MpvAnswer::Flag(self.bus.poll_file_loaded(since, true, true) == Some(true))
            }
            MpvAction::Fate => {
                if !alive {
                    self.machine.borrow_mut().process = None;
                    return MpvAnswer::Finished;
                }
                if self.asked.iter().rev().take_while(|a| *a == "Fate").count() < 3 {
                    return MpvAnswer::NotYet;
                }
                MpvAnswer::TimedOut
            }
            MpvAction::Process => MpvAnswer::Process(if self.own { Some(4321) } else { None }),
            MpvAction::Running => MpvAnswer::Flag(alive),
            MpvAction::NewSocket
            | MpvAction::RemoveSocket
            | MpvAction::MakeFolder
            | MpvAction::Listen => MpvAnswer::Finished,
        }
    }

    fn run<T>(
        &mut self,
        op: impl Fn(&mut MpvEngine, &Vec<MpvAnswer>) -> MpvStep<T>,
    ) -> Result<T, EngineError> {
        let mut said = Vec::new();
        loop {
            match op(&mut self.engine, &said) {
                Ok(t) => return Ok(t),
                Err(MpvHalt::Failed(e)) => return Err(e),
                Err(MpvHalt::Ask(action)) => said.push(self.answer(action)),
            }
        }
    }

    fn load(&mut self, path: &str, start_at: Option<f64>) -> Result<(), EngineError> {
        self.run(|e, said| e.load(path, start_at.map(secs), said))
    }

    fn snapshot(&mut self) -> EngineSnapshot {
        self.run(|e, said| e.snapshot(said)).unwrap()
    }

    fn position(&mut self) -> f64 {
        seconds(self.snapshot().position_secs)
    }

    fn seek(&mut self, s: f64) {
        self.run(|e, said| e.seek_absolute(secs(s), said)).unwrap()
    }

    fn pause(&mut self, paused: bool) {
        self.run(|e, said| e.set_paused(paused, said)).unwrap()
    }

    fn video(&mut self, visible: bool) {
        self.run(|e, said| e.set_video_visible(visible, said)).unwrap()
    }

    fn shutdown(&mut self) {
        self.run(|e, said| e.shutdown(said)).unwrap()
    }

    /// Let time pass in the process, and hear of it.
    fn pass(&mut self, s: f64) {
        if let Some(process) = self.machine.borrow_mut().process.as_mut() {
            process.pass(s);
        }
        self.hear();
    }

    fn running(&self) -> bool {
        self.machine.borrow().process.is_some()
    }

    fn commands(&self) -> Vec<String> {
        self.machine.borrow().process.as_ref().unwrap().commands.clone()
    }
}

fn engine() -> Host {
    Host::new(MpvEngine::new(), Rc::new(RefCell::new(Machine::default())))
}

// ---- playing --------------------------------------------------------------

#[test]
fn plays_video_file_audio_only_until_popped_out() {
    let mut e = engine();
    e.load("tiny.webm", None).unwrap();
    e.pass(0.5);

    let snap = e.snapshot();
    assert!(seconds(snap.position_secs) > 0.0);
    assert!(snap.has_video, "the file does have a video track");
    assert!(
        !snap.video_visible,
        "engine is audio-first: no window until the user pops it out"
    );
    assert!(seconds(snap.duration_secs) > 5.0);

    e.video(true);
    assert!(e.snapshot().video_visible);
    e.video(false);
    assert!(!e.snapshot().video_visible);
}

/// Toggling video does not restart playback.
#[test]
fn pop_out_toggle_never_rewinds_playback() {
    let mut e = engine();
    e.load("long.webm", None).unwrap();
    e.pass(0.3);

    let mut previous = e.position();
    for round in 0..3 {
        for visible in [true, false] {
            e.video(visible);
            e.pass(0.35);
            let now = e.position();
            assert!(
                now + 0.05 >= previous,
                "round {round}: setting video visible={visible} rewound playback \
                 from {previous:.3}s to {now:.3}s"
            );
            previous = now;
        }
    }
    assert!(
        previous > 0.5,
        "playback should have kept running throughout the toggles, got {previous:.3}s"
    );
}

#[test]
fn load_starts_at_requested_position() {
    let mut e = engine();
    e.load("tiny.webm", Some(3.0)).unwrap();
    let pos = e.position();
    assert!(
        (2.5..5.5).contains(&pos),
        "load should have returned already positioned near 3s, got {pos:.3}s"
    );
}

#[test]
fn shared_engine_honours_start_offset() {
    let mut e = Host::new(MpvEngine::shared(), Rc::new(RefCell::new(Machine::default())));
    e.load("tiny.webm", Some(3.0)).unwrap();
    let pos = e.position();
    assert!(
        (2.5..5.5).contains(&pos),
        "shared engine should start near 3s, got {pos:.3}s"
    );
    e.shutdown();
    assert!(!e.running());
}

/// A resumed track must not drag its offset into whatever plays next.
#[test]
fn start_offset_does_not_leak_into_the_next_load() {
    let mut e = engine();
    e.load("tiny.webm", Some(3.0)).unwrap();
    assert!(e.position() > 2.5);

    e.load("tiny.mp3", None).unwrap();
    e.pass(0.4);
    let pos = e.position();
    assert!(
        pos < 2.0,
        "second track should start from the beginning, got {pos:.3}s"
    );
}

#[test]
fn pause_holds_position_and_resume_continues() {
    let mut e = engine();
    e.load("tiny.webm", None).unwrap();
    e.pass(0.3);

    e.pause(true);
    let held = e.position();
    e.pass(1.5);
    let still = e.position();
    assert!(
        (still - held).abs() < 0.35,
        "paused playback advanced from {held:.3}s to {still:.3}s"
    );
    assert!(e.snapshot().paused);

    e.pause(false);
    e.pass(0.6);
    assert!(
        e.position() > still,
        "playback did not resume after unpausing"
    );
}

#[test]
fn seek_moves_to_absolute_position() {
    let mut e = engine();
    e.load("tiny.webm", None).unwrap();
    e.pass(0.2);

    e.seek(4.0);
    e.pass(0.1);
    assert!(e.position() >= 3.5);
}

#[test]
fn plays_plain_mp3_and_wav() {
    for (file, label) in [("tiny.mp3", "mp3"), ("tiny.wav", "wav")] {
        let mut e = engine();
        e.load(file, None).unwrap();
        e.pass(0.3);
        let snap = e.snapshot();
        assert!(
            !snap.has_video,
            "{label} must not be treated as having video to pop out"
        );
        assert!(
            seconds(snap.duration_secs) > 1.0,
            "{label} duration was not detected"
        );
        assert!(!snap.idle, "{label} should be loaded and playing");
    }
}

#[test]
fn cover_art_is_nothing_to_pop_out() {
    let mut e = engine();
    e.load("tiny_art.mp3", None).unwrap();
    assert!(!e.snapshot().has_video);
}

#[test]
fn stop_returns_engine_to_idle() {
    let mut e = engine();
    e.load("tiny.mp3", None).unwrap();
    e.pass(0.2);

    e.run(|e, said| e.stop(said)).unwrap();
    let snap = e.snapshot();
    assert!(snap.idle);
    assert!(snap.path.is_none());
}

/// A seek must be visible in the very next snapshot, though the process has not
/// said where it is yet.
#[test]
fn seek_is_visible_in_the_next_snapshot() {
    let mut e = engine();
    e.load("long.webm", None).unwrap();
    e.pass(0.3);

    e.seek(120.0);
    let pos = e.position();
    assert!(
        (119.0..127.0).contains(&pos),
        "snapshot right after a seek should already report ~120s, got {pos:.3}s"
    );
}

#[test]
fn seeking_back_from_the_end_clears_eof() {
    let mut e = engine();
    e.load("tiny.webm", None).unwrap();
    e.pass(20.0);
    assert!(e.snapshot().eof);

    e.seek(1.0);
    assert!(
        !e.snapshot().eof,
        "eof should be cleared by seeking backwards"
    );
}

#[test]
fn placement_shows_an_empty_window_and_takes_it_down_again() {
    let mut e = engine();
    let pid = e
        .run(|e, said| e.begin_window_placement(said))
        .expect("placement should start")
        .expect("mpv owns a window, so it reports a pid");
    assert!(pid > 0);
    // Nothing is loaded, yet a video output exists: that is the empty window.
    let snap = e.snapshot();
    assert!(snap.video_visible);
    assert!(snap.idle, "placement must not load anything");

    e.run(|e, said| e.end_window_placement(said)).expect("placement should end");
    assert!(!e.snapshot().video_visible);
    e.shutdown();
}

// ---- the life of the process ----------------------------------------------

/// Quitting must never leave a process holding the audio device.
#[test]
fn shutdown_reaps_the_mpv_process() {
    let mut e = engine();
    e.load("tiny.mp3", None).unwrap();
    assert!(e.running(), "engine should have spawned an mpv");
    e.shutdown();
    e.shutdown(); // idempotent
    assert!(!e.running(), "shutdown left an orphaned mpv process behind");
    assert_eq!(e.machine.borrow().kills, 0, "it was asked, and went");
}

#[test]
fn a_process_that_does_not_quit_is_killed() {
    let mut e = engine();
    e.load("tiny.mp3", None).unwrap();
    e.machine.borrow_mut().process.as_mut().unwrap().stuck = true;
    e.shutdown();
    assert!(!e.running());
    assert_eq!(e.machine.borrow().kills, 1);
}

/// Letting the engine go without an explicit shutdown must also clean up.
#[test]
fn drop_reaps_the_mpv_process() {
    let mut e = engine();
    e.load("tiny.mp3", None).unwrap();
    e.run(|e, said| e.release(said)).unwrap();
    assert!(
        !e.running(),
        "dropping the engine left an orphaned mpv process behind"
    );
}

/// A shared engine leaves mpv playing, and a later engine adopts it with its
/// state intact.
#[test]
fn shared_engine_outlives_its_process_and_is_adopted() {
    let machine = Rc::new(RefCell::new(Machine::default()));
    {
        let mut e = Host::new(MpvEngine::shared(), machine.clone());
        e.load("tiny.webm", None).unwrap();
        e.pass(0.5);
        e.run(|e, said| e.release(said)).unwrap();
    }
    assert!(
        machine.borrow().process.is_some(),
        "dropping a shared engine must leave mpv playing"
    );

    let mut adopted = Host::new(MpvEngine::shared(), machine.clone());
    let snap = adopted.snapshot();
    assert!(
        snap.path.as_deref().unwrap().ends_with("tiny.webm"),
        "adopted engine should report the file already playing, got {:?}",
        snap.path
    );
    assert!(
        snap.has_video,
        "adopted engine should know the file has video"
    );
    assert!(seconds(snap.position_secs) > 0.3, "adopted playback should be underway");
    assert_eq!(machine.borrow().launches, 1, "nothing was started for it");

    adopted.pause(true);
    assert!(
        adopted.snapshot().paused,
        "adopted engine can control playback"
    );

    adopted.shutdown();
    assert!(
        machine.borrow().process.is_none(),
        "explicit shutdown must stop a shared mpv"
    );
}

#[test]
fn looking_at_an_idle_engine_starts_nothing() {
    let mut e = engine();
    assert!(e.snapshot().idle);
    assert!(e.asked.is_empty());

    let mut shared = Host::new(MpvEngine::shared(), Rc::new(RefCell::new(Machine::default())));
    assert!(shared.snapshot().idle);
    assert_eq!(shared.asked, ["Running"]);
    assert_eq!(shared.machine.borrow().launches, 0);
}

#[test]
fn a_layout_is_kept_for_the_next_start() {
    let mut e = engine();
    e.run(|e, said| e.set_video_window_layout(VideoWindowLayout::Fill, said)).unwrap();
    assert!(e.asked.is_empty(), "a setting starts nothing");
    e.load("tiny.mp3", None).unwrap();
    assert!(e.commands().contains(&String::from("set_property autofit 100%x100%")));

    e.run(|e, said| e.set_video_window_layout(VideoWindowLayout::Fullscreen, said)).unwrap();
    assert!(e.commands().contains(&String::from("set_property fullscreen true")));
}

/// A crash costs a gap, not the place in a two-hour set.
#[test]
fn a_crashed_process_is_replaced_and_playback_taken_up() {
    let mut e = engine();
    e.run(|e, said| e.set_volume(secs(140.0), said)).unwrap();
    e.run(|e, said| e.set_speed(secs(1.25), said)).unwrap();
    e.load("long.webm", None).unwrap();
    e.seek(120.0);
    e.pause(true);
    e.machine.borrow_mut().process = None;
    e.bus.mark_disconnected("mpv closed the socket".into());

    e.run(|e, said| e.set_video_ontop(false, said)).unwrap();
    assert_eq!(e.machine.borrow().launches, 2);
    let commands = e.commands();
    assert!(commands.contains(&String::from("set_property volume 100.0")), "{commands:?}");
    assert!(commands.contains(&String::from("set_property speed 1.25")));
    assert!(commands.contains(&String::from("set_property start 120.000")));
    assert!(commands.contains(&String::from("loadfile long.webm replace")));
    assert!(commands.contains(&String::from("set_property pause true")));
    assert_eq!(e.snapshot().path.as_deref(), Some("long.webm"));
}

/// What was heard last before the crash is where playback goes on, paused or not.
#[test]
fn a_crash_costs_no_more_than_what_was_not_yet_reported() {
    let mut e = engine();
    e.load("long.webm", Some(30.0)).unwrap();
    e.pass(42.5);
    e.machine.borrow_mut().process = None;
    e.bus.mark_disconnected("mpv closed the socket".into());
    e.run(|e, said| e.set_video_ontop(true, said)).unwrap();
    let commands = e.commands();
    assert!(commands.contains(&String::from("set_property start 72.500")), "{commands:?}");
    assert!(!commands.contains(&String::from("set_property pause true")));
    assert_eq!(e.position(), 72.5);

    e.pause(true);
    for _ in 0..2 {
        e.machine.borrow_mut().process = None;
        e.bus.mark_disconnected("mpv closed the socket".into());
        e.run(|e, said| e.set_video_ontop(true, said)).unwrap();
        let commands = e.commands();
        assert!(commands.contains(&String::from("set_property start 72.500")), "{commands:?}");
        assert!(commands.contains(&String::from("set_property pause true")), "{commands:?}");
        assert!(e.snapshot().paused);
    }
}

/// A process that was started and then refuses what it is told is not left running.
#[test]
fn a_process_that_cannot_be_used_is_killed() {
    for refused in ["observe_property", "set_property"] {
        let mut e = engine();
        e.machine.borrow_mut().refuse = Some(refused.into());
        assert!(e.load("tiny.mp3", None).is_err());
        assert_eq!(e.machine.borrow().launches, 1);
        assert_eq!(e.machine.borrow().kills, 1, "{refused}");
        assert!(!e.running());
        assert_eq!(e.asked[e.asked.len() - 2..], ["Kill", "RemoveSocket"]);
    }
}

/// One that somebody else runs is left alone.
#[test]
fn a_process_that_was_adopted_is_not_killed() {
    let machine = Rc::new(RefCell::new(Machine::default()));
    machine.borrow_mut().process =
        Some(Process { refuse: Some("observe_property".into()), ..Process::default() });
    let mut e = Host::new(MpvEngine::shared(), machine);
    assert!(e.load("tiny.mp3", None).is_err());
    assert_eq!(e.machine.borrow().kills, 0);
    assert!(e.running());
}

#[test]
fn why_the_last_process_ended_is_told_when_the_next_does_not_start() {
    let mut e = engine();
    e.load("tiny.mp3", None).unwrap();
    e.machine.borrow_mut().process = None;
    e.bus.mark_disconnected("mpv closed the socket".into());
    e.machine.borrow_mut().exits_with = Some("exit status: 1".into());
    let r = e.load("tiny.mp3", None);
    assert_eq!(
        r.err().unwrap().message(),
        "failed to start mpv: mpv exited immediately with exit status: 1 \
         (previous instance ended: mpv closed the socket)"
    );
}

/// A process of its own has ended when it has; one that was adopted, when the
/// connection closes.
#[test]
fn a_session_has_ended_with_its_process_or_its_connection() {
    for connected in [true, false] {
        for left in [true, false] {
            assert!(matches!(fate(Some(Sighting::Ended), connected, left), MpvAnswer::Finished));
            assert!(matches!(fate(Some(Sighting::Unknown), connected, left), MpvAnswer::TimedOut));
        }
        assert!(matches!(fate(Some(Sighting::Running), connected, true), MpvAnswer::NotYet));
        assert!(matches!(fate(Some(Sighting::Running), connected, false), MpvAnswer::TimedOut));
    }
    assert!(matches!(fate(None, false, true), MpvAnswer::Finished));
    assert!(matches!(fate(None, true, true), MpvAnswer::NotYet));
    assert!(matches!(fate(None, true, false), MpvAnswer::TimedOut));
}

#[test]
fn a_program_that_is_not_there_comes_with_a_remedy() {
    let mut e = engine();
    e.machine.borrow_mut().missing = true;
    let r = e.load("tiny.mp3", None);
    assert_eq!(r, Err(missing_mpv()));
    assert_eq!(
        missing_mpv().message(),
        "mpv is not installed. Install it with `brew install mpv`, then try again."
    );
}

#[test]
fn nothing_is_done_after_shutdown() {
    let mut e = engine();
    e.shutdown();
    let r = e.load("tiny.mp3", None);
    assert_eq!(r, Err(EngineError::Internal { message: "engine has been shut down".into() }));
    assert!(e.snapshot().idle);
    assert!(e.asked.is_empty());
}

// ---- what a request comes to ----------------------------------------------

#[test]
fn a_refused_load_clears_the_start_before_it_is_reported() {
    let mut e = engine();
    e.load("tiny.mp3", None).unwrap();
    e.machine.borrow_mut().process.as_mut().unwrap().refuse = Some("loadfile".into());
    let r = e.load("tiny.webm", Some(3.0));
    assert_eq!(
        r,
        Err(EngineError::Rejected { operation: "loadfile".into(), message: "refused".into() })
    );
    assert_eq!(e.commands().last().unwrap(), "set_property start none");
    assert_eq!(e.snapshot().path.as_deref(), Some("tiny.mp3"));
}

#[test]
fn a_file_that_never_opens_is_a_timeout_and_leaves_no_start_behind() {
    let mut e = engine();
    let r = e.load("slow.webm", Some(3.0));
    assert_eq!(
        r,
        Err(EngineError::Timeout { operation: "load slow.webm".into(), timeout_ms: 20_000 })
    );
    assert_eq!(e.commands().last().unwrap(), "set_property start none");
}

#[test]
fn a_process_that_does_not_answer_is_a_timeout() {
    let mut e = engine();
    e.load("tiny.mp3", None).unwrap();
    e.machine.borrow_mut().deaf = true;
    let r = e.run(|e, said| e.seek_absolute(secs(1.0), said));
    assert_eq!(r, Err(EngineError::Timeout { operation: "seek".into(), timeout_ms: 5_000 }));
}

#[test]
fn a_lost_connection_is_told_with_its_reason() {
    let mut e = engine();
    e.load("tiny.mp3", None).unwrap();
    let mut said = Vec::new();
    let r = loop {
        match e.engine.seek_absolute(secs(-1.0), &said) {
            Err(MpvHalt::Ask(MpvAction::Request { args, .. })) => {
                assert!(matches!(args[1], Arg::Number(Fixed::Nanos(0))), "not before the start");
                said.push(MpvAnswer::Lost("socket read failed".into()));
            }
            Err(MpvHalt::Ask(a)) => said.push(e.answer(a)),
            other => break other,
        }
    };
    assert!(matches!(
        r,
        Err(MpvHalt::Failed(EngineError::Disconnected { message, .. })) if message == "socket read failed"
    ));
}

#[test]
fn a_command_that_cannot_be_written_is_an_internal_error() {
    let mut e = engine();
    e.load("tiny.mp3", None).unwrap();
    let said = vec![MpvAnswer::Flag(true), MpvAnswer::Unsent("odd text".into())];
    assert!(matches!(
        e.engine.stop(&said),
        Err(MpvHalt::Failed(EngineError::Internal { message })) if message == "odd text"
    ));
    let said = vec![MpvAnswer::Flag(true), MpvAnswer::Connected];
    assert!(matches!(
        e.engine.stop(&said),
        Err(MpvHalt::Failed(EngineError::Internal { .. }))
    ));
}

#[test]
fn a_socket_that_never_accepts_is_given_up() {
    let mut engine = MpvEngine::new();
    let said = vec![
        MpvAnswer::Finished,
        MpvAnswer::Finished,
        MpvAnswer::Finished,
        MpvAnswer::NotYet,
        MpvAnswer::GaveUp { socket: "/tmp/s".into(), error: "refused".into() },
        MpvAnswer::Finished,
        MpvAnswer::Finished,
    ];
    assert!(matches!(
        engine.load("a.mp3", None, &said),
        Err(MpvHalt::Failed(EngineError::Spawn { message, .. }))
            if message == "mpv never accepted a connection on /tmp/s: refused"
    ));
    let deaf = vec![
        MpvAnswer::Finished,
        MpvAnswer::Finished,
        MpvAnswer::Finished,
        MpvAnswer::Connected,
        MpvAnswer::Failed("no threads".into()),
        MpvAnswer::Finished,
        MpvAnswer::Finished,
    ];
    assert!(matches!(
        engine.load("a.mp3", None, &deaf),
        Err(MpvHalt::Failed(EngineError::Spawn { message, .. }))
            if message == "could not start IPC reader: no threads"
    ));
    let failed = vec![
        MpvAnswer::Finished,
        MpvAnswer::Finished,
        MpvAnswer::Failed("permission denied".into()),
    ];
    assert!(matches!(
        engine.load("a.mp3", None, &failed),
        Err(MpvHalt::Failed(EngineError::Spawn { message, .. })) if message == "permission denied"
    ));
}

#[test]
fn the_process_number_falls_back_to_the_one_that_was_started() {
    let mut e = engine();
    let pid = e.run(|e, said| e.begin_window_placement(said)).unwrap();
    assert_eq!(pid, Some(4321), "the process does not say");
    e.machine.borrow_mut().process.as_mut().unwrap().put("pid", Value::from(99u64));
    let pid = e.run(|e, said| e.begin_window_placement(said)).unwrap();
    assert_eq!(pid, Some(99));
}

// ---- how it is started ----------------------------------------------------

#[test]
fn every_start_leaves_the_users_own_setup_alone() {
    let args = spawn_args("/tmp/s.sock", VideoWindowLayout::default());
    assert_eq!(args[0], "--no-config");
    assert!(args.contains(&String::from("--load-scripts=no")));
    assert!(args.contains(&String::from("--idle=yes")));
    assert!(args.contains(&String::from("--geometry=40%+50%+50%")));
    assert_eq!(args.last().unwrap(), "--input-ipc-server=/tmp/s.sock");
    assert_eq!(args.len(), 15 + 3 + 1);
    assert_eq!(socket_name(12, 3), "setwave-mpv-12-3.sock");
    assert_eq!(video_selection(true), "auto");
    assert_eq!(video_selection(false), "no");
    assert!(!has_video(None));
}

#[test]
fn mpv_says_what_it_can_play() {
    let caps = MpvEngine::new().capabilities();
    assert_eq!(caps.id, "mpv");
    assert!(caps.video && caps.ontop_window && !caps.native_pip);
    assert!(caps.handles_path("/sets/a.webm"));
    assert!(caps.handles_path("/music/a.FLAC"));
    assert!(!caps.handles_path("/a/notes.txt"));
    assert_eq!(caps.containers.len(), 22);
}
