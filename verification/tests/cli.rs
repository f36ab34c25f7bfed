//! What the command line reads and says.

use setbuddy::cli::{
    choose_target, parse_on_off, parse_repeat, parse_video_state, paused_text, playing_text,
    progress_bar, queue_lines, scan_text, setup_failure, sought_text, speed_text, status_lines,
    target_text, track_line, unwatched_text, volume_text, watching_text, Target, VideoState,
};
use setbuddy::engine::EngineError;
use setbuddy::fixed::Fixed;
use setbuddy::library::ScanReport;
use setbuddy::player::PlayerStatus;
use setbuddy::queue::RepeatMode;
use setbuddy::track::Track;

fn secs(s: f64) -> Fixed {
    Fixed::Nanos((s * 1e9).round() as i128)
}

fn track(title: &str, duration: Option<f64>, has_video: bool) -> Track {
    Track {
        id: 1,
        path: "/sets/one.webm".into(),
        size_bytes: 0,
        mtime: 0,
        title: Some(title.into()),
        artist: None,
        album: None,
        duration_secs: duration.map(secs),
        has_video,
        added_at: 0,
        last_played_at: None,
    }
}

fn status(track: Option<Track>) -> PlayerStatus {
    PlayerStatus {
        track,
        position_secs: Some(secs(1800.0)),
        duration_secs: Some(secs(7200.0)),
        paused: false,
        idle: false,
        has_video: true,
        video_visible: false,
        queue_len: 3,
        queue_index: Some(1),
        repeat: RepeatMode::All,
        shuffle: true,
        loop_positions: vec![0, 2],
        engine_id: None,
    }
}

#[test]
fn reads_on_and_off() {
    assert!(parse_on_off("on").unwrap());
    assert!(!parse_on_off("OFF").unwrap());
    assert!(parse_on_off("maybe").is_err());
}

#[test]
fn on_and_off_have_other_words() {
    for word in ["yes", " TRUE ", "1"] {
        assert_eq!(parse_on_off(word), Ok(true));
    }
    for word in ["no", "False", "0"] {
        assert_eq!(parse_on_off(word), Ok(false));
    }
    assert_eq!(
        parse_on_off(" Perhaps "),
        Err(String::from("expected on or off, got \"perhaps\""))
    );
}

#[test]
fn video_states_are_read() {
    assert_eq!(parse_video_state("Show"), Ok(VideoState::Show));
    assert_eq!(parse_video_state("off"), Ok(VideoState::Hide));
    assert_eq!(parse_video_state("toggle"), Ok(VideoState::Toggle));
    assert_eq!(
        parse_video_state("flip"),
        Err(String::from("unknown video state \"flip\" (on, off, toggle)"))
    );
}

#[test]
fn repeat_modes_are_read_or_refused() {
    assert_eq!(parse_repeat("one"), Ok(RepeatMode::One));
    assert_eq!(
        parse_repeat("twice"),
        Err(String::from("unknown repeat mode (off, all, one)"))
    );
}

#[test]
fn a_target_is_a_file_or_a_search() {
    let words: Vec<String> = vec!["palms".into(), "trax".into()];
    assert_eq!(target_text(&words), Ok(String::from("palms trax")));
    assert_eq!(target_text(&Vec::new()), Err(String::from("nothing to play")));
    assert_eq!(choose_target("a".into(), true), Target::File("a".into()));
    assert_eq!(choose_target("a".into(), false), Target::Search("a".into()));
}

#[test]
fn the_bar_shows_the_share_that_is_played() {
    let bar = |p: f64, d: f64| progress_bar(Some(secs(p)), Some(secs(d)));
    assert_eq!(bar(0.0, 100.0), format!("  {}", "─".repeat(24)));
    assert_eq!(bar(50.0, 100.0), format!("  {}{}", "━".repeat(12), "─".repeat(12)));
    assert_eq!(bar(100.0, 100.0), format!("  {}", "━".repeat(24)));
    assert_eq!(bar(500.0, 100.0), format!("  {}", "━".repeat(24)));
    assert_eq!(bar(-5.0, 100.0), format!("  {}", "─".repeat(24)));
    // A fifth of twenty-four cells is nearest to five.
    assert_eq!(bar(20.0, 100.0), format!("  {}{}", "━".repeat(5), "─".repeat(19)));
    assert_eq!(bar(10.0, 0.0), "");
    for d in [1u32, 7, 24, 48, 96, 5_400] {
        for p in 0..=d + 1 {
            let filled = (p as f64 / d as f64 * 24.0).round().clamp(0.0, 24.0) as usize;
            let cells = format!("  {}{}", "━".repeat(filled), "─".repeat(24 - filled));
            assert_eq!(bar(p as f64, d as f64), cells, "{p} of {d}");
        }
    }
    assert_eq!(progress_bar(None, Some(secs(10.0))), "");
    assert_eq!(progress_bar(Some(secs(10.0)), None), "");
    assert_eq!(
        progress_bar(Some(Fixed::PosInfinity), Some(secs(10.0))),
        format!("  {}", "━".repeat(24))
    );
    assert_eq!(
        progress_bar(Some(Fixed::Nanos(i128::MAX / 2)), Some(Fixed::Nanos(i128::MAX))),
        format!("  {}{}", "━".repeat(12), "─".repeat(12))
    );
}

#[test]
fn a_status_is_told_line_by_line() {
    let lines = status_lines(&status(Some(track("Live Set", None, true))));
    assert_eq!(
        lines,
        [
            "▶ Live Set".to_string(),
            format!("  30:00 / 2:00:00  {}{}", "━".repeat(6), "─".repeat(18)),
            "  video: hidden".to_string(),
            "  queue 2 of 3 · repeat all · loop 2 rows · shuffle".to_string(),
        ]
    );
    assert_eq!(status_lines(&status(None)), ["nothing playing"]);

    let mut quiet = status(Some(track("Live Set", None, true)));
    quiet.paused = true;
    quiet.position_secs = None;
    quiet.has_video = false;
    quiet.queue_index = None;
    quiet.repeat = RepeatMode::Off;
    quiet.shuffle = false;
    quiet.loop_positions = Vec::new();
    assert_eq!(
        status_lines(&quiet),
        ["⏸ Live Set", "  --:-- / 2:00:00", "  queue 3 tracks"]
    );
    quiet.idle = true;
    quiet.queue_len = 0;
    quiet.has_video = true;
    quiet.video_visible = true;
    assert_eq!(
        status_lines(&quiet),
        ["◼ Live Set", "  --:-- / 2:00:00", "  video: popped out"]
    );
}

#[test]
fn tracks_are_listed_in_columns() {
    assert_eq!(
        track_line(&track("Live Set", Some(4364.0), true), Some(secs(90.0))),
        "▣ 1:12:44  Live Set  [resume 1:30]"
    );
    assert_eq!(track_line(&track("Tune", None, false), None), "♪ --:--    Tune");
}

#[test]
fn the_queue_is_listed_with_its_current_row() {
    let tracks = vec![track("A", None, false), track("B", None, false)];
    assert_eq!(queue_lines(&tracks, Some(1)), ["    1. A", "▶   2. B"]);
    assert_eq!(queue_lines(&Vec::new(), None), ["queue is empty"]);
}

#[test]
fn scans_are_summed_up() {
    let report = ScanReport { seen: 10, added: 3, updated: 2, unchanged: 5, removed: 1 };
    assert_eq!(
        scan_text(&report),
        "10 found, 3 added, 2 updated, 5 unchanged, 1 removed"
    );
    assert_eq!(
        watching_text("/sets", &report),
        "watching /sets\n  10 found, 3 added, 2 updated, 5 unchanged"
    );
    assert_eq!(unwatched_text("/sets", true), "no longer watching /sets");
    assert_eq!(unwatched_text("/sets", false), "/sets was not being watched");
}

#[test]
fn short_answers() {
    assert_eq!(paused_text(true), "⏸ paused");
    assert_eq!(paused_text(false), "▶ playing");
    assert_eq!(playing_text(&Some(track("A", None, false)), "end of queue"), "▶ A");
    assert_eq!(playing_text(&None, "end of queue"), "end of queue");
    assert_eq!(sought_text(secs(4364.0)), "⇥ 1:12:44");
    assert_eq!(volume_text(secs(80.0)), "volume 80%");
    assert_eq!(volume_text(secs(79.6)), "volume 80%");
    assert_eq!(speed_text(secs(1.25)), "speed 1.25x");
    assert_eq!(speed_text(secs(2.0)), "speed 2.00x");
}

#[test]
fn a_missing_engine_is_something_to_mend() {
    let missing = EngineError::EngineMissing { display_name: "mpv".into(), hint: "Install it.".into() };
    assert_eq!(
        setup_failure(&missing),
        (String::from("setwave: mpv is not installed.\n  Install it."), 2)
    );
    let other = EngineError::Internal { message: "odd".into() };
    assert_eq!(setup_failure(&other), (String::from("setwave: odd"), 1));
}
