//! Choosing an engine, and the engine that only pretends to play.

use setbuddy::engine::{EngineError, EngineSnapshot};
use setbuddy::error::CoreError;
use setbuddy::fixed::Fixed;
use setbuddy::null::NullEngine;
use setbuddy::selection::{EnginePolicy, EngineRegistry};

fn secs(s: f64) -> Fixed {
    Fixed::Nanos((s * 1e9).round() as i128)
}

fn registry() -> EngineRegistry {
    // A narrow "native" engine first, a catch-all second.
    EngineRegistry::new(vec![
        NullEngine::with_containers("native", &["mp3", "mp4", "wav"]).capabilities(),
        NullEngine::with_containers("fallback", &["mp3", "mp4", "wav", "webm", "mkv"])
            .capabilities(),
    ])
}

fn chosen(r: &EngineRegistry, path: &str) -> String {
    r.id_of(r.select_for(path).unwrap())
}

#[test]
fn auto_prefers_the_first_engine_that_can_open_the_file() {
    let r = registry();
    assert_eq!(chosen(&r, "/a/track.mp3"), "native");
}

#[test]
fn auto_falls_through_to_an_engine_that_handles_the_container() {
    let r = registry();
    assert_eq!(
        chosen(&r, "/sets/palms.webm"),
        "fallback",
        "a webm must reach the engine that can actually open it"
    );
}

#[test]
fn auto_reports_unsupported_when_nothing_can_play_it() {
    let r = registry();
    assert!(matches!(
        r.select_for("/a/notes.txt"),
        Err(CoreError::Engine(EngineError::Unsupported { .. }))
    ));
}

#[test]
fn force_does_not_silently_fall_back() {
    let r = registry().with_policy(EnginePolicy::Force("native".into()));
    assert_eq!(chosen(&r, "/a/track.mp3"), "native");
    assert!(
        matches!(
            r.select_for("/sets/palms.webm"),
            Err(CoreError::Engine(EngineError::Unsupported { .. }))
        ),
        "a forced engine that cannot open the file is an error, not a fallback"
    );
}

#[test]
fn forcing_an_unknown_engine_is_an_error() {
    let r = registry().with_policy(EnginePolicy::Force("avfoundation".into()));
    assert!(matches!(
        r.select_for("/a/track.mp3"),
        Err(CoreError::Internal { .. })
    ));
}

#[test]
fn policy_round_trips_through_settings() {
    assert_eq!(EnginePolicy::parse("auto"), EnginePolicy::Auto);
    assert_eq!(EnginePolicy::parse(""), EnginePolicy::Auto);
    assert_eq!(
        EnginePolicy::parse("MPV"),
        EnginePolicy::Force("mpv".into())
    );
    assert_eq!(EnginePolicy::Force("mpv".into()).as_str(), "mpv");
}

#[test]
fn engines_are_listed_in_their_order() {
    let mut r = registry();
    assert_eq!(r.ids(), ["native", "fallback"]);
    assert_eq!(r.len(), 2);
    assert!(!r.is_empty());
    assert_eq!(r.by_id("fallback"), Some(1));
    assert_eq!(r.by_id("other"), None);
    assert_eq!(r.all()[0].id, "native");
    r.set_policy(EnginePolicy::Force("fallback".into()));
    assert_eq!(r.policy(), &EnginePolicy::Force("fallback".into()));
    assert!(matches!(
        EngineRegistry::new(Vec::new()).select_for("/a/track.mp3"),
        Err(CoreError::Internal { .. })
    ));
}

#[test]
fn extension_matching_ignores_case_and_dot() {
    let caps = NullEngine::new().capabilities();
    assert!(caps.handles_extension("webm"));
    assert!(caps.handles_extension(".WEBM"));
    assert!(caps.handles_path("/sets/Palms Trax.WebM"));
    assert!(!caps.handles_path("/sets/notes.txt"));
    assert!(!caps.handles_path("/sets/no-extension"));
}

#[test]
fn tick_advances_only_while_playing_and_clamps_at_eof() {
    let mut e = NullEngine::new().with_duration(Some(secs(10.0)));
    e.load("/sets/a.webm".into(), None).unwrap();
    e.tick(secs(4.0));
    assert_eq!(e.snapshot().position_secs, Some(secs(4.0)));

    e.set_paused(true).unwrap();
    e.tick(secs(4.0));
    assert_eq!(
        e.snapshot().position_secs,
        Some(secs(4.0)),
        "paused must not advance"
    );

    e.set_paused(false).unwrap();
    e.tick(secs(100.0));
    let snap = e.snapshot();
    assert_eq!(snap.position_secs, Some(secs(10.0)), "clamped to duration");
    assert!(snap.eof);
}

#[test]
fn load_honours_start_at_and_detects_video() {
    let mut e = NullEngine::new();
    e.load("/sets/a.webm".into(), Some(secs(72.5))).unwrap();
    let snap = e.snapshot();
    assert_eq!(snap.position_secs, Some(secs(72.5)));
    assert!(snap.has_video);

    assert!(
        !e.snapshot().video_visible,
        "video is not presented until it is popped out"
    );

    e.load("/music/b.mp3".into(), None).unwrap();
    assert!(
        !e.snapshot().has_video,
        "audio-only file has no video track"
    );
}

#[test]
fn stop_returns_to_idle() {
    let mut e = NullEngine::new();
    e.load("/sets/a.webm".into(), None).unwrap();
    e.stop().unwrap();
    let snap = e.snapshot();
    assert!(snap.idle);
    assert!(!snap.eof, "idle is not eof");
    assert_eq!(snap.position_secs, None);
}

#[test]
fn calls_are_recorded_in_their_order() {
    let mut e = NullEngine::new();
    e.load("/sets/a.webm".into(), Some(secs(72.5))).unwrap();
    e.set_paused(true).unwrap();
    e.seek_absolute(secs(10.0)).unwrap();
    e.set_volume(secs(50.0)).unwrap();
    e.set_video_visible(true).unwrap();
    e.stop().unwrap();
    assert!(!e.was_shutdown());
    e.shutdown();
    assert!(e.was_shutdown());
    assert_eq!(e.calls()[0], "load(/sets/a.webm, Some(72.5))");
    assert_eq!(e.calls()[1], "set_paused(true)");
    assert_eq!(e.calls().last().unwrap(), "shutdown()");
    assert_eq!(e.calls().len(), 7);
}

#[test]
fn an_engine_that_has_loaded_nothing_is_idle() {
    let e = NullEngine::new();
    assert_eq!(e.snapshot(), EngineSnapshot { idle: true, ..EngineSnapshot::default() });
    assert!(e.calls().is_empty());
}

#[test]
fn failures_say_what_happened() {
    let missing = EngineError::EngineMissing {
        display_name: "mpv".into(),
        hint: "Install it.".into(),
    };
    assert_eq!(missing.message(), "mpv is not installed. Install it.");
    let late = EngineError::Timeout { operation: "seek".into(), timeout_ms: 5000 };
    assert_eq!(late.message(), "engine did not respond to seek within 5000ms");
    let lost = EngineError::Disconnected { display_name: "mpv".into(), message: "gone".into() };
    assert_eq!(lost.message(), "lost connection to mpv: gone");
    let spawn = EngineError::Spawn { display_name: "mpv".into(), message: "no".into() };
    assert_eq!(spawn.message(), "failed to start mpv: no");
    let refused = EngineError::Rejected { operation: "seek".into(), message: "no".into() };
    assert_eq!(refused.message(), "engine rejected seek: no");
    let unknown = EngineError::Unsupported { path: "/a".into() };
    assert_eq!(unknown.message(), "no engine can play /a");
    assert_eq!(CoreError::Engine(unknown).message(), "no engine can play /a");
    assert_eq!(CoreError::NothingPlaying.message(), "nothing is playing");
    assert_eq!(
        CoreError::NoMatch { query: "q".into() }.message(),
        "nothing in the library matches \"q\""
    );
    assert_eq!(
        CoreError::NotMedia { path: "/a.txt".into() }.message(),
        "/a.txt is not a media file Setwave recognises"
    );
    assert_eq!(
        CoreError::Storage { message: "full".into() }.message(),
        "library storage failed: full"
    );
    assert_eq!(CoreError::Io { message: "io".into() }.message(), "io");
    assert_eq!(CoreError::Internal { message: "odd".into() }.message(), "odd");
}
