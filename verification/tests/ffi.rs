//! What crosses the boundary to the menu bar app.

use setbuddy::engine::EngineError;
use setbuddy::error::CoreError;
use setbuddy::ffi::{
    from_core_error, from_engine_error, layout_asked, layout_shown, metadata_entries, mpv_joins,
    positions_asked, report_of, snapshot_of, surface_asked, surface_shown, tick_interval_ms,
    to_engine_error, track_to_ffi, SetbuddyError,
};
use setbuddy::fixed::Fixed;
use setbuddy::layout::VideoWindowLayout;
use setbuddy::library::ScanReport;
use setbuddy::player::PlayerStatus;
use setbuddy::queue::RepeatMode;
use setbuddy::track::Track;

fn secs(s: f64) -> Fixed {
    Fixed::Nanos((s * 1e9).round() as i128)
}

fn track() -> Track {
    Track {
        id: 9,
        path: "/sets/one.webm".into(),
        size_bytes: 3,
        mtime: 4,
        title: Some("Live Set".into()),
        artist: Some("Palms Trax".into()),
        album: None,
        duration_secs: Some(secs(7200.0)),
        has_video: true,
        added_at: 5,
        last_played_at: Some(6),
    }
}

#[test]
fn tracks_carry_their_label_and_where_they_resume() {
    let row = track_to_ffi(track(), Some(secs(90.0)));
    assert_eq!(row.display_label, "Palms Trax — Live Set");
    assert_eq!(row.resume_secs, Some(secs(90.0)));
    assert_eq!((row.id, row.size_bytes, row.mtime, row.added_at), (9, 3, 4, 5));
    assert_eq!(row.last_played_at, Some(6));
    // One that playback would not honour is not offered.
    assert_eq!(track_to_ffi(track(), Some(secs(7199.0))).resume_secs, None);
    assert_eq!(track_to_ffi(track(), None).resume_secs, None);
}

#[test]
fn snapshots_hold_what_the_status_says() {
    let status = PlayerStatus {
        track: Some(track()),
        position_secs: Some(secs(1.0)),
        duration_secs: None,
        paused: true,
        idle: false,
        has_video: true,
        video_visible: true,
        queue_len: 3,
        queue_index: Some(2),
        repeat: RepeatMode::One,
        shuffle: false,
        loop_positions: vec![0, 2],
        engine_id: Some("mpv".into()),
    };
    let shot = snapshot_of(status, Some(secs(90.0)));
    assert_eq!(shot.track.unwrap().resume_secs, Some(secs(90.0)));
    assert_eq!(shot.queue_len, 3);
    assert_eq!(shot.queue_index, Some(2));
    assert_eq!(shot.loop_positions, vec![0, 2]);
    assert_eq!(shot.repeat, RepeatMode::One);
    assert!(shot.paused && !shot.idle && shot.video_visible && !shot.shuffle);
    assert_eq!(shot.engine_id.as_deref(), Some("mpv"));
}

#[test]
fn failures_keep_the_shape_the_app_acts_on() {
    let missing = EngineError::EngineMissing { display_name: "mpv".into(), hint: "Install it.".into() };
    let told = from_engine_error(missing.clone());
    assert_eq!(told.message(), "mpv is not installed. Install it.");
    assert_eq!(to_engine_error(told), missing);

    let unknown = EngineError::Unsupported { path: "/a".into() };
    let told = from_core_error(CoreError::Engine(unknown.clone()));
    assert_eq!(told.message(), "/a is not a media file Setbuddy recognises");
    assert_eq!(to_engine_error(told), unknown);

    let late = EngineError::Timeout { operation: "seek".into(), timeout_ms: 5 };
    let told = from_engine_error(late);
    assert_eq!(
        told,
        SetbuddyError::Playback { message: "engine did not respond to seek within 5ms".into() }
    );
    assert_eq!(
        to_engine_error(told),
        EngineError::Internal { message: "engine did not respond to seek within 5ms".into() }
    );
    assert_eq!(
        to_engine_error(SetbuddyError::NothingPlaying),
        EngineError::Internal { message: "nothing is playing".into() }
    );
}

#[test]
fn failures_of_the_library_are_told() {
    assert_eq!(from_core_error(CoreError::NothingPlaying), SetbuddyError::NothingPlaying);
    assert_eq!(
        from_core_error(CoreError::NotMedia { path: "/a".into() }),
        SetbuddyError::UnsupportedFile { path: "/a".into() }
    );
    let none = from_core_error(CoreError::NoMatch { query: "q".into() });
    assert_eq!(none.message(), "nothing matches \"q\"");
    let full = from_core_error(CoreError::Storage { message: "full".into() });
    assert_eq!(full, SetbuddyError::Storage { message: "full".into() });
    assert_eq!(full.message(), "full");
    assert_eq!(
        from_core_error(CoreError::Io { message: "io".into() }),
        SetbuddyError::Playback { message: "io".into() }
    );
}

#[test]
fn layouts_are_read_in_their_settings_form() {
    assert_eq!(layout_asked("fill"), Ok(VideoWindowLayout::Fill));
    assert_eq!(
        layout_asked("wide").err().unwrap().message(),
        "\"wide\" is not a window layout; use a percentage like 40%, \"fill\", \"fullscreen\", \
         a width like 1280, or width+x+y/screen like 1280+100+50/0"
    );
    assert_eq!(layout_shown(None), "40%");
    assert_eq!(layout_shown(Some(VideoWindowLayout::Fullscreen)), "fullscreen");
}

#[test]
fn surfaces_are_a_window_or_a_panel() {
    assert_eq!(surface_asked(" Panel "), Ok(String::from("panel")));
    assert_eq!(
        surface_asked("Wall").err().unwrap().message(),
        "\"wall\" is not a video surface; use \"window\" or \"panel\""
    );
    assert_eq!(surface_shown(None), "window");
    assert_eq!(surface_shown(Some("panel".into())), "panel");
}

#[test]
fn counts_positions_and_rows() {
    assert_eq!(positions_asked(&Vec::new()), None);
    assert_eq!(positions_asked(&vec![3, 1]), Some(vec![3usize, 1]));
    let report = report_of(&ScanReport { seen: 5, added: 1, updated: 2, unchanged: 2, removed: 4 });
    assert_eq!(
        (report.seen, report.added, report.updated, report.unchanged, report.removed),
        (5, 1, 2, 2, 4)
    );
    let rows = metadata_entries(vec![("Title".into(), "A".into()), ("Artist".into(), "B".into())]);
    assert_eq!(rows[1].label, "Artist");
    assert_eq!(rows[0].value, "A");
    assert_eq!(tick_interval_ms(10), 50);
    assert_eq!(tick_interval_ms(250), 250);
}

#[test]
fn mpv_is_no_requirement_where_the_app_brings_an_engine() {
    let missing = EngineError::EngineMissing { display_name: "mpv".into(), hint: "Install it.".into() };
    assert_eq!(mpv_joins(0, None), Ok(true));
    assert_eq!(mpv_joins(2, None), Ok(true));
    assert_eq!(mpv_joins(1, Some(missing.clone())), Ok(false));
    assert!(matches!(
        mpv_joins(0, Some(missing)),
        Err(SetbuddyError::EngineMissing { .. })
    ));
}
