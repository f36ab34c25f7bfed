//! Tracks, durations, window layouts and which positions are kept.

use setbuddy::fixed::Fixed;
use setbuddy::layout::{layout_args, window_options, VideoWindowLayout as L};
use setbuddy::resume::{should_store, start_at};
use setbuddy::timecode::{format_duration, format_optional, parse_seek, parse_timecode, Seek};
use setbuddy::track::{extension_of, file_name, is_media_file, is_video_extension, Track};

fn secs(s: f64) -> Fixed {
    if s.is_nan() {
        Fixed::NaN
    } else if s == f64::INFINITY {
        Fixed::PosInfinity
    } else {
        Fixed::Nanos((s * 1e9).round() as i128)
    }
}

fn track() -> Track {
    Track {
        id: 1,
        path: "/sets/Palms Trax | Boiler Room Berlin.webm".into(),
        size_bytes: 0,
        mtime: 0,
        title: None,
        artist: None,
        album: None,
        duration_secs: None,
        has_video: true,
        added_at: 0,
        last_played_at: None,
    }
}

#[test]
fn falls_back_to_the_filename() {
    assert_eq!(track().display_title(), "Palms Trax | Boiler Room Berlin");
}

#[test]
fn blank_tags_do_not_win_over_the_filename() {
    let mut t = track();
    t.title = Some("   ".into());
    assert_eq!(t.display_title(), "Palms Trax | Boiler Room Berlin");
}

#[test]
fn labels_include_the_artist_when_known() {
    let mut t = track();
    t.title = Some("Live Set".into());
    t.artist = Some("Palms Trax".into());
    assert_eq!(t.display_label(), "Palms Trax — Live Set");
}

#[test]
fn durations_show_hours_for_long_sets() {
    assert_eq!(format_duration(secs(72.0)), "1:12");
    assert_eq!(format_duration(secs(4364.0)), "1:12:44");
    assert_eq!(format_duration(secs(f64::NAN)), "--:--");
}

#[test]
fn durations_at_the_edges() {
    assert_eq!(format_duration(secs(0.0)), "0:00");
    assert_eq!(format_duration(secs(59.4)), "0:59");
    assert_eq!(format_duration(secs(3600.0)), "1:00:00");
    assert_eq!(format_duration(secs(-1.0)), "--:--");
    assert_eq!(format_duration(secs(f64::INFINITY)), "--:--");
    assert_eq!(format_optional(None), "--:--");
    assert_eq!(format_optional(Some(secs(61.0))), "1:01");
}

#[test]
fn recognises_media_by_extension_case_insensitively() {
    assert!(is_media_file("/a/set.WebM"));
    assert!(is_media_file("/a/track.mp3"));
    assert!(!is_media_file("/a/notes.txt"));
    assert!(is_video_extension("/a/set.mkv"));
    assert!(!is_video_extension("/a/track.flac"));
}

#[test]
fn extensions_are_those_of_the_file_name() {
    assert_eq!(extension_of("/a.b/set.WebM").as_deref(), Some("webm"));
    assert_eq!(extension_of("/a.b/set"), None);
    assert_eq!(extension_of("/a/.hidden"), None);
    assert_eq!(extension_of("/a/x.tar.gz").as_deref(), Some("gz"));
    let name: Option<String> = file_name("/a/b/").map(|c| c.into_iter().collect());
    assert_eq!(name.as_deref(), Some("b"));
    assert_eq!(file_name("/"), None);
}

// ---- which positions are kept ---------------------------------------------

#[test]
fn ignores_the_first_thirty_seconds() {
    assert!(!should_store(secs(0.0), Some(secs(7200.0))));
    assert!(!should_store(secs(29.9), Some(secs(7200.0))));
    assert!(should_store(secs(30.0), Some(secs(7200.0))));
}

#[test]
fn ignores_the_last_minute() {
    assert!(should_store(secs(7139.0), Some(secs(7200.0))));
    assert!(!should_store(secs(7141.0), Some(secs(7200.0))));
    assert!(!should_store(secs(7200.0), Some(secs(7200.0))));
}

#[test]
fn short_files_never_resume() {
    // A 45s interlude is inside both guards at once; that is intended.
    assert!(!should_store(secs(35.0), Some(secs(45.0))));
}

#[test]
fn unknown_duration_applies_only_the_head_rule() {
    assert!(!should_store(secs(10.0), None));
    assert!(should_store(secs(600.0), None));
}

#[test]
fn rejects_nonsense_positions() {
    assert!(!should_store(secs(f64::NAN), Some(secs(100.0))));
    assert!(!should_store(secs(f64::INFINITY), Some(secs(7200.0))));
    assert!(!should_store(secs(-5.0), Some(secs(7200.0))));
}

#[test]
fn start_at_declines_stale_positions() {
    assert_eq!(
        start_at(Some(secs(3600.0)), Some(secs(7200.0))),
        Some(secs(3600.0))
    );
    assert_eq!(start_at(None, Some(secs(7200.0))), None);
    // File was replaced by a much shorter one: don't seek past the end.
    assert_eq!(start_at(Some(secs(3600.0)), Some(secs(120.0))), None);
}

// ---- times as they are typed ----------------------------------------------

#[test]
fn parses_plain_seconds_and_timecodes() {
    assert_eq!(parse_timecode("90"), Some(secs(90.0)));
    assert_eq!(parse_timecode("1:30"), Some(secs(90.0)));
    assert_eq!(parse_timecode("1:12:44"), Some(secs(4364.0)));
    assert_eq!(parse_timecode(""), None);
    assert_eq!(parse_timecode("abc"), None);
}

#[test]
fn timecodes_take_fractions_and_spaces_but_no_signs() {
    assert_eq!(parse_timecode(" 1 : 30.5 "), Some(secs(90.5)));
    assert_eq!(parse_timecode("1e2"), Some(secs(100.0)));
    assert_eq!(parse_timecode("-5"), None);
    assert_eq!(parse_timecode("1:-5"), None);
    assert_eq!(parse_timecode("1:"), None);
    assert_eq!(parse_timecode("inf"), None);
    assert_eq!(parse_timecode("nan"), None);
}

#[test]
fn distinguishes_absolute_from_relative_seeks() {
    assert!(matches!(parse_seek("1:12:44").unwrap(), Seek::Absolute(s) if s == secs(4364.0)));
    assert!(matches!(parse_seek("+30").unwrap(), Seek::Relative(s) if s == secs(30.0)));
    assert!(matches!(parse_seek("-1:00").unwrap(), Seek::Relative(s) if s == secs(-60.0)));
    assert!(parse_seek("nonsense").is_err());
}

#[test]
fn an_unreadable_seek_is_quoted_as_it_was_typed() {
    assert_eq!(
        parse_seek(" soon ").err().as_deref(),
        Some("could not read \" soon \" as a time or offset")
    );
}

#[test]
fn a_duration_that_is_shown_can_be_typed() {
    for total in [0i64, 59, 60, 3599, 3600, 4364, 86_400] {
        let shown = format_duration(Fixed::from_whole(total));
        assert_eq!(parse_timecode(&shown), Some(Fixed::from_whole(total)));
    }
}

// ---- window layouts -------------------------------------------------------

#[test]
fn settings_form_round_trips() {
    for spec in [
        "40%",
        "fill",
        "fullscreen",
        "1280",
        "1280+100+50",
        "1280+100+50/1",
        "1280/2",
    ] {
        assert_eq!(L::parse(spec).unwrap().as_str(), spec);
    }
    assert_eq!(L::parse("1280/x"), None, "a screen is an index");
    assert_eq!(L::parse("FullScreen"), Some(L::Fullscreen));
    assert_eq!(
        L::parse(" 25 % "),
        Some(L::ScreenFraction(secs(0.25))),
        "whitespace is forgiven"
    );
    assert_eq!(L::parse("0%"), None);
    assert_eq!(L::parse("120%"), None);
    assert_eq!(L::parse("0"), None);
    assert_eq!(L::parse("1280+100"), None, "a position needs both axes");
    assert_eq!(L::parse("1280+1+2+3"), None);
    assert_eq!(L::parse("wide"), None);
}

#[test]
fn a_fraction_of_the_screen_reads_back_exactly() {
    for (fraction, text) in [
        (secs(0.4), "40%"),
        (secs(0.125), "12.5%"),
        (secs(1.0), "100%"),
        (Fixed::Nanos(1), "0.0000001%"),
        (Fixed::Nanos(333_333_333), "33.3333333%"),
    ] {
        let layout = L::ScreenFraction(fraction);
        assert_eq!(layout.as_str(), text);
        assert_eq!(L::parse(text), Some(layout));
    }
    let eighth = window_options(L::ScreenFraction(secs(0.125)));
    assert_eq!(eighth.geometry, "13%+50%+50%");
    for n in (0..1_100_000_000i128).step_by(500_000) {
        let percents = (n as f64 / 1e9 * 100.0).round().clamp(1.0, 100.0);
        let fraction = L::ScreenFraction(Fixed::Nanos(n));
        assert_eq!(window_options(fraction).geometry, format!("{percents}%+50%+50%"), "{n}");
    }
    assert_eq!(window_options(L::ScreenFraction(secs(0.001))).geometry, "1%+50%+50%");
    assert_eq!(window_options(L::ScreenFraction(secs(3.0))).geometry, "100%+50%+50%");
}

#[test]
fn layouts_in_terms_of_the_window() {
    let forty = window_options(L::default());
    assert_eq!(forty.geometry, "40%+50%+50%");
    assert_eq!(forty.autofit, "");
    assert_eq!(forty.screen, "default");
    assert!(!forty.fullscreen);

    let fill = window_options(L::Fill);
    assert_eq!(fill.geometry, "+50%+50%");
    assert_eq!(fill.autofit, "100%x100%");

    let full = window_options(L::Fullscreen);
    assert!(full.fullscreen);
    assert_eq!(full.geometry, "");

    let placed = window_options(L::parse("1280+100+50/1").unwrap());
    assert_eq!(placed.geometry, "1280+100+50");
    assert_eq!(placed.screen, "1");
}

#[test]
fn an_option_without_a_value_is_left_out() {
    assert_eq!(
        layout_args(L::Fullscreen),
        ["--screen=default", "--fullscreen=yes"]
    );
    assert_eq!(
        layout_args(L::Fill),
        [
            "--screen=default",
            "--fullscreen=no",
            "--geometry=+50%+50%",
            "--autofit=100%x100%"
        ]
    );
}
