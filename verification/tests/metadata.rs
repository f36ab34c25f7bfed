//! What is learned of a file: probing, details, pictures and numbers.

use setbuddy::artwork::{
    artwork_for, frame_timestamp, image_file, input_args, output_args, was_made, ArtAction,
};
use setbuddy::clock::{clock_seed, now_unix, unix_seconds};
use setbuddy::details::{details, format_bitrate, frame_rate, titlecase};
use setbuddy::fixed::{parse_fixed, places, Fixed};
use setbuddy::probe::{
    details_args, non_empty, probe, probe_args, tagged, Probed, ProbeNeed,
};
use setbuddy::track::Track;

fn secs(s: f64) -> Fixed {
    Fixed::Nanos((s * 1e9).round() as i128)
}

fn value_of<'a>(rows: &'a [(String, String)], label: &str) -> Option<&'a str> {
    rows.iter()
        .find(|(l, _)| l == label)
        .map(|(_, v)| v.as_str())
}

const WEBM: &str = r#"{
    "streams": [
        {"codec_type":"video","codec_name":"vp9","width":640,"height":360,
         "avg_frame_rate":"30000/1001","disposition":{"attached_pic":0}},
        {"codec_type":"audio","codec_name":"opus","sample_rate":"48000","channels":2}
    ],
    "format": {"format_long_name":"Matroska / WebM","duration":"200.000000","bit_rate":"128000",
        "size":"3200000","tags":{"ENCODER":"Lavf60"}}
}"#;

const MP3: &str = r#"{
    "streams": [
        {"codec_type":"audio","codec_name":"mp3","sample_rate":"44100","channels":2},
        {"codec_type":"video","codec_name":"mjpeg","width":64,"height":64,
         "disposition":{"attached_pic":1}}
    ],
    "format": {"format_long_name":"MP2/3 (MPEG audio layer 2/3)","duration":"6.0",
        "tags":{"title":"Tone With Art","ARTIST":"Test Artist","album_artist":"Somebody"}}
}"#;

fn rows(output: &str) -> Vec<(String, String)> {
    details(Some(output.as_bytes().to_vec()))
}

// ---- details --------------------------------------------------------------

#[test]
fn a_video_file_lists_its_container_and_both_streams() {
    let rows = rows(WEBM);
    assert!(value_of(&rows, "Container").is_some(), "{rows:?}");
    let video = value_of(&rows, "Video 1").expect("a video stream row");
    assert!(
        video.contains("vp9") || video.contains("vp8"),
        "codec named: {video}"
    );
    assert!(video.contains('×'), "resolution shown: {video}");
    assert!(video.contains("fps"), "frame rate shown: {video}");
    let audio = value_of(&rows, "Audio 1").expect("an audio stream row");
    assert!(audio.contains("Hz"), "sample rate shown: {audio}");
}

#[test]
fn tags_are_flattened_with_one_casing() {
    let rows = rows(MP3);
    assert_eq!(value_of(&rows, "Title"), Some("Tone With Art"), "{rows:?}");
    assert_eq!(value_of(&rows, "Artist"), Some("Test Artist"));
    assert!(
        rows.iter()
            .all(|(l, _)| !l.contains('_') && !l.chars().all(char::is_uppercase)),
        "labels are readable: {rows:?}"
    );
}

#[test]
fn a_picture_is_made_where_there_is_a_file_with_something_in_it() {
    assert!(was_made(true, Some(1)));
    assert!(!was_made(true, Some(0)), "success without a frame");
    assert!(!was_made(true, None));
    assert!(!was_made(false, Some(1)));
}

#[test]
fn an_unreadable_file_yields_nothing_rather_than_failing() {
    assert!(details(None).is_empty());
    assert!(details(Some(Vec::new())).is_empty());
    assert!(details(Some(b"not json".to_vec())).is_empty());
    assert!(details(Some(b"{}".to_vec())).is_empty());
}

#[test]
fn labels_rates_and_bitrates() {
    assert_eq!(titlecase("album_artist"), "Album artist");
    assert_eq!(titlecase("ARTIST"), "Artist");
    assert_eq!(titlecase("STRASSE"), "Strasse");
    assert_eq!(format_bitrate("128000"), "128 kb/s");
    assert_eq!(format_bitrate("2500000"), "2.5 Mb/s");
    assert_eq!(format_bitrate("500"), "500 b/s");
    assert_eq!(format_bitrate("much"), "much");
    assert_eq!(format_bitrate("1150000"), "1.1 Mb/s", "a little less than 1.15 is held");
    assert_eq!(format_bitrate("1250000"), "1.2 Mb/s", "1.25 is held exactly");
    assert_eq!(frame_rate("30000/1001").as_deref(), Some("29.97"));
    assert_eq!(frame_rate("25/1").as_deref(), Some("25"));
    assert_eq!(frame_rate("0/0"), None);
    assert_eq!(frame_rate("1e20/1").as_deref(), Some("9223372036854775807"));
    assert_eq!(frame_rate("-1e20/1").as_deref(), Some("-9223372036854775808"));
    assert_eq!(frame_rate("fast"), None);
}

// ---- probing --------------------------------------------------------------

#[test]
fn audio_is_read_from_its_tags_and_asks_no_further() {
    let tags = tagged(Some(" Tone ".into()), Some("   ".into()), None, secs(6.0));
    assert_eq!(tags.title.as_deref(), Some("Tone"));
    assert_eq!(tags.artist, None);
    assert_eq!(probe("/a.mp3", None, None), Err(ProbeNeed::Tags));
    let p = probe("/a.mp3", Some(Some(tags.clone())), None).unwrap();
    assert_eq!(p, tags);
    assert!(!p.is_bare());
}

#[test]
fn video_is_read_from_its_streams() {
    assert_eq!(probe("/a.webm", None, None), Err(ProbeNeed::Streams));
    let p = probe("/a.webm", None, Some(Some(WEBM.as_bytes().to_vec()))).unwrap();
    assert_eq!(p.duration_secs, Some(secs(200.0)));
    assert!(p.has_video);
    let p = probe("/a.mp3", Some(None), Some(Some(MP3.as_bytes().to_vec()))).unwrap();
    assert_eq!(p.title.as_deref(), Some("Tone With Art"));
    assert!(!p.has_video, "cover art is no video");
}

#[test]
fn tags_win_over_streams() {
    let tags = tagged(Some("Mine".into()), None, None, secs(0.0));
    assert_eq!(tags.duration_secs, None);
    let p = probe("/a.mp3", Some(Some(tags)), Some(Some(MP3.as_bytes().to_vec()))).unwrap();
    assert_eq!(p.title.as_deref(), Some("Mine"));
    assert_eq!(p.duration_secs, Some(secs(6.0)));
}

#[test]
fn a_file_nobody_can_read_is_guessed_by_its_name() {
    assert_eq!(
        probe("/a.webm", Some(None), Some(None)).unwrap(),
        Probed { has_video: true, ..Probed::default() }
    );
    let p = probe("/a.mp3", Some(None), Some(Some(b"garbage".to_vec()))).unwrap();
    assert_eq!(p, Probed::default());
    assert!(p.is_bare());
    assert_eq!(non_empty("  "), None);
    assert_eq!(non_empty(" x ").as_deref(), Some("x"));
    assert!(probe_args().contains(&"-show_entries"));
    assert!(details_args().contains(&"-show_streams"));
}

// ---- pictures -------------------------------------------------------------

fn track(id: i64, name: &str, duration: Option<f64>) -> Track {
    Track {
        id,
        path: format!("/assets/{name}"),
        size_bytes: 1000,
        mtime: 1_700_000_000,
        title: None,
        artist: None,
        album: None,
        duration_secs: duration.map(secs),
        has_video: name.ends_with(".webm"),
        added_at: 0,
        last_played_at: None,
    }
}

/// A cache of files, and what can be made.
struct Cache {
    files: Vec<String>,
    source: bool,
    cover: bool,
    frames: bool,
    made: Vec<String>,
}

impl Cache {
    fn new() -> Self {
        Cache { files: Vec::new(), source: true, cover: false, frames: true, made: Vec::new() }
    }

    fn answer(&mut self, track: &Track, action: ArtAction) -> bool {
        match action {
            ArtAction::MakeCache => true,
            ArtAction::Cached(name) => self.files.contains(&name),
            ArtAction::SourceExists => self.source,
            ArtAction::SaveCover => self.cover,
            ArtAction::DropCover => true,
            ArtAction::Convert { cover, seek } => {
                self.made.push(format!("{cover} {seek:?}"));
                let fine = cover || self.frames;
                if fine {
                    self.files.push(image_file(track));
                }
                fine
            }
            ArtAction::Note(name) => {
                self.files.push(name);
                true
            }
        }
    }

    /// The picture of a track, if it has one.
    fn artwork_for(&mut self, track: &Track) -> Option<String> {
        let mut said = Vec::new();
        loop {
            match artwork_for(track, &said) {
                Ok(found) => return if found { Some(image_file(track)) } else { None },
                Err(action) => {
                    let answer = self.answer(track, action);
                    said.push(answer);
                }
            }
        }
    }
}

#[test]
fn grabs_a_frame_from_a_video_file() {
    let mut cache = Cache::new();
    let track = track(1, "long.webm", Some(200.0));
    let art = cache.artwork_for(&track).expect("a video file should yield a thumbnail");
    assert_eq!(art, "1-1700000000-1000-w1280.jpg");
    assert!(cache.files.contains(&art));
    assert_eq!(cache.made.len(), 1);
}

#[test]
fn extracts_embedded_cover_art_from_audio() {
    let mut cache = Cache { cover: true, ..Cache::new() };
    let track = track(2, "tiny_art.mp3", Some(6.0));
    assert!(cache.artwork_for(&track).is_some(), "the file has an attached picture");
    assert_eq!(cache.made, ["true None"]);
}

#[test]
fn audio_without_art_is_remembered_as_having_none() {
    let mut cache = Cache { frames: false, ..Cache::new() };
    let track = track(3, "tiny.wav", Some(3.0));
    assert!(cache.artwork_for(&track).is_none(), "a bare wav has no art");

    let prefix = format!("{}-{}-{}", track.id, track.mtime, track.size_bytes);
    let marker = cache.files.iter().any(|name| name.starts_with(&prefix) && name.ends_with(".none"));
    assert!(marker, "expected a negative-cache marker");
    let before = cache.made.len();
    assert!(cache.artwork_for(&track).is_none());
    assert_eq!(cache.made.len(), before, "a second look does no work");
}

#[test]
fn artwork_is_generated_once_and_reused() {
    let mut cache = Cache::new();
    let track = track(4, "long.webm", Some(200.0));
    let first = cache.artwork_for(&track).unwrap();
    let second = cache.artwork_for(&track).unwrap();
    assert_eq!(first, second);
    assert_eq!(
        cache.made.len(),
        1,
        "a cached thumbnail should be reused, not regenerated"
    );
}

#[test]
fn a_changed_file_gets_a_new_thumbnail() {
    let mut cache = Cache::new();
    let mut track = track(5, "long.webm", Some(200.0));
    let first = cache.artwork_for(&track).unwrap();

    // Same track id, different file identity — as if it were re-downloaded.
    track.mtime += 1;
    let second = cache.artwork_for(&track).unwrap();
    assert_ne!(first, second, "cache key must include the file's identity");
}

#[test]
fn a_missing_file_yields_no_artwork() {
    let mut cache = Cache { source: false, ..Cache::new() };
    let mut track = track(6, "tiny.wav", Some(3.0));
    track.path = "/nowhere/gone.wav".into();
    assert!(cache.artwork_for(&track).is_none());
    assert!(cache.files.is_empty(), "and nothing is remembered of it");
}

#[test]
fn an_offset_past_the_end_is_tried_again_from_the_start() {
    let mut cache = Cache { frames: false, ..Cache::new() };
    cache.artwork_for(&track(7, "long.webm", Some(200.0)));
    assert_eq!(
        cache.made,
        [
            format!("false {:?}", Some(secs(20.0))),
            format!("false {:?}", Some(secs(0.0)))
        ]
    );
}

#[test]
fn frames_are_taken_from_inside_the_file() {
    assert_eq!(frame_timestamp(Some(secs(7200.0))), secs(600.0));
    assert_eq!(frame_timestamp(Some(secs(200.0))), secs(20.0));
    assert_eq!(frame_timestamp(Some(secs(60.0))), secs(15.0));
    assert_eq!(frame_timestamp(Some(secs(10.0))), secs(1.0));
    assert_eq!(frame_timestamp(None), secs(1.0));
    assert_eq!(
        input_args(Some(secs(20.0))),
        ["-v", "error", "-nostdin", "-y", "-ss", "20.000", "-i"]
    );
    assert_eq!(input_args(None).last().unwrap(), "-i");
    assert_eq!(output_args()[0], "-frames:v");
}

// ---- numbers and the clock ------------------------------------------------

fn read(s: &str) -> Option<Fixed> {
    let chars: Vec<char> = s.chars().collect();
    parse_fixed(&chars)
}

fn shown(a: Fixed, k: usize) -> String {
    places(a, k).into_iter().collect()
}

#[test]
fn numbers_are_read_as_they_are_written() {
    assert_eq!(read("90"), Some(secs(90.0)));
    assert_eq!(read("-1.25"), Some(secs(-1.25)));
    assert_eq!(read(".5"), Some(secs(0.5)));
    assert_eq!(read("5."), Some(secs(5.0)));
    assert_eq!(read("1.5e3"), Some(secs(1500.0)));
    assert_eq!(read("inf"), Some(Fixed::PosInfinity));
    assert_eq!(read("-Infinity"), Some(Fixed::NegInfinity));
    assert_eq!(read("NaN"), Some(Fixed::NaN));
    assert_eq!(read("."), None);
    assert_eq!(read("1e"), None);
    assert_eq!(read("1 2"), None);
    assert_eq!(read(""), None);
}

/// Rates are worked out with the 53 bits that a double has.
#[test]
fn rates_are_shown_as_doubles_are() {
    for b in (1_000_000..30_000_000u64).step_by(50_000) {
        let shown = format!("{:.1} Mb/s", b as f64 / 1_000_000.0);
        assert_eq!(format_bitrate(&b.to_string()), shown);
    }
    for b in (1_000..1_000_000u64).step_by(500) {
        let shown = format!("{:.0} kb/s", b as f64 / 1_000.0);
        assert_eq!(format_bitrate(&b.to_string()), shown);
    }
    for den in [1u32, 3, 7, 8, 16, 200, 1001, 4096, 90_000] {
        for num in (1..60_000u32).step_by(37) {
            let fps = num as f64 / den as f64;
            let shown = if (fps - fps.round()).abs() < 0.01 {
                format!("{}", fps.round() as i64)
            } else {
                format!("{fps:.2}")
            };
            assert_eq!(frame_rate(&format!("{num}/{den}")), Some(shown), "{num}/{den}");
        }
    }
    assert_eq!(frame_rate("1e-9/1e20").as_deref(), Some("0"));
    assert_eq!(frame_rate("-1/3").as_deref(), Some("-0.33"));
    assert_eq!(frame_rate("101/100").as_deref(), Some("1.01"), "a little more than a hundredth off");
    assert_eq!(frame_rate("1e20/1e-9").as_deref(), Some("9223372036854775807"));
}

#[test]
fn numbers_are_shown_as_doubles_are() {
    for n in (0..4_000_000_000i128).step_by(500_000) {
        let value = n as f64 / 1e9;
        assert_eq!(shown(Fixed::Nanos(n), 3), format!("{value:.3}"));
        assert_eq!(shown(Fixed::Nanos(-n - 1), 2), format!("{:.2}", (-n - 1) as f64 / 1e9));
    }
    assert_eq!(shown(Fixed::Nanos(1), 9), "0.000000001");
    assert_eq!(shown(Fixed::Nanos(i128::MIN), 0), format!("{:.0}", i128::MIN as f64 / 1e9));
    assert_eq!(shown(Fixed::Nanos(0), 2), "0.00");
}

#[test]
fn numbers_are_shown_to_so_many_places() {
    assert_eq!(shown(secs(1.5), 0), "2", "half to even");
    assert_eq!(shown(secs(2.5), 0), "2", "half to even");
    assert_eq!(shown(secs(20.0), 3), "20.000");
    assert_eq!(shown(secs(-0.25), 2), "-0.25");
    assert_eq!(shown(Fixed::PosInfinity, 2), "inf");
    assert_eq!(shown(Fixed::NaN, 2), "NaN");
}

#[test]
fn the_clock_counts_from_its_epoch() {
    assert!(now_unix() > 1_600_000_000);
    assert_eq!(unix_seconds(None), 0);
    assert_eq!(unix_seconds(Some(5_999_999_999)), 5);
    assert_ne!(clock_seed(Some(1)), 0);
    assert_eq!(clock_seed(Some(77)), clock_seed(Some(77)));
}
