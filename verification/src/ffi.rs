//! What crosses the boundary to the menu bar app.
//!
//! Everything about bindings is the host's. This module says what a track, a
//! snapshot, a report and a failure look like on the other side, and reads what
//! comes from there.

use vstd::prelude::*;

use crate::engine::{EngineError, EngineErrorView};
use crate::error::{CoreError, ErrorView};
use crate::fixed::Fixed;
use crate::layout::{layout_of, VideoWindowLayout};
use crate::player::PlayerStatus;
use crate::queue::RepeatMode;
use crate::resume::{start_at, start_offset};
use crate::text::{add_text, chars_of, lower, lowered, reads, string_of, trim, trimmed};

verus! {

/// A track, as every surface shows it.
#[derive(Debug)]
pub struct Track {
    pub id: i64,
    pub path: String,
    pub title: Option<String>,
    pub artist: Option<String>,
    pub album: Option<String>,
    pub duration_secs: Option<Fixed>,
    pub has_video: bool,
    pub last_played_at: Option<i64>,
    pub size_bytes: i64,
    pub mtime: i64,
    pub added_at: i64,
    /// "Artist — Title", or the filename.
    pub display_label: String,
    /// The saved position, where there is one worth resuming from.
    pub resume_secs: Option<Fixed>,
}

/// Whether a track is shown as it is, with its label and where it is taken up
/// again. A position that the rules refuse is not shown.
pub open spec fn shows_track(
    row: Track,
    track: crate::track::Track,
    stored: Option<Fixed>,
) -> bool {
    &&& row.id == track.id
    &&& row.path == track.path
    &&& row.title == track.title
    &&& row.artist == track.artist
    &&& row.album == track.album
    &&& row.duration_secs == track.duration_secs
    &&& row.has_video == track.has_video
    &&& row.last_played_at == track.last_played_at
    &&& row.size_bytes == track.size_bytes
    &&& row.mtime == track.mtime
    &&& row.added_at == track.added_at
    &&& row.display_label@ == track.label_text()
    &&& row.resume_secs == start_offset(stored, track.duration_secs)
}

/// A track as it is shown, given the position that is stored for it.
pub fn track_to_ffi(track: crate::track::Track, stored: Option<Fixed>) -> (r: Track)
    ensures
        shows_track(r, track, stored),
{
    let display_label = track.display_label();
    let resume_secs = start_at(stored, track.duration_secs);
    Track {
        id: track.id,
        path: track.path,
        title: track.title,
        artist: track.artist,
        album: track.album,
        duration_secs: track.duration_secs,
        has_video: track.has_video,
        last_played_at: track.last_played_at,
        size_bytes: track.size_bytes,
        mtime: track.mtime,
        added_at: track.added_at,
        display_label,
        resume_secs,
    }
}

/// Everything the menu bar draws, in one read.
#[derive(Debug)]
pub struct PlayerSnapshot {
    pub track: Option<Track>,
    pub position_secs: Option<Fixed>,
    pub duration_secs: Option<Fixed>,
    pub paused: bool,
    pub idle: bool,
    pub has_video: bool,
    pub video_visible: bool,
    pub queue_len: u32,
    pub queue_index: Option<u32>,
    pub repeat: RepeatMode,
    pub shuffle: bool,
    /// Queue positions playback is confined to; empty when it is not.
    pub loop_positions: Vec<u32>,
    pub engine_id: Option<String>,
}

/// The low thirty-two bits of a count.
pub open spec fn low_bits(n: usize) -> u32 {
    (n as int % 0x1_0000_0000) as u32
}

fn low(n: usize) -> (r: u32)
    ensures
        r == low_bits(n),
{
    let wide: u64 = n as u64;
    let m: u64 = wide % 0x1_0000_0000;
    m as u32
}

/// Counts in their low bits.
pub open spec fn low_counts(v: Seq<usize>) -> Seq<u32> {
    Seq::new(v.len(), |i: int| low_bits(v[i]))
}

/// Whether a snapshot is what a status says.
pub open spec fn shows_status(
    shot: PlayerSnapshot,
    status: PlayerStatus,
    stored: Option<Fixed>,
) -> bool {
    &&& match status.track {
        Some(track) => shot.track is Some && shows_track(shot.track->0, track, stored),
        None => shot.track is None,
    }
    &&& shot.position_secs == status.position_secs
    &&& shot.duration_secs == status.duration_secs
    &&& shot.paused == status.paused
    &&& shot.idle == status.idle
    &&& shot.has_video == status.has_video
    &&& shot.video_visible == status.video_visible
    &&& shot.queue_len == low_bits(status.queue_len)
    &&& shot.queue_index == (match status.queue_index {
        Some(i) => Some(low_bits(i)),
        None => None,
    })
    &&& shot.repeat == status.repeat
    &&& shot.shuffle == status.shuffle
    &&& shot.loop_positions@ == low_counts(status.loop_positions@)
    &&& shot.engine_id == status.engine_id
}

/// A status as it is shown, given the position that is stored for its track.
pub fn snapshot_of(status: PlayerStatus, stored: Option<Fixed>) -> (r: PlayerSnapshot)
    ensures
        shows_status(r, status, stored),
{
    let mut loop_positions: Vec<u32> = Vec::new();
    let ghost all = low_counts(status.loop_positions@);
    let mut i: usize = 0;
    while i < status.loop_positions.len()
        invariant
            i <= status.loop_positions@.len(),
            all == low_counts(status.loop_positions@),
            loop_positions@ == all.take(i as int),
        decreases status.loop_positions@.len() - i,
    {
        loop_positions.push(low(status.loop_positions[i]));
        assert(all.take(i as int + 1) =~= all.take(i as int).push(all[i as int]));
        i = i + 1;
    }
    assert(all.take(i as int) =~= all);
    let queue_len = low(status.queue_len);
    let queue_index: Option<u32> = match status.queue_index {
        Some(i) => Some(low(i)),
        None => None,
    };
    PlayerSnapshot {
        track: match status.track {
            Some(track) => Some(track_to_ffi(track, stored)),
            None => None,
        },
        position_secs: status.position_secs,
        duration_secs: status.duration_secs,
        paused: status.paused,
        idle: status.idle,
        has_video: status.has_video,
        video_visible: status.video_visible,
        queue_len,
        queue_index,
        repeat: status.repeat,
        shuffle: status.shuffle,
        loop_positions,
        engine_id: status.engine_id,
    }
}

/// One line of a track's full metadata.
#[derive(Debug)]
pub struct MetadataEntry {
    pub label: String,
    pub value: String,
}

/// The lines of a track's full metadata, in their order.
pub fn metadata_entries(rows: Vec<(String, String)>) -> (r: Vec<MetadataEntry>)
    ensures
        r@.len() == rows@.len(),
        forall|i: int|
            0 <= i < r@.len() ==> (#[trigger] r@[i]).label == rows@[i].0 && r@[i].value
                == rows@[i].1,
{
    let mut out: Vec<MetadataEntry> = Vec::new();
    let mut i: usize = 0;
    while i < rows.len()
        invariant
            i <= rows@.len(),
            out@.len() == i,
            forall|k: int|
                0 <= k < i ==> (#[trigger] out@[k]).label == rows@[k].0 && out@[k].value
                    == rows@[k].1,
        decreases rows@.len() - i,
    {
        out.push(MetadataEntry { label: rows[i].0.clone(), value: rows[i].1.clone() });
        i = i + 1;
    }
    out
}

/// What a scan found.
#[derive(Debug, Clone, Copy, PartialEq, Eq, Structural)]
pub struct ScanReport {
    pub seen: u32,
    pub added: u32,
    pub updated: u32,
    pub unchanged: u32,
    pub removed: u32,
}

/// A report in the low bits of its counts.
pub fn report_of(report: &crate::library::ScanReport) -> (r: ScanReport)
    ensures
        r.seen == low_bits(report.seen),
        r.added == low_bits(report.added),
        r.updated == low_bits(report.updated),
        r.unchanged == low_bits(report.unchanged),
        r.removed == low_bits(report.removed),
{
    ScanReport {
        seen: low(report.seen),
        added: low(report.added),
        updated: low(report.updated),
        unchanged: low(report.unchanged),
        removed: low(report.removed),
    }
}

/// How an operation fails, as the app is told.
#[derive(Debug, PartialEq, Eq)]
pub enum SetbuddyError {
    /// The backend is not installed. `hint` is what the user is shown.
    EngineMissing { display_name: String, hint: String },
    NothingPlaying,
    UnsupportedFile { path: String },
    NoMatch { query: String },
    Playback { message: String },
    Storage { message: String },
}

/// A failure, with its texts as sequences of characters.
pub enum SetbuddyErrorView {
    EngineMissing { display_name: Seq<char>, hint: Seq<char> },
    NothingPlaying,
    UnsupportedFile { path: Seq<char> },
    NoMatch { query: Seq<char> },
    Playback { message: Seq<char> },
    Storage { message: Seq<char> },
}

impl View for SetbuddyError {
    type V = SetbuddyErrorView;

    open spec fn view(&self) -> SetbuddyErrorView {
        match *self {
            SetbuddyError::EngineMissing {
                display_name,
                hint,
            } => SetbuddyErrorView::EngineMissing { display_name: display_name@, hint: hint@ },
            SetbuddyError::NothingPlaying => SetbuddyErrorView::NothingPlaying,
            SetbuddyError::UnsupportedFile { path } => SetbuddyErrorView::UnsupportedFile {
                path: path@,
            },
            SetbuddyError::NoMatch { query } => SetbuddyErrorView::NoMatch { query: query@ },
            SetbuddyError::Playback { message } => SetbuddyErrorView::Playback {
                message: message@,
            },
            SetbuddyError::Storage { message } => SetbuddyErrorView::Storage { message: message@ },
        }
    }
}

impl SetbuddyErrorView {
    /// What the user is told.
    pub open spec fn text(self) -> Seq<char> {
        match self {
            SetbuddyErrorView::EngineMissing { display_name, hint } => display_name
                + " is not installed. "@ + hint,
            SetbuddyErrorView::NothingPlaying => "nothing is playing"@,
            SetbuddyErrorView::UnsupportedFile { path } => path
                + " is not a media file Setbuddy recognises"@,
            SetbuddyErrorView::NoMatch { query } => "nothing matches \""@ + query + "\""@,
            SetbuddyErrorView::Playback { message } => message,
            SetbuddyErrorView::Storage { message } => message,
        }
    }
}

impl SetbuddyError {
    /// What the user is told.
    pub fn message(&self) -> (r: String)
        ensures
            r@ == self@.text(),
    {
        match self {
            SetbuddyError::EngineMissing { display_name, hint } => {
                let mut out = chars_of(display_name.as_str());
                add_text(&mut out, " is not installed. ");
                add_text(&mut out, hint.as_str());
                string_of(out.as_slice())
            },
            SetbuddyError::NothingPlaying => "nothing is playing".to_owned(),
            SetbuddyError::UnsupportedFile { path } => {
                let mut out = chars_of(path.as_str());
                add_text(&mut out, " is not a media file Setbuddy recognises");
                string_of(out.as_slice())
            },
            SetbuddyError::NoMatch { query } => {
                let mut out = chars_of("nothing matches \"");
                add_text(&mut out, query.as_str());
                add_text(&mut out, "\"");
                string_of(out.as_slice())
            },
            SetbuddyError::Playback { message } => message.clone(),
            SetbuddyError::Storage { message } => message.clone(),
        }
    }
}

/// An engine's failure, as the app is told.
pub open spec fn engine_failure(error: EngineErrorView) -> SetbuddyErrorView {
    match error {
        EngineErrorView::EngineMissing { display_name, hint } => SetbuddyErrorView::EngineMissing {
            display_name,
            hint,
        },
        EngineErrorView::Unsupported { path } => SetbuddyErrorView::UnsupportedFile { path },
        _ => SetbuddyErrorView::Playback { message: error.text() },
    }
}

/// A failure, as the app is told.
pub open spec fn failure(error: ErrorView) -> SetbuddyErrorView {
    match error {
        ErrorView::Engine(e) => engine_failure(e),
        ErrorView::NothingPlaying => SetbuddyErrorView::NothingPlaying,
        ErrorView::NotMedia { path } => SetbuddyErrorView::UnsupportedFile { path },
        ErrorView::NoMatch { query } => SetbuddyErrorView::NoMatch { query },
        ErrorView::Storage { message } => SetbuddyErrorView::Storage { message },
        _ => SetbuddyErrorView::Playback { message: error.text() },
    }
}

/// An engine's failure, as the app is told.
pub fn from_engine_error(error: EngineError) -> (r: SetbuddyError)
    ensures
        r@ == engine_failure(error@),
{
    let message = error.message();
    match error {
        EngineError::EngineMissing { display_name, hint } => SetbuddyError::EngineMissing {
            display_name,
            hint,
        },
        EngineError::Unsupported { path } => SetbuddyError::UnsupportedFile { path },
        _ => SetbuddyError::Playback { message },
    }
}

/// A failure, as the app is told.
pub fn from_core_error(error: CoreError) -> (r: SetbuddyError)
    ensures
        r@ == failure(error@),
{
    let message = error.message();
    match error {
        CoreError::Engine(e) => from_engine_error(e),
        CoreError::NothingPlaying => SetbuddyError::NothingPlaying,
        CoreError::NotMedia { path } => SetbuddyError::UnsupportedFile { path },
        CoreError::NoMatch { query } => SetbuddyError::NoMatch { query },
        CoreError::Storage { message } => SetbuddyError::Storage { message },
        _ => SetbuddyError::Playback { message },
    }
}

/// What an engine of the app failed with. Only what the app acts on keeps its
/// shape.
pub open spec fn foreign_failure(error: SetbuddyErrorView) -> EngineErrorView {
    match error {
        SetbuddyErrorView::EngineMissing { display_name, hint } => EngineErrorView::EngineMissing {
            display_name,
            hint,
        },
        SetbuddyErrorView::UnsupportedFile { path } => EngineErrorView::Unsupported { path },
        _ => EngineErrorView::Internal { message: error.text() },
    }
}

/// What an engine of the app failed with.
pub fn to_engine_error(error: SetbuddyError) -> (r: EngineError)
    ensures
        r@ == foreign_failure(error@),
{
    let message = error.message();
    match error {
        SetbuddyError::EngineMissing { display_name, hint } => EngineError::EngineMissing {
            display_name,
            hint,
        },
        SetbuddyError::UnsupportedFile { path } => EngineError::Unsupported { path },
        _ => EngineError::Internal { message },
    }
}

/// What is said of a text that is no layout.
pub open spec fn layout_complaint(spec_text: Seq<char>) -> Seq<char> {
    "\""@ + spec_text
        + "\" is not a window layout; use a percentage like 40%, \"fill\", \"fullscreen\", a width like 1280, or width+x+y/screen like 1280+100+50/0"@
}

/// Read a layout in its settings form.
pub fn layout_asked(text: &str) -> (r: Result<VideoWindowLayout, SetbuddyError>)
    ensures
        match r {
            Ok(layout) => layout_of(text@) == Some(layout),
            Err(e) => layout_of(text@) is None && e@ == (SetbuddyErrorView::Playback {
                message: layout_complaint(text@),
            }),
        },
{
    match VideoWindowLayout::parse(text) {
        Some(layout) => Ok(layout),
        None => {
            let mut out = chars_of("\"");
            add_text(&mut out, text);
            add_text(
                &mut out,
                "\" is not a window layout; use a percentage like 40%, \"fill\", \"fullscreen\", a width like 1280, or width+x+y/screen like 1280+100+50/0",
            );
            Err(SetbuddyError::Playback { message: string_of(out.as_slice()) })
        },
    }
}

/// The layout in its settings form; the engines' own where none is saved.
pub fn layout_shown(saved: Option<VideoWindowLayout>) -> (r: String)
    ensures
        r@ == crate::layout::layout_text(
            match saved {
                Some(layout) => layout,
                None => VideoWindowLayout::ScreenFraction(Fixed::Nanos(400_000_000)),
            },
        ),
{
    match saved {
        Some(layout) => layout.as_str(),
        None => VideoWindowLayout::default().as_str(),
    }
}

/// Read where the picture goes: `window`, the engine's own, or `panel`, a surface
/// that the app draws.
pub fn surface_asked(text: &str) -> (r: Result<String, SetbuddyError>)
    ensures
        ({
            let word = lowered(trimmed(text@));
            match r {
                Ok(surface) => surface@ == word && (word == "window"@ || word == "panel"@),
                Err(e) => word != "window"@ && word != "panel"@ && e@
                    == (SetbuddyErrorView::Playback {
                    message: "\""@ + word
                        + "\" is not a video surface; use \"window\" or \"panel\""@,
                }),
            }
        }),
{
    let chars = chars_of(text);
    let word = lower(trim(chars.as_slice()));
    let w = word.as_slice();
    if reads(w, "window") || reads(w, "panel") {
        return Ok(string_of(w));
    }
    let mut out = chars_of("\"");
    crate::text::add_chars(&mut out, w);
    add_text(&mut out, "\" is not a video surface; use \"window\" or \"panel\"");
    Err(SetbuddyError::Playback { message: string_of(out.as_slice()) })
}

/// Where the picture goes; the engine's own window where nothing is saved.
pub fn surface_shown(saved: Option<String>) -> (r: String)
    ensures
        r@ == match saved {
            Some(surface) => surface@,
            None => "window"@,
        },
{
    match saved {
        Some(surface) => surface,
        None => "window".to_owned(),
    }
}

/// Queue positions, where some are given.
pub fn positions_asked(positions: &Vec<u32>) -> (r: Option<Vec<usize>>)
    ensures
        match r {
            Some(v) => positions@.len() > 0 && v@.len() == positions@.len() && forall|i: int|
                0 <= i < v@.len() ==> #[trigger] v@[i] == positions@[i],
            None => positions@.len() == 0,
        },
{
    if positions.len() == 0 {
        return None;
    }
    let mut out: Vec<usize> = Vec::new();
    let mut i: usize = 0;
    while i < positions.len()
        invariant
            i <= positions@.len(),
            out@.len() == i,
            forall|k: int| 0 <= k < i ==> #[trigger] out@[k] == positions@[k],
        decreases positions@.len() - i,
    {
        out.push(positions[i] as usize);
        i = i + 1;
    }
    Some(out)
}

/// How often the app is told what plays: not more often than every fifty
/// milliseconds.
pub fn tick_interval_ms(asked: u64) -> (r: u64)
    ensures
        r == if asked < 50 {
            50
        } else {
            asked
        },
{
    if asked < 50 {
        50
    } else {
        asked
    }
}

/// Whether mpv joins the engines that the app brought. It is no requirement where
/// the app brought some; with no engine at all there is nothing to build.
pub fn mpv_joins(brought: usize, missing: Option<EngineError>) -> (r: Result<bool, SetbuddyError>)
    ensures
        match missing {
            None => r == Ok::<bool, SetbuddyError>(true),
            Some(e) => if brought > 0 {
                r == Ok::<bool, SetbuddyError>(false)
            } else {
                r matches Err(err) && err@ == engine_failure(e@)
            },
        },
{
    match missing {
        None => Ok(true),
        Some(e) => {
            if brought > 0 {
                Ok(false)
            } else {
                Err(from_engine_error(e))
            }
        },
    }
}

/// That an engine is missing, and that it cannot play a file, come back from the
/// app's own engines as they went out.
pub proof fn law_what_the_app_acts_on_survives(error: EngineErrorView)
    requires
        error is EngineMissing || error is Unsupported,
    ensures
        foreign_failure(engine_failure(error)) == error,
{
}

/// What an engine or the file system failed with reads the same on either side,
/// except where a file is told as one that is not recognised.
pub proof fn law_playback_failures_read_the_same(error: ErrorView)
    requires
        error is Engine || error is Io || error is NothingPlaying || error is Internal,
        !(error matches ErrorView::Engine(e) && e is Unsupported),
    ensures
        failure(error).text() == error.text(),
{
}

/// A position that is shown is one where playback would start.
pub proof fn law_shown_resume_is_honoured(
    row: Track,
    track: crate::track::Track,
    stored: Option<Fixed>,
)
    requires
        shows_track(row, track, stored),
        row.resume_secs is Some,
    ensures
        crate::resume::worth_keeping(row.resume_secs->0, track.duration_secs),
        row.resume_secs == stored,
{
}

} // verus!
