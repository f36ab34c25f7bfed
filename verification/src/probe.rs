//! Reading metadata out of a file.
//!
//! Two sources, in order of cost. Tagged audio is read in the process. Video
//! containers fall to `ffprobe`, where it is present. Neither is required: a
//! file that cannot be probed is still indexed and still plays; it shows its
//! file name and learns its duration on first play.

use vstd::prelude::*;

use crate::fixed::{parse_fixed, parsed, Fixed};
use crate::json::{document, parse_json, Json, JsonView};
use crate::text::{chars_of, copy_text, string_of, text_view, trim, trimmed};
use crate::track::{is_video_extension, video_path};

verus! {

/// What was learned of a file.
#[derive(Debug, PartialEq)]
pub struct Probed {
    pub title: Option<String>,
    pub artist: Option<String>,
    pub album: Option<String>,
    pub duration_secs: Option<Fixed>,
    pub has_video: bool,
}

/// What was learned of a file, with its texts as sequences of characters.
#[verifier::ext_equal]
pub struct ProbedView {
    pub title: Option<Seq<char>>,
    pub artist: Option<Seq<char>>,
    pub album: Option<Seq<char>>,
    pub duration_secs: Option<Fixed>,
    pub has_video: bool,
}

impl View for Probed {
    type V = ProbedView;

    open spec fn view(&self) -> ProbedView {
        ProbedView {
            title: text_view(self.title),
            artist: text_view(self.artist),
            album: text_view(self.album),
            duration_secs: self.duration_secs,
            has_video: self.has_video,
        }
    }
}

impl Probed {
    /// Nothing learned.
    pub open spec fn nothing() -> Probed {
        Probed { title: None, artist: None, album: None, duration_secs: None, has_video: false }
    }

    /// True when nothing useful was learned, so callers can retry later.
    pub fn is_bare(&self) -> (r: bool)
        ensures
            r == (self.duration_secs is None && self.title is None),
    {
        self.duration_secs.is_none() && self.title.is_none()
    }
}

impl Default for Probed {
    fn default() -> (r: Self)
        ensures
            r == Probed::nothing(),
    {
        Probed { title: None, artist: None, album: None, duration_secs: None, has_video: false }
    }
}

impl Clone for Probed {
    fn clone(&self) -> (r: Self)
        ensures
            r == *self,
    {
        Probed {
            title: copy_text(&self.title),
            artist: copy_text(&self.artist),
            album: copy_text(&self.album),
            duration_secs: self.duration_secs,
            has_video: self.has_video,
        }
    }
}

/// The text without the white space around it, if anything is left.
pub open spec fn content(s: Seq<char>) -> Option<Seq<char>> {
    if trimmed(s).len() > 0 {
        Some(trimmed(s))
    } else {
        None
    }
}

/// The text without the white space around it, if anything is left.
pub fn non_empty(s: &str) -> (r: Option<String>)
    ensures
        text_view(r) == content(s@),
{
    let chars = chars_of(s);
    let t = trim(chars.as_slice());
    if t.len() > 0 {
        Some(string_of(t))
    } else {
        None
    }
}

/// A text that is there and holds more than white space.
pub open spec fn filled(o: Option<String>) -> Option<Seq<char>> {
    match o {
        Some(s) => content(s@),
        None => None,
    }
}

fn fill(o: Option<String>) -> (r: Option<String>)
    ensures
        text_view(r) == filled(o),
{
    match o {
        Some(s) => non_empty(s.as_str()),
        None => None,
    }
}

/// What the tags of an audio file say. Its cover art is not something to pop
/// out.
pub fn tagged(
    title: Option<String>,
    artist: Option<String>,
    album: Option<String>,
    duration: Fixed,
) -> (r: Probed)
    ensures
        r@ == (ProbedView {
            title: filled(title),
            artist: filled(artist),
            album: filled(album),
            duration_secs: match duration {
                Fixed::Nanos(d) => if d > 0 {
                    Some(duration)
                } else {
                    None
                },
                _ => None,
            },
            has_video: false,
        }),
{
    Probed {
        title: fill(title),
        artist: fill(artist),
        album: fill(album),
        duration_secs: match duration {
            Fixed::Nanos(d) => if d > 0 {
                Some(duration)
            } else {
                None
            },
            _ => None,
        },
        has_video: false,
    }
}

/// The text behind a key of the tags, if it is there and not blank.
pub open spec fn tag(tags: Option<JsonView>, key: Seq<char>) -> Option<Seq<char>> {
    match tags {
        Some(t) => match t.get(key) {
            Some(v) => match v.text() {
                Some(s) => content(s),
                None => None,
            },
            None => None,
        },
        None => None,
    }
}

/// Whether a stream is a moving picture. Embedded cover art is a video stream
/// with the `attached_pic` disposition; it is artwork, not something to pop out.
pub open spec fn moving_picture(stream: JsonView) -> bool {
    let kind = match stream.get("codec_type"@) {
        Some(v) => v.text(),
        None => None,
    };
    let picture = match stream.get("disposition"@) {
        Some(d) => match d.get("attached_pic"@) {
            Some(v) => v.whole(),
            None => None,
        },
        None => None,
    };
    kind == Some("video"@) && picture != Some(1nat)
}

/// Whether any stream is a moving picture.
pub open spec fn pictured(doc: JsonView) -> bool {
    match doc.get("streams"@) {
        Some(s) => match s.array() {
            Some(streams) => exists|i: int|
                0 <= i < streams.len() && moving_picture(#[trigger] streams[i]),
            None => false,
        },
        None => false,
    }
}

/// The duration that a document gives: a number above zero, as text.
pub open spec fn stated_duration(format: Option<JsonView>) -> Option<Fixed> {
    match format {
        Some(f) => match f.get("duration"@) {
            Some(v) => match v.text() {
                Some(t) => match parsed(t) {
                    Some(Fixed::Nanos(d)) => if d > 0 {
                        Some(Fixed::Nanos(d))
                    } else {
                        None
                    },
                    _ => None,
                },
                None => None,
            },
            None => None,
        },
        None => None,
    }
}

/// What `ffprobe` says of a file.
pub open spec fn learned(doc: JsonView) -> ProbedView {
    let format = doc.get("format"@);
    let tags = match format {
        Some(f) => f.get("tags"@),
        None => None,
    };
    ProbedView {
        title: tag(tags, "title"@),
        artist: tag(tags, "artist"@),
        album: tag(tags, "album"@),
        duration_secs: stated_duration(format),
        has_video: pictured(doc),
    }
}

fn read_tag(tags: Option<&Json>, key: &str) -> (r: Option<String>)
    ensures
        text_view(r) == tag(
            match tags {
                Some(t) => Some(t@),
                None => None,
            },
            key@,
        ),
{
    match tags {
        Some(t) => match t.get(key) {
            Some(v) => match v.as_str() {
                Some(s) => non_empty(s.as_str()),
                None => None,
            },
            None => None,
        },
        None => None,
    }
}

fn is_moving_picture(stream: &Json) -> (r: bool)
    ensures
        r == moving_picture(stream@),
{
    let video: bool = match stream.get("codec_type") {
        Some(v) => match v.as_str() {
            Some(kind) => {
                let chars = chars_of(kind.as_str());
                crate::text::reads(chars.as_slice(), "video")
            },
            None => false,
        },
        None => false,
    };
    let picture: bool = match stream.get("disposition") {
        Some(d) => match d.get("attached_pic") {
            Some(v) => match v.as_u64() {
                Some(n) => n == 1,
                None => false,
            },
            None => false,
        },
        None => false,
    };
    video && !picture
}

fn has_picture(doc: &Json) -> (r: bool)
    ensures
        r == pictured(doc@),
{
    match doc.get("streams") {
        Some(s) => match s.as_array() {
            Some(streams) => {
                let mut i: usize = 0;
                while i < streams.len()
                    invariant
                        i <= streams@.len(),
                        doc@.get("streams"@) == Some(s@),
                        s@.array() is Some,
                        s@.array()->0.len() == streams@.len(),
                        forall|k: int|
                            0 <= k < streams@.len() ==> s@.array()->0[k] == (
                            #[trigger] streams@[k])@,
                        forall|k: int|
                            0 <= k < i ==> !moving_picture(#[trigger] s@.array()->0[k]),
                    decreases streams@.len() - i,
                {
                    assert(s@.array()->0[i as int] == streams@[i as int]@);
                    if is_moving_picture(&streams[i]) {
                        return true;
                    }
                    i = i + 1;
                }
                false
            },
            None => false,
        },
        None => false,
    }
}

fn read_duration(format: Option<&Json>) -> (r: Option<Fixed>)
    ensures
        r == stated_duration(
            match format {
                Some(f) => Some(f@),
                None => None,
            },
        ),
{
    match format {
        Some(f) => match f.get("duration") {
            Some(v) => match v.as_str() {
                Some(t) => {
                    let chars = chars_of(t.as_str());
                    match parse_fixed(chars.as_slice()) {
                        Some(Fixed::Nanos(d)) => if d > 0 {
                            Some(Fixed::Nanos(d))
                        } else {
                            None
                        },
                        _ => None,
                    }
                },
                None => None,
            },
            None => None,
        },
        None => None,
    }
}

/// What a document of `ffprobe` says of a file.
pub fn probed_from(doc: &Json) -> (r: Probed)
    ensures
        r@ == learned(doc@),
{
    let format = doc.get("format");
    let tags = match format {
        Some(f) => f.get("tags"),
        None => None,
    };
    Probed {
        title: read_tag(tags, "title"),
        artist: read_tag(tags, "artist"),
        album: read_tag(tags, "album"),
        duration_secs: read_duration(format),
        has_video: has_picture(doc),
    }
}

/// What `ffprobe` printed, as far as it is a document.
pub open spec fn heard(output: Option<Seq<u8>>) -> Option<ProbedView> {
    match output {
        Some(bytes) => match document(bytes) {
            Some(doc) => Some(learned(doc)),
            None => None,
        },
        None => None,
    }
}

/// What is still needed to probe a file.
#[derive(Debug, Clone, Copy, PartialEq, Eq, Structural)]
pub enum ProbeNeed {
    /// The tags of an audio file.
    Tags,
    /// What `ffprobe` prints of it.
    Streams,
}

/// The tags' say, over a guess from the extension.
pub open spec fn from_tags(video: bool, tags: Option<ProbedView>) -> ProbedView {
    match tags {
        Some(t) => if video {
            ProbedView { has_video: true, ..nothing_view() }
        } else {
            ProbedView { has_video: false, ..t }
        },
        None => ProbedView { has_video: video, ..nothing_view() },
    }
}

pub open spec fn nothing_view() -> ProbedView {
    ProbedView {
        title: None,
        artist: None,
        album: None,
        duration_secs: None,
        has_video: false,
    }
}

pub open spec fn first_of(a: Option<Seq<char>>, b: Option<Seq<char>>) -> Option<Seq<char>> {
    match a {
        Some(s) => Some(s),
        None => b,
    }
}

/// What `ffprobe` adds: the duration and whether there is a picture, and texts
/// where the tags had none.
pub open spec fn with_streams(probed: ProbedView, streams: Option<ProbedView>) -> ProbedView {
    match streams {
        Some(ff) => ProbedView {
            duration_secs: ff.duration_secs,
            title: first_of(probed.title, ff.title),
            artist: first_of(probed.artist, ff.artist),
            album: first_of(probed.album, ff.album),
            has_video: ff.has_video,
        },
        None => probed,
    }
}

pub open spec fn probed_view(o: Option<Probed>) -> Option<ProbedView> {
    match o {
        Some(p) => Some(p@),
        None => None,
    }
}

/// What the sources come to, or which of them is still to be asked: the tags,
/// unless the file is a video container; then `ffprobe`, where no duration is
/// known yet.
pub open spec fn probe_of(
    path: Seq<char>,
    tags: Option<Option<ProbedView>>,
    streams: Option<Option<Seq<u8>>>,
) -> Result<ProbedView, ProbeNeed> {
    if !video_path(path) && tags is None {
        Err(ProbeNeed::Tags)
    } else {
        let first = from_tags(
            video_path(path),
            match tags {
                Some(t) => t,
                None => None,
            },
        );
        if first.duration_secs is Some {
            Ok(first)
        } else {
            match streams {
                None => Err(ProbeNeed::Streams),
                Some(output) => Ok(with_streams(first, heard(output))),
            }
        }
    }
}

fn either(a: Option<String>, b: Option<String>) -> (r: Option<String>)
    ensures
        text_view(r) == first_of(text_view(a), text_view(b)),
{
    match a {
        Some(s) => Some(s),
        None => b,
    }
}

/// Best-effort metadata: what the sources asked so far come to, or which one to
/// ask next. `tags` and `streams` are `None` until asked; a source that was
/// asked may still have nothing to say.
pub fn probe(
    path: &str,
    tags: Option<Option<Probed>>,
    streams: Option<Option<Vec<u8>>>,
) -> (r: Result<Probed, ProbeNeed>)
    ensures
        match r {
            Ok(p) => Ok::<ProbedView, ProbeNeed>(p@),
            Err(need) => Err(need),
        } == probe_of(
            path@,
            match tags {
                Some(t) => Some(probed_view(t)),
                None => None,
            },
            match streams {
                Some(Some(bytes)) => Some(Some(bytes@)),
                Some(None) => Some(None),
                None => None,
            },
        ),
{
    let video: bool = is_video_extension(path);
    let mut probed = Probed {
        title: None,
        artist: None,
        album: None,
        duration_secs: None,
        has_video: video,
    };
    if !video {
        match tags {
            None => {
                return Err(ProbeNeed::Tags);
            },
            Some(Some(t)) => {
                probed = t;
                probed.has_video = false;
            },
            Some(None) => {},
        }
    }
    if probed.duration_secs.is_some() {
        return Ok(probed);
    }
    match streams {
        None => Err(ProbeNeed::Streams),
        Some(Some(bytes)) => match parse_json(bytes.as_slice()) {
            Some(doc) => {
                let ff = probed_from(&doc);
                Ok(
                    Probed {
                        title: either(probed.title, ff.title),
                        artist: either(probed.artist, ff.artist),
                        album: either(probed.album, ff.album),
                        duration_secs: ff.duration_secs,
                        has_video: ff.has_video,
                    },
                )
            },
            None => Ok(probed),
        },
        Some(None) => Ok(probed),
    }
}

/// The arguments that have `ffprobe` say what the index needs.
pub fn probe_args() -> (r: Vec<&'static str>)
    ensures
        r@.len() == 6,
        r@[0]@ == "-v"@,
        r@[1]@ == "error"@,
        r@[2]@ == "-show_entries"@,
        r@[3]@
            == "format=duration:format_tags=title,artist,album:stream=codec_type,disposition"@,
        r@[4]@ == "-of"@,
        r@[5]@ == "json"@,
{
    let mut args: Vec<&'static str> = Vec::new();
    args.push("-v");
    args.push("error");
    args.push("-show_entries");
    args.push("format=duration:format_tags=title,artist,album:stream=codec_type,disposition");
    args.push("-of");
    args.push("json");
    args
}

/// The arguments that have `ffprobe` say everything.
pub fn details_args() -> (r: Vec<&'static str>)
    ensures
        r@.len() == 6,
        r@[0]@ == "-v"@,
        r@[1]@ == "error"@,
        r@[2]@ == "-show_format"@,
        r@[3]@ == "-show_streams"@,
        r@[4]@ == "-of"@,
        r@[5]@ == "json"@,
{
    let mut args: Vec<&'static str> = Vec::new();
    args.push("-v");
    args.push("error");
    args.push("-show_format");
    args.push("-show_streams");
    args.push("-of");
    args.push("json");
    args
}

/// What the tags say is never replaced by what `ffprobe` says.
pub proof fn law_tags_win(first: ProbedView, streams: Option<ProbedView>)
    ensures
        first.title is Some ==> with_streams(first, streams).title == first.title,
        first.artist is Some ==> with_streams(first, streams).artist == first.artist,
        first.album is Some ==> with_streams(first, streams).album == first.album,
{
}

/// A file that no source can read is still described: its picture is guessed
/// from its extension.
pub proof fn law_unreadable_file_is_guessed(path: Seq<char>)
    ensures
        probe_of(path, Some(None), Some(None)) == Ok::<ProbedView, ProbeNeed>(
            ProbedView { has_video: video_path(path), ..nothing_view() },
        ),
{
}

} // verus!
