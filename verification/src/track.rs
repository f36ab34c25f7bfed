//! What the library knows about one file.

use vstd::prelude::*;

use crate::fixed::Fixed;
use crate::text::{
    add_text, chars_of, copy_text, lower, lowered, reads, rfind, rfind_char, split, split_at_char,
    string_of, trim, trimmed, views,
};

verus! {

/// Containers that usually carry video. Used before probing, so that a file
/// that cannot be probed still lands in a sensible place.
pub open spec fn video_extension(ext: Seq<char>) -> bool {
    ||| ext == "webm"@
    ||| ext == "mkv"@
    ||| ext == "mp4"@
    ||| ext == "m4v"@
    ||| ext == "mov"@
    ||| ext == "avi"@
    ||| ext == "flv"@
    ||| ext == "ts"@
}

/// Containers of music.
pub open spec fn music_extension(ext: Seq<char>) -> bool {
    ||| ext == "mp3"@
    ||| ext == "m4a"@
    ||| ext == "wav"@
    ||| ext == "flac"@
    ||| ext == "opus"@
    ||| ext == "ogg"@
    ||| ext == "oga"@
    ||| ext == "aac"@
    ||| ext == "alac"@
    ||| ext == "aiff"@
    ||| ext == "aif"@
    ||| ext == "wma"@
    ||| ext == "wv"@
    ||| ext == "ape"@
}

/// Extensions the scanner indexes. The library is a record of what you own, and
/// does not change shape with the playback engine of the day.
pub open spec fn media_extension(ext: Seq<char>) -> bool {
    video_extension(ext) || music_extension(ext)
}

fn names_video(ext: &[char]) -> (r: bool)
    ensures
        r == video_extension(ext@),
{
    reads(ext, "webm") || reads(ext, "mkv") || reads(ext, "mp4") || reads(ext, "m4v") || reads(
        ext,
        "mov",
    ) || reads(ext, "avi") || reads(ext, "flv") || reads(ext, "ts")
}

fn names_music(ext: &[char]) -> (r: bool)
    ensures
        r == music_extension(ext@),
{
    reads(ext, "mp3") || reads(ext, "m4a") || reads(ext, "wav") || reads(ext, "flac") || reads(
        ext,
        "opus",
    ) || reads(ext, "ogg") || reads(ext, "oga") || reads(ext, "aac") || reads(ext, "alac")
        || reads(ext, "aiff") || reads(ext, "aif") || reads(ext, "wma") || reads(ext, "wv")
        || reads(ext, "ape")
}

/// The last part of a path that names something: neither empty nor the current
/// directory. None where that is the parent directory.
pub open spec fn last_name(parts: Seq<Seq<char>>) -> Option<Seq<char>>
    decreases parts.len(),
{
    if parts.len() == 0 {
        None
    } else if parts.last().len() == 0 || parts.last() == "."@ {
        last_name(parts.drop_last())
    } else if parts.last() == ".."@ {
        None
    } else {
        Some(parts.last())
    }
}

/// The file name that a path ends in.
pub open spec fn name_of(path: Seq<char>) -> Option<Seq<char>> {
    last_name(split(path, '/'))
}

/// A file name up to its last dot. A name that only starts with a dot is all
/// stem.
pub open spec fn stem(name: Seq<char>) -> Seq<char> {
    let k = rfind(name, '.');
    if k > 0 {
        name.take(k)
    } else {
        name
    }
}

/// What follows the last dot of a file name, unless the name starts there.
pub open spec fn suffix(name: Seq<char>) -> Option<Seq<char>> {
    let k = rfind(name, '.');
    if k > 0 {
        Some(name.skip(k + 1))
    } else {
        None
    }
}

/// The extension of the file that a path names, in lower case.
pub open spec fn path_extension(path: Seq<char>) -> Option<Seq<char>> {
    match name_of(path) {
        Some(name) => match suffix(name) {
            Some(ext) => Some(lowered(ext)),
            None => None,
        },
        None => None,
    }
}

/// The file name that a path ends in.
pub fn file_name(path: &str) -> (r: Option<Vec<char>>)
    ensures
        match r {
            Some(name) => name_of(path@) == Some(name@),
            None => name_of(path@) is None,
        },
{
    let chars = chars_of(path);
    let mut parts = split_at_char(chars.as_slice(), '/');
    let ghost all = views(parts@);
    loop
        invariant
            last_name(views(parts@)) == last_name(all),
            name_of(path@) == last_name(all),
        decreases parts@.len(),
    {
        let ghost before = views(parts@);
        match parts.pop() {
            None => {
                return None;
            },
            Some(part) => {
                proof {
                    assert(before.last() == part@);
                    assert(before.drop_last() =~= views(parts@));
                }
                if part.len() == 0 || reads(part.as_slice(), ".") {
                    continue ;
                }
                if reads(part.as_slice(), "..") {
                    return None;
                }
                return Some(part);
            },
        }
    }
}

/// The extension of the file at `path`, in lower case.
pub fn extension_of(path: &str) -> (r: Option<String>)
    ensures
        match r {
            Some(ext) => path_extension(path@) == Some(ext@),
            None => path_extension(path@) is None,
        },
{
    match file_name(path) {
        Some(name) => match rfind_char(name.as_slice(), '.') {
            Some(k) => {
                if k == 0 {
                    return None;
                }
                let end: usize = name.len();
                let tail = vstd::slice::slice_subrange(name.as_slice(), k + 1, end);
                assert(tail@ =~= name@.skip(k as int + 1));
                let low = lower(tail);
                Some(string_of(low.as_slice()))
            },
            None => None,
        },
        None => None,
    }
}

/// Whether the scanner indexes the file at `path`.
pub fn is_media_file(path: &str) -> (r: bool)
    ensures
        r == match path_extension(path@) {
            Some(ext) => media_extension(ext),
            None => false,
        },
{
    match extension_of(path) {
        Some(ext) => {
            let chars = chars_of(ext.as_str());
            names_video(chars.as_slice()) || names_music(chars.as_slice())
        },
        None => false,
    }
}

/// Whether the file at `path` usually carries video, by its extension.
pub open spec fn video_path(path: Seq<char>) -> bool {
    match path_extension(path) {
        Some(ext) => video_extension(ext),
        None => false,
    }
}

/// Whether the file at `path` usually carries video, by its extension.
pub fn is_video_extension(path: &str) -> (r: bool)
    ensures
        r == video_path(path@),
{
    match extension_of(path) {
        Some(ext) => {
            let chars = chars_of(ext.as_str());
            names_video(chars.as_slice())
        },
        None => false,
    }
}

/// Every file that usually carries video is one the scanner indexes.
pub proof fn law_video_is_media(ext: Seq<char>)
    requires
        video_extension(ext),
    ensures
        media_extension(ext),
{
}

/// One file of the library.
#[derive(Debug, PartialEq)]
pub struct Track {
    pub id: i64,
    pub path: String,
    /// Size and modified time form the file's identity. They are cheap to
    /// compare, so a rescan probes nothing that is unchanged.
    pub size_bytes: i64,
    pub mtime: i64,
    pub title: Option<String>,
    pub artist: Option<String>,
    pub album: Option<String>,
    pub duration_secs: Option<Fixed>,
    pub has_video: bool,
    pub added_at: i64,
    pub last_played_at: Option<i64>,
}

/// A text that is there and holds more than white space.
pub open spec fn spoken(o: Option<String>) -> Option<Seq<char>> {
    match o {
        Some(s) => if trimmed(s@).len() > 0 {
            Some(s@)
        } else {
            None
        },
        None => None,
    }
}

/// The text, if it is there and holds more than white space.
pub fn spoken_text(o: &Option<String>) -> (r: Option<&String>)
    ensures
        match r {
            Some(s) => spoken(*o) == Some(s@),
            None => spoken(*o) is None,
        },
{
    match o {
        Some(s) => {
            let chars = chars_of(s.as_str());
            if trim(chars.as_slice()).len() > 0 {
                Some(s)
            } else {
                None
            }
        },
        None => None,
    }
}

impl Track {
    /// The title; where it is missing or blank, the file name without its
    /// extension; where the path names no file, the path.
    pub open spec fn title_text(&self) -> Seq<char> {
        match spoken(self.title) {
            Some(title) => title,
            None => match name_of(self.path@) {
                Some(name) => stem(name),
                None => self.path@,
            },
        }
    }

    /// Artist and title, where the artist is known; else the title.
    pub open spec fn label_text(&self) -> Seq<char> {
        match spoken(self.artist) {
            Some(artist) => artist + " — "@ + self.title_text(),
            None => self.title_text(),
        }
    }

    /// Best available name. Falls back to the file name, which for a downloaded
    /// set is usually the most informative thing there is.
    pub fn display_title(&self) -> (r: String)
        ensures
            r@ == self.title_text(),
    {
        match spoken_text(&self.title) {
            Some(title) => {
                return title.clone();
            },
            None => {},
        }
        match file_name(self.path.as_str()) {
            Some(name) => match rfind_char(name.as_slice(), '.') {
                Some(k) => if k > 0 {
                    let head = vstd::slice::slice_subrange(name.as_slice(), 0, k);
                    assert(head@ =~= name@.take(k as int));
                    string_of(head)
                } else {
                    string_of(name.as_slice())
                },
                None => string_of(name.as_slice()),
            },
            None => self.path.clone(),
        }
    }

    /// "Artist — Title" when both are known, otherwise just the title.
    pub fn display_label(&self) -> (r: String)
        ensures
            r@ == self.label_text(),
    {
        let title = self.display_title();
        match spoken_text(&self.artist) {
            Some(artist) => {
                let mut out = chars_of(artist.as_str());
                add_text(&mut out, " — ");
                add_text(&mut out, title.as_str());
                string_of(out.as_slice())
            },
            None => title,
        }
    }
}

impl Clone for Track {
    fn clone(&self) -> (r: Track)
        ensures
            r == *self,
    {
        Track {
            id: self.id,
            path: self.path.clone(),
            size_bytes: self.size_bytes,
            mtime: self.mtime,
            title: copy_text(&self.title),
            artist: copy_text(&self.artist),
            album: copy_text(&self.album),
            duration_secs: self.duration_secs,
            has_video: self.has_video,
            added_at: self.added_at,
            last_played_at: self.last_played_at,
        }
    }
}

} // verus!
