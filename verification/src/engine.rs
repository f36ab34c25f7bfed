//! What a playback engine can do, says of itself, and fails with.
//!
//! Nothing here says how an engine plays. The rest of the library asks what an
//! engine can do, never who it is, so engines can be replaced or joined without
//! touching the index, the queue or the resume rules.

use vstd::prelude::*;

use crate::fixed::Fixed;
use crate::number::{digits, number_string};
use crate::text::{
    add_text, chars_of, copy_text, copy_texts, lower, lowered, rfind, rfind_char, same, string_of,
    text_view, texts,
};

verus! {

/// What an engine can play and what window behaviour it offers.
#[derive(Debug, PartialEq, Eq)]
pub struct EngineCapabilities {
    /// Stable machine identifier, e.g. `"mpv"`.
    pub id: String,
    /// Human-facing name for settings.
    pub display_name: String,
    /// File extensions this engine can open, without the dot.
    pub containers: Vec<String>,
    /// Whether the engine can present video at all.
    pub video: bool,
    /// Whether the engine can float its video window above other windows.
    pub ontop_window: bool,
    /// Whether the engine offers system picture-in-picture.
    pub native_pip: bool,
}

/// Capabilities, with their texts as sequences of characters.
#[verifier::ext_equal]
pub struct CapabilitiesView {
    pub id: Seq<char>,
    pub display_name: Seq<char>,
    pub containers: Seq<Seq<char>>,
    pub video: bool,
    pub ontop_window: bool,
    pub native_pip: bool,
}

/// `s` without the dots it starts with.
pub open spec fn undotted(s: Seq<char>) -> Seq<char>
    decreases s.len(),
{
    if s.len() > 0 && s[0] == '.' {
        undotted(s.drop_first())
    } else {
        s
    }
}

impl CapabilitiesView {
    /// Whether an extension is among the containers, whatever its case and
    /// leading dots.
    pub open spec fn opens(self, ext: Seq<char>) -> bool {
        exists|i: int|
            0 <= i < self.containers.len() && lowered(#[trigger] self.containers[i]) == lowered(
                undotted(ext),
            )
    }

    /// Whether a path ends in an extension that is among the containers.
    pub open spec fn plays(self, path: Seq<char>) -> bool {
        let k = rfind(path, '.');
        0 <= k < path.len() - 1 && self.opens(path.skip(k + 1))
    }
}

impl View for EngineCapabilities {
    type V = CapabilitiesView;

    open spec fn view(&self) -> CapabilitiesView {
        CapabilitiesView {
            id: self.id@,
            display_name: self.display_name@,
            containers: texts(self.containers@),
            video: self.video,
            ontop_window: self.ontop_window,
            native_pip: self.native_pip,
        }
    }
}

impl Clone for EngineCapabilities {
    fn clone(&self) -> (r: Self)
        ensures
            r@ == self@,
    {
        EngineCapabilities {
            id: self.id.clone(),
            display_name: self.display_name.clone(),
            containers: copy_texts(&self.containers),
            video: self.video,
            ontop_window: self.ontop_window,
            native_pip: self.native_pip,
        }
    }
}

/// `s` without the dots it starts with.
fn skip_dots(s: &[char]) -> (r: &[char])
    ensures
        r@ == undotted(s@),
{
    let mut i: usize = 0;
    assert(s@.skip(0) =~= s@);
    while i < s.len() && s[i] == '.'
        invariant
            i <= s@.len(),
            undotted(s@) == undotted(s@.skip(i as int)),
        decreases s@.len() - i,
    {
        assert(s@.skip(i as int).drop_first() =~= s@.skip(i as int + 1));
        i = i + 1;
    }
    let r = vstd::slice::slice_subrange(s, i, s.len());
    assert(r@ =~= s@.skip(i as int));
    r
}

impl EngineCapabilities {
    fn opens_chars(&self, ext: &[char]) -> (r: bool)
        ensures
            r == self@.opens(ext@),
    {
        let needle = lower(skip_dots(ext));
        let mut i: usize = 0;
        while i < self.containers.len()
            invariant
                i <= self.containers@.len(),
                needle@ == lowered(undotted(ext@)),
                forall|k: int|
                    0 <= k < i ==> lowered(#[trigger] self@.containers[k]) != needle@,
            decreases self.containers@.len() - i,
        {
            let chars = chars_of(self.containers[i].as_str());
            let low = lower(chars.as_slice());
            assert(self@.containers[i as int] == chars@);
            if same(low.as_slice(), needle.as_slice()) {
                return true;
            }
            i = i + 1;
        }
        false
    }

    /// Case- and dot-insensitive extension test.
    pub fn handles_extension(&self, ext: &str) -> (r: bool)
        ensures
            r == self@.opens(ext@),
    {
        let chars = chars_of(ext);
        self.opens_chars(chars.as_slice())
    }

    /// Whether this engine can open the given path, judged by extension.
    pub fn handles_path(&self, path: &str) -> (r: bool)
        ensures
            r == self@.plays(path@),
    {
        let chars = chars_of(path);
        let n: usize = chars.len();
        match rfind_char(chars.as_slice(), '.') {
            Some(k) => {
                if k + 1 == n {
                    return false;
                }
                let ext = vstd::slice::slice_subrange(chars.as_slice(), k + 1, n);
                assert(ext@ =~= path@.skip(k as int + 1));
                self.opens_chars(ext)
            },
            None => false,
        }
    }
}

/// A point-in-time read of engine state. Cheap enough to poll for a scrubber.
#[derive(Debug, PartialEq)]
pub struct EngineSnapshot {
    /// Playback position. `None` before the first frame is decoded.
    pub position_secs: Option<Fixed>,
    /// Total duration, `None` if not yet known or not applicable.
    pub duration_secs: Option<Fixed>,
    pub paused: bool,
    /// No file loaded.
    pub idle: bool,
    /// Current file has played to completion.
    pub eof: bool,
    /// Loaded file carries a video track.
    pub has_video: bool,
    /// Video surface is currently presented.
    pub video_visible: bool,
    /// Absolute path of the loaded file, if any.
    pub path: Option<String>,
}

/// A read of engine state, with its path as a sequence of characters.
#[verifier::ext_equal]
pub struct SnapshotView {
    pub position_secs: Option<Fixed>,
    pub duration_secs: Option<Fixed>,
    pub paused: bool,
    pub idle: bool,
    pub eof: bool,
    pub has_video: bool,
    pub video_visible: bool,
    pub path: Option<Seq<char>>,
}

impl View for EngineSnapshot {
    type V = SnapshotView;

    open spec fn view(&self) -> SnapshotView {
        SnapshotView {
            position_secs: self.position_secs,
            duration_secs: self.duration_secs,
            paused: self.paused,
            idle: self.idle,
            eof: self.eof,
            has_video: self.has_video,
            video_visible: self.video_visible,
            path: text_view(self.path),
        }
    }
}

impl EngineSnapshot {
    /// Nothing known, nothing loaded.
    pub open spec fn nothing() -> EngineSnapshot {
        EngineSnapshot {
            position_secs: None,
            duration_secs: None,
            paused: false,
            idle: false,
            eof: false,
            has_video: false,
            video_visible: false,
            path: None,
        }
    }
}

impl Default for EngineSnapshot {
    fn default() -> (r: Self)
        ensures
            r == EngineSnapshot::nothing(),
    {
        EngineSnapshot {
            position_secs: None,
            duration_secs: None,
            paused: false,
            idle: false,
            eof: false,
            has_video: false,
            video_visible: false,
            path: None,
        }
    }
}

impl Clone for EngineSnapshot {
    fn clone(&self) -> (r: Self)
        ensures
            r == *self,
    {
        EngineSnapshot {
            position_secs: self.position_secs,
            duration_secs: self.duration_secs,
            paused: self.paused,
            idle: self.idle,
            eof: self.eof,
            has_video: self.has_video,
            video_visible: self.video_visible,
            path: copy_text(&self.path),
        }
    }
}

/// How an engine fails.
#[derive(Debug, PartialEq, Eq)]
pub enum EngineError {
    /// The backend is not installed. `hint` is a remedy for the user.
    EngineMissing { display_name: String, hint: String },
    /// It could not be started.
    Spawn { display_name: String, message: String },
    /// The engine process died or the transport broke.
    Disconnected { display_name: String, message: String },
    /// The engine refused an operation.
    Rejected { operation: String, message: String },
    /// The engine did not answer in time.
    Timeout { operation: String, timeout_ms: u64 },
    /// No engine can play the file.
    Unsupported { path: String },
    /// Anything else.
    Internal { message: String },
}

/// An engine failure, with its texts as sequences of characters.
pub enum EngineErrorView {
    EngineMissing { display_name: Seq<char>, hint: Seq<char> },
    Spawn { display_name: Seq<char>, message: Seq<char> },
    Disconnected { display_name: Seq<char>, message: Seq<char> },
    Rejected { operation: Seq<char>, message: Seq<char> },
    Timeout { operation: Seq<char>, timeout_ms: u64 },
    Unsupported { path: Seq<char> },
    Internal { message: Seq<char> },
}

impl View for EngineError {
    type V = EngineErrorView;

    open spec fn view(&self) -> EngineErrorView {
        match *self {
            EngineError::EngineMissing {
                display_name,
                hint,
            } => EngineErrorView::EngineMissing { display_name: display_name@, hint: hint@ },
            EngineError::Spawn {
                display_name,
                message,
            } => EngineErrorView::Spawn { display_name: display_name@, message: message@ },
            EngineError::Disconnected {
                display_name,
                message,
            } => EngineErrorView::Disconnected { display_name: display_name@, message: message@ },
            EngineError::Rejected {
                operation,
                message,
            } => EngineErrorView::Rejected { operation: operation@, message: message@ },
            EngineError::Timeout {
                operation,
                timeout_ms,
            } => EngineErrorView::Timeout { operation: operation@, timeout_ms },
            EngineError::Unsupported { path } => EngineErrorView::Unsupported { path: path@ },
            EngineError::Internal { message } => EngineErrorView::Internal { message: message@ },
        }
    }
}

impl Clone for EngineError {
    fn clone(&self) -> (r: Self)
        ensures
            r == *self,
    {
        match self {
            EngineError::EngineMissing { display_name, hint } => EngineError::EngineMissing {
                display_name: display_name.clone(),
                hint: hint.clone(),
            },
            EngineError::Spawn { display_name, message } => EngineError::Spawn {
                display_name: display_name.clone(),
                message: message.clone(),
            },
            EngineError::Disconnected { display_name, message } => EngineError::Disconnected {
                display_name: display_name.clone(),
                message: message.clone(),
            },
            EngineError::Rejected { operation, message } => EngineError::Rejected {
                operation: operation.clone(),
                message: message.clone(),
            },
            EngineError::Timeout { operation, timeout_ms } => EngineError::Timeout {
                operation: operation.clone(),
                timeout_ms: *timeout_ms,
            },
            EngineError::Unsupported { path } => EngineError::Unsupported { path: path.clone() },
            EngineError::Internal { message } => EngineError::Internal {
                message: message.clone(),
            },
        }
    }
}

impl EngineErrorView {
    /// What the user is told.
    pub open spec fn text(self) -> Seq<char> {
        match self {
            EngineErrorView::EngineMissing { display_name, hint } => display_name
                + " is not installed. "@ + hint,
            EngineErrorView::Spawn { display_name, message } => "failed to start "@ + display_name
                + ": "@ + message,
            EngineErrorView::Disconnected { display_name, message } => "lost connection to "@
                + display_name + ": "@ + message,
            EngineErrorView::Rejected { operation, message } => "engine rejected "@ + operation
                + ": "@ + message,
            EngineErrorView::Timeout { operation, timeout_ms } => "engine did not respond to "@
                + operation + " within "@ + digits(timeout_ms as nat) + "ms"@,
            EngineErrorView::Unsupported { path } => "no engine can play "@ + path,
            EngineErrorView::Internal { message } => message,
        }
    }
}

/// Four texts, one after another.
pub fn joined_text(a: &str, b: &str, c: &str, d: &str) -> (r: String)
    ensures
        r@ == a@ + b@ + c@ + d@,
{
    let mut out = chars_of(a);
    add_text(&mut out, b);
    add_text(&mut out, c);
    add_text(&mut out, d);
    string_of(out.as_slice())
}

impl EngineError {
    /// What the user is told.
    pub fn message(&self) -> (r: String)
        ensures
            r@ == self@.text(),
    {
        match self {
            EngineError::EngineMissing { display_name, hint } => {
                let r = joined_text(display_name.as_str(), " is not installed. ", hint.as_str(), "");
                proof {
                    reveal_strlit("");
                    assert(r@ =~= self@.text());
                }
                r
            },
            EngineError::Spawn { display_name, message } => joined_text(
                "failed to start ",
                display_name.as_str(),
                ": ",
                message.as_str(),
            ),
            EngineError::Disconnected { display_name, message } => joined_text(
                "lost connection to ",
                display_name.as_str(),
                ": ",
                message.as_str(),
            ),
            EngineError::Rejected { operation, message } => joined_text(
                "engine rejected ",
                operation.as_str(),
                ": ",
                message.as_str(),
            ),
            EngineError::Timeout { operation, timeout_ms } => {
                let ms = number_string(*timeout_ms);
                let front = joined_text(
                    "engine did not respond to ",
                    operation.as_str(),
                    " within ",
                    ms.as_str(),
                );
                let mut out = chars_of(front.as_str());
                add_text(&mut out, "ms");
                string_of(out.as_slice())
            },
            EngineError::Unsupported { path } => {
                let mut out = chars_of("no engine can play ");
                add_text(&mut out, path.as_str());
                string_of(out.as_slice())
            },
            EngineError::Internal { message } => message.clone(),
        }
    }
}

/// Matching a path is matching its extension, whatever its case.
pub proof fn law_case_does_not_matter(caps: CapabilitiesView, a: Seq<char>, b: Seq<char>)
    requires
        lowered(undotted(a)) == lowered(undotted(b)),
    ensures
        caps.opens(a) == caps.opens(b),
{
}

} // verus!
