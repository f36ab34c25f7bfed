//! A deterministic in-memory engine.
//!
//! It lets queue advance, resume writes and engine selection be exercised with
//! no player, no audio device, and no waiting: time moves only when
//! [`NullEngine::tick`] is called.

use vstd::prelude::*;

use crate::engine::{CapabilitiesView, EngineCapabilities, EngineError, EngineSnapshot};
use crate::fixed::{
    at_least, clamp_to, clamped, fixed_chars, fixed_text, lt, plus, product, reaches, shown,
    shown_chars, sum, times, Fixed,
};
use crate::text::{
    add_chars, add_text, chars_of, copy_text, lower, lowered, reads, rfind, rfind_char, string_of,
    text_view, texts,
};

verus! {

/// An engine that plays nothing, precisely.
#[derive(Debug)]
pub struct NullEngine {
    caps: EngineCapabilities,
    /// Duration reported for any file loaded, as a probe would.
    default_duration: Option<Fixed>,
    path: Option<String>,
    position: Fixed,
    duration: Option<Fixed>,
    paused: bool,
    video_visible: bool,
    has_video: bool,
    ontop: bool,
    volume: Fixed,
    speed: Fixed,
    stopped_for_good: bool,
    /// Every call, so that interaction can be looked at and not just state.
    calls: Vec<String>,
}

/// The state of a [`NullEngine`].
#[verifier::ext_equal]
pub struct NullView {
    pub caps: CapabilitiesView,
    pub default_duration: Option<Fixed>,
    pub path: Option<Seq<char>>,
    pub position: Fixed,
    pub duration: Option<Fixed>,
    pub paused: bool,
    pub video_visible: bool,
    pub has_video: bool,
    pub ontop: bool,
    pub volume: Fixed,
    pub speed: Fixed,
    pub shutdown: bool,
    pub calls: Seq<Seq<char>>,
}

/// Whether a path ends in the extension of a video container.
pub open spec fn looks_like_video(path: Seq<char>) -> bool {
    let k = rfind(path, '.');
    let ext = lowered(path.skip(k + 1));
    k >= 0 && (ext == "webm"@ || ext == "mkv"@ || ext == "mp4"@ || ext == "mov"@)
}

/// A start offset as it is recorded.
pub open spec fn offset_text(start_at: Option<Fixed>) -> Seq<char> {
    match start_at {
        Some(secs) => "Some("@ + fixed_text(secs) + ")"@,
        None => "None"@,
    }
}

/// A switch as it is recorded.
pub open spec fn flag_text(on: bool) -> Seq<char> {
    if on {
        "true"@
    } else {
        "false"@
    }
}

/// A call as it is recorded.
pub open spec fn call_text(name: Seq<char>, argument: Seq<char>) -> Seq<char> {
    name + "("@ + argument + ")"@
}

/// The largest finite number.
pub open spec fn unbounded() -> Fixed {
    Fixed::Nanos(i128::MAX)
}

/// A number times the speed; what is no finite number swallows the rest.
pub open spec fn scaled(secs: Fixed, speed: Fixed) -> Fixed {
    match (secs, speed) {
        (Fixed::Nanos(m), Fixed::Nanos(n)) => product(m, n),
        _ => Fixed::NaN,
    }
}

impl NullView {
    pub open spec fn recorded(self, call: Seq<char>) -> NullView {
        NullView { calls: self.calls.push(call), ..self }
    }

    /// Loading replaces whatever was there and starts playing, without a window
    /// until one is asked for.
    pub open spec fn loaded(self, path: Seq<char>, start_at: Option<Fixed>) -> NullView {
        let call = call_text("load"@, path + ", "@ + offset_text(start_at));
        NullView {
            path: Some(path),
            position: match start_at {
                Some(s) => s,
                None => Fixed::Nanos(0),
            },
            duration: self.default_duration,
            paused: false,
            has_video: self.caps.video && looks_like_video(path),
            video_visible: false,
            ..self.recorded(call)
        }
    }

    /// Time passes only while playing, and not past the end.
    pub open spec fn ticked(self, secs: Fixed) -> NullView {
        if self.paused || self.path is None {
            self
        } else {
            let moved = sum(self.position, scaled(secs, self.speed));
            NullView {
                position: match self.duration {
                    Some(d) => if at_least(moved, d) {
                        d
                    } else {
                        moved
                    },
                    None => moved,
                },
                ..self
            }
        }
    }

    pub open spec fn end(self) -> Fixed {
        match self.duration {
            Some(d) => d,
            None => unbounded(),
        }
    }

    pub open spec fn stopped(self) -> NullView {
        NullView {
            path: None,
            position: Fixed::Nanos(0),
            duration: None,
            has_video: false,
            video_visible: false,
            ..self.recorded("stop()"@)
        }
    }

    /// What is reported; the path apart.
    pub open spec fn reports(self, snap: EngineSnapshot) -> bool {
        &&& snap.position_secs == (if self.path is Some {
            Some(self.position)
        } else {
            None
        })
        &&& snap.duration_secs == self.duration
        &&& snap.paused == self.paused
        &&& snap.idle == (self.path is None)
        &&& snap.eof == (self.path is Some && match self.duration {
            Some(d) => at_least(self.position, d),
            None => false,
        })
        &&& snap.has_video == self.has_video
        &&& snap.video_visible == self.video_visible
        &&& text_view(snap.path) == self.path
    }
}

impl View for NullEngine {
    type V = NullView;

    closed spec fn view(&self) -> NullView {
        NullView {
            caps: self.caps@,
            default_duration: self.default_duration,
            path: text_view(self.path),
            position: self.position,
            duration: self.duration,
            paused: self.paused,
            video_visible: self.video_visible,
            has_video: self.has_video,
            ontop: self.ontop,
            volume: self.volume,
            speed: self.speed,
            shutdown: self.stopped_for_good,
            calls: texts(self.calls@),
        }
    }
}

/// An engine that has not been asked anything yet.
pub open spec fn fresh(id: Seq<char>, containers: Seq<Seq<char>>) -> NullView {
    NullView {
        caps: CapabilitiesView {
            id,
            display_name: "Null ("@ + id + ")"@,
            containers,
            video: true,
            ontop_window: true,
            native_pip: false,
        },
        default_duration: Some(Fixed::Nanos(180_000_000_000)),
        path: None,
        position: Fixed::Nanos(0),
        duration: None,
        paused: false,
        video_visible: false,
        has_video: false,
        ontop: false,
        volume: Fixed::Nanos(100_000_000_000),
        speed: Fixed::Nanos(1_000_000_000),
        shutdown: false,
        calls: Seq::empty(),
    }
}

/// The containers a plain [`NullEngine`] claims.
pub open spec fn common_containers() -> Seq<Seq<char>> {
    seq![
        "webm"@,
        "mkv"@,
        "mp4"@,
        "m4a"@,
        "mov"@,
        "mp3"@,
        "wav"@,
        "flac"@,
        "opus"@,
        "ogg"@,
        "aac"@,
    ]
}

/// The text of each of a list of string slices.
pub open spec fn slices(v: Seq<&str>) -> Seq<Seq<char>> {
    Seq::new(v.len(), |i: int| v[i]@)
}

impl NullEngine {
    /// Claims the containers that real engines do, so that selection means
    /// something.
    pub fn new() -> (r: Self)
        ensures
            r@ == fresh("null"@, common_containers()),
    {
        let mut names: Vec<&str> = Vec::new();
        names.push("webm");
        names.push("mkv");
        names.push("mp4");
        names.push("m4a");
        names.push("mov");
        names.push("mp3");
        names.push("wav");
        names.push("flac");
        names.push("opus");
        names.push("ogg");
        names.push("aac");
        assert(slices(names@) =~= common_containers());
        Self::with_containers("null", names.as_slice())
    }

    /// A restricted engine, for selection by capability.
    pub fn with_containers(id: &str, containers: &[&str]) -> (r: Self)
        ensures
            r@ == fresh(id@, slices(containers@)),
    {
        let mut owned: Vec<String> = Vec::new();
        let mut i: usize = 0;
        while i < containers.len()
            invariant
                i <= containers@.len(),
                texts(owned@) == slices(containers@).take(i as int),
            decreases containers@.len() - i,
        {
            let ghost before = owned@;
            owned.push(containers[i].to_owned());
            proof {
                assert(texts(owned@) =~= texts(before).push(containers@[i as int]@));
                assert(slices(containers@).take(i as int + 1) =~= slices(containers@).take(
                    i as int,
                ).push(containers@[i as int]@));
            }
            i = i + 1;
        }
        assert(slices(containers@).take(i as int) =~= slices(containers@));
        let mut name = chars_of("Null (");
        add_text(&mut name, id);
        add_text(&mut name, ")");
        let r = NullEngine {
            caps: EngineCapabilities {
                id: id.to_owned(),
                display_name: string_of(name.as_slice()),
                containers: owned,
                video: true,
                ontop_window: true,
                native_pip: false,
            },
            default_duration: Some(Fixed::Nanos(180_000_000_000)),
            path: None,
            position: Fixed::Nanos(0),
            duration: None,
            paused: false,
            video_visible: false,
            has_video: false,
            ontop: false,
            volume: Fixed::Nanos(100_000_000_000),
            speed: Fixed::Nanos(1_000_000_000),
            stopped_for_good: false,
            calls: Vec::new(),
        };
        assert(texts(r.calls@) =~= Seq::<Seq<char>>::empty());
        r
    }

    /// The duration reported for any file loaded.
    pub fn with_duration(self, duration: Option<Fixed>) -> (r: Self)
        ensures
            r@ == (NullView { default_duration: duration, ..self@ }),
    {
        let mut engine = self;
        engine.default_duration = duration;
        engine
    }

    /// Advance playback by `secs`, honouring pause and holding at the end of the
    /// file. This is the only way time moves.
    pub fn tick(&mut self, secs: Fixed)
        ensures
            final(self)@ == old(self)@.ticked(secs),
    {
        if self.paused || self.path.is_none() {
            return;
        }
        let step: Fixed = match (secs, self.speed) {
            (Fixed::Nanos(m), Fixed::Nanos(n)) => times(m, n),
            _ => Fixed::NaN,
        };
        let moved: Fixed = plus(self.position, step);
        self.position = match self.duration {
            Some(d) => if reaches(moved, d) {
                d
            } else {
                moved
            },
            None => moved,
        };
    }

    /// The calls made so far, in order.
    pub fn calls(&self) -> (r: &Vec<String>)
        ensures
            texts(r@) == self@.calls,
    {
        &self.calls
    }

    /// Whether it was shut down.
    pub fn was_shutdown(&self) -> (r: bool)
        ensures
            r == self@.shutdown,
    {
        self.stopped_for_good
    }

    fn record(&mut self, name: &str, argument: &[char])
        ensures
            final(self)@ == old(self)@.recorded(call_text(name@, argument@)),
    {
        let mut out = chars_of(name);
        add_text(&mut out, "(");
        add_chars(&mut out, argument);
        add_text(&mut out, ")");
        self.calls.push(string_of(out.as_slice()));
        proof {
            assert(texts(self.calls@) =~= texts(old(self).calls@).push(
                call_text(name@, argument@),
            ));
        }
    }

    fn record_flag(&mut self, name: &str, on: bool)
        ensures
            final(self)@ == old(self)@.recorded(call_text(name@, flag_text(on))),
    {
        let argument = chars_of(
            if on {
                "true"
            } else {
                "false"
            },
        );
        self.record(name, argument.as_slice());
    }

    /// What the engine can do.
    pub fn capabilities(&self) -> (r: EngineCapabilities)
        ensures
            r@ == self@.caps,
    {
        self.caps.clone()
    }

    /// Load a file, replacing whatever is loaded.
    pub fn load(&mut self, path: String, start_at: Option<Fixed>) -> (r: Result<(), EngineError>)
        ensures
            r is Ok,
            final(self)@ == old(self)@.loaded(path@, start_at),
    {
        let mut argument = chars_of(path.as_str());
        add_text(&mut argument, ", ");
        match start_at {
            Some(secs) => {
                let number = fixed_chars(secs);
                add_text(&mut argument, "Some(");
                add_chars(&mut argument, number.as_slice());
                add_text(&mut argument, ")");
                assert(argument@ =~= path@ + ", "@ + offset_text(start_at));
            },
            None => {
                add_text(&mut argument, "None");
            },
        }
        self.record("load", argument.as_slice());
        let chars = chars_of(path.as_str());
        let n: usize = chars.len();
        let video: bool = match rfind_char(chars.as_slice(), '.') {
            Some(k) => {
                let tail = vstd::slice::slice_subrange(chars.as_slice(), k + 1, n);
                assert(tail@ =~= path@.skip(k as int + 1));
                let ext = lower(tail);
                reads(ext.as_slice(), "webm") || reads(ext.as_slice(), "mkv") || reads(
                    ext.as_slice(),
                    "mp4",
                ) || reads(ext.as_slice(), "mov")
            },
            None => false,
        };
        self.has_video = self.caps.video && video;
        self.path = Some(path);
        self.position = match start_at {
            Some(secs) => secs,
            None => Fixed::Nanos(0),
        };
        self.duration = self.default_duration;
        self.paused = false;
        self.video_visible = false;
        Ok(())
    }

    pub fn set_paused(&mut self, paused: bool) -> (r: Result<(), EngineError>)
        ensures
            r is Ok,
            final(self)@ == (NullView {
                paused,
                ..old(self)@.recorded(call_text("set_paused"@, flag_text(paused)))
            }),
    {
        self.record_flag("set_paused", paused);
        self.paused = paused;
        Ok(())
    }

    /// Go to a position, held within the file.
    pub fn seek_absolute(&mut self, seconds: Fixed) -> (r: Result<(), EngineError>)
        requires
            old(self)@.end() !is NaN,
            !lt(old(self)@.end(), Fixed::Nanos(0)),
        ensures
            r is Ok,
            final(self)@ == (NullView {
                position: clamped(seconds, Fixed::Nanos(0), old(self)@.end()),
                ..old(self)@.recorded(call_text("seek_absolute"@, shown(seconds)))
            }),
    {
        let argument = shown_chars(seconds);
        self.record("seek_absolute", argument.as_slice());
        let end: Fixed = match self.duration {
            Some(d) => d,
            None => Fixed::Nanos(i128::MAX),
        };
        self.position = clamp_to(seconds, Fixed::Nanos(0), end);
        Ok(())
    }

    pub fn set_volume(&mut self, percent: Fixed) -> (r: Result<(), EngineError>)
        ensures
            r is Ok,
            final(self)@ == (NullView {
                volume: percent,
                ..old(self)@.recorded(call_text("set_volume"@, shown(percent)))
            }),
    {
        let argument = shown_chars(percent);
        self.record("set_volume", argument.as_slice());
        self.volume = percent;
        Ok(())
    }

    pub fn set_speed(&mut self, rate: Fixed) -> (r: Result<(), EngineError>)
        ensures
            r is Ok,
            final(self)@ == (NullView {
                speed: rate,
                ..old(self)@.recorded(call_text("set_speed"@, shown(rate)))
            }),
    {
        let argument = shown_chars(rate);
        self.record("set_speed", argument.as_slice());
        self.speed = rate;
        Ok(())
    }

    pub fn set_video_visible(&mut self, visible: bool) -> (r: Result<(), EngineError>)
        ensures
            r is Ok,
            final(self)@ == (NullView {
                video_visible: visible,
                ..old(self)@.recorded(call_text("set_video_visible"@, flag_text(visible)))
            }),
    {
        self.record_flag("set_video_visible", visible);
        self.video_visible = visible;
        Ok(())
    }

    pub fn set_video_ontop(&mut self, ontop: bool) -> (r: Result<(), EngineError>)
        ensures
            r is Ok,
            final(self)@ == (NullView {
                ontop,
                ..old(self)@.recorded(call_text("set_video_ontop"@, flag_text(ontop)))
            }),
    {
        self.record_flag("set_video_ontop", ontop);
        self.ontop = ontop;
        Ok(())
    }

    /// Unload the file and return to idle.
    pub fn stop(&mut self) -> (r: Result<(), EngineError>)
        ensures
            r is Ok,
            final(self)@ == old(self)@.stopped(),
    {
        self.calls.push("stop()".to_owned());
        assert(texts(self.calls@) =~= texts(old(self).calls@).push("stop()"@));
        self.path = None;
        self.position = Fixed::Nanos(0);
        self.duration = None;
        self.has_video = false;
        self.video_visible = false;
        Ok(())
    }

    /// The state as of now.
    pub fn snapshot(&self) -> (r: EngineSnapshot)
        ensures
            self@.reports(r),
    {
        let loaded: bool = self.path.is_some();
        EngineSnapshot {
            position_secs: if loaded {
                Some(self.position)
            } else {
                None
            },
            duration_secs: self.duration,
            paused: self.paused,
            idle: !loaded,
            eof: match self.duration {
                Some(d) => loaded && reaches(self.position, d),
                None => false,
            },
            has_video: self.has_video,
            video_visible: self.video_visible,
            path: copy_text(&self.path),
        }
    }

    pub fn shutdown(&mut self)
        ensures
            final(self)@ == (NullView { shutdown: true, ..old(self)@.recorded("shutdown()"@) }),
    {
        self.calls.push("shutdown()".to_owned());
        assert(texts(self.calls@) =~= texts(old(self).calls@).push("shutdown()"@));
        self.stopped_for_good = true;
    }
}

impl Default for NullEngine {
    fn default() -> (r: Self)
        ensures
            r@ == fresh("null"@, common_containers()),
    {
        Self::new()
    }
}

/// A paused engine stays where it is, however much time passes.
pub proof fn law_paused_holds_position(e: NullView, secs: Fixed)
    requires
        e.paused,
    ensures
        e.ticked(secs).position == e.position,
{
}

/// Playback that goes on never passes the end of the file, where its end is known;
/// and time moves nothing else.
pub proof fn law_tick_stays_within_the_file(e: NullView, secs: Fixed)
    requires
        e.duration matches Some(Fixed::Nanos(_)),
    ensures
        !e.paused && e.path is Some ==> !lt(e.duration->0, e.ticked(secs).position),
        e.ticked(secs) == (NullView { position: e.ticked(secs).position, ..e }),
{
}

} // verus!
