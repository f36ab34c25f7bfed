//! Cover art and video thumbnails.
//!
//! A tagged audio file usually has cover art embedded. A downloaded set has
//! nothing embedded at all, so its thumbnail is a frame grabbed out of the
//! video. Results are cached under the file's identity, the answer "there is no
//! art here" included, so the cost is paid once for each track.

use vstd::prelude::*;

use crate::fixed::{lt, less, min_of, places, smaller, to_places, Fixed};
use crate::number::{print_signed, signed_digits};
use crate::script::{asked, done, then_do, Outcome, Progress, Script};
use crate::text::{add_chars, add_text, string_of, texts};
use crate::track::{is_video_extension, video_path, Track};

verus! {

/// What the host is asked to do for a picture; each is answered with whether it
/// was so, or went well.
#[derive(Debug)]
pub enum ArtAction {
    /// See to it that the cache is there.
    MakeCache,
    /// Whether the cache holds a file of this name.
    Cached(String),
    /// Whether the track's file is there.
    SourceExists,
    /// Write the cover art embedded in the track's file beside the picture.
    SaveCover,
    /// Remove that cover art again.
    DropCover,
    /// Make the picture: out of the cover art or of the track's file, from an
    /// offset into it or from its start.
    Convert { cover: bool, seek: Option<Fixed> },
    /// Put an empty file of this name in the cache.
    Note(String),
}

/// What the host is asked to do, with its texts as sequences of characters.
pub enum ArtView {
    MakeCache,
    Cached(Seq<char>),
    SourceExists,
    SaveCover,
    DropCover,
    Convert { cover: bool, seek: Option<Fixed> },
    Note(Seq<char>),
}

impl View for ArtAction {
    type V = ArtView;

    open spec fn view(&self) -> ArtView {
        match *self {
            ArtAction::MakeCache => ArtView::MakeCache,
            ArtAction::Cached(name) => ArtView::Cached(name@),
            ArtAction::SourceExists => ArtView::SourceExists,
            ArtAction::SaveCover => ArtView::SaveCover,
            ArtAction::DropCover => ArtView::DropCover,
            ArtAction::Convert { cover, seek } => ArtView::Convert { cover, seek },
            ArtAction::Note(name) => ArtView::Note(name@),
        }
    }
}

pub type Art<T> = Outcome<(), ArtView, T, ()>;

/// The name under which a track's picture is cached. Size and modified time are
/// part of it: replace the file, and the old picture stops being used. So is the
/// width, so that raising it retires the smaller pictures.
pub open spec fn stem_text(track: Track) -> Seq<char> {
    signed_digits(track.id as int) + "-"@ + signed_digits(track.mtime as int) + "-"@
        + signed_digits(track.size_bytes as int) + "-w1280"@
}

/// The file that holds a track's picture.
pub open spec fn image_name(track: Track) -> Seq<char> {
    stem_text(track) + ".jpg"@
}

/// The file that says that a track has no picture.
pub open spec fn miss_name(track: Track) -> Seq<char> {
    stem_text(track) + ".none"@
}

fn named(track: &Track, suffix: &str) -> (r: String)
    ensures
        r@ == stem_text(*track) + suffix@,
{
    let mut out = print_signed(track.id);
    let mtime = print_signed(track.mtime);
    let size = print_signed(track.size_bytes);
    add_text(&mut out, "-");
    add_chars(&mut out, mtime.as_slice());
    add_text(&mut out, "-");
    add_chars(&mut out, size.as_slice());
    add_text(&mut out, "-w1280");
    add_text(&mut out, suffix);
    string_of(out.as_slice())
}

/// The name of the file that holds a track's picture.
pub fn image_file(track: &Track) -> (r: String)
    ensures
        r@ == image_name(*track),
{
    named(track, ".jpg")
}

/// A tenth of the way in avoids the black frames and title cards that open most
/// sets, and is capped so that seeking stays quick in a long one.
pub open spec fn frame_time(duration: Option<Fixed>) -> Fixed {
    match duration {
        Some(Fixed::Nanos(n)) => if n > 120_000_000_000 {
            smaller(Fixed::Nanos((n / 10) as i128), Fixed::Nanos(600_000_000_000))
        } else if n > 20_000_000_000 {
            Fixed::Nanos((n / 4) as i128)
        } else {
            Fixed::Nanos(1_000_000_000)
        },
        Some(Fixed::PosInfinity) => Fixed::Nanos(600_000_000_000),
        _ => Fixed::Nanos(1_000_000_000),
    }
}

/// Pick a frame that represents the file.
pub fn frame_timestamp(duration_secs: Option<Fixed>) -> (r: Fixed)
    ensures
        r == frame_time(duration_secs),
{
    match duration_secs {
        Some(Fixed::Nanos(n)) => if n > 120_000_000_000 {
            min_of(Fixed::Nanos(n / 10), Fixed::Nanos(600_000_000_000))
        } else if n > 20_000_000_000 {
            Fixed::Nanos(n / 4)
        } else {
            Fixed::Nanos(1_000_000_000)
        },
        Some(Fixed::PosInfinity) => Fixed::Nanos(600_000_000_000),
        _ => Fixed::Nanos(1_000_000_000),
    }
}

pub open spec fn asks(said: Seq<bool>, at: int, a: ArtView) -> Art<bool> {
    asked((), said, at, a)
}

/// A picture made. Where an offset past the end yields nothing, once more from
/// the start: the duration may have been guessed wrong.
pub open spec fn convert_of(said: Seq<bool>, at: int, cover: bool, seek: Option<Fixed>) -> Art<
    bool,
> {
    then_do(
        asks(said, at, ArtView::Convert { cover, seek }),
        |s: (), at: int, made: bool|
            if !made && (seek matches Some(t) && lt(Fixed::Nanos(0), t)) {
                asks(said, at, ArtView::Convert { cover, seek: Some(Fixed::Nanos(0)) })
            } else {
                done((), at, made)
            },
    )
}

/// A frame of the file.
pub open spec fn grab_of(said: Seq<bool>, at: int, duration: Option<Fixed>) -> Art<bool> {
    convert_of(said, at, false, Some(frame_time(duration)))
}

/// The embedded cover art, written through the converter so that the cache holds
/// one format at one size.
pub open spec fn cover_of(said: Seq<bool>, at: int) -> Art<bool> {
    then_do(
        asks(said, at, ArtView::SaveCover),
        |s: (), at: int, saved: bool|
            if !saved {
                done((), at, false)
            } else {
                then_do(
                    convert_of(said, at, true, None),
                    |s: (), at: int, made: bool|
                        then_do(
                            asks(said, at, ArtView::DropCover),
                            |s: (), at: int, dropped: bool| done((), at, made),
                        ),
                )
            },
    )
}

/// A frame of a video; the cover art of anything else, or, where that cannot be
/// read, whatever the converter sees in the file.
pub open spec fn extract_of(said: Seq<bool>, at: int, track: Track) -> Art<bool> {
    if video_path(track.path@) {
        grab_of(said, at, track.duration_secs)
    } else {
        then_do(
            cover_of(said, at),
            |s: (), at: int, made: bool|
                if made {
                    done((), at, true)
                } else {
                    grab_of(said, at, None)
                },
        )
    }
}

/// Whether a track has a picture in the cache, which is made on the first
/// request. A request that finds nothing is remembered.
pub open spec fn artwork_of(said: Seq<bool>, at: int, track: Track) -> Art<bool> {
    then_do(
        asks(said, at, ArtView::MakeCache),
        |s: (), at: int, there: bool|
            if !there {
                done((), at, false)
            } else {
                then_do(
                    asks(said, at, ArtView::Cached(image_name(track))),
                    |s: (), at: int, hit: bool|
                        if hit {
                            done((), at, true)
                        } else {
                            then_do(
                                asks(said, at, ArtView::Cached(miss_name(track))),
                                |s: (), at: int, missed: bool|
                                    if missed {
                                        done((), at, false)
                                    } else {
                                        make_of(said, at, track)
                                    },
                            )
                        },
                )
            },
    )
}

/// A picture that is not in the cache yet.
pub open spec fn make_of(said: Seq<bool>, at: int, track: Track) -> Art<bool> {
    then_do(
        asks(said, at, ArtView::SourceExists),
        |s: (), at: int, source: bool|
            if !source {
                done((), at, false)
            } else {
                then_do(
                    extract_of(said, at, track),
                    |s: (), at: int, made: bool|
                        if made {
                            done((), at, true)
                        } else {
                            then_do(
                                asks(said, at, ArtView::Note(miss_name(track))),
                                |s: (), at: int, noted: bool| done((), at, false),
                            )
                        },
                )
            },
    )
}

/// How far a step came.
pub open spec fn came_to(r: Result<bool, ArtAction>) -> Progress<ArtView, bool, ()> {
    match r {
        Ok(b) => Progress::Done(b),
        Err(a) => Progress::Ask(a@),
    }
}

pub open spec fn stepped(at: int, r: Result<bool, ArtAction>) -> Art<bool> {
    Outcome { state: (), at, end: came_to(r) }
}

fn ask(script: &mut Script<bool>, action: ArtAction) -> (r: Result<bool, ArtAction>)
    ensures
        final(script).said() == old(script).said(),
        stepped(final(script).place(), r) == asks(
            old(script).said(),
            old(script).place(),
            action@,
        ),
{
    match script.next_answer() {
        Some(answer) => Ok(*answer),
        None => Err(action),
    }
}

fn convert(script: &mut Script<bool>, cover: bool, seek: Option<Fixed>) -> (r: Result<
    bool,
    ArtAction,
>)
    ensures
        final(script).said() == old(script).said(),
        stepped(final(script).place(), r) == convert_of(
            old(script).said(),
            old(script).place(),
            cover,
            seek,
        ),
{
    let made: bool = ask(script, ArtAction::Convert { cover, seek })?;
    if made {
        return Ok(true);
    }
    match seek {
        Some(t) => if less(Fixed::Nanos(0), t) {
            ask(script, ArtAction::Convert { cover, seek: Some(Fixed::Nanos(0)) })
        } else {
            Ok(false)
        },
        None => Ok(false),
    }
}

fn cover(script: &mut Script<bool>) -> (r: Result<bool, ArtAction>)
    ensures
        final(script).said() == old(script).said(),
        stepped(final(script).place(), r) == cover_of(old(script).said(), old(script).place()),
{
    let saved: bool = ask(script, ArtAction::SaveCover)?;
    if !saved {
        return Ok(false);
    }
    let made: bool = convert(script, true, None)?;
    ask(script, ArtAction::DropCover)?;
    Ok(made)
}

fn extract(script: &mut Script<bool>, track: &Track) -> (r: Result<bool, ArtAction>)
    ensures
        final(script).said() == old(script).said(),
        stepped(final(script).place(), r) == extract_of(
            old(script).said(),
            old(script).place(),
            *track,
        ),
{
    if is_video_extension(track.path.as_str()) {
        return convert(script, false, Some(frame_timestamp(track.duration_secs)));
    }
    let made: bool = cover(script)?;
    if made {
        return Ok(true);
    }
    convert(script, false, Some(frame_timestamp(None)))
}

fn make(script: &mut Script<bool>, track: &Track) -> (r: Result<bool, ArtAction>)
    ensures
        final(script).said() == old(script).said(),
        stepped(final(script).place(), r) == make_of(
            old(script).said(),
            old(script).place(),
            *track,
        ),
{
    let source: bool = ask(script, ArtAction::SourceExists)?;
    if !source {
        return Ok(false);
    }
    let made: bool = extract(script, track)?;
    if made {
        return Ok(true);
    }
    ask(script, ArtAction::Note(named(track, ".none")))?;
    Ok(false)
}

/// Whether a track has a picture in the cache, under [`image_file`]; or what is
/// to be done to find out.
pub fn artwork_for(track: &Track, answers: &Vec<bool>) -> (r: Result<bool, ArtAction>)
    ensures
        came_to(r) == artwork_of(answers@, 0, *track).end,
{
    let mut script = Script::new(answers);
    let there: bool = ask(&mut script, ArtAction::MakeCache)?;
    if !there {
        return Ok(false);
    }
    let hit: bool = ask(&mut script, ArtAction::Cached(image_file(track)))?;
    if hit {
        return Ok(true);
    }
    let missed: bool = ask(&mut script, ArtAction::Cached(named(track, ".none")))?;
    if missed {
        return Ok(false);
    }
    make(&mut script, track)
}

/// Whether a picture was made. The converter reports success even where there was
/// no frame, so there also has to be a file, `size` bytes long, that is not empty.
pub fn was_made(succeeded: bool, size: Option<u64>) -> (r: bool)
    ensures
        r == (succeeded && size is Some && size->0 > 0),
{
    match size {
        Some(n) => succeeded && n > 0,
        None => false,
    }
}

/// The converter's arguments up to the input. An offset comes before the input,
/// so that it is sought rather than decoded up to.
pub open spec fn input_text(seek: Option<Fixed>) -> Seq<Seq<char>> {
    let front = seq!["-v"@, "error"@, "-nostdin"@, "-y"@];
    match seek {
        Some(t) => front + seq!["-ss"@, to_places(t, 3), "-i"@],
        None => front + seq!["-i"@],
    }
}

/// The converter's arguments up to the input.
pub fn input_args(seek: Option<Fixed>) -> (r: Vec<String>)
    ensures
        texts(r@) == input_text(seek),
{
    let mut args: Vec<String> = Vec::new();
    args.push("-v".to_owned());
    args.push("error".to_owned());
    args.push("-nostdin".to_owned());
    args.push("-y".to_owned());
    match seek {
        Some(t) => {
            let number = places(t, 3);
            args.push("-ss".to_owned());
            args.push(string_of(number.as_slice()));
        },
        None => {},
    }
    args.push("-i".to_owned());
    assert(texts(args@) =~= input_text(seek));
    args
}

/// The converter's arguments between input and output: one frame, of good
/// quality, never scaled up.
pub fn output_args() -> (r: Vec<&'static str>)
    ensures
        r@.len() == 6,
        r@[0]@ == "-frames:v"@,
        r@[1]@ == "1"@,
        r@[2]@ == "-q:v"@,
        r@[3]@ == "3"@,
        r@[4]@ == "-vf"@,
        r@[5]@ == "scale=w='min(1280,iw)':h=-2"@,
{
    let mut args: Vec<&'static str> = Vec::new();
    args.push("-frames:v");
    args.push("1");
    args.push("-q:v");
    args.push("3");
    args.push("-vf");
    args.push("scale=w='min(1280,iw)':h=-2");
    args
}

/// A picture that is cached is not made again, and neither is one that could not
/// be made before: nothing more is asked for, whatever else was answered.
pub proof fn law_cached_answers_are_final(track: Track, said: Seq<bool>)
    requires
        said.len() >= 2,
        said[0],
    ensures
        said[1] ==> artwork_of(said, 0, track).end == Progress::<ArtView, bool, ()>::Done(true),
        !said[1] && said.len() >= 3 && said[2] ==> artwork_of(said, 0, track).end == Progress::<
            ArtView,
            bool,
            (),
        >::Done(false),
{
}

/// The offset of a frame lies within the file, where its duration is known to be
/// longer than a second.
pub proof fn law_frame_lies_within_the_file(n: i128)
    requires
        n > 1_000_000_000,
    ensures
        frame_time(Some(Fixed::Nanos(n))) matches Fixed::Nanos(t) && 0 < t < n,
{
}

} // verus!
