//! What holds of media files: their names, the engines that open them, what is
//! learned of them, and their pictures.

use vstd::prelude::*;

use crate::artwork::{artwork_of, frame_time, image_name, miss_name, ArtView};
use crate::engine::{undotted, CapabilitiesView, EngineErrorView};
use crate::error::ErrorView;
use crate::fixed::{parsed, Fixed};
use crate::json::{document, JsonView};
use crate::number::{digits, is_digit, lemma_digits, signed_digits};
use crate::probe::{learned, moving_picture, pictured, probe_of, ProbeNeed, ProbedView};
use crate::script::Progress;
use crate::selection::{lemma_found_unique, policy_of, Choice, PolicyView, RegistryView};
use crate::text::{find, is_space, lemma_find, lemma_find_is, lowered, split, trimmed};
use crate::text_laws::{blank, law_blank_texts, law_last_place, law_trimming};
use crate::track::{name_of, path_extension, stem, suffix, video_extension, video_path, Track};

verus! {

/// The path of a file in a folder.
pub open spec fn in_folder(folder: Seq<char>, name: Seq<char>) -> Seq<char> {
    folder + "/"@ + name
}

/// A name that stands for a file: not empty, no folder, and neither of the two
/// that stand for folders.
pub open spec fn names_a_file(name: Seq<char>) -> bool {
    name.len() > 0 && !name.contains('/') && name != "."@ && name != ".."@
}

proof fn lemma_last_piece(a: Seq<char>, c: char, b: Seq<char>)
    requires
        !b.contains(c),
    ensures
        split(a + seq![c] + b, c).len() > 0,
        split(a + seq![c] + b, c).last() == b,
        split(b, c) == seq![b],
    decreases a.len(),
{
    let s = a + seq![c] + b;
    lemma_find(b, c);
    lemma_find(a, c);
    let k = find(a, c);
    assert forall|i: int| 0 <= i < k implies s[i] != c by {
        assert(s[i] == a[i]);
    }
    assert(s[k] == c);
    lemma_find_is(s, c, k);
    if k < a.len() {
        let rest = a.skip(k + 1);
        lemma_last_piece(rest, c, b);
        assert(s.skip(k + 1) =~= rest + seq![c] + b);
        assert(split(s, c) == seq![s.take(k)] + split(s.skip(k + 1), c));
        assert(split(s, c).last() == split(s.skip(k + 1), c).last());
    } else {
        assert(s.skip(k + 1) =~= b);
        assert(split(s, c) == seq![s.take(k)] + split(b, c));
        assert(split(s, c).last() == split(b, c).last());
    }
}

/// A path names the file that stands behind its last slash, in whatever folder; a
/// path without one names itself.
pub proof fn law_file_of_a_path(folder: Seq<char>, name: Seq<char>)
    requires
        names_a_file(name),
    ensures
        name_of(in_folder(folder, name)) == Some(name),
        name_of(name) == Some(name),
{
    reveal_strlit("/");
    assert(in_folder(folder, name) =~= folder + seq!['/'] + name);
    lemma_last_piece(folder, '/', name);
}

/// A file's extension is what follows the last dot of its name, in lower case, and
/// its stem what stands before that dot. A name without a dot, or with only one in
/// front, has no extension and is all stem.
pub proof fn law_extension_of_a_name(base: Seq<char>, ext: Seq<char>)
    requires
        !ext.contains('.'),
    ensures
        base.len() > 0 ==> suffix(base + "."@ + ext) == Some(ext) && stem(base + "."@ + ext)
            == base,
        suffix(ext) is None && stem(ext) == ext,
        suffix("."@ + ext) is None && stem("."@ + ext) == "."@ + ext,
{
    reveal_strlit(".");
    law_last_place(base, '.', ext);
    law_last_place(Seq::empty(), '.', ext);
    let s = base + "."@ + ext;
    assert(s =~= base + seq!['.'] + ext);
    assert("."@ + ext =~= Seq::<char>::empty() + seq!['.'] + ext);
    assert(s.take(base.len() as int) =~= base);
    assert(s.skip(base.len() as int + 1) =~= ext);
}

/// The extension of a path is that of its file: a dot in a folder's name means
/// nothing.
pub proof fn law_extension_of_a_path(folder: Seq<char>, name: Seq<char>)
    requires
        names_a_file(name),
    ensures
        path_extension(in_folder(folder, name)) == path_extension(name),
        suffix(name) is None ==> path_extension(name) is None,
        suffix(name) is Some ==> path_extension(name) == Some(lowered(suffix(name)->0)),
{
    law_file_of_a_path(folder, name);
}

/// The containers that usually carry video are these, and a file is taken for video
/// by its extension in any case.
pub proof fn law_video_files(folder: Seq<char>, base: Seq<char>, ext: Seq<char>)
    requires
        base.len() > 0,
        ext.len() > 0,
        !base.contains('/'),
        !ext.contains('/'),
        !ext.contains('.'),
    ensures
        video_path(in_folder(folder, base + "."@ + ext)) <==> seq![
            "webm"@,
            "mkv"@,
            "mp4"@,
            "m4v"@,
            "mov"@,
            "avi"@,
            "flv"@,
            "ts"@,
        ].contains(lowered(ext)),
{
    reveal_strlit(".");
    reveal_strlit("..");
    let name = base + "."@ + ext;
    let all = seq![
        "webm"@,
        "mkv"@,
        "mp4"@,
        "m4v"@,
        "mov"@,
        "avi"@,
        "flv"@,
        "ts"@,
    ];
    assert(!name.contains('/')) by {
        if name.contains('/') {
            let k = choose|k: int| 0 <= k < name.len() && name[k] == '/';
            if k < base.len() {
                assert(base[k] == '/');
            } else if k > base.len() {
                assert(ext[k - base.len() - 1] == '/');
            }
        }
    }
    assert(name.last() == ext.last());
    assert(ext.contains(ext.last()));
    assert(name.len() >= 3);
    law_extension_of_a_name(base, ext);
    law_extension_of_a_path(folder, name);
    let low = lowered(ext);
    if video_extension(low) {
        if low == "webm"@ {
            assert(all[0] == low);
        } else if low == "mkv"@ {
            assert(all[1] == low);
        } else if low == "mp4"@ {
            assert(all[2] == low);
        } else if low == "m4v"@ {
            assert(all[3] == low);
        } else if low == "mov"@ {
            assert(all[4] == low);
        } else if low == "avi"@ {
            assert(all[5] == low);
        } else if low == "flv"@ {
            assert(all[6] == low);
        } else {
            assert(all[7] == low);
        }
    }
    if all.contains(low) {
        let k = choose|k: int| 0 <= k < all.len() && all[k] == low;
        assert(k == 0 || k == 1 || k == 2 || k == 3 || k == 4 || k == 5 || k == 6 || k == 7);
    }
}

/// A track is called by its title, where there is one that is not blank; else by
/// its file's name without the extension. An artist that is not blank comes before
/// it, with a dash between.
pub proof fn law_best_name(track: Track, folder: Seq<char>, name: Seq<char>)
    requires
        track.path@ == in_folder(folder, name),
        names_a_file(name),
    ensures
        track.title is Some && !blank(track.title->0@) ==> track.title_text() == track.title->0@,
        (track.title matches Some(t) ==> blank(t@)) ==> track.title_text() == stem(name),
        track.artist is Some && !blank(track.artist->0@) ==> track.label_text() == track.artist->0@ + " — "@
            + track.title_text(),
        (track.artist matches Some(a) ==> blank(a@)) ==> track.label_text()
            == track.title_text(),
{
    law_file_of_a_path(folder, name);
    if track.title is Some {
        law_blank_texts(track.title->0@);
    }
    if track.artist is Some {
        law_blank_texts(track.artist->0@);
    }
}

/// An engine opens an extension that reads like one of its containers, in any case
/// and with any number of dots before it, and no other.
pub proof fn law_containers_decide(caps: CapabilitiesView, ext: Seq<char>)
    requires
        ext.len() > 0,
        ext[0] != '.',
    ensures
        caps.opens(ext) <==> exists|i: int|
            0 <= i < caps.containers.len() && lowered(#[trigger] caps.containers[i]) == lowered(
                ext,
            ),
        caps.opens("."@ + ext) == caps.opens(ext),
        caps.opens("."@ + ("."@ + ext)) == caps.opens(ext),
        caps.opens(lowered(ext)) == caps.opens(ext),
{
    reveal_strlit(".");
    reveal_with_fuel(undotted, 3);
    let one = "."@ + ext;
    let two = "."@ + one;
    assert(one.drop_first() =~= ext);
    assert(two.drop_first() =~= one);
    assert(undotted(one) == ext);
    assert(undotted(two) == ext);
    crate::text_laws::law_lower_case(ext, 0);
    assert(undotted(lowered(ext)) == lowered(ext));
}

/// An engine plays a path by what follows its last dot; without a dot, or with
/// nothing behind it, it does not.
pub proof fn law_extension_decides(caps: CapabilitiesView, base: Seq<char>, ext: Seq<char>)
    requires
        !ext.contains('.'),
    ensures
        ext.len() > 0 ==> caps.plays(base + "."@ + ext) == caps.opens(ext),
        !caps.plays(base + "."@),
        !caps.plays(ext),
{
    reveal_strlit(".");
    law_last_place(base, '.', ext);
    law_last_place(base, '.', Seq::empty());
    assert(base + "."@ + ext =~= base + seq!['.'] + ext);
    assert(base + "."@ =~= base + seq!['.'] + Seq::<char>::empty());
    assert((base + seq!['.'] + ext).skip(base.len() as int + 1) =~= ext);
}

/// Why no engine is chosen: there are none; freely, none can open the file; by id,
/// none has it, or the first that has it cannot open the file. Otherwise that one
/// is chosen.
pub proof fn law_choice_of_an_engine(r: RegistryView, path: Seq<char>, id: Seq<char>, i: int)
    ensures
        r.engines.len() == 0 ==> r.chosen(path) == Choice::Failed(
            ErrorView::Internal { message: "no playback engines are registered"@ },
        ),
        r.engines.len() > 0 && r.policy is Auto && (forall|k: int|
            0 <= k < r.engines.len() ==> !(#[trigger] r.engines[k]).plays(path))
            ==> r.chosen(path) == Choice::Failed(
            ErrorView::Engine(EngineErrorView::Unsupported { path }),
        ),
        r.engines.len() > 0 && r.policy == PolicyView::Force(id) && (forall|k: int|
            0 <= k < r.engines.len() ==> (#[trigger] r.engines[k]).id != id) ==> r.chosen(path)
            == Choice::Failed(
            ErrorView::Internal { message: "no engine with id \""@ + id + "\" is available"@ },
        ),
        r.policy == PolicyView::Force(id) && 0 <= i < r.engines.len() && r.engines[i].id == id
            && (forall|k: int| 0 <= k < i ==> (#[trigger] r.engines[k]).id != id) ==> r.chosen(
            path,
        ) == if r.engines[i].plays(path) {
            Choice::Engine(i)
        } else {
            Choice::Failed(ErrorView::Engine(EngineErrorView::Unsupported { path }))
        },
{
    if 0 <= i < r.engines.len() && r.engines[i].id == id && (forall|k: int|
        0 <= k < i ==> (#[trigger] r.engines[k]).id != id) {
        assert(r.found(id, i));
        lemma_found_unique(r, id, i);
    }
}

/// A policy's word is read in any case and with white space around it; nothing at
/// all, like the word for it, chooses freely, and any other word is an id.
pub proof fn law_policy_words(a: Seq<char>, word: Seq<char>, b: Seq<char>)
    requires
        blank(a),
        blank(b),
        word.len() > 0 ==> !is_space(word[0]) && !is_space(word.last()),
    ensures
        policy_of(a + word + b) == if word.len() == 0 || lowered(word) == "auto"@ {
            PolicyView::Auto
        } else {
            PolicyView::Force(lowered(word))
        },
{
    law_trimming(a, word, b);
}

/// What is asked of a file and when: a video container is not asked for tags; tags
/// that name a duration are enough; else its streams are asked for.
pub proof fn law_sources_of_a_probe(
    path: Seq<char>,
    t: ProbedView,
    tags: Option<Option<ProbedView>>,
    streams: Option<Option<Seq<u8>>>,
)
    ensures
        !video_path(path) ==> probe_of(path, None, streams) == Err::<ProbedView, ProbeNeed>(
            ProbeNeed::Tags,
        ),
        !video_path(path) && t.duration_secs is Some ==> probe_of(path, Some(Some(t)), streams)
            == Ok::<ProbedView, ProbeNeed>(ProbedView { has_video: false, ..t }),
        !video_path(path) && t.duration_secs is None ==> probe_of(path, Some(Some(t)), None)
            == Err::<ProbedView, ProbeNeed>(ProbeNeed::Streams),
        !video_path(path) ==> probe_of(path, Some(None), None) == Err::<ProbedView, ProbeNeed>(
            ProbeNeed::Streams,
        ),
        video_path(path) ==> probe_of(path, tags, None) == Err::<ProbedView, ProbeNeed>(
            ProbeNeed::Streams,
        ),
        video_path(path) ==> probe_of(path, tags, streams) == probe_of(path, None, streams),
{
}

/// What the streams say of a file: its length and its picture always; its texts
/// where the tags left them open.
pub proof fn law_streams_complete_the_tags(path: Seq<char>, t: ProbedView, bytes: Seq<u8>)
    requires
        document(bytes) is Some,
        t.duration_secs is None,
        !video_path(path),
    ensures
        probe_of(path, Some(Some(t)), Some(Some(bytes))) matches Ok(p) && {
            let doc = document(bytes)->0;
            &&& p.duration_secs == learned(doc).duration_secs
            &&& p.has_video == learned(doc).has_video
            &&& t.title is Some ==> p.title == t.title
            &&& t.title is None ==> p.title == learned(doc).title
            &&& t.artist is Some ==> p.artist == t.artist
            &&& t.artist is None ==> p.artist == learned(doc).artist
            &&& t.album is Some ==> p.album == t.album
            &&& t.album is None ==> p.album == learned(doc).album
        },
        probe_of(path, Some(Some(t)), Some(None)) == Ok::<ProbedView, ProbeNeed>(
            ProbedView { has_video: false, ..t },
        ),
{
}

/// A video container is what its streams say, or, where they say nothing, a file
/// with a picture and nothing else known.
pub proof fn law_streams_of_a_video(path: Seq<char>, bytes: Seq<u8>)
    requires
        video_path(path),
    ensures
        document(bytes) is Some ==> probe_of(path, None, Some(Some(bytes))) == Ok::<
            ProbedView,
            ProbeNeed,
        >(learned(document(bytes)->0)),
        document(bytes) is None ==> probe_of(path, None, Some(Some(bytes))) == probe_of(
            path,
            None,
            Some(None),
        ),
{
}

/// A text behind a key of an object.
pub open spec fn text_under(v: JsonView, key: Seq<char>, text: Seq<char>) -> bool {
    v.get(key) matches Some(t) && t.text() == Some(text)
}

/// The tags of a document: each text comes from under its own name, without the
/// white space around it, and a blank one is none.
pub proof fn law_tags_of_a_document(
    doc: JsonView,
    format: JsonView,
    tags: JsonView,
    title: Seq<char>,
    artist: Seq<char>,
    album: Seq<char>,
)
    requires
        doc.get("format"@) == Some(format),
        format.get("tags"@) == Some(tags),
    ensures
        text_under(tags, "title"@, title) ==> learned(doc).title == (if blank(title) {
            None
        } else {
            Some(trimmed(title))
        }),
        text_under(tags, "artist"@, artist) ==> learned(doc).artist == (if blank(artist) {
            None
        } else {
            Some(trimmed(artist))
        }),
        text_under(tags, "album"@, album) ==> learned(doc).album == (if blank(album) {
            None
        } else {
            Some(trimmed(album))
        }),
        tags.get("title"@) is None ==> learned(doc).title is None,
        tags.get("artist"@) is None ==> learned(doc).artist is None,
        tags.get("album"@) is None ==> learned(doc).album is None,
{
    law_blank_texts(title);
    law_blank_texts(artist);
    law_blank_texts(album);
}

/// The length of a document: a number above zero, as text under its name; anything
/// else is none.
pub proof fn law_length_of_a_document(doc: JsonView, format: JsonView, text: Seq<char>)
    requires
        doc.get("format"@) == Some(format),
    ensures
        text_under(format, "duration"@, text) ==> match parsed(text) {
            Some(Fixed::Nanos(d)) => learned(doc).duration_secs == if d > 0 {
                Some(Fixed::Nanos(d))
            } else {
                None
            },
            _ => learned(doc).duration_secs is None,
        },
        format.get("duration"@) is None ==> learned(doc).duration_secs is None,
{
}

/// A stream is a moving picture where it says it is video, unless it also says it
/// is an attached picture; one such stream makes the file a video.
pub proof fn law_pictures_of_a_document(
    doc: JsonView,
    list: JsonView,
    streams: Seq<JsonView>,
    i: int,
    kind: Seq<char>,
    disposition: JsonView,
    flag: JsonView,
)
    requires
        doc.get("streams"@) == Some(list),
        list.array() == Some(streams),
        0 <= i < streams.len(),
        text_under(streams[i], "codec_type"@, kind),
        streams[i].get("disposition"@) == Some(disposition),
        disposition.get("attached_pic"@) == Some(flag),
    ensures
        kind == "video"@ && flag.whole() != Some(1nat) ==> learned(doc).has_video,
        kind != "video"@ || flag.whole() == Some(1nat) ==> !moving_picture(streams[i]),
        (forall|k: int| 0 <= k < streams.len() ==> !moving_picture(#[trigger] streams[k]))
            ==> !learned(doc).has_video,
{
    assert(moving_picture(streams[i]) == (kind == "video"@ && flag.whole() != Some(1nat)));
    if moving_picture(streams[i]) {
        assert(doc.get("streams"@)->0.array()->0 == streams);
        assert(exists|k: int| 0 <= k < streams.len() && moving_picture(#[trigger] streams[k]));
        assert(pictured(doc));
    }
}

/// Where a picture is taken from a video: a tenth of the way in, but never past ten
/// minutes; a quarter of the way into one of two minutes or less; a second into one
/// of twenty seconds or less, or of unknown length.
pub proof fn law_frame_is_representative(n: i128, t: int)
    requires
        frame_time(Some(Fixed::Nanos(n))) == Fixed::Nanos(t as i128),
        i128::MIN <= t <= i128::MAX,
    ensures
        n > 6_000_000_000_000 ==> t == 600_000_000_000,
        120_000_000_000 < n <= 6_000_000_000_000 ==> 10 * t <= n < 10 * (t + 1),
        20_000_000_000 < n <= 120_000_000_000 ==> 4 * t <= n < 4 * (t + 1),
        n <= 20_000_000_000 ==> t == 1_000_000_000,
        frame_time(None) == Fixed::Nanos(1_000_000_000),
{
}

/// What has been answered once a picture is to be made: the cache is there, it holds
/// neither the picture nor the note that there is none, and the file is there.
pub open spec fn to_be_made() -> Seq<bool> {
    seq![true, false, false, true]
}

/// Before a picture is made, the cache is seen to and asked for the picture and for
/// the note that there is none, and the file is looked for.
pub proof fn law_cache_comes_first(track: Track)
    ensures
        artwork_of(Seq::empty(), 0, track).end == Progress::<ArtView, bool, ()>::Ask(
            ArtView::MakeCache,
        ),
        artwork_of(seq![false], 0, track).end == Progress::<ArtView, bool, ()>::Done(false),
        artwork_of(seq![true], 0, track).end == Progress::<ArtView, bool, ()>::Ask(
            ArtView::Cached(image_name(track)),
        ),
        artwork_of(seq![true, false], 0, track).end == Progress::<ArtView, bool, ()>::Ask(
            ArtView::Cached(miss_name(track)),
        ),
        artwork_of(seq![true, false, false], 0, track).end == Progress::<ArtView, bool, ()>::Ask(
            ArtView::SourceExists,
        ),
        artwork_of(seq![true, false, false, false], 0, track).end == Progress::<
            ArtView,
            bool,
            (),
        >::Done(false),
{
}

/// A video's picture is a frame of it, or its first where that one cannot be had.
/// Where neither can, this is noted.
#[verifier::spinoff_prover]
#[verifier::rlimit(40)]
pub proof fn law_picture_of_a_video(track: Track, noted: bool)
    requires
        video_path(track.path@),
    ensures
        artwork_of(to_be_made(), 0, track).end == Progress::<ArtView, bool, ()>::Ask(
            ArtView::Convert { cover: false, seek: Some(frame_time(track.duration_secs)) },
        ),
        artwork_of(to_be_made() + seq![true], 0, track).end == Progress::<
            ArtView,
            bool,
            (),
        >::Done(true),
        artwork_of(to_be_made() + seq![false], 0, track).end == Progress::<
            ArtView,
            bool,
            (),
        >::Ask(ArtView::Convert { cover: false, seek: Some(Fixed::Nanos(0)) }),
        artwork_of(to_be_made() + seq![false, true], 0, track).end == Progress::<
            ArtView,
            bool,
            (),
        >::Done(true),
        artwork_of(to_be_made() + seq![false, false], 0, track).end == Progress::<
            ArtView,
            bool,
            (),
        >::Ask(ArtView::Note(miss_name(track))),
        artwork_of(to_be_made() + seq![false, false, noted], 0, track).end == Progress::<
            ArtView,
            bool,
            (),
        >::Done(false),
{
}

/// Any other file's picture is its cover art, which does not stay behind. Where
/// there is none, or it cannot be read, it is whatever frame a second in shows.
#[verifier::spinoff_prover]
#[verifier::rlimit(60)]
pub proof fn law_picture_of_a_song(s: Seq<bool>, track: Track)
    requires
        !video_path(track.path@),
        s.len() >= 4,
        s[0] && !s[1] && !s[2] && s[3],
    ensures
        ({
            let end = artwork_of(s, 0, track).end;
            let frame = Progress::<ArtView, bool, ()>::Ask(
                ArtView::Convert { cover: false, seek: Some(Fixed::Nanos(1_000_000_000)) },
            );
            &&& s.len() == 4 ==> end == Progress::<ArtView, bool, ()>::Ask(ArtView::SaveCover)
            &&& s.len() == 5 && s[4] ==> end == Progress::<ArtView, bool, ()>::Ask(
                ArtView::Convert { cover: true, seek: None },
            )
            &&& s.len() == 5 && !s[4] ==> end == frame
            &&& s.len() == 6 && s[4] ==> end == Progress::<ArtView, bool, ()>::Ask(
                ArtView::DropCover,
            )
            &&& s.len() == 6 && !s[4] && s[5] ==> end == Progress::<ArtView, bool, ()>::Done(true)
            &&& s.len() == 7 && s[4] && s[5] ==> end == Progress::<ArtView, bool, ()>::Done(true)
            &&& s.len() == 7 && s[4] && !s[5] ==> end == frame
            &&& s.len() == 7 && !s[4] && !s[5] && !s[6] ==> end == Progress::<
                ArtView,
                bool,
                (),
            >::Ask(ArtView::Note(miss_name(track)))
        }),
{
}

pub proof fn lemma_number_ends(a: nat, x: Seq<char>, b: nat, y: Seq<char>)
    requires
        digits(a) + seq!['-'] + x == digits(b) + seq!['-'] + y,
    ensures
        a == b,
        x == y,
{
    lemma_digits(a);
    lemma_digits(b);
    let s = digits(a) + seq!['-'] + x;
    let t = digits(b) + seq!['-'] + y;
    let n = digits(a).len() as int;
    let m = digits(b).len() as int;
    assert(s[n] == '-' && t[m] == '-');
    assert(!is_digit('-'));
    if n < m {
        assert(t[n] == digits(b)[n]);
    } else if m < n {
        assert(s[m] == digits(a)[m]);
    }
    assert(digits(a) =~= s.take(n));
    assert(digits(b) =~= t.take(n));
    assert(x =~= s.skip(n + 1));
    assert(y =~= t.skip(n + 1));
}

proof fn lemma_signed_number_ends(a: int, x: Seq<char>, b: int, y: Seq<char>)
    requires
        signed_digits(a) + seq!['-'] + x == signed_digits(b) + seq!['-'] + y,
    ensures
        a == b,
        x == y,
{
    let s = signed_digits(a) + seq!['-'] + x;
    let t = signed_digits(b) + seq!['-'] + y;
    let p = if a < 0 {
        (-a) as nat
    } else {
        a as nat
    };
    let q = if b < 0 {
        (-b) as nat
    } else {
        b as nat
    };
    lemma_digits(p);
    lemma_digits(q);
    assert(!is_digit('-'));
    assert(a < 0 ==> s[0] == '-');
    assert(b < 0 ==> t[0] == '-');
    assert(a >= 0 ==> s[0] == digits(p)[0] && is_digit(s[0]));
    assert(b >= 0 ==> t[0] == digits(q)[0] && is_digit(t[0]));
    assert((a < 0) == (b < 0));
    if a < 0 {
        assert(s.skip(1) =~= digits(p) + seq!['-'] + x);
        assert(t.skip(1) =~= digits(q) + seq!['-'] + y);
    }
    lemma_number_ends(p, x, q, y);
}

/// Two files share a picture in the cache only where they are one track, of one size
/// and one modified time; and a picture is never taken for the note that there is
/// none.
pub proof fn law_pictures_are_told_apart(a: Track, b: Track)
    ensures
        image_name(a) == image_name(b) ==> a.id == b.id && a.mtime == b.mtime && a.size_bytes
            == b.size_bytes,
        image_name(a) != miss_name(b),
{
    reveal_strlit("-");
    reveal_strlit("-w1280");
    reveal_strlit(".jpg");
    reveal_strlit(".none");
    assert(image_name(a).last() == 'g');
    assert(miss_name(b).last() == 'e');
    let end = "w1280"@ + ".jpg"@;
    reveal_strlit("w1280");
    let sa = signed_digits(a.size_bytes as int) + seq!['-'] + end;
    let sb = signed_digits(b.size_bytes as int) + seq!['-'] + end;
    let ma = signed_digits(a.mtime as int) + seq!['-'] + sa;
    let mb = signed_digits(b.mtime as int) + seq!['-'] + sb;
    assert("-w1280"@ + ".jpg"@ =~= seq!['-'] + end);
    assert(image_name(a) =~= signed_digits(a.id as int) + seq!['-'] + ma);
    assert(image_name(b) =~= signed_digits(b.id as int) + seq!['-'] + mb);
    if image_name(a) == image_name(b) {
        lemma_signed_number_ends(a.id as int, ma, b.id as int, mb);
        lemma_signed_number_ends(a.mtime as int, sa, b.mtime as int, sb);
        lemma_signed_number_ends(a.size_bytes as int, end, b.size_bytes as int, end);
    }
}

} // verus!
