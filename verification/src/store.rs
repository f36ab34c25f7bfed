//! The library's state: the index, resume positions, watched folders, the queue
//! and the settings.
//!
//! A [`Store`] holds the rows and the rules. Its host keeps the rows on disk,
//! hands them in through [`Store::restore`] and writes back what changed.

use vstd::prelude::*;

use crate::clock::now_unix;
use crate::error::{CoreError, ErrorView};
use crate::fixed::Fixed;
use crate::number::{digits, parse_upto, parsed_upto, print};
use crate::player_model::ids_of;
use crate::probe::Probed;
use crate::queue::kept_before;
use crate::table::{names, numbers, Named, Numbered};
use crate::text::{
    before, chars_of, copy_text, is_before, lemma_before_antisymmetric, lemma_before_total,
    lemma_before_transitive, lower, lowered, same, string_of, text_view, texts, trim, trimmed,
};
use crate::track::Track;

verus! {

/// A file as the scanner found it on disk, before any metadata is read.
#[derive(Debug, PartialEq, Eq)]
pub struct ScannedFile {
    pub path: String,
    pub size_bytes: i64,
    pub mtime: i64,
}

impl Clone for ScannedFile {
    fn clone(&self) -> (r: Self)
        ensures
            r == *self,
    {
        ScannedFile { path: self.path.clone(), size_bytes: self.size_bytes, mtime: self.mtime }
    }
}

/// The rows of the store.
#[verifier::ext_equal]
pub struct StoreView {
    /// The index, by increasing id.
    pub tracks: Seq<Track>,
    /// A position for each of some ids.
    pub resume: Map<int, Fixed>,
    /// The watched folders, in path order.
    pub folders: Seq<Seq<char>>,
    pub queue: Seq<i64>,
    pub settings: Map<Seq<char>, Seq<char>>,
}

/// Whether the ids go up from one.
pub open spec fn increasing(tracks: Seq<Track>) -> bool {
    &&& forall|i: int| 0 <= i < tracks.len() ==> (#[trigger] tracks[i]).id > 0
    &&& forall|i: int, j: int| 0 <= i < j < tracks.len() ==> tracks[i].id < tracks[j].id
}

/// Whether texts are in order, each once.
pub open spec fn ranked(list: Seq<Seq<char>>) -> bool {
    forall|i: int, j: int| 0 <= i < j < list.len() ==> before(list[i], list[j])
}

/// The track with an id.
pub open spec fn with_id(tracks: Seq<Track>, id: i64) -> Option<Track>
    decreases tracks.len(),
{
    if tracks.len() == 0 {
        None
    } else if tracks.last().id == id {
        Some(tracks.last())
    } else {
        with_id(tracks.drop_last(), id)
    }
}

/// The track of a file.
pub open spec fn with_path(tracks: Seq<Track>, path: Seq<char>) -> Option<Track>
    decreases tracks.len(),
{
    if tracks.len() == 0 {
        None
    } else if tracks.last().path@ == path {
        Some(tracks.last())
    } else {
        with_path(tracks.drop_last(), path)
    }
}

/// The track with an id, changed.
pub open spec fn changed(tracks: Seq<Track>, id: i64, f: spec_fn(Track) -> Track) -> Seq<Track> {
    Seq::new(
        tracks.len(),
        |i: int|
            if tracks[i].id == id {
                f(tracks[i])
            } else {
                tracks[i]
            },
    )
}

pub open spec fn or_else<T>(a: Option<T>, b: Option<T>) -> Option<T> {
    match a {
        Some(t) => Some(t),
        None => b,
    }
}

/// A duration as it is kept: what is not a number is no value.
pub open spec fn measured(duration: Option<Fixed>) -> Option<Fixed> {
    match duration {
        Some(Fixed::NaN) => None,
        _ => duration,
    }
}

fn measure(duration: Option<Fixed>) -> (r: Option<Fixed>)
    ensures
        r == measured(duration),
{
    match duration {
        Some(Fixed::NaN) => None,
        _ => duration,
    }
}

/// A known file, seen again. What was learned of it before is replaced only by
/// something that was learned now.
pub open spec fn merged(track: Track, file: ScannedFile, probed: Probed) -> Track {
    Track {
        size_bytes: file.size_bytes,
        mtime: file.mtime,
        title: or_else(probed.title, track.title),
        artist: or_else(probed.artist, track.artist),
        album: or_else(probed.album, track.album),
        duration_secs: or_else(measured(probed.duration_secs), track.duration_secs),
        has_video: probed.has_video,
        ..track
    }
}

/// A file that is new to the index.
pub open spec fn added(id: i64, file: ScannedFile, probed: Probed, now: i64) -> Track {
    Track {
        id,
        path: file.path,
        size_bytes: file.size_bytes,
        mtime: file.mtime,
        title: probed.title,
        artist: probed.artist,
        album: probed.album,
        duration_secs: measured(probed.duration_secs),
        has_video: probed.has_video,
        added_at: now,
        last_played_at: None,
    }
}

/// The id that a new track gets: one more than the largest there is.
pub open spec fn fresh_id(tracks: Seq<Track>) -> int {
    if tracks.len() == 0 {
        1
    } else {
        tracks.last().id + 1
    }
}

/// Whether a text holds another, whatever the case of the basic alphabet.
pub open spec fn holds(text: Seq<char>, needle: Seq<char>) -> bool {
    exists|i: int|
        0 <= i <= text.len() - needle.len() && lowered(
            #[trigger] text.subrange(i, i + needle.len()),
        ) == lowered(needle)
}

pub open spec fn holds_text(text: Option<String>, needle: Seq<char>) -> bool {
    match text {
        Some(t) => holds(t@, needle),
        None => false,
    }
}

/// Whether a track's path or any of its tags holds a text. Every character of it
/// counts as itself.
pub open spec fn matches_query(track: Track, needle: Seq<char>) -> bool {
    ||| holds(track.path@, needle)
    ||| holds_text(track.title, needle)
    ||| holds_text(track.artist, needle)
    ||| holds_text(track.album, needle)
}

/// `s` without the slashes at its end.
pub open spec fn unslashed(s: Seq<char>) -> Seq<char>
    decreases s.len(),
{
    if s.len() > 0 && s.last() == '/' {
        unslashed(s.drop_last())
    } else {
        s
    }
}

/// Whether a path lies inside a folder. Every character of the folder's name
/// counts as itself.
pub open spec fn inside(path: Seq<char>, folder: Seq<char>) -> bool {
    let front = unslashed(folder).push('/');
    path.len() >= front.len() && path.take(front.len() as int) == front
}

/// How lists of tracks are ordered.
#[derive(Debug, Clone, Copy, PartialEq, Eq, Structural)]
pub enum Order {
    /// By path.
    Path,
    /// Played ones first, the latest of them first; then the newest to the index.
    Recent,
}

/// Whether one track comes ahead of another.
pub open spec fn ahead(order: Order, a: Track, b: Track) -> bool {
    match order {
        Order::Path => before(a.path@, b.path@),
        Order::Recent => match (a.last_played_at, b.last_played_at) {
            (Some(x), Some(y)) => x > y || (x == y && a.id > b.id),
            (Some(_), None) => true,
            (None, Some(_)) => false,
            (None, None) => a.id > b.id,
        },
    }
}

/// A track put in its place.
pub open spec fn placed(list: Seq<Track>, track: Track, order: Order) -> Seq<Track>
    decreases list.len(),
{
    if list.len() > 0 && ahead(order, track, list.last()) {
        placed(list.drop_last(), track, order).push(list.last())
    } else {
        list.push(track)
    }
}

/// The tracks in order.
pub open spec fn arranged(tracks: Seq<Track>, order: Order) -> Seq<Track>
    decreases tracks.len(),
{
    if tracks.len() == 0 {
        tracks
    } else {
        placed(arranged(tracks.drop_last(), order), tracks.last(), order)
    }
}

/// At most so many of a list.
pub open spec fn limited(list: Seq<Track>, limit: nat) -> Seq<Track> {
    if limit < list.len() {
        list.take(limit as int)
    } else {
        list
    }
}

/// The numbers in a list.
pub open spec fn numbers_of(ids: Seq<i64>) -> Set<int> {
    Set::new(|k: int| exists|i: int| 0 <= i < ids.len() && #[trigger] ids[i] == k)
}

/// Texts as the store has them.
pub open spec fn text_values(m: Map<Seq<char>, String>) -> Map<Seq<char>, Seq<char>> {
    m.map_values(|s: String| s@)
}

/// A position in the queue as it is stored.
pub open spec fn index_text(current: Option<usize>) -> Seq<char> {
    match current {
        Some(c) => digits(c as nat),
        None => Seq::empty(),
    }
}

/// The position that a stored text names, if the queue has it.
pub open spec fn index_of_text(text: Seq<char>, n: nat) -> Option<usize> {
    match parsed_upto(text, usize::MAX as nat) {
        Some(c) => if c < n {
            Some(c as usize)
        } else {
            None
        },
        None => None,
    }
}

impl StoreView {
    /// Ids go up; folders are in order; positions and queue rows belong to
    /// tracks that are there.
    pub open spec fn wf(self) -> bool {
        &&& increasing(self.tracks)
        &&& ranked(self.folders)
        &&& forall|id: int| #[trigger]
            self.resume.dom().contains(id) ==> i64::MIN <= id <= i64::MAX && ids_of(
                self.tracks,
            ).contains(id as i64)
        &&& forall|i: int|
            0 <= i < self.queue.len() ==> ids_of(self.tracks).contains(#[trigger] self.queue[i])
    }

    pub open spec fn empty() -> StoreView {
        StoreView {
            tracks: Seq::empty(),
            resume: Map::empty(),
            folders: Seq::empty(),
            queue: Seq::empty(),
            settings: Map::empty(),
        }
    }

    pub open spec fn with_tracks(self, tracks: Seq<Track>) -> StoreView {
        StoreView { tracks, ..self }
    }

    /// A file inserted or updated.
    pub open spec fn upserted(self, file: ScannedFile, probed: Probed, now: i64) -> StoreView {
        match with_path(self.tracks, file.path@) {
            Some(track) => self.with_tracks(
                changed(self.tracks, track.id, |t: Track| merged(t, file, probed)),
            ),
            None => self.with_tracks(
                self.tracks.push(added(fresh_id(self.tracks) as i64, file, probed, now)),
            ),
        }
    }

    /// The id that a file has once it is inserted or updated.
    pub open spec fn upserted_id(self, file: ScannedFile) -> int {
        match with_path(self.tracks, file.path@) {
            Some(track) => track.id as int,
            None => fresh_id(self.tracks),
        }
    }

    /// Tracks forgotten, with their positions and queue rows.
    pub open spec fn without(self, gone: Seq<i64>) -> StoreView {
        StoreView {
            tracks: self.tracks.filter(|t: Track| !gone.contains(t.id)),
            resume: self.resume.remove_keys(numbers_of(gone)),
            queue: self.queue.filter(|id: i64| !gone.contains(id)),
            ..self
        }
    }

    /// The queue stored. Rows whose track is gone are not written, and the
    /// current row follows its track; it is none where that track is gone. A
    /// current row that the queue does not have is stored as it is.
    pub open spec fn queued(self, items: Seq<i64>, current: Option<usize>) -> StoreView {
        let alive = ids_of(self.tracks);
        StoreView {
            queue: items.filter(|id: i64| alive.contains(id)),
            settings: self.settings.insert(
                "queue_index"@,
                index_text(
                    match current {
                        Some(c) => if c >= items.len() {
                            Some(c)
                        } else if alive.contains(items[c as int]) {
                            Some(kept_before(items, alive, c as int) as usize)
                        } else {
                            None
                        },
                        None => None,
                    },
                ),
            ),
            ..self
        }
    }

    /// What a search finds: the tracks that hold the query, the recently played
    /// first.
    pub open spec fn found(self, query: Seq<char>, limit: nat) -> Seq<Track> {
        limited(
            arranged(
                self.tracks.filter(|t: Track| matches_query(t, trimmed(query))),
                Order::Recent,
            ),
            limit,
        )
    }

    /// The tracks that have been played, the latest first.
    pub open spec fn last_played(self, limit: nat) -> Seq<Track> {
        limited(
            arranged(self.tracks.filter(|t: Track| t.last_played_at is Some), Order::Recent),
            limit,
        )
    }

    /// The tracks inside a folder, in path order.
    pub open spec fn under(self, folder: Seq<char>) -> Seq<Track> {
        arranged(self.tracks.filter(|t: Track| inside(t.path@, folder)), Order::Path)
    }

    /// The tracks in path order.
    pub open spec fn by_path(self, limit: nat) -> Seq<Track> {
        limited(arranged(self.tracks, Order::Path), limit)
    }

    /// The stored position in the queue, if the queue has it.
    pub open spec fn queue_index(self) -> Option<usize> {
        if self.settings.dom().contains("queue_index"@) {
            index_of_text(self.settings["queue_index"@], self.queue.len())
        } else {
            None
        }
    }
}

/// A track that is there is the one with its id.
proof fn lemma_with_id(tracks: Seq<Track>, i: int)
    requires
        increasing(tracks),
        0 <= i < tracks.len(),
    ensures
        with_id(tracks, tracks[i].id) == Some(tracks[i]),
    decreases tracks.len(),
{
    if i < tracks.len() - 1 {
        assert(tracks[i].id < tracks[tracks.len() - 1].id);
        let front = tracks.drop_last();
        assert(increasing(front)) by {
            assert forall|k: int| 0 <= k < front.len() implies (#[trigger] front[k]).id > 0 by {
                assert(front[k] == tracks[k]);
            }
        }
        lemma_with_id(front, i);
    }
}

/// Where no track has an id, none is found.
proof fn lemma_without_id(tracks: Seq<Track>, id: i64)
    requires
        forall|i: int| 0 <= i < tracks.len() ==> (#[trigger] tracks[i]).id != id,
    ensures
        with_id(tracks, id) is None,
    decreases tracks.len(),
{
    if tracks.len() > 0 {
        assert(tracks[tracks.len() - 1].id != id);
        let front = tracks.drop_last();
        assert forall|i: int| 0 <= i < front.len() implies (#[trigger] front[i]).id != id by {
            assert(front[i] == tracks[i]);
        }
        lemma_without_id(front, id);
    }
}

/// The ids of tracks, looked for.
proof fn lemma_ids(tracks: Seq<Track>, id: i64)
    ensures
        ids_of(tracks).contains(id) <==> exists|i: int|
            0 <= i < tracks.len() && (#[trigger] tracks[i]).id == id,
{
    if ids_of(tracks).contains(id) {
        let i = choose|i: int| 0 <= i < ids_of(tracks).len() && ids_of(tracks)[i] == id;
        assert(tracks[i].id == id);
    }
    if exists|i: int| 0 <= i < tracks.len() && (#[trigger] tracks[i]).id == id {
        let i = choose|i: int| 0 <= i < tracks.len() && (#[trigger] tracks[i]).id == id;
        assert(ids_of(tracks)[i] == id);
    }
}

/// Changing a track that keeps its id leaves every id as it is.
proof fn lemma_changed_keeps_ids(tracks: Seq<Track>, id: i64, f: spec_fn(Track) -> Track)
    requires
        increasing(tracks),
        forall|t: Track| (#[trigger] f(t)).id == t.id,
    ensures
        increasing(changed(tracks, id, f)),
        ids_of(changed(tracks, id, f)) == ids_of(tracks),
{
    let out = changed(tracks, id, f);
    assert forall|i: int| 0 <= i < out.len() implies (#[trigger] out[i]).id == tracks[i].id by {}
    assert(ids_of(out) =~= ids_of(tracks));
}

/// Whether a file is as the index has it.
pub open spec fn is_unchanged(track: Track, file: ScannedFile) -> bool {
    track.size_bytes == file.size_bytes && track.mtime == file.mtime
}

/// Whether a file is as the index has it.
pub fn same_file(track: &Track, file: &ScannedFile) -> (r: bool)
    ensures
        r == is_unchanged(*track, *file),
{
    track.size_bytes == file.size_bytes && track.mtime == file.mtime
}

/// A track noted as played at a time.
pub open spec fn played(tracks: Seq<Track>, id: i64, now: i64) -> Seq<Track> {
    changed(tracks, id, |t: Track| Track { last_played_at: Some(now), ..t })
}

fn listed(id: i64, ids: &[i64]) -> (r: bool)
    ensures
        r == ids@.contains(id),
{
    let mut i: usize = 0;
    while i < ids.len()
        invariant
            i <= ids@.len(),
            forall|k: int| 0 <= k < i ==> ids@[k] != id,
        decreases ids@.len() - i,
    {
        if ids[i] == id {
            return true;
        }
        i = i + 1;
    }
    false
}

proof fn lemma_filter_start(s: Seq<Track>, keep: spec_fn(Track) -> bool)
    ensures
        s.take(0).filter(keep) == Seq::<Track>::empty(),
{
    reveal(Seq::filter);
    assert(s.take(0) =~= Seq::<Track>::empty());
}

proof fn lemma_filter_step(s: Seq<Track>, keep: spec_fn(Track) -> bool, i: int)
    requires
        0 <= i < s.len(),
    ensures
        s.take(i + 1).filter(keep) == (if keep(s[i]) {
            s.take(i).filter(keep).push(s[i])
        } else {
            s.take(i).filter(keep)
        }),
{
    reveal(Seq::filter);
    assert(s.take(i + 1).drop_last() =~= s.take(i));
}

proof fn lemma_ids_filter_start(s: Seq<i64>, keep: spec_fn(i64) -> bool)
    ensures
        s.take(0).filter(keep) == Seq::<i64>::empty(),
{
    reveal(Seq::filter);
    assert(s.take(0) =~= Seq::<i64>::empty());
}

proof fn lemma_ids_filter_step(s: Seq<i64>, keep: spec_fn(i64) -> bool, i: int)
    requires
        0 <= i < s.len(),
    ensures
        s.take(i + 1).filter(keep) == (if keep(s[i]) {
            s.take(i).filter(keep).push(s[i])
        } else {
            s.take(i).filter(keep)
        }),
{
    reveal(Seq::filter);
    assert(s.take(i + 1).drop_last() =~= s.take(i));
}

proof fn lemma_arranged_step(list: Seq<Track>, track: Track, order: Order)
    ensures
        arranged(list.push(track), order) == placed(arranged(list, order), track, order),
{
    assert(list.push(track).drop_last() =~= list);
}

/// The members of one more element taken.
proof fn lemma_taken_members(s: Seq<i64>, k: int, x: int)
    requires
        0 <= k < s.len(),
    ensures
        numbers_of(s.take(k + 1)).contains(x) <==> numbers_of(s.take(k)).contains(x) || x == s[k],
{
    let a = s.take(k);
    let b = s.take(k + 1);
    if numbers_of(b).contains(x) {
        let i = choose|i: int| 0 <= i < b.len() && #[trigger] b[i] == x;
        if i < k {
            assert(a[i] == x);
        }
    }
    if numbers_of(a).contains(x) {
        let i = choose|i: int| 0 <= i < a.len() && #[trigger] a[i] == x;
        assert(b[i] == x);
    }
    assert(b[k] == s[k]);
}

/// A new track behind the others.
proof fn lemma_pushed_keeps_ids(tracks: Seq<Track>, track: Track)
    requires
        increasing(tracks),
        track.id > 0,
        tracks.len() > 0 ==> track.id > tracks.last().id,
    ensures
        increasing(tracks.push(track)),
        forall|id: i64| #[trigger]
            ids_of(tracks).contains(id) ==> ids_of(tracks.push(track)).contains(id),
{
    let out = tracks.push(track);
    assert forall|i: int, j: int| 0 <= i < j < out.len() implies out[i].id < out[j].id by {
        if j == tracks.len() {
            if i < tracks.len() - 1 {
                assert(tracks[i].id < tracks[tracks.len() - 1].id);
            }
        }
    }
    assert forall|id: i64| #[trigger] ids_of(tracks).contains(id) implies ids_of(out).contains(
        id,
    ) by {
        let i = choose|i: int| 0 <= i < ids_of(tracks).len() && ids_of(tracks)[i] == id;
        assert(ids_of(out)[i] == id);
    }
}

/// What is kept of an increasing list goes up as well, and is what was to be
/// kept.
proof fn lemma_kept_tracks(tracks: Seq<Track>, gone: Seq<i64>)
    requires
        increasing(tracks),
    ensures
        ({
            let kept = tracks.filter(|t: Track| !gone.contains(t.id));
            &&& increasing(kept)
            &&& kept.len() <= tracks.len()
            &&& forall|i: int| 0 <= i < kept.len() ==> tracks.contains(#[trigger] kept[i])
            &&& forall|id: i64| #[trigger]
                ids_of(kept).contains(id) <==> ids_of(tracks).contains(id) && !gone.contains(id)
        }),
    decreases tracks.len(),
{
    reveal(Seq::filter);
    let keep = |t: Track| !gone.contains(t.id);
    let kept = tracks.filter(keep);
    if tracks.len() > 0 {
        let front = tracks.drop_last();
        let last = tracks.last();
        assert(increasing(front)) by {
            assert forall|k: int| 0 <= k < front.len() implies (#[trigger] front[k]).id > 0 by {
                assert(front[k] == tracks[k]);
            }
        }
        lemma_kept_tracks(front, gone);
        let before_last = front.filter(keep);
        assert forall|i: int| 0 <= i < before_last.len() implies (#[trigger] before_last[i]).id
            < last.id && tracks.contains(before_last[i]) by {
            assert(front.contains(before_last[i]));
            let k = choose|k: int| 0 <= k < front.len() && front[k] == before_last[i];
            assert(tracks[k] == before_last[i]);
        }
        assert(tracks[tracks.len() - 1] == last);
        assert(tracks[tracks.len() - 1].id > 0);
        assert forall|id: i64| #[trigger] ids_of(kept).contains(id) <==> ids_of(tracks).contains(
            id,
        ) && !gone.contains(id) by {
            lemma_ids(kept, id);
            lemma_ids(tracks, id);
            lemma_ids(front, id);
            lemma_ids(before_last, id);
            if ids_of(tracks).contains(id) {
                let k = choose|k: int| 0 <= k < tracks.len() && (#[trigger] tracks[k]).id == id;
                if k < front.len() {
                    assert(front[k].id == id);
                }
            }
            if ids_of(front).contains(id) {
                let k = choose|k: int| 0 <= k < front.len() && (#[trigger] front[k]).id == id;
                assert(tracks[k].id == id);
            }
            if ids_of(before_last).contains(id) {
                let k = choose|k: int|
                    0 <= k < before_last.len() && (#[trigger] before_last[k]).id == id;
                assert(kept[k].id == id);
            }
            if ids_of(kept).contains(id) {
                let k = choose|k: int| 0 <= k < kept.len() && (#[trigger] kept[k]).id == id;
                if k < before_last.len() {
                    assert(before_last[k].id == id);
                }
            }
            if keep(last) {
                assert(kept[kept.len() - 1] == last);
            }
        }
        if keep(last) {
            assert forall|i: int, j: int| 0 <= i < j < kept.len() implies kept[i].id
                < kept[j].id by {
                if j < before_last.len() {
                    assert(before_last[i].id < before_last[j].id);
                } else {
                    assert(kept[i] == before_last[i]);
                }
            }
        }
    }
}

/// Every row that is kept was there, and was to be kept.
proof fn lemma_kept_ids(s: Seq<i64>, keep: spec_fn(i64) -> bool)
    ensures
        forall|i: int|
            0 <= i < s.filter(keep).len() ==> s.contains(#[trigger] s.filter(keep)[i]) && keep(
                s.filter(keep)[i],
            ),
        s.filter(keep).len() <= s.len(),
    decreases s.len(),
{
    reveal(Seq::filter);
    if s.len() > 0 {
        let front = s.drop_last();
        lemma_kept_ids(front, keep);
        let kept = front.filter(keep);
        let out = s.filter(keep);
        assert forall|i: int| 0 <= i < out.len() implies s.contains(#[trigger] out[i]) && keep(
            out[i],
        ) by {
            if i < kept.len() {
                assert(out[i] == kept[i]);
                let k = choose|k: int| 0 <= k < front.len() && front[k] == kept[i];
                assert(s[k] == out[i]);
            } else {
                assert(s[s.len() - 1] == out[i]);
            }
        }
    }
}

proof fn lemma_without_wf(s: StoreView, gone: Seq<i64>)
    requires
        s.wf(),
    ensures
        s.without(gone).wf(),
{
    let out = s.without(gone);
    let keep = |id: i64| !gone.contains(id);
    lemma_kept_tracks(s.tracks, gone);
    lemma_kept_ids(s.queue, keep);
    assert forall|i: int| 0 <= i < out.queue.len() implies ids_of(out.tracks).contains(
        #[trigger] out.queue[i],
    ) by {
        let id = out.queue[i];
        assert(s.queue.contains(id) && keep(id));
        let k = choose|k: int| 0 <= k < s.queue.len() && s.queue[k] == id;
        assert(ids_of(s.tracks).contains(s.queue[k]));
    }
    assert forall|id: int| #[trigger] out.resume.dom().contains(id) implies i64::MIN <= id
        <= i64::MAX && ids_of(out.tracks).contains(id as i64) by {
        assert(s.resume.dom().contains(id) && !numbers_of(gone).contains(id));
        if gone.contains(id as i64) {
            let i = choose|i: int| 0 <= i < gone.len() && gone[i] == id as i64;
            assert(gone[i] == id);
        }
    }
}

proof fn lemma_queued_wf(s: StoreView, items: Seq<i64>, current: Option<usize>)
    requires
        s.wf(),
    ensures
        s.queued(items, current).wf(),
{
    let alive = ids_of(s.tracks);
    lemma_kept_ids(items, |id: i64| alive.contains(id));
}

/// A folder put where it belongs keeps the list in order.
proof fn lemma_folder_added(list: Seq<Seq<char>>, path: Seq<char>, i: int)
    requires
        ranked(list),
        0 <= i <= list.len(),
        forall|k: int| 0 <= k < i ==> before(#[trigger] list[k], path),
        i < list.len() ==> before(path, list[i]),
    ensures
        ranked(list.insert(i, path)),
        forall|f: Seq<char>| #[trigger]
            list.insert(i, path).contains(f) <==> list.contains(f) || f == path,
{
    let out = list.insert(i, path);
    assert forall|k: int| i <= k < list.len() implies before(path, #[trigger] list[k]) by {
        if k > i {
            lemma_before_transitive(path, list[i], list[k]);
        }
    }
    assert forall|a: int, b: int| 0 <= a < b < out.len() implies before(out[a], out[b]) by {
        if b < i {
            assert(out[a] == list[a] && out[b] == list[b]);
        } else if b == i {
            assert(out[a] == list[a]);
        } else if a < i {
            assert(out[a] == list[a] && out[b] == list[b - 1]);
        } else if a == i {
            assert(out[b] == list[b - 1]);
        } else {
            assert(out[a] == list[a - 1] && out[b] == list[b - 1]);
        }
    }
    assert forall|f: Seq<char>| #[trigger] out.contains(f) <==> list.contains(f) || f == path by {
        if out.contains(f) {
            let k = choose|k: int| 0 <= k < out.len() && out[k] == f;
            if k < i {
                assert(list[k] == f);
            } else if k > i {
                assert(list[k - 1] == f);
            }
        }
        if list.contains(f) {
            let k = choose|k: int| 0 <= k < list.len() && list[k] == f;
            if k < i {
                assert(out[k] == f);
            } else {
                assert(out[k + 1] == f);
            }
        }
        assert(out[i] == path);
    }
}

proof fn lemma_folder_removed(list: Seq<Seq<char>>, i: int)
    requires
        ranked(list),
        0 <= i < list.len(),
    ensures
        ranked(list.remove(i)),
        forall|f: Seq<char>| #[trigger]
            list.remove(i).contains(f) <==> list.contains(f) && f != list[i],
{
    let out = list.remove(i);
    assert forall|a: int, b: int| 0 <= a < b < out.len() implies before(out[a], out[b]) by {
        let x = if a < i {
            a
        } else {
            a + 1
        };
        let y = if b < i {
            b
        } else {
            b + 1
        };
        assert(out[a] == list[x] && out[b] == list[y]);
    }
    assert forall|f: Seq<char>| #[trigger] out.contains(f) <==> list.contains(f) && f
        != list[i] by {
        if out.contains(f) {
            let k = choose|k: int| 0 <= k < out.len() && out[k] == f;
            if k < i {
                assert(list[k] == f);
                lemma_before_antisymmetric(list[k], list[i]);
            } else {
                assert(list[k + 1] == f);
                lemma_before_antisymmetric(list[i], list[k + 1]);
            }
        }
        if list.contains(f) && f != list[i] {
            let k = choose|k: int| 0 <= k < list.len() && list[k] == f;
            if k < i {
                assert(out[k] == f);
            } else {
                assert(out[k - 1] == f);
            }
        }
    }
}

/// A folder that is not where it belongs is not watched.
proof fn lemma_folder_absent(list: Seq<Seq<char>>, path: Seq<char>, i: int)
    requires
        ranked(list),
        0 <= i <= list.len(),
        forall|k: int| 0 <= k < i ==> before(#[trigger] list[k], path),
        i < list.len() ==> !before(list[i], path) && list[i] != path,
    ensures
        !list.contains(path),
{
    if list.contains(path) {
        let k = choose|k: int| 0 <= k < list.len() && list[k] == path;
        if k < i {
            lemma_before_antisymmetric(list[k], path);
        } else if k > i {
            assert(before(list[i], list[k]));
        }
    }
}

/// The library's state.
#[derive(Debug)]
pub struct Store {
    tracks: Vec<Track>,
    resume: Numbered<Fixed>,
    folders: Vec<String>,
    queue: Vec<i64>,
    settings: Named<String>,
}

impl View for Store {
    type V = StoreView;

    closed spec fn view(&self) -> StoreView {
        StoreView {
            tracks: self.tracks@,
            resume: self.resume@,
            folders: texts(self.folders@),
            queue: self.queue@,
            settings: text_values(self.settings@),
        }
    }
}

fn contains_text(text: &str, needle: &[char]) -> (r: bool)
    ensures
        r == holds(text@, needle@),
{
    let chars = chars_of(text);
    let low = lower(needle);
    let n: usize = chars.len();
    let m: usize = needle.len();
    if m > n {
        return false;
    }
    let mut i: usize = 0;
    while i <= n - m
        invariant
            m <= n,
            i <= n - m + 1,
            n == chars@.len(),
            m == needle@.len(),
            chars@ == text@,
            low@ == lowered(needle@),
            forall|k: int|
                0 <= k < i ==> lowered(#[trigger] text@.subrange(k, k + needle@.len()))
                    != lowered(needle@),
        decreases n - m + 1 - i,
    {
        let part = vstd::slice::slice_subrange(chars.as_slice(), i, i + m);
        assert(part@ =~= text@.subrange(i as int, i + needle@.len()));
        let part_low = lower(part);
        if same(part_low.as_slice(), low.as_slice()) {
            return true;
        }
        if i == n - m {
            return false;
        }
        i = i + 1;
    }
    false
}

fn option_contains(text: &Option<String>, needle: &[char]) -> (r: bool)
    ensures
        r == holds_text(*text, needle@),
{
    match text {
        Some(t) => contains_text(t.as_str(), needle),
        None => false,
    }
}

fn is_match(track: &Track, needle: &[char]) -> (r: bool)
    ensures
        r == matches_query(*track, needle@),
{
    contains_text(track.path.as_str(), needle) || option_contains(&track.title, needle)
        || option_contains(&track.artist, needle) || option_contains(&track.album, needle)
}

/// A folder's name with one slash behind it.
fn folder_prefix(folder: &str) -> (r: Vec<char>)
    ensures
        r@ == unslashed(folder@).push('/'),
{
    let mut chars = chars_of(folder);
    while chars.len() > 0 && chars[chars.len() - 1] == '/'
        invariant
            unslashed(chars@) == unslashed(folder@),
        decreases chars@.len(),
    {
        chars.pop();
    }
    chars.push('/');
    chars
}

fn is_inside(path: &str, prefix: &[char]) -> (r: bool)
    ensures
        r == (path@.len() >= prefix@.len() && path@.take(prefix@.len() as int) == prefix@),
{
    let chars = chars_of(path);
    if chars.len() < prefix.len() {
        return false;
    }
    let front = vstd::slice::slice_subrange(chars.as_slice(), 0, prefix.len());
    assert(front@ =~= path@.take(prefix@.len() as int));
    same(front, prefix)
}

fn is_ahead(order: Order, a: &Track, b: &Track) -> (r: bool)
    ensures
        r == ahead(order, *a, *b),
{
    match order {
        Order::Path => {
            let x = chars_of(a.path.as_str());
            let y = chars_of(b.path.as_str());
            is_before(x.as_slice(), y.as_slice())
        },
        Order::Recent => match (a.last_played_at, b.last_played_at) {
            (Some(x), Some(y)) => x > y || (x == y && a.id > b.id),
            (Some(_), None) => true,
            (None, Some(_)) => false,
            (None, None) => a.id > b.id,
        },
    }
}

/// Put a track in its place.
fn place(list: &mut Vec<Track>, track: Track, order: Order)
    ensures
        final(list)@ == placed(old(list)@, track, order),
    decreases old(list)@.len(),
{
    let n: usize = list.len();
    if n > 0 && is_ahead(order, &track, &list[n - 1]) {
        let last = list.pop().unwrap();
        assert(list@ =~= old(list)@.drop_last());
        place(list, track, order);
        list.push(last);
    } else {
        list.push(track);
    }
}

/// Drop what is past the limit.
fn limit_to(list: &mut Vec<Track>, limit: usize)
    ensures
        final(list)@ == limited(old(list)@, limit as nat),
{
    if limit < list.len() {
        list.truncate(limit);
        assert(list@ =~= old(list)@.take(limit as int));
    }
}

fn pick(a: &Option<String>, b: &Option<String>) -> (r: Option<String>)
    ensures
        r == or_else(*a, *b),
{
    match a {
        Some(t) => Some(t.clone()),
        None => copy_text(b),
    }
}

/// How many bytes a pattern may have.
pub const PATTERN_LIMIT: u128 = 50_000;

/// Whether a character of a text is escaped in the pattern that is made of it, so
/// that it stands for itself.
pub open spec fn is_escaped(c: char) -> bool {
    c == '%' || c == '_' || c == '\\'
}

/// How many bytes a character has.
pub open spec fn bytes_in(c: char) -> nat {
    if (c as u32) < 0x80 {
        1
    } else if (c as u32) < 0x800 {
        2
    } else if (c as u32) < 0x1_0000 {
        3
    } else {
        4
    }
}

/// How many bytes a text has in a pattern.
pub open spec fn pattern_bytes(s: Seq<char>) -> nat
    decreases s.len(),
{
    if s.len() == 0 {
        0
    } else {
        pattern_bytes(s.drop_last()) + bytes_in(s.last()) + (if is_escaped(s.last()) {
            1nat
        } else {
            0nat
        })
    }
}

/// Whether the pattern that is made of a text, with two characters added, is too
/// long to be matched.
pub open spec fn is_too_complex(s: Seq<char>) -> bool {
    pattern_bytes(s) + 2 > PATTERN_LIMIT
}

fn too_complex(s: &[char]) -> (r: bool)
    ensures
        r == is_too_complex(s@),
{
    let n: usize = s.len();
    let mut bytes: u128 = 0;
    let mut i: usize = 0;
    while i < n
        invariant
            i <= n == s@.len(),
            bytes == pattern_bytes(s@.take(i as int)),
            bytes <= 5 * i,
        decreases s@.len() - i,
    {
        let c: char = s[i];
        let code: u32 = c as u32;
        assert(s@.take(i as int + 1).drop_last() =~= s@.take(i as int));
        let escape: u128 = if c == '%' || c == '_' || c == '\\' {
            1
        } else {
            0
        };
        let width: u128 = if code < 0x80 {
            1
        } else if code < 0x800 {
            2
        } else if code < 0x1_0000 {
            3
        } else {
            4
        };
        bytes = bytes + width + escape;
        i = i + 1;
    }
    assert(s@.take(i as int) =~= s@);
    bytes + 2 > PATTERN_LIMIT
}

/// What is said of a pattern that is too long to be matched.
pub open spec fn pattern_refused() -> ErrorView {
    ErrorView::Storage { message: "LIKE or GLOB pattern too complex"@ }
}

fn storage(message: &str) -> (r: CoreError)
    ensures
        r@ == (ErrorView::Storage { message: message@ }),
{
    CoreError::Storage { message: message.to_owned() }
}

/// What is said of a position for a track that is not there.
pub open spec fn no_such_track() -> ErrorView {
    ErrorView::Storage { message: "FOREIGN KEY constraint failed"@ }
}

/// What a position that is not a number is refused with.
pub open spec fn no_position() -> ErrorView {
    ErrorView::Storage { message: "NOT NULL constraint failed: resume.position_secs"@ }
}

/// What is said when no id is left.
pub open spec fn no_id_left() -> ErrorView {
    ErrorView::Storage { message: "database or disk is full"@ }
}

impl Store {
    /// The tables hold one value for each key.
    pub closed spec fn sound(&self) -> bool {
        self.resume.wf() && self.settings.wf()
    }

    /// The rows belong together.
    pub open spec fn wf(&self) -> bool {
        self.sound() && self@.wf()
    }

    /// An empty store.
    pub fn in_memory() -> (r: Self)
        ensures
            r.wf(),
            r@ == StoreView::empty(),
    {
        let r = Store {
            tracks: Vec::new(),
            resume: Numbered::new(),
            folders: Vec::new(),
            queue: Vec::new(),
            settings: Named::new(),
        };
        assert(r@ =~= StoreView::empty());
        r
    }

    /// Where the track with an id is.
    fn place_of(&self, id: i64) -> (r: Option<usize>)
        requires
            increasing(self.tracks@),
        ensures
            match r {
                Some(i) => i < self.tracks@.len() && self.tracks@[i as int].id == id && with_id(
                    self.tracks@,
                    id,
                ) == Some(self.tracks@[i as int]) && ids_of(self.tracks@).contains(id),
                None => with_id(self.tracks@, id) is None && !ids_of(self.tracks@).contains(id)
                    && forall|i: int|
                    0 <= i < self.tracks@.len() ==> (#[trigger] self.tracks@[i]).id != id,
            },
    {
        let mut low: usize = 0;
        let mut high: usize = self.tracks.len();
        proof {
            lemma_ids(self.tracks@, id);
        }
        while low < high
            invariant
                increasing(self.tracks@),
                low <= high <= self.tracks@.len(),
                ids_of(self.tracks@).contains(id) <==> exists|i: int|
                    0 <= i < self.tracks@.len() && (#[trigger] self.tracks@[i]).id == id,
                forall|i: int| 0 <= i < low ==> (#[trigger] self.tracks@[i]).id < id,
                forall|i: int|
                    high <= i < self.tracks@.len() ==> (#[trigger] self.tracks@[i]).id > id,
            decreases high - low,
        {
            let mid: usize = low + (high - low) / 2;
            let here: i64 = self.tracks[mid].id;
            if here == id {
                proof {
                    lemma_with_id(self.tracks@, mid as int);
                }
                return Some(mid);
            } else if here < id {
                low = mid + 1;
            } else {
                high = mid;
            }
        }
        proof {
            lemma_without_id(self.tracks@, id);
        }
        None
    }

    /// Where the track of a file is.
    fn place_of_path(&self, path: &str) -> (r: Option<usize>)
        ensures
            match r {
                Some(i) => i < self.tracks@.len() && with_path(self.tracks@, path@) == Some(
                    self.tracks@[i as int],
                ),
                None => with_path(self.tracks@, path@) is None,
            },
    {
        let wanted = path.to_owned();
        let mut i: usize = self.tracks.len();
        assert(self.tracks@.take(i as int) =~= self.tracks@);
        while i > 0
            invariant
                i <= self.tracks@.len(),
                wanted@ == path@,
                with_path(self.tracks@, path@) == with_path(self.tracks@.take(i as int), path@),
            decreases i,
        {
            assert(self.tracks@.take(i as int).last() == self.tracks@[i as int - 1]);
            assert(self.tracks@.take(i as int).drop_last() =~= self.tracks@.take(i as int - 1));
            if self.tracks[i - 1].path == wanted {
                return Some(i - 1);
            }
            i = i - 1;
        }
        None
    }

    // ---- tracks ----------------------------------------------------------

    /// [`Store::upsert_track`], at a time.
    pub fn upsert_track_at(&mut self, file: &ScannedFile, probed: &Probed, now: i64) -> (r: Result<
        i64,
        CoreError,
    >)
        requires
            old(self).wf(),
        ensures
            final(self).wf(),
            match r {
                Ok(id) => id == old(self)@.upserted_id(*file) && final(self)@ == old(
                    self,
                )@.upserted(*file, *probed, now),
                Err(e) => old(self)@.upserted_id(*file) > i64::MAX && final(self)@ == old(self)@
                    && e@ == no_id_left(),
            },
    {
        match self.place_of_path(file.path.as_str()) {
            Some(i) => {
                let known = self.tracks[i].clone();
                let id: i64 = known.id;
                let track = Track {
                    id,
                    path: known.path.clone(),
                    size_bytes: file.size_bytes,
                    mtime: file.mtime,
                    title: pick(&probed.title, &known.title),
                    artist: pick(&probed.artist, &known.artist),
                    album: pick(&probed.album, &known.album),
                    duration_secs: match measure(probed.duration_secs) {
                        Some(d) => Some(d),
                        None => known.duration_secs,
                    },
                    has_video: probed.has_video,
                    added_at: known.added_at,
                    last_played_at: known.last_played_at,
                };
                assert(track == merged(known, *file, *probed));
                self.tracks.set(i, track);
                proof {
                    let f = |t: Track| merged(t, *file, *probed);
                    lemma_changed_keeps_ids(old(self).tracks@, id, f);
                    assert(self.tracks@ =~= changed(old(self).tracks@, id, f));
                    assert(self@ =~= old(self)@.upserted(*file, *probed, now));
                }
                Ok(id)
            },
            None => {
                let n: usize = self.tracks.len();
                let id: i64 = if n == 0 {
                    1
                } else {
                    let last: i64 = self.tracks[n - 1].id;
                    if last == i64::MAX {
                        return Err(storage("database or disk is full"));
                    }
                    last + 1
                };
                let track = Track {
                    id,
                    path: file.path.clone(),
                    size_bytes: file.size_bytes,
                    mtime: file.mtime,
                    title: copy_text(&probed.title),
                    artist: copy_text(&probed.artist),
                    album: copy_text(&probed.album),
                    duration_secs: measure(probed.duration_secs),
                    has_video: probed.has_video,
                    added_at: now,
                    last_played_at: None,
                };
                self.tracks.push(track);
                proof {
                    assert(self@ =~= old(self)@.upserted(*file, *probed, now));
                    lemma_pushed_keeps_ids(old(self).tracks@, track);
                }
                Ok(id)
            },
        }
    }

    /// Insert or update a file, returning its track id.
    ///
    /// What was learned before is only replaced by something that was learned
    /// now, so a failed probe never erases tags read on an earlier scan.
    pub fn upsert_track(&mut self, file: &ScannedFile, probed: &Probed) -> (r: Result<
        i64,
        CoreError,
    >)
        requires
            old(self).wf(),
        ensures
            final(self).wf(),
            match r {
                Ok(id) => id == old(self)@.upserted_id(*file) && exists|now: i64|
                    final(self)@ == #[trigger] old(self)@.upserted(*file, *probed, now),
                Err(e) => old(self)@.upserted_id(*file) > i64::MAX && final(self)@ == old(self)@
                    && e@ == no_id_left(),
            },
    {
        let now: i64 = now_unix();
        self.upsert_track_at(file, probed, now)
    }

    /// Learn a duration only discovered at playback time. What is no duration is
    /// not learned.
    pub fn set_duration(&mut self, track_id: i64, duration_secs: Fixed)
        requires
            old(self).wf(),
        ensures
            final(self).wf(),
            final(self)@ == (if duration_secs matches Fixed::Nanos(d) && d > 0 {
                old(self)@.with_tracks(
                    changed(
                        old(self)@.tracks,
                        track_id,
                        |t: Track| Track { duration_secs: Some(duration_secs), ..t },
                    ),
                )
            } else {
                old(self)@
            }),
    {
        match duration_secs {
            Fixed::Nanos(d) => {
                if d <= 0 {
                    return;
                }
            },
            _ => {
                return;
            },
        }
        let ghost f = |t: Track| Track { duration_secs: Some(duration_secs), ..t };
        proof {
            lemma_changed_keeps_ids(self.tracks@, track_id, f);
        }
        match self.place_of(track_id) {
            Some(i) => {
                let mut track = self.tracks[i].clone();
                track.duration_secs = Some(duration_secs);
                self.tracks.set(i, track);
                assert(self.tracks@ =~= changed(old(self).tracks@, track_id, f));
            },
            None => {
                assert(self.tracks@ =~= changed(old(self).tracks@, track_id, f));
            },
        }
        assert(self@.tracks == changed(old(self)@.tracks, track_id, f));
        assert(ids_of(self@.tracks) == ids_of(old(self)@.tracks));
        assert(self@ =~= old(self)@.with_tracks(self@.tracks));
    }

    pub fn track_by_id(&self, id: i64) -> (r: Option<Track>)
        requires
            self.wf(),
        ensures
            r == with_id(self@.tracks, id),
    {
        match self.place_of(id) {
            Some(i) => Some(self.tracks[i].clone()),
            None => None,
        }
    }

    pub fn track_by_path(&self, path: &str) -> (r: Option<Track>)
        ensures
            r == with_path(self@.tracks, path@),
    {
        match self.place_of_path(path) {
            Some(i) => Some(self.tracks[i].clone()),
            None => None,
        }
    }

    /// Existing id for a file whose size and modified time are unchanged.
    pub fn unchanged_track_id(&self, file: &ScannedFile) -> (r: Option<i64>)
        ensures
            r == (match with_path(self@.tracks, file.path@) {
                Some(t) => if is_unchanged(t, *file) {
                    Some(t.id)
                } else {
                    None
                },
                None => None,
            }),
    {
        match self.place_of_path(file.path.as_str()) {
            Some(i) => if same_file(&self.tracks[i], file) {
                Some(self.tracks[i].id)
            } else {
                None
            },
            None => None,
        }
    }

    /// Tracks whose path or tags hold a text, the recently played first. Where
    /// there is something to match, a text that is too long is refused.
    pub fn search(&self, query: &str, limit: usize) -> (r: Result<Vec<Track>, CoreError>)
        ensures
            match r {
                Ok(found) => !(self@.tracks.len() > 0 && limit > 0 && is_too_complex(
                    trimmed(query@),
                )) && found@ == self@.found(query@, limit as nat),
                Err(e) => self@.tracks.len() > 0 && limit > 0 && is_too_complex(
                    trimmed(query@),
                ) && e@ == pattern_refused(),
            },
    {
        let chars = chars_of(query);
        let needle = trim(chars.as_slice());
        if self.tracks.len() > 0 && limit > 0 && too_complex(needle) {
            return Err(storage("LIKE or GLOB pattern too complex"));
        }
        let ghost keep = |t: Track| matches_query(t, trimmed(query@));
        let mut out: Vec<Track> = Vec::new();
        let mut i: usize = 0;
        proof {
            lemma_filter_start(self.tracks@, keep);
        }
        while i < self.tracks.len()
            invariant
                i <= self.tracks@.len(),
                needle@ == trimmed(query@),
                keep == |t: Track| matches_query(t, trimmed(query@)),
                out@ == arranged(self.tracks@.take(i as int).filter(keep), Order::Recent),
            decreases self.tracks@.len() - i,
        {
            let hit: bool = is_match(&self.tracks[i], needle);
            proof {
                lemma_filter_step(self.tracks@, keep, i as int);
                lemma_arranged_step(
                    self.tracks@.take(i as int).filter(keep),
                    self.tracks@[i as int],
                    Order::Recent,
                );
            }
            if hit {
                place(&mut out, self.tracks[i].clone(), Order::Recent);
            }
            i = i + 1;
        }
        assert(self.tracks@.take(i as int) =~= self.tracks@);
        limit_to(&mut out, limit);
        Ok(out)
    }

    /// The tracks that have been played, the latest first.
    pub fn recents(&self, limit: usize) -> (r: Vec<Track>)
        ensures
            r@ == self@.last_played(limit as nat),
    {
        let ghost keep = |t: Track| t.last_played_at is Some;
        let mut out: Vec<Track> = Vec::new();
        let mut i: usize = 0;
        proof {
            lemma_filter_start(self.tracks@, keep);
        }
        while i < self.tracks.len()
            invariant
                i <= self.tracks@.len(),
                keep == |t: Track| t.last_played_at is Some,
                out@ == arranged(self.tracks@.take(i as int).filter(keep), Order::Recent),
            decreases self.tracks@.len() - i,
        {
            proof {
                lemma_filter_step(self.tracks@, keep, i as int);
                lemma_arranged_step(
                    self.tracks@.take(i as int).filter(keep),
                    self.tracks@[i as int],
                    Order::Recent,
                );
            }
            if self.tracks[i].last_played_at.is_some() {
                place(&mut out, self.tracks[i].clone(), Order::Recent);
            }
            i = i + 1;
        }
        assert(self.tracks@.take(i as int) =~= self.tracks@);
        limit_to(&mut out, limit);
        out
    }

    /// Every indexed track inside a folder, in path order.
    ///
    /// Path order is the closest thing a folder of files has to an intended
    /// sequence. Where there is something to match, a folder whose path is too long
    /// is refused.
    pub fn tracks_under(&self, folder: &str) -> (r: Result<Vec<Track>, CoreError>)
        ensures
            match r {
                Ok(found) => !(self@.tracks.len() > 0 && is_too_complex(unslashed(folder@)))
                    && found@ == self@.under(folder@),
                Err(e) => self@.tracks.len() > 0 && is_too_complex(unslashed(folder@)) && e@
                    == pattern_refused(),
            },
    {
        let prefix = folder_prefix(folder);
        let bare = vstd::slice::slice_subrange(prefix.as_slice(), 0, prefix.len() - 1);
        assert(bare@ =~= unslashed(folder@));
        if self.tracks.len() > 0 && too_complex(bare) {
            return Err(storage("LIKE or GLOB pattern too complex"));
        }
        let ghost keep = |t: Track| inside(t.path@, folder@);
        let mut out: Vec<Track> = Vec::new();
        let mut i: usize = 0;
        proof {
            lemma_filter_start(self.tracks@, keep);
        }
        while i < self.tracks.len()
            invariant
                i <= self.tracks@.len(),
                prefix@ == unslashed(folder@).push('/'),
                keep == |t: Track| inside(t.path@, folder@),
                out@ == arranged(self.tracks@.take(i as int).filter(keep), Order::Path),
            decreases self.tracks@.len() - i,
        {
            proof {
                lemma_filter_step(self.tracks@, keep, i as int);
                lemma_arranged_step(
                    self.tracks@.take(i as int).filter(keep),
                    self.tracks@[i as int],
                    Order::Path,
                );
            }
            if is_inside(self.tracks[i].path.as_str(), prefix.as_slice()) {
                place(&mut out, self.tracks[i].clone(), Order::Path);
            }
            i = i + 1;
        }
        assert(self.tracks@.take(i as int) =~= self.tracks@);
        Ok(out)
    }

    /// The tracks in path order.
    pub fn all_tracks(&self, limit: usize) -> (r: Vec<Track>)
        ensures
            r@ == self@.by_path(limit as nat),
    {
        let mut out: Vec<Track> = Vec::new();
        let mut i: usize = 0;
        while i < self.tracks.len()
            invariant
                i <= self.tracks@.len(),
                out@ == arranged(self.tracks@.take(i as int), Order::Path),
            decreases self.tracks@.len() - i,
        {
            proof {
                lemma_arranged_step(
                    self.tracks@.take(i as int),
                    self.tracks@[i as int],
                    Order::Path,
                );
                assert(self.tracks@.take(i as int + 1) =~= self.tracks@.take(i as int).push(
                    self.tracks@[i as int],
                ));
            }
            place(&mut out, self.tracks[i].clone(), Order::Path);
            i = i + 1;
        }
        assert(self.tracks@.take(i as int) =~= self.tracks@);
        limit_to(&mut out, limit);
        out
    }

    pub fn track_count(&self) -> (r: usize)
        ensures
            r == self@.tracks.len(),
    {
        self.tracks.len()
    }

    /// Every track, for the host to look after its file or to keep.
    pub fn tracks(&self) -> (r: &Vec<Track>)
        ensures
            r@ == self@.tracks,
    {
        &self.tracks
    }

    /// [`Store::mark_played`], at a time.
    pub fn mark_played_at(&mut self, track_id: i64, now: i64)
        requires
            old(self).wf(),
        ensures
            final(self).wf(),
            final(self)@ == old(self)@.with_tracks(played(old(self)@.tracks, track_id, now)),
    {
        let ghost f = |t: Track| Track { last_played_at: Some(now), ..t };
        proof {
            lemma_changed_keeps_ids(self.tracks@, track_id, f);
        }
        match self.place_of(track_id) {
            Some(i) => {
                let mut track = self.tracks[i].clone();
                track.last_played_at = Some(now);
                self.tracks.set(i, track);
                assert(self.tracks@ =~= changed(old(self).tracks@, track_id, f));
            },
            None => {
                assert(self.tracks@ =~= changed(old(self).tracks@, track_id, f));
            },
        }
        assert(self@.tracks == changed(old(self)@.tracks, track_id, f));
        assert(ids_of(self@.tracks) == ids_of(old(self)@.tracks));
        assert(self@ =~= old(self)@.with_tracks(self@.tracks));
    }

    /// Note that a track was played just now.
    pub fn mark_played(&mut self, track_id: i64)
        requires
            old(self).wf(),
        ensures
            final(self).wf(),
            exists|now: i64|
                final(self)@ == old(self)@.with_tracks(
                    #[trigger] played(old(self)@.tracks, track_id, now),
                ),
    {
        let now: i64 = now_unix();
        self.mark_played_at(track_id, now);
    }

    /// Drop the tracks whose files are gone, with their positions and queue rows.
    /// How many were dropped.
    pub fn forget_missing(&mut self, gone: &[i64]) -> (r: usize)
        requires
            old(self).wf(),
        ensures
            final(self).wf(),
            final(self)@ == old(self)@.without(gone@),
            r == old(self)@.tracks.len() - final(self)@.tracks.len(),
    {
        let ghost keep = |t: Track| !gone@.contains(t.id);
        let mut tracks: Vec<Track> = Vec::new();
        let mut i: usize = 0;
        proof {
            lemma_filter_start(self.tracks@, keep);
        }
        while i < self.tracks.len()
            invariant
                i <= self.tracks@.len(),
                *self == *old(self),
                keep == |t: Track| !gone@.contains(t.id),
                tracks@ == self.tracks@.take(i as int).filter(keep),
                tracks@.len() <= i,
            decreases self.tracks@.len() - i,
        {
            proof {
                lemma_filter_step(self.tracks@, keep, i as int);
            }
            if !listed(self.tracks[i].id, gone) {
                tracks.push(self.tracks[i].clone());
            }
            i = i + 1;
        }
        assert(self.tracks@.take(i as int) =~= self.tracks@);
        let dropped: usize = self.tracks.len() - tracks.len();
        let ghost keep_row = |id: i64| !gone@.contains(id);
        let mut queue: Vec<i64> = Vec::new();
        let mut j: usize = 0;
        proof {
            lemma_ids_filter_start(self.queue@, keep_row);
        }
        while j < self.queue.len()
            invariant
                j <= self.queue@.len(),
                *self == *old(self),
                keep_row == |id: i64| !gone@.contains(id),
                queue@ == self.queue@.take(j as int).filter(keep_row),
            decreases self.queue@.len() - j,
        {
            proof {
                lemma_ids_filter_step(self.queue@, keep_row, j as int);
            }
            if !listed(self.queue[j], gone) {
                queue.push(self.queue[j]);
            }
            j = j + 1;
        }
        assert(self.queue@.take(j as int) =~= self.queue@);
        let mut k: usize = 0;
        assert(self.resume@.remove_keys(numbers_of(gone@.take(0))) =~= self.resume@);
        while k < gone.len()
            invariant
                k <= gone@.len(),
                self.resume.wf(),
                self.settings == old(self).settings,
                self.tracks == old(self).tracks,
                self.queue == old(self).queue,
                self.folders == old(self).folders,
                self.resume@ == old(self).resume@.remove_keys(numbers_of(gone@.take(k as int))),
            decreases gone@.len() - k,
        {
            self.resume.remove(gone[k] as i128);
            proof {
                let a = gone@.take(k as int);
                let b = gone@.take(k as int + 1);
                assert forall|x: int| numbers_of(b).contains(x) <==> numbers_of(a).contains(x) || x
                    == gone@[k as int] by {
                    lemma_taken_members(gone@, k as int, x);
                }
                assert(self.resume@ =~= old(self).resume@.remove_keys(numbers_of(b)));
            }
            k = k + 1;
        }
        assert(gone@.take(k as int) =~= gone@);
        self.tracks = tracks;
        self.queue = queue;
        proof {
            assert(self@ =~= old(self)@.without(gone@));
            lemma_without_wf(old(self)@, gone@);
        }
        dropped
    }

    /// Which of these tracks are there, in the order given.
    pub fn existing_track_ids(&self, ids: &[i64]) -> (r: Vec<i64>)
        requires
            self.wf(),
        ensures
            r@ == ids@.filter(|id: i64| ids_of(self@.tracks).contains(id)),
    {
        let ghost keep = |id: i64| ids_of(self@.tracks).contains(id);
        let mut out: Vec<i64> = Vec::new();
        let mut i: usize = 0;
        proof {
            lemma_ids_filter_start(ids@, keep);
        }
        while i < ids.len()
            invariant
                i <= ids@.len(),
                self.wf(),
                keep == |id: i64| ids_of(self@.tracks).contains(id),
                out@ == ids@.take(i as int).filter(keep),
            decreases ids@.len() - i,
        {
            proof {
                lemma_ids_filter_step(ids@, keep, i as int);
            }
            if self.place_of(ids[i]).is_some() {
                out.push(ids[i]);
            }
            i = i + 1;
        }
        assert(ids@.take(i as int) =~= ids@);
        out
    }

    // ---- resume ----------------------------------------------------------

    /// Remember a position. It has to be a number, and the track has to be there.
    pub fn set_resume(&mut self, track_id: i64, position_secs: Fixed) -> (r: Result<(), CoreError>)
        requires
            old(self).wf(),
        ensures
            final(self).wf(),
            match r {
                Ok(()) => position_secs !is NaN && ids_of(old(self)@.tracks).contains(track_id)
                    && final(self)@ == (StoreView {
                    resume: old(self)@.resume.insert(track_id as int, position_secs),
                    ..old(self)@
                }),
                Err(e) => (position_secs is NaN || !ids_of(old(self)@.tracks).contains(track_id))
                    && final(self)@ == old(self)@ && e@ == (if position_secs is NaN {
                    no_position()
                } else {
                    no_such_track()
                }),
            },
    {
        if let Fixed::NaN = position_secs {
            return Err(storage("NOT NULL constraint failed: resume.position_secs"));
        }
        if self.place_of(track_id).is_none() {
            return Err(storage("FOREIGN KEY constraint failed"));
        }
        self.resume.set(track_id as i128, position_secs);
        assert(self@ =~= (StoreView {
            resume: old(self)@.resume.insert(track_id as int, position_secs),
            ..old(self)@
        }));
        Ok(())
    }

    pub fn resume_for(&self, track_id: i64) -> (r: Option<Fixed>)
        requires
            self.wf(),
        ensures
            r == (if self@.resume.dom().contains(track_id as int) {
                Some(self@.resume[track_id as int])
            } else {
                None
            }),
    {
        match self.resume.get(track_id as i128) {
            Some(position) => Some(*position),
            None => None,
        }
    }

    pub fn clear_resume(&mut self, track_id: i64)
        requires
            old(self).wf(),
        ensures
            final(self).wf(),
            final(self)@ == (StoreView {
                resume: old(self)@.resume.remove(track_id as int),
                ..old(self)@
            }),
    {
        self.resume.remove(track_id as i128);
        assert(self@ =~= (StoreView {
            resume: old(self)@.resume.remove(track_id as int),
            ..old(self)@
        }));
    }

    /// The remembered positions, for the host to keep.
    pub fn positions(&self) -> (r: &Vec<(i128, Fixed)>)
        ensures
            numbers(r@) == self@.resume,
    {
        self.resume.rows()
    }

    // ---- folders ---------------------------------------------------------

    /// The first watched folder that does not stand before a path.
    fn folder_place(&self, path: &[char]) -> (r: usize)
        requires
            ranked(texts(self.folders@)),
        ensures
            r <= self.folders@.len(),
            forall|i: int| 0 <= i < r ==> before(#[trigger] texts(self.folders@)[i], path@),
            r < self.folders@.len() ==> !before(texts(self.folders@)[r as int], path@),
    {
        let mut i: usize = 0;
        while i < self.folders.len()
            invariant
                i <= self.folders@.len(),
                forall|k: int| 0 <= k < i ==> before(#[trigger] texts(self.folders@)[k], path@),
            decreases self.folders@.len() - i,
        {
            let here = chars_of(self.folders[i].as_str());
            assert(texts(self.folders@)[i as int] == here@);
            if !is_before(here.as_slice(), path) {
                return i;
            }
            i = i + 1;
        }
        i
    }

    /// Watch a folder. Watching it twice is watching it once.
    pub fn add_folder(&mut self, path: &str)
        requires
            old(self).wf(),
        ensures
            final(self).wf(),
            final(self)@ == (StoreView { folders: final(self)@.folders, ..old(self)@ }),
            forall|f: Seq<char>| #[trigger]
                final(self)@.folders.contains(f) <==> old(self)@.folders.contains(f) || f
                    == path@,
    {
        let chars = chars_of(path);
        let i: usize = self.folder_place(chars.as_slice());
        let ghost list = texts(self.folders@);
        let wanted = path.to_owned();
        if i < self.folders.len() && self.folders[i] == wanted {
            assert(list[i as int] == path@);
            assert(list.contains(path@));
            return;
        }
        self.folders.insert(i, wanted);
        proof {
            assert(texts(self.folders@) =~= list.insert(i as int, path@));
            if i < list.len() {
                assert(list[i as int] != path@);
                lemma_before_total(list[i as int], path@);
            }
            lemma_folder_added(list, path@, i as int);
        }
    }

    /// Stop watching a folder; whether it was watched.
    pub fn remove_folder(&mut self, path: &str) -> (r: bool)
        requires
            old(self).wf(),
        ensures
            final(self).wf(),
            r == old(self)@.folders.contains(path@),
            final(self)@ == (StoreView { folders: final(self)@.folders, ..old(self)@ }),
            forall|f: Seq<char>| #[trigger]
                final(self)@.folders.contains(f) <==> old(self)@.folders.contains(f) && f
                    != path@,
    {
        let chars = chars_of(path);
        let i: usize = self.folder_place(chars.as_slice());
        let ghost list = texts(self.folders@);
        let wanted = path.to_owned();
        if i < self.folders.len() && self.folders[i] == wanted {
            self.folders.remove(i);
            proof {
                assert(list[i as int] == path@);
                assert(list.contains(path@));
                assert(texts(self.folders@) =~= list.remove(i as int));
                lemma_folder_removed(list, i as int);
            }
            true
        } else {
            proof {
                lemma_folder_absent(list, path@, i as int);
            }
            false
        }
    }

    /// The watched folders, in path order.
    pub fn folders(&self) -> (r: &Vec<String>)
        ensures
            texts(r@) == self@.folders,
    {
        &self.folders
    }

    // ---- queue -----------------------------------------------------------

    /// Store the queue. A row whose track is gone is not written: a deleted file
    /// must not break saving. The current row follows its track.
    pub fn save_queue(&mut self, items: &[i64], current: Option<usize>)
        requires
            old(self).wf(),
        ensures
            final(self).wf(),
            final(self)@ == old(self)@.queued(items@, current),
    {
        let ghost alive = ids_of(self@.tracks);
        let ghost keep = |id: i64| alive.contains(id);
        let mut queue: Vec<i64> = Vec::new();
        let mut index: Option<usize> = None;
        let mut i: usize = 0;
        proof {
            lemma_ids_filter_start(items@, keep);
        }
        while i < items.len()
            invariant
                i <= items@.len(),
                self.wf(),
                *self == *old(self),
                alive == ids_of(self@.tracks),
                keep == |id: i64| alive.contains(id),
                queue@ == items@.take(i as int).filter(keep),
                index == (match current {
                    Some(c) => if c < i && alive.contains(items@[c as int]) {
                        Some(kept_before(items@, alive, c as int) as usize)
                    } else {
                        None
                    },
                    None => None,
                }),
            decreases items@.len() - i,
        {
            proof {
                lemma_ids_filter_step(items@, keep, i as int);
            }
            if self.place_of(items[i]).is_some() {
                if current == Some(i) {
                    index = Some(queue.len());
                }
                queue.push(items[i]);
            }
            i = i + 1;
        }
        assert(items@.take(i as int) =~= items@);
        if let Some(c) = current {
            if c >= items.len() {
                index = Some(c);
            }
        }
        let text = match index {
            Some(c) => print(c as u128),
            None => Vec::new(),
        };
        let value = string_of(text.as_slice());
        assert(value@ =~= index_text(index));
        self.queue = queue;
        self.settings.set("queue_index", value);
        proof {
            assert(self@.settings =~= old(self)@.settings.insert("queue_index"@, value@));
            assert(self@ =~= old(self)@.queued(items@, current));
            lemma_queued_wf(old(self)@, items@, current);
        }
    }

    /// The stored queue and its current row. A row past the end, or a text that is
    /// no number, is ignored.
    pub fn load_queue(&self) -> (r: (Vec<i64>, Option<usize>))
        requires
            self.wf(),
        ensures
            r.0@ == self@.queue,
            r.1 == self@.queue_index(),
    {
        let items = vstd::slice::slice_to_vec(self.queue.as_slice());
        let current: Option<usize> = match self.settings.get("queue_index") {
            Some(text) => {
                let chars = chars_of(text.as_str());
                match parse_upto(chars.as_slice(), usize::MAX as u64) {
                    Some(c) => if c < items.len() as u64 {
                        Some(c as usize)
                    } else {
                        None
                    },
                    None => None,
                }
            },
            None => None,
        };
        (items, current)
    }

    // ---- settings --------------------------------------------------------

    pub fn setting(&self, key: &str) -> (r: Option<String>)
        requires
            self.wf(),
        ensures
            text_view(r) == (if self@.settings.dom().contains(key@) {
                Some(self@.settings[key@])
            } else {
                None
            }),
    {
        match self.settings.get(key) {
            Some(value) => Some(value.clone()),
            None => None,
        }
    }

    pub fn set_setting(&mut self, key: &str, value: &str)
        requires
            old(self).wf(),
        ensures
            final(self).wf(),
            final(self)@ == (StoreView {
                settings: old(self)@.settings.insert(key@, value@),
                ..old(self)@
            }),
    {
        self.settings.set(key, value.to_owned());
        assert(self@.settings =~= old(self)@.settings.insert(key@, value@));
        assert(self@ =~= (StoreView {
            settings: old(self)@.settings.insert(key@, value@),
            ..old(self)@
        }));
    }

    /// The settings, for the host to keep.
    pub fn settings(&self) -> (r: &Vec<(String, String)>)
        ensures
            text_values(names(r@)) == self@.settings,
    {
        self.settings.rows()
    }

    /// A store of these rows. Positions and queue rows have to belong to tracks,
    /// and the tracks have to come by increasing id.
    pub fn restore(
        tracks: Vec<Track>,
        positions: &Vec<(i128, Fixed)>,
        folders: &Vec<String>,
        queue: Vec<i64>,
        settings: &Vec<(String, String)>,
    ) -> (r: Result<Self, CoreError>)
        ensures
            match r {
                Ok(s) => {
                    &&& s.wf()
                    &&& belong_together(tracks@, positions@, queue@)
                    &&& s@.tracks == tracks@
                    &&& s@.resume == numbers(positions@)
                    &&& s@.queue == queue@
                    &&& s@.settings == text_values(names(settings@))
                    &&& forall|f: Seq<char>| #[trigger]
                        s@.folders.contains(f) <==> texts(folders@).contains(f)
                },
                Err(e) => !belong_together(tracks@, positions@, queue@) && e@
                    == (ErrorView::Storage { message: "the stored rows do not belong together"@ }),
            },
    {
        let ghost all = tracks@;
        let mut i: usize = 0;
        while i < tracks.len()
            invariant
                i <= tracks@.len(),
                all == tracks@,
                increasing(tracks@.take(i as int)),
            decreases tracks@.len() - i,
        {
            let fits: bool = tracks[i].id > 0 && (i == 0 || tracks[i - 1].id < tracks[i].id);
            proof {
                let front = tracks@.take(i as int);
                assert(tracks@.take(i as int + 1) =~= front.push(tracks@[i as int]));
                if fits {
                    if i > 0 {
                        assert(front.last() == tracks@[i as int - 1]);
                    }
                    lemma_pushed_keeps_ids(front, tracks@[i as int]);
                } else if increasing(all) {
                    assert(all[i as int].id > 0);
                    assert(all[i as int - 1].id < all[i as int].id);
                }
            }
            if !fits {
                return Err(storage("the stored rows do not belong together"));
            }
            i = i + 1;
        }
        assert(tracks@.take(i as int) =~= tracks@);
        let mut store = Store::in_memory();
        store.tracks = tracks;
        assert(store@.wf());
        let mut j: usize = 0;
        while j < positions.len()
            invariant
                j <= positions@.len(),
                all == tracks@,
                store.wf(),
                store@.tracks == all,
                store@.queue == Seq::<i64>::empty(),
                store@.folders == Seq::<Seq<char>>::empty(),
                store@.settings == Map::<Seq<char>, Seq<char>>::empty(),
                store@.resume == numbers(positions@.take(j as int)),
                forall|k: int|
                    0 <= k < j ==> known(all, (#[trigger] positions@[k]).0 as int),
            decreases positions@.len() - j,
        {
            let (id, position): (i128, Fixed) = positions[j];
            if id < i64::MIN as i128 || id > i64::MAX as i128 || store.place_of(
                id as i64,
            ).is_none() {
                assert(!known(all, positions@[j as int].0 as int));
                return Err(storage("the stored rows do not belong together"));
            }
            store.resume.set(id, position);
            proof {
                assert(positions@.take(j as int + 1).drop_last() =~= positions@.take(j as int));
                assert(positions@.take(j as int + 1).last() == positions@[j as int]);
            }
            j = j + 1;
        }
        assert(positions@.take(j as int) =~= positions@);
        let mut k: usize = 0;
        while k < queue.len()
            invariant
                k <= queue@.len(),
                all == tracks@,
                store.wf(),
                store@.tracks == all,
                forall|m: int| 0 <= m < k ==> ids_of(all).contains(#[trigger] queue@[m]),
            decreases queue@.len() - k,
        {
            if store.place_of(queue[k]).is_none() {
                assert(!ids_of(all).contains(queue@[k as int]));
                return Err(storage("the stored rows do not belong together"));
            }
            k = k + 1;
        }
        store.queue = queue;
        let mut m: usize = 0;
        while m < settings.len()
            invariant
                m <= settings@.len(),
                store.wf(),
                store@.tracks == all,
                store@.queue == queue@,
                store@.folders == Seq::<Seq<char>>::empty(),
                store@.resume == numbers(positions@),
                store@.settings == text_values(names(settings@.take(m as int))),
            decreases settings@.len() - m,
        {
            let ghost had = store@.settings;
            store.settings.set(settings[m].0.as_str(), settings[m].1.clone());
            proof {
                assert(store@.settings =~= had.insert(
                    settings@[m as int].0@,
                    settings@[m as int].1@,
                ));
                assert(settings@.take(m as int + 1).drop_last() =~= settings@.take(m as int));
                assert(settings@.take(m as int + 1).last() == settings@[m as int]);
                assert(text_values(names(settings@.take(m as int + 1))) =~= had.insert(
                    settings@[m as int].0@,
                    settings@[m as int].1@,
                ));
            }
            m = m + 1;
        }
        assert(settings@.take(m as int) =~= settings@);
        let mut n: usize = 0;
        while n < folders.len()
            invariant
                n <= folders@.len(),
                store.wf(),
                store@.tracks == all,
                store@.queue == queue@,
                store@.resume == numbers(positions@),
                store@.settings == text_values(names(settings@)),
                forall|f: Seq<char>| #[trigger]
                    store@.folders.contains(f) <==> texts(folders@).take(n as int).contains(f),
            decreases folders@.len() - n,
        {
            let ghost seen = store@.folders;
            store.add_folder(folders[n].as_str());
            proof {
                let a = texts(folders@).take(n as int);
                let b = texts(folders@).take(n as int + 1);
                assert(b =~= a.push(folders@[n as int]@));
                assert forall|f: Seq<char>| #[trigger] store@.folders.contains(f) <==> b.contains(
                    f,
                ) by {
                    lemma_pushed_members(a, folders@[n as int]@, f);
                }
            }
            n = n + 1;
        }
        assert(texts(folders@).take(n as int) =~= texts(folders@));
        Ok(store)
    }
}

/// Whether a number is the id of a track.
pub open spec fn known(tracks: Seq<Track>, id: int) -> bool {
    i64::MIN <= id <= i64::MAX && ids_of(tracks).contains(id as i64)
}

/// Whether rows make up a store: ids go up from one, and positions and queue
/// rows belong to tracks.
pub open spec fn belong_together(
    tracks: Seq<Track>,
    positions: Seq<(i128, Fixed)>,
    queue: Seq<i64>,
) -> bool {
    &&& increasing(tracks)
    &&& forall|k: int|
        0 <= k < positions.len() ==> known(tracks, (#[trigger] positions[k]).0 as int)
    &&& forall|k: int| 0 <= k < queue.len() ==> ids_of(tracks).contains(#[trigger] queue[k])
}

proof fn lemma_pushed_members(a: Seq<Seq<char>>, x: Seq<char>, f: Seq<char>)
    ensures
        a.push(x).contains(f) <==> a.contains(f) || f == x,
{
    let b = a.push(x);
    if b.contains(f) {
        let i = choose|i: int| 0 <= i < b.len() && b[i] == f;
        if i < a.len() {
            assert(a[i] == f);
        }
    }
    if a.contains(f) {
        let i = choose|i: int| 0 <= i < a.len() && a[i] == f;
        assert(b[i] == f);
    }
    assert(b[a.len() as int] == x);
}

} // verus!
