//! What holds of the store across its operations.

use vstd::prelude::*;

use crate::fixed::Fixed;
use crate::number::{digits, law_number_round_trips, parsed_upto};
use crate::player_model::ids_of;
use crate::probe::Probed;
use crate::queue::{kept_before, lemma_kept_row};
use crate::store::{
    added, ahead, arranged, changed, fresh_id, holds, increasing, index_of_text, index_text, inside,
    is_unchanged, limited, matches_query, merged, numbers_of, placed, with_id, with_path, Order,
    ScannedFile, StoreView,
};
use crate::text::{lemma_before_antisymmetric, lowered, trimmed};
use crate::track::Track;

verus! {

/// A row's place, stored as text, reads back.
proof fn lemma_index_round_trips(current: Option<usize>, n: nat)
    requires
        current matches Some(c) ==> c < n,
    ensures
        index_of_text(index_text(current), n) == current,
{
    match current {
        Some(c) => {
            law_number_round_trips(c as nat, usize::MAX as nat);
        },
        None => {
            assert(parsed_upto(Seq::<char>::empty(), usize::MAX as nat) is None);
        },
    }
}

/// Rows that all belong to tracks are all kept.
proof fn lemma_all_kept(items: Seq<i64>, alive: Seq<i64>)
    requires
        forall|i: int| 0 <= i < items.len() ==> alive.contains(#[trigger] items[i]),
    ensures
        items.filter(|id: i64| alive.contains(id)) == items,
    decreases items.len(),
{
    reveal(Seq::filter);
    if items.len() > 0 {
        let front = items.drop_last();
        assert forall|i: int| 0 <= i < front.len() implies alive.contains(
            #[trigger] front[i],
        ) by {
            assert(front[i] == items[i]);
        }
        lemma_all_kept(front, alive);
        assert(alive.contains(items[items.len() - 1]));
        assert(front.push(items.last()) =~= items);
    } else {
        assert(items.filter(|id: i64| alive.contains(id)) =~= items);
    }
}

/// A queue whose tracks are all there loads back as it was saved, with the same
/// row current.
pub proof fn law_saved_queue_loads_back(s: StoreView, items: Seq<i64>, current: Option<usize>)
    requires
        forall|i: int| 0 <= i < items.len() ==> ids_of(s.tracks).contains(#[trigger] items[i]),
        current matches Some(c) ==> c < items.len(),
        items.len() <= usize::MAX,
    ensures
        s.queued(items, current).queue == items,
        s.queued(items, current).queue_index() == current,
{
    let alive = ids_of(s.tracks);
    lemma_all_kept(items, alive);
    if let Some(c) = current {
        let front = items.take(c as int);
        assert forall|i: int| 0 <= i < front.len() implies alive.contains(
            #[trigger] front[i],
        ) by {
            assert(front[i] == items[i]);
        }
        lemma_all_kept(front, alive);
        assert(kept_before(items, alive, c as int) == c);
        assert(alive.contains(items[c as int]));
    }
    lemma_index_round_trips(current, items.len());
}

/// Saving a queue that names tracks which are gone writes only rows whose track
/// is there, and the current row stays with its track.
pub proof fn law_saved_queue_follows_its_track(s: StoreView, items: Seq<i64>, c: usize)
    requires
        c < items.len(),
        items.len() <= usize::MAX,
    ensures
        ids_of(s.tracks).contains(items[c as int]) ==> {
            let loaded = s.queued(items, Some(c));
            &&& loaded.queue_index() is Some
            &&& loaded.queue[loaded.queue_index()->0 as int] == items[c as int]
        },
        !ids_of(s.tracks).contains(items[c as int]) ==> s.queued(items, Some(c)).queue_index()
            is None,
{
    let alive = ids_of(s.tracks);
    let loaded = s.queued(items, Some(c));
    if alive.contains(items[c as int]) {
        lemma_kept_row(items, alive, c as int, items.len() as int);
        assert(items.take(items.len() as int) =~= items);
        let place = kept_before(items, alive, c as int);
        lemma_shorter(items.take(c as int), |id: i64| alive.contains(id));
        lemma_index_round_trips(Some(place as usize), loaded.queue.len());
    } else {
        lemma_index_round_trips(None, loaded.queue.len());
    }
}

/// A current row that the queue does not have is stored as it is: it is read back
/// once the queue has grown to it. Storing a queue touches no other setting, and no
/// track, position or folder.
pub proof fn law_row_past_the_end_is_stored(s: StoreView, items: Seq<i64>, c: usize)
    requires
        c >= items.len(),
    ensures
        s.queued(items, Some(c)).settings["queue_index"@] == digits(c as nat),
        forall|key: Seq<char>|
            key != "queue_index"@ && s.settings.dom().contains(key) ==> s.queued(
                items,
                Some(c),
            ).settings.dom().contains(key) && #[trigger] s.queued(items, Some(c)).settings[key]
                == s.settings[key],
        s.queued(items, Some(c)).tracks == s.tracks,
        s.queued(items, Some(c)).resume == s.resume,
        s.queued(items, Some(c)).folders == s.folders,
{
}

proof fn lemma_shorter(s: Seq<i64>, keep: spec_fn(i64) -> bool)
    ensures
        s.filter(keep).len() <= s.len(),
    decreases s.len(),
{
    reveal(Seq::filter);
    if s.len() > 0 {
        lemma_shorter(s.drop_last(), keep);
    }
}

/// Seeing a file again never erases what was learned of it before.
pub proof fn law_reprobe_never_erases(track: Track, file: ScannedFile, probed: Probed)
    ensures
        track.title is Some ==> merged(track, file, probed).title is Some,
        track.artist is Some ==> merged(track, file, probed).artist is Some,
        track.album is Some ==> merged(track, file, probed).album is Some,
        track.duration_secs is Some ==> merged(track, file, probed).duration_secs is Some,
        probed.title is None ==> merged(track, file, probed).title == track.title,
        probed.artist is None ==> merged(track, file, probed).artist == track.artist,
        probed.album is None ==> merged(track, file, probed).album == track.album,
        probed.duration_secs is None || probed.duration_secs == Some(Fixed::NaN) ==> merged(
            track,
            file,
            probed,
        ).duration_secs == track.duration_secs,
        merged(track, file, probed).id == track.id,
        merged(track, file, probed).last_played_at == track.last_played_at,
{
}

/// A track found by its path is one of the tracks, with that path.
proof fn lemma_found_path(tracks: Seq<Track>, path: Seq<char>)
    ensures
        with_path(tracks, path) matches Some(t) ==> t.path@ == path && exists|i: int|
            0 <= i < tracks.len() && #[trigger] tracks[i] == t,
        with_path(tracks, path) is None ==> forall|i: int|
            0 <= i < tracks.len() ==> (#[trigger] tracks[i]).path@ != path,
    decreases tracks.len(),
{
    if tracks.len() > 0 {
        let front = tracks.drop_last();
        lemma_found_path(front, path);
        if tracks.last().path@ == path {
            assert(tracks[tracks.len() - 1] == tracks.last());
        } else {
            if let Some(t) = with_path(front, path) {
                let i = choose|i: int| 0 <= i < front.len() && #[trigger] front[i] == t;
                assert(tracks[i] == t);
            } else {
                assert forall|i: int| 0 <= i < tracks.len() implies (#[trigger] tracks[i]).path@
                    != path by {
                    if i < front.len() {
                        assert(front[i] == tracks[i]);
                    }
                }
            }
        }
    }
}

/// A change that keeps every path finds the same track by it, changed.
proof fn lemma_changed_path(
    tracks: Seq<Track>,
    id: i64,
    f: spec_fn(Track) -> Track,
    path: Seq<char>,
)
    requires
        forall|t: Track| (#[trigger] f(t)).path == t.path,
    ensures
        with_path(changed(tracks, id, f), path) == (match with_path(tracks, path) {
            Some(t) => Some(
                if t.id == id {
                    f(t)
                } else {
                    t
                },
            ),
            None => None,
        }),
    decreases tracks.len(),
{
    if tracks.len() > 0 {
        let front = tracks.drop_last();
        let out = changed(tracks, id, f);
        assert(out.drop_last() =~= changed(front, id, f));
        assert(out.last().path == tracks.last().path);
        lemma_changed_path(front, id, f, path);
    }
}

/// A file that was just indexed is found unchanged: a second scan of it costs
/// nothing.
pub proof fn law_indexed_file_is_unchanged(
    s: StoreView,
    file: ScannedFile,
    probed: Probed,
    now: i64,
)
    requires
        s.upserted_id(file) <= i64::MAX,
    ensures
        with_path(s.upserted(file, probed, now).tracks, file.path@) matches Some(t) && t.id
            == s.upserted_id(file) && is_unchanged(t, file),
{
    let out = s.upserted(file, probed, now).tracks;
    lemma_found_path(s.tracks, file.path@);
    match with_path(s.tracks, file.path@) {
        Some(t) => {
            lemma_changed_path(s.tracks, t.id, |t: Track| merged(t, file, probed), file.path@);
        },
        None => {
            assert(out.last() == added(fresh_id(s.tracks) as i64, file, probed, now));
        },
    }
}

/// Indexing a file leaves the tracks of all others as they are, and all in order.
pub proof fn law_indexing_leaves_other_files(
    s: StoreView,
    file: ScannedFile,
    probed: Probed,
    now: i64,
    path: Seq<char>,
)
    requires
        increasing(s.tracks),
        s.upserted_id(file) <= i64::MAX,
    ensures
        increasing(s.upserted(file, probed, now).tracks),
        path != file.path@ ==> with_path(s.upserted(file, probed, now).tracks, path) == with_path(
            s.tracks,
            path,
        ),
{
    let out = s.upserted(file, probed, now).tracks;
    lemma_found_path(s.tracks, file.path@);
    lemma_found_path(s.tracks, path);
    match with_path(s.tracks, file.path@) {
        Some(t) => {
            lemma_changed_path(s.tracks, t.id, |t: Track| merged(t, file, probed), path);
        },
        None => {
            assert(out.drop_last() =~= s.tracks);
        },
    }
}

/// Whether no two tracks are of the same file.
pub open spec fn one_track_each(tracks: Seq<Track>) -> bool {
    forall|i: int, j: int| 0 <= i < j < tracks.len() ==> tracks[i].path@ != tracks[j].path@
}

/// Indexing never gives a file a second track.
pub proof fn law_one_track_for_each_file(
    s: StoreView,
    file: ScannedFile,
    probed: Probed,
    now: i64,
)
    requires
        one_track_each(s.tracks),
    ensures
        one_track_each(s.upserted(file, probed, now).tracks),
{
    lemma_found_path(s.tracks, file.path@);
}

/// What is forgotten is not found by its id any more, and has no position.
pub proof fn law_forgotten_track_is_gone(s: StoreView, gone: Seq<i64>, id: i64)
    requires
        gone.contains(id),
    ensures
        with_id(s.without(gone).tracks, id) is None,
        !s.without(gone).resume.dom().contains(id as int),
        !s.without(gone).queue.contains(id),
{
    lemma_filtered_ids(s.tracks, gone, id);
    lemma_filtered_queue(s.queue, gone, id);
    let k = choose|k: int| 0 <= k < gone.len() && gone[k] == id;
    assert(gone[k] == id as int);
    assert(numbers_of(gone).contains(id as int));
}

proof fn lemma_filtered_ids(tracks: Seq<Track>, gone: Seq<i64>, id: i64)
    requires
        gone.contains(id),
    ensures
        with_id(tracks.filter(|t: Track| !gone.contains(t.id)), id) is None,
    decreases tracks.len(),
{
    reveal(Seq::filter);
    if tracks.len() > 0 {
        lemma_filtered_ids(tracks.drop_last(), gone, id);
        let kept = tracks.drop_last().filter(|t: Track| !gone.contains(t.id));
        assert(kept.push(tracks.last()).drop_last() =~= kept);
    }
}

proof fn lemma_filtered_queue(queue: Seq<i64>, gone: Seq<i64>, id: i64)
    requires
        gone.contains(id),
    ensures
        !queue.filter(|x: i64| !gone.contains(x)).contains(id),
    decreases queue.len(),
{
    reveal(Seq::filter);
    if queue.len() > 0 {
        lemma_filtered_queue(queue.drop_last(), gone, id);
        let kept = queue.drop_last().filter(|x: i64| !gone.contains(x));
        let out = queue.filter(|x: i64| !gone.contains(x));
        if out.contains(id) {
            let k = choose|k: int| 0 <= k < out.len() && out[k] == id;
            if k < kept.len() {
                assert(kept[k] == id);
            }
        }
    }
}

proof fn lemma_placed_multiset(list: Seq<Track>, track: Track, order: Order)
    ensures
        placed(list, track, order).to_multiset() == list.to_multiset().insert(track),
    decreases list.len(),
{
    broadcast use vstd::seq_lib::group_to_multiset_ensures;

    if list.len() > 0 && ahead(order, track, list.last()) {
        lemma_placed_multiset(list.drop_last(), track, order);
        assert(list.drop_last().push(list.last()) =~= list);
        assert(placed(list, track, order).to_multiset() =~= list.to_multiset().insert(track));
    }
}

/// Ordering a list neither loses nor adds a track.
pub proof fn law_ordering_keeps_every_track(tracks: Seq<Track>, order: Order)
    ensures
        arranged(tracks, order).to_multiset() == tracks.to_multiset(),
    decreases tracks.len(),
{
    broadcast use vstd::seq_lib::group_to_multiset_ensures;

    if tracks.len() > 0 {
        law_ordering_keeps_every_track(tracks.drop_last(), order);
        lemma_placed_multiset(arranged(tracks.drop_last(), order), tracks.last(), order);
        assert(tracks.drop_last().push(tracks.last()) =~= tracks);
        assert(arranged(tracks, order).to_multiset() =~= tracks.to_multiset());
    }
}

/// Whether no track stands directly behind one that it comes ahead of.
pub open spec fn is_arranged(list: Seq<Track>, order: Order) -> bool {
    forall|i: int| #![trigger list[i]] 0 < i < list.len() ==> !ahead(order, list[i], list[i - 1])
}

proof fn lemma_ahead_antisymmetric(order: Order, a: Track, b: Track)
    requires
        ahead(order, a, b),
    ensures
        !ahead(order, b, a),
{
    if order == Order::Path {
        lemma_before_antisymmetric(a.path@, b.path@);
    }
}

proof fn lemma_placed_ordered(list: Seq<Track>, track: Track, order: Order)
    requires
        is_arranged(list, order),
    ensures
        is_arranged(placed(list, track, order), order),
        placed(list, track, order).len() == list.len() + 1,
        placed(list, track, order).last() == track || list.len() > 0 && placed(
            list,
            track,
            order,
        ).last() == list.last(),
    decreases list.len(),
{
    let out = placed(list, track, order);
    if list.len() > 0 && ahead(order, track, list.last()) {
        let front = list.drop_last();
        assert forall|i: int| #![trigger front[i]] 0 < i < front.len() implies !ahead(
            order,
            front[i],
            front[i - 1],
        ) by {
            assert(front[i] == list[i] && front[i - 1] == list[i - 1]);
        }
        lemma_placed_ordered(front, track, order);
        let mid = placed(front, track, order);
        lemma_ahead_antisymmetric(order, track, list.last());
        if front.len() > 0 {
            assert(!ahead(order, list[list.len() - 1], list[list.len() - 2]));
        }
        assert forall|i: int| #![trigger out[i]] 0 < i < out.len() implies !ahead(
            order,
            out[i],
            out[i - 1],
        ) by {
            if i < mid.len() {
                assert(out[i] == mid[i] && out[i - 1] == mid[i - 1]);
            } else {
                assert(out[i] == list.last() && out[i - 1] == mid.last());
            }
        }
    } else {
        assert forall|i: int| #![trigger out[i]] 0 < i < out.len() implies !ahead(
            order,
            out[i],
            out[i - 1],
        ) by {
            if i < list.len() {
                assert(out[i] == list[i] && out[i - 1] == list[i - 1]);
            } else {
                assert(out[i] == track && out[i - 1] == list.last());
            }
        }
    }
}

/// Lists come in their order: by path, or the recently played first.
pub proof fn law_lists_are_ordered(tracks: Seq<Track>, order: Order)
    ensures
        is_arranged(arranged(tracks, order), order),
    decreases tracks.len(),
{
    if tracks.len() > 0 {
        law_lists_are_ordered(tracks.drop_last(), order);
        lemma_placed_ordered(arranged(tracks.drop_last(), order), tracks.last(), order);
    }
}

/// Slashes at the end of a folder's name do not matter.
pub proof fn law_trailing_slash_does_not_matter(path: Seq<char>, folder: Seq<char>)
    ensures
        inside(path, folder.push('/')) == inside(path, folder),
{
    assert(folder.push('/').drop_last() =~= folder);
}

/// A text is found in whatever it is a part of.
pub proof fn law_search_finds_its_own_text(front: Seq<char>, needle: Seq<char>, back: Seq<char>)
    ensures
        holds(front + needle + back, needle),
{
    let text = front + needle + back;
    let i = front.len() as int;
    assert(text.subrange(i, i + needle.len()) =~= needle);
}

/// Indexing a known file again: what the probe learned is what its track has from
/// then on, and what it did not learn stays. Size, modified time and whether there is
/// video are those of the file as it is now; id, path, and when it was added and last
/// played stay. Nothing else in the store changes.
pub proof fn law_probe_replaces_what_it_learned(
    s: StoreView,
    file: ScannedFile,
    probed: Probed,
    now: i64,
    old_track: Track,
)
    requires
        with_path(s.tracks, file.path@) == Some(old_track),
    ensures
        ({
            let next = s.upserted(file, probed, now);
            with_path(next.tracks, file.path@) matches Some(t) && {
                &&& probed.title is Some ==> t.title == probed.title
                &&& probed.artist is Some ==> t.artist == probed.artist
                &&& probed.album is Some ==> t.album == probed.album
                &&& probed.title is None ==> t.title == old_track.title
                &&& probed.artist is None ==> t.artist == old_track.artist
                &&& probed.album is None ==> t.album == old_track.album
                &&& probed.duration_secs matches Some(d) ==> !(d is NaN) ==> t.duration_secs
                    == Some(d)
                &&& probed.duration_secs is None || probed.duration_secs == Some(Fixed::NaN)
                    ==> t.duration_secs == old_track.duration_secs
                &&& t.size_bytes == file.size_bytes
                &&& t.mtime == file.mtime
                &&& t.has_video == probed.has_video
                &&& t.id == old_track.id
                &&& t.path == old_track.path
                &&& t.added_at == old_track.added_at
                &&& t.last_played_at == old_track.last_played_at
                &&& next.tracks.len() == s.tracks.len()
                &&& next == (StoreView { tracks: next.tracks, ..s })
            }
        }),
{
    lemma_changed_path(s.tracks, old_track.id, |t: Track| merged(t, file, probed), file.path@);
}

/// Indexing a file that is new: its track has what the probe learned, an id above
/// every other, and was added now and never played.
pub proof fn law_new_file_gets_a_track(
    s: StoreView,
    file: ScannedFile,
    probed: Probed,
    now: i64,
)
    requires
        with_path(s.tracks, file.path@) is None,
        increasing(s.tracks),
        s.tracks.len() > 0 ==> s.tracks.last().id < i64::MAX,
    ensures
        ({
            let next = s.upserted(file, probed, now);
            with_path(next.tracks, file.path@) matches Some(t) && {
                &&& t.title == probed.title
                &&& t.artist == probed.artist
                &&& t.album == probed.album
                &&& probed.duration_secs matches Some(d) ==> !(d is NaN) ==> t.duration_secs
                    == Some(d)
                &&& probed.duration_secs is None ==> t.duration_secs is None
                &&& t.size_bytes == file.size_bytes
                &&& t.mtime == file.mtime
                &&& t.has_video == probed.has_video
                &&& t.path == file.path
                &&& t.added_at == now
                &&& t.last_played_at is None
                &&& t.id > 0
                &&& forall|i: int| 0 <= i < s.tracks.len() ==> (#[trigger] s.tracks[i]).id < t.id
                &&& next.tracks == s.tracks.push(t)
                &&& next == (StoreView { tracks: next.tracks, ..s })
            }
        }),
{
    let next = s.upserted(file, probed, now);
    let t = next.tracks.last();
    assert(next.tracks.drop_last() =~= s.tracks);
    assert(with_path(next.tracks, file.path@) == Some(t));
    if s.tracks.len() > 0 {
        let last = s.tracks.len() - 1;
        assert(s.tracks[last].id > 0);
        assert forall|i: int| 0 <= i < s.tracks.len() implies (#[trigger] s.tracks[i]).id
            < t.id by {
            if i < last {
                assert(s.tracks[i].id < s.tracks[last].id);
            }
        }
    }
}

/// Whether a text holds another as a part of it, case of the basic alphabet aside.
pub open spec fn has_part(text: Seq<char>, part: Seq<char>) -> bool {
    exists|front: Seq<char>, middle: Seq<char>, back: Seq<char>|
        text == #[trigger] (front + middle + back) && lowered(middle) == lowered(part)
}

proof fn lemma_part_is_held(text: Seq<char>, part: Seq<char>)
    ensures
        has_part(text, part) <==> holds(text, part),
{
    if has_part(text, part) {
        let (front, middle, back) = choose|
            front: Seq<char>,
            middle: Seq<char>,
            back: Seq<char>,
        |
            text == #[trigger] (front + middle + back) && lowered(middle) == lowered(part);
        assert(lowered(middle).len() == middle.len() && lowered(part).len() == part.len());
        let i = front.len() as int;
        assert(text.subrange(i, i + part.len()) =~= middle);
    }
    if holds(text, part) {
        let i = choose|i: int|
            0 <= i <= text.len() - part.len() && lowered(
                #[trigger] text.subrange(i, i + part.len()),
            ) == lowered(part);
        let front = text.take(i);
        let middle = text.subrange(i, i + part.len());
        let back = text.skip(i + part.len());
        assert(text =~= front + middle + back);
    }
}

/// Whether one of the texts of a track, its path, title, artist or album, holds
/// another as a part.
pub open spec fn says(track: Track, part: Seq<char>) -> bool {
    ||| has_part(track.path@, part)
    ||| (track.title is Some && has_part(track.title->0@, part))
    ||| (track.artist is Some && has_part(track.artist->0@, part))
    ||| (track.album is Some && has_part(track.album->0@, part))
}

/// A search without a limit gives every track whose path, title, artist or album holds
/// the query, each of the four on its own; and no other track.
pub proof fn law_search_looks_at_path_and_every_tag(
    s: StoreView,
    query: Seq<char>,
    limit: nat,
    track: Track,
)
    requires
        limit >= s.tracks.len(),
    ensures
        s.found(query, limit).contains(track) <==> s.tracks.contains(track) && says(
            track,
            trimmed(query),
        ),
{
    let keep = |t: Track| matches_query(t, trimmed(query));
    let part = trimmed(query);
    lemma_part_is_held(track.path@, part);
    if track.title is Some {
        lemma_part_is_held(track.title->0@, part);
    }
    if track.artist is Some {
        lemma_part_is_held(track.artist->0@, part);
    }
    if track.album is Some {
        lemma_part_is_held(track.album->0@, part);
    }
    assert(keep(track) == says(track, part));
    lemma_listed(s.tracks, keep, Order::Recent, limit, track);
}

/// What is listed of some tracks is those that are kept, where the limit leaves room.
proof fn lemma_listed(
    tracks: Seq<Track>,
    keep: spec_fn(Track) -> bool,
    order: Order,
    limit: nat,
    track: Track,
)
    requires
        limit >= tracks.len(),
    ensures
        limited(arranged(tracks.filter(keep), order), limit).contains(track) <==> tracks.contains(
            track,
        ) && keep(track),
        limited(arranged(tracks.filter(keep), order), limit) == arranged(
            tracks.filter(keep),
            order,
        ),
{
    broadcast use vstd::seq_lib::group_to_multiset_ensures;

    let kept = tracks.filter(keep);
    let out = arranged(kept, order);
    lemma_kept_members(tracks, keep, track);
    law_ordering_keeps_every_track(kept, order);
    assert(out.to_multiset().count(track) == kept.to_multiset().count(track));
    assert(out.contains(track) <==> kept.contains(track));
    assert(out.to_multiset().len() == out.len());
    assert(kept.to_multiset().len() == kept.len());
}

proof fn lemma_kept_members(tracks: Seq<Track>, keep: spec_fn(Track) -> bool, track: Track)
    ensures
        tracks.filter(keep).contains(track) <==> tracks.contains(track) && keep(track),
        tracks.filter(keep).len() <= tracks.len(),
    decreases tracks.len(),
{
    reveal(Seq::filter);
    if tracks.len() > 0 {
        let front = tracks.drop_last();
        lemma_kept_members(front, keep, track);
        let kept = front.filter(keep);
        let last = tracks.last();
        assert(tracks =~= front.push(last));
        if tracks.contains(track) {
            let i = choose|i: int| 0 <= i < tracks.len() && tracks[i] == track;
            if i < front.len() {
                assert(front[i] == track);
            }
        }
        if front.contains(track) {
            let i = choose|i: int| 0 <= i < front.len() && front[i] == track;
            assert(tracks[i] == track);
        }
        assert(tracks[tracks.len() - 1] == last);
        if keep(last) {
            let out = kept.push(last);
            assert(out[kept.len() as int] == last);
            if kept.contains(track) {
                let i = choose|i: int| 0 <= i < kept.len() && kept[i] == track;
                assert(out[i] == track);
            }
            if out.contains(track) {
                let i = choose|i: int| 0 <= i < out.len() && out[i] == track;
                if i < kept.len() {
                    assert(kept[i] == track);
                }
            }
        }
    }
}

/// A limit cuts a list off at its end: it keeps its first tracks.
pub proof fn law_limit_keeps_the_first(list: Seq<Track>, limit: nat)
    ensures
        limited(list, limit).len() == (if list.len() < limit {
            list.len()
        } else {
            limit
        }),
        forall|i: int|
            0 <= i < limited(list, limit).len() ==> #[trigger] limited(list, limit)[i] == list[i],
{
}

/// What is found comes in this order, and so does what was played last: tracks that
/// were played before those that never were; the latest played first; and among the
/// others the newest to the index first.
pub proof fn law_recently_played_come_first(
    s: StoreView,
    query: Seq<char>,
    limit: nat,
    i: int,
)
    ensures
        0 < i < s.found(query, limit).len() ==> comes_first(
            s.found(query, limit)[i - 1],
            s.found(query, limit)[i],
        ),
        0 < i < s.last_played(limit).len() ==> comes_first(
            s.last_played(limit)[i - 1],
            s.last_played(limit)[i],
        ),
{
    let a = s.tracks.filter(|t: Track| matches_query(t, trimmed(query)));
    let b = s.tracks.filter(|t: Track| t.last_played_at is Some);
    law_lists_are_ordered(a, Order::Recent);
    law_lists_are_ordered(b, Order::Recent);
    law_limit_keeps_the_first(arranged(a, Order::Recent), limit);
    law_limit_keeps_the_first(arranged(b, Order::Recent), limit);
    if 0 < i < s.found(query, limit).len() {
        let list = arranged(a, Order::Recent);
        assert(s.found(query, limit)[i] == list[i]);
        assert(s.found(query, limit)[i - 1] == list[i - 1]);
        assert(!ahead(Order::Recent, list[i], list[i - 1]));
    }
    if 0 < i < s.last_played(limit).len() {
        let list = arranged(b, Order::Recent);
        assert(s.last_played(limit)[i] == list[i]);
        assert(s.last_played(limit)[i - 1] == list[i - 1]);
        assert(!ahead(Order::Recent, list[i], list[i - 1]));
    }
}

/// Whether one track may be listed directly before another, the recently played first.
pub open spec fn comes_first(a: Track, b: Track) -> bool {
    &&& b.last_played_at is Some ==> a.last_played_at is Some && a.last_played_at->0
        >= b.last_played_at->0
    &&& a.last_played_at == b.last_played_at ==> a.id >= b.id
}

/// A limit keeps the first of what is listed without one.
pub proof fn law_limited_lists_are_prefixes(s: StoreView, query: Seq<char>, limit: nat, i: int)
    ensures
        s.found(query, limit).len() <= limit,
        s.last_played(limit).len() <= limit,
        s.by_path(limit).len() <= limit,
        0 <= i < s.found(query, limit).len() ==> s.found(query, limit)[i] == s.found(
            query,
            s.tracks.len(),
        )[i],
        0 <= i < s.last_played(limit).len() ==> s.last_played(limit)[i] == s.last_played(
            s.tracks.len(),
        )[i],
        0 <= i < s.by_path(limit).len() ==> s.by_path(limit)[i] == s.by_path(s.tracks.len())[i],
        limit <= s.by_path(s.tracks.len()).len() ==> s.by_path(limit).len() == limit,
        limit <= s.last_played(s.tracks.len()).len() ==> s.last_played(limit).len() == limit,
        limit <= s.found(query, s.tracks.len()).len() ==> s.found(query, limit).len() == limit,
        s.by_path(s.tracks.len()).len() == s.tracks.len(),
{
    broadcast use vstd::seq_lib::group_to_multiset_ensures;

    if s.tracks.len() > 0 {
        let t = s.tracks[0];
        lemma_listed(
            s.tracks,
            |t: Track| matches_query(t, trimmed(query)),
            Order::Recent,
            s.tracks.len(),
            t,
        );
        lemma_listed(
            s.tracks,
            |t: Track| t.last_played_at is Some,
            Order::Recent,
            s.tracks.len(),
            t,
        );
    }
    law_ordering_keeps_every_track(s.tracks, Order::Path);
    assert(arranged(s.tracks, Order::Path).to_multiset().len() == s.tracks.to_multiset().len());
}

/// The tracks that were played last are all that were ever played, where the limit
/// leaves room.
pub proof fn law_recents_are_what_was_played(s: StoreView, limit: nat, track: Track)
    requires
        limit >= s.tracks.len(),
    ensures
        s.last_played(limit).contains(track) <==> s.tracks.contains(track)
            && track.last_played_at is Some,
{
    lemma_listed(
        s.tracks,
        |t: Track| t.last_played_at is Some,
        Order::Recent,
        limit,
        track,
    );
}

/// A list by path has every track, where the limit leaves room, and no track stands
/// directly behind one whose path comes after its own.
pub proof fn law_all_tracks_come_by_path(s: StoreView, limit: nat, i: int, track: Track)
    ensures
        0 < i < s.by_path(limit).len() ==> !crate::text::before(
            s.by_path(limit)[i].path@,
            s.by_path(limit)[i - 1].path@,
        ),
        limit >= s.tracks.len() ==> (s.by_path(limit).contains(track) <==> s.tracks.contains(
            track,
        )),
{
    broadcast use vstd::seq_lib::group_to_multiset_ensures;

    law_lists_are_ordered(s.tracks, Order::Path);
    let list = arranged(s.tracks, Order::Path);
    law_limit_keeps_the_first(list, limit);
    if 0 < i < s.by_path(limit).len() {
        assert(s.by_path(limit)[i] == list[i] && s.by_path(limit)[i - 1] == list[i - 1]);
        assert(!ahead(Order::Path, list[i], list[i - 1]));
    }
    law_ordering_keeps_every_track(s.tracks, Order::Path);
    assert(list.to_multiset().count(track) == s.tracks.to_multiset().count(track));
    assert(list.to_multiset().len() == s.tracks.to_multiset().len());
}

/// What lies under a folder is every track whose path is the folder's, a slash, and
/// more; each character of the folder's name counts as itself, and slashes at its end
/// do not count.
pub proof fn law_tracks_under_a_folder(
    s: StoreView,
    folder: Seq<char>,
    slashes: nat,
    track: Track,
)
    requires
        folder.len() == 0 || folder.last() != '/',
    ensures
        ({
            let name = folder + Seq::new(slashes, |i: int| '/');
            s.under(name).contains(track) <==> s.tracks.contains(track) && exists|rest: Seq<char>|
                track.path@ == #[trigger] (folder + seq!['/'] + rest)
        }),
{
    let name = folder + Seq::new(slashes, |i: int| '/');
    let keep = |t: Track| inside(t.path@, name);
    lemma_unslashed(folder, slashes);
    let front = folder.push('/');
    let path = track.path@;
    assert(keep(track) <==> exists|rest: Seq<char>| path == #[trigger] (folder + seq!['/'] + rest))
        by {
        if keep(track) {
            let rest = path.skip(front.len() as int);
            assert forall|i: int| 0 <= i < front.len() implies path[i] == front[i] by {
                assert(path.take(front.len() as int)[i] == front[i]);
            }
            assert(path =~= folder + seq!['/'] + rest);
        }
        if exists|rest: Seq<char>| path == #[trigger] (folder + seq!['/'] + rest) {
            let rest = choose|rest: Seq<char>| path == #[trigger] (folder + seq!['/'] + rest);
            assert(path.take(front.len() as int) =~= front);
        }
    }
    lemma_listed(s.tracks, keep, Order::Path, s.tracks.len(), track);
}

proof fn lemma_unslashed(folder: Seq<char>, slashes: nat)
    requires
        folder.len() == 0 || folder.last() != '/',
    ensures
        crate::store::unslashed(folder + Seq::new(slashes, |i: int| '/')) == folder,
    decreases slashes,
{
    let name = folder + Seq::new(slashes, |i: int| '/');
    if slashes > 0 {
        let fewer = (slashes - 1) as nat;
        assert(name.last() == '/');
        assert(name.drop_last() =~= folder + Seq::new(fewer, |i: int| '/'));
        lemma_unslashed(folder, fewer);
    } else {
        assert(name =~= folder);
    }
}

/// Forgetting tracks leaves every other as it is: its row, its position, and its
/// place among the rows of the queue.
pub proof fn law_other_tracks_are_not_forgotten(s: StoreView, gone: Seq<i64>, track: Track)
    requires
        !gone.contains(track.id),
    ensures
        s.without(gone).tracks.contains(track) <==> s.tracks.contains(track),
        s.without(gone).queue.contains(track.id) <==> s.queue.contains(track.id),
        s.resume.dom().contains(track.id as int) ==> s.without(gone).resume.dom().contains(
            track.id as int,
        ) && s.without(gone).resume[track.id as int] == s.resume[track.id as int],
        s.without(gone).folders == s.folders,
        s.without(gone).settings == s.settings,
{
    lemma_kept_members(s.tracks, |t: Track| !gone.contains(t.id), track);
    lemma_kept_ids(s.queue, |id: i64| !gone.contains(id), track.id);
    if numbers_of(gone).contains(track.id as int) {
        let i = choose|i: int| 0 <= i < gone.len() && #[trigger] gone[i] == track.id as int;
        assert(gone.contains(track.id));
    }
}

proof fn lemma_kept_ids(ids: Seq<i64>, keep: spec_fn(i64) -> bool, id: i64)
    ensures
        ids.filter(keep).contains(id) <==> ids.contains(id) && keep(id),
    decreases ids.len(),
{
    reveal(Seq::filter);
    if ids.len() > 0 {
        let front = ids.drop_last();
        lemma_kept_ids(front, keep, id);
        let kept = front.filter(keep);
        let last = ids.last();
        if ids.contains(id) {
            let i = choose|i: int| 0 <= i < ids.len() && ids[i] == id;
            if i < front.len() {
                assert(front[i] == id);
            }
        }
        if front.contains(id) {
            let i = choose|i: int| 0 <= i < front.len() && front[i] == id;
            assert(ids[i] == id);
        }
        assert(ids[ids.len() - 1] == last);
        if keep(last) {
            let out = kept.push(last);
            assert(out[kept.len() as int] == last);
            if kept.contains(id) {
                let i = choose|i: int| 0 <= i < kept.len() && kept[i] == id;
                assert(out[i] == id);
            }
            if out.contains(id) {
                let i = choose|i: int| 0 <= i < out.len() && out[i] == id;
                if i < kept.len() {
                    assert(kept[i] == id);
                }
            }
        }
    }
}

/// A track that is noted as played was played at that time; nothing else of it, and
/// nothing of any other track, changes.
pub proof fn law_playing_is_noted(tracks: Seq<Track>, id: i64, now: i64, i: int)
    requires
        0 <= i < tracks.len(),
    ensures
        crate::store::played(tracks, id, now).len() == tracks.len(),
        tracks[i].id == id ==> crate::store::played(tracks, id, now)[i] == (Track {
            last_played_at: Some(now),
            ..tracks[i]
        }),
        tracks[i].id != id ==> crate::store::played(tracks, id, now)[i] == tracks[i],
{
}

/// A track is found by its id, and by its path, where it is there; and nothing else
/// is.
pub proof fn law_tracks_are_found(tracks: Seq<Track>, id: i64, path: Seq<char>)
    requires
        increasing(tracks),
        one_track_each(tracks),
    ensures
        with_id(tracks, id) matches Some(t) ==> t.id == id && tracks.contains(t),
        with_id(tracks, id) is None ==> forall|i: int|
            0 <= i < tracks.len() ==> (#[trigger] tracks[i]).id != id,
        with_path(tracks, path) matches Some(t) ==> t.path@ == path && tracks.contains(t),
        with_path(tracks, path) is None ==> forall|i: int|
            0 <= i < tracks.len() ==> (#[trigger] tracks[i]).path@ != path,
    decreases tracks.len(),
{
    lemma_found_path(tracks, path);
    if tracks.len() > 0 {
        let front = tracks.drop_last();
        assert(increasing(front)) by {
            assert forall|k: int| 0 <= k < front.len() implies (#[trigger] front[k]).id > 0 by {
                assert(front[k] == tracks[k]);
            }
        }
        assert(one_track_each(front)) by {
            assert forall|i: int, j: int| 0 <= i < j < front.len() implies front[i].path@
                != front[j].path@ by {
                assert(tracks[i].path@ != tracks[j].path@);
            }
        }
        law_tracks_are_found(front, id, path);
        assert(tracks[tracks.len() - 1] == tracks.last());
        if tracks.last().id != id {
            if let Some(t) = with_id(front, id) {
                let i = choose|i: int| 0 <= i < front.len() && front[i] == t;
                assert(tracks[i] == t);
            } else {
                assert forall|i: int| 0 <= i < tracks.len() implies (#[trigger] tracks[i]).id
                    != id by {
                    if i < front.len() {
                        assert(front[i] == tracks[i]);
                    }
                }
            }
        }
    }
}

} // verus!
