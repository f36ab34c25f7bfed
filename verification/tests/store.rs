//! The durable layer: what is indexed, and what must never be lost.

use std::collections::BTreeSet;

use setbuddy::fixed::Fixed;
use setbuddy::probe::Probed;
use setbuddy::store::{ScannedFile, Store};
use setbuddy::table::{Named, Numbered};

fn secs(s: f64) -> Fixed {
    if s.is_nan() {
        Fixed::NaN
    } else if s == f64::INFINITY {
        Fixed::PosInfinity
    } else {
        Fixed::Nanos((s * 1e9).round() as i128)
    }
}

fn store() -> Store {
    Store::in_memory()
}

/// A disk. What is forgotten as missing is what is not on it.
struct Scratch(BTreeSet<String>);

impl Scratch {
    fn new() -> Self {
        Scratch(BTreeSet::new())
    }

    /// Create `name` on the disk and index it.
    fn on_disk(&mut self, store: &mut Store, name: &str) -> i64 {
        let path = format!("/scratch/{name}");
        self.0.insert(path.clone());
        add(store, &path)
    }

    fn forget_missing(&self, store: &mut Store) -> usize {
        let gone: Vec<i64> = store
            .tracks()
            .iter()
            .filter(|t| !self.0.contains(&t.path))
            .map(|t| t.id)
            .collect();
        store.forget_missing(&gone)
    }
}

fn file(path: &str) -> ScannedFile {
    ScannedFile {
        path: path.into(),
        size_bytes: 1,
        mtime: 1,
    }
}

fn add(store: &mut Store, path: &str) -> i64 {
    store.upsert_track(&file(path), &Probed::default()).unwrap()
}

fn tagged(store: &mut Store, path: &str, title: &str, artist: &str) -> i64 {
    store
        .upsert_track(
            &file(path),
            &Probed {
                title: Some(title.into()),
                artist: Some(artist.into()),
                ..Probed::default()
            },
        )
        .unwrap()
}

// ---- search ---------------------------------------------------------------

#[test]
fn search_matches_path_and_every_tag() {
    let mut s = store();
    tagged(&mut s, "/sets/one.webm", "Live at Dekmantel", "Palms Trax");
    add(&mut s, "/music/other.mp3");

    for query in ["Dekmantel", "palms", "sets/one"] {
        let hits = s.search(query, 10).unwrap();
        assert_eq!(hits.len(), 1, "\"{query}\" should find exactly one track");
        assert_eq!(hits[0].path, "/sets/one.webm");
    }
    assert!(s.search("nothing here", 10).unwrap().is_empty());
}

/// `LIKE` wildcards in a query are the user's literal characters. A search box
/// that quietly turns `_` into "any character" returns tracks nobody asked for.
#[test]
fn search_treats_like_wildcards_as_ordinary_characters() {
    let mut s = store();
    let underscore = add(&mut s, "/sets/Boiler_Room.webm");
    add(&mut s, "/sets/BoilerXRoom.webm");
    let percent = add(&mut s, "/sets/100% Silk.webm");
    add(&mut s, "/sets/decoy.webm");

    let hits = s.search("Boiler_Room", 10).unwrap();
    assert_eq!(
        hits.iter().map(|t| t.id).collect::<Vec<_>>(),
        vec![underscore],
        "an underscore must not match any character"
    );

    let hits = s.search("100%", 10).unwrap();
    assert_eq!(
        hits.iter().map(|t| t.id).collect::<Vec<_>>(),
        vec![percent],
        "a percent must not match the whole library"
    );
}

/// A backslash is the escape character for the pattern, so an unescaped one in
/// a query leaves a dangling escape — which SQLite reads as something else
/// entirely, and which no user typing a Windows-ish path intended.
#[test]
fn search_survives_a_backslash_in_the_query() {
    let mut s = store();
    let literal = add(&mut s, "/sets/back\\slash.webm");
    add(&mut s, "/sets/plain.webm");

    let hits = s.search("back\\slash", 10).unwrap();
    assert_eq!(hits.iter().map(|t| t.id).collect::<Vec<_>>(), vec![literal]);
    // A trailing escape is the pathological case: it must not error or match
    // everything.
    assert!(s.search("\\", 10).unwrap().len() <= 1);
}

/// A pattern has room for fifty thousand bytes, two of which are its own.
#[test]
fn a_text_that_is_too_long_to_match_is_refused() {
    let refused = "library storage failed: LIKE or GLOB pattern too complex";
    let mut s = store();
    assert!(s.search(&"x".repeat(60_000), 10).unwrap().is_empty(), "there is nothing to match");
    assert!(s.tracks_under(&"x".repeat(60_000)).unwrap().is_empty());
    add(&mut s, "/sets/a.webm");
    for long in ["x".repeat(49_999), "é".repeat(25_000), "%".repeat(25_000), "_".repeat(25_000)] {
        assert_eq!(s.search(&long, 10).err().unwrap().message(), refused);
        assert_eq!(s.tracks_under(&long).err().unwrap().message(), refused);
        assert!(s.search(&long, 0).unwrap().is_empty());
    }
    for long in ["x".repeat(49_998), "é".repeat(24_999), "\\".repeat(24_999)] {
        assert!(s.search(&format!(" {long} "), 10).unwrap().is_empty());
        assert!(s.tracks_under(&format!("{long}//")).unwrap().is_empty());
    }
}

#[test]
fn search_honours_its_limit_and_prefers_recently_played() {
    let mut s = store();
    let old = add(&mut s, "/sets/a-set.webm");
    let recent = add(&mut s, "/sets/b-set.webm");
    add(&mut s, "/sets/c-set.webm");
    s.mark_played(recent);

    let hits = s.search("set", 2).unwrap();
    assert_eq!(hits.len(), 2, "the limit is respected");
    assert_eq!(hits[0].id, recent, "played tracks come first");
    assert!(hits.iter().all(|t| t.id != old) || hits[1].id == old);
}

/// A folder called `100%_sets` must not stage the entire library.
#[test]
fn tracks_under_escapes_wildcards_in_the_folder_name() {
    let mut s = store();
    let inside = add(&mut s, "/lib/100%_sets/one.webm");
    add(&mut s, "/lib/1005Xsets/two.webm");
    add(&mut s, "/lib/elsewhere/three.webm");

    let found = s.tracks_under("/lib/100%_sets").unwrap();
    assert_eq!(found.iter().map(|t| t.id).collect::<Vec<_>>(), vec![inside]);
}

#[test]
fn tracks_under_tells_folders_apart_by_case() {
    let mut s = store();
    let inside = add(&mut s, "/lib/sets/one.webm");
    let other = add(&mut s, "/lib/SETS/two.webm");
    let ids = |folder: &str| {
        let found = s.tracks_under(folder).unwrap();
        found.iter().map(|t| t.id).collect::<Vec<_>>()
    };
    assert_eq!(ids("/lib/sets"), vec![inside]);
    assert_eq!(ids("/lib/SETS/"), vec![other]);
    assert_eq!(ids("/lib/Sets"), Vec::<i64>::new());
}

#[test]
fn tracks_under_ignores_a_trailing_slash_and_returns_path_order() {
    let mut s = store();
    add(&mut s, "/lib/sets/02-b.webm");
    add(&mut s, "/lib/sets/01-a.webm");
    add(&mut s, "/lib/setsX/other.webm");

    for folder in ["/lib/sets", "/lib/sets/"] {
        let names: Vec<String> = s
            .tracks_under(folder)
            .unwrap()
            .into_iter()
            .map(|t| t.path)
            .collect();
        assert_eq!(
            names,
            ["/lib/sets/01-a.webm", "/lib/sets/02-b.webm"],
            "{folder} must list its own files, in path order"
        );
    }
}

// ---- indexing -------------------------------------------------------------

/// Re-probing a file that has changed must not erase tags an earlier, better
/// probe found — an ffprobe that has since been uninstalled reports nothing.
#[test]
fn a_failed_reprobe_never_erases_what_an_earlier_one_learned() {
    let mut s = store();
    let id = s
        .upsert_track(
            &file("/sets/one.webm"),
            &Probed {
                title: Some("Live Set".into()),
                duration_secs: Some(secs(7200.0)),
                has_video: true,
                ..Probed::default()
            },
        )
        .unwrap();

    let changed = ScannedFile {
        path: "/sets/one.webm".into(),
        size_bytes: 999,
        mtime: 999,
    };
    let same_id = s
        .upsert_track(
            &changed,
            &Probed {
                has_video: true,
                ..Probed::default()
            },
        )
        .unwrap();

    assert_eq!(same_id, id, "the same file keeps its id");
    let track = s.track_by_id(id).unwrap();
    assert_eq!(track.title.as_deref(), Some("Live Set"));
    assert_eq!(track.duration_secs, Some(secs(7200.0)));
    assert_eq!(track.size_bytes, 999, "the file's identity is updated");
    assert_eq!(track.mtime, 999);
}

#[test]
fn unchanged_files_are_recognised_by_size_and_mtime() {
    let mut s = store();
    let id = add(&mut s, "/sets/one.webm");
    assert_eq!(
        s.unchanged_track_id(&file("/sets/one.webm")),
        Some(id)
    );

    let touched = ScannedFile {
        mtime: 2,
        ..file("/sets/one.webm")
    };
    assert_eq!(
        s.unchanged_track_id(&touched),
        None,
        "a changed mtime means re-probe"
    );
    assert_eq!(
        s.unchanged_track_id(&file("/sets/absent.webm")),
        None
    );
}

#[test]
fn a_duration_learned_at_playback_time_is_kept_but_nonsense_is_not() {
    let mut s = store();
    let id = add(&mut s, "/sets/one.webm");
    s.set_duration(id, secs(4364.0));
    assert_eq!(
        s.track_by_id(id).unwrap().duration_secs,
        Some(secs(4364.0))
    );

    for bad in [0.0, -5.0, f64::NAN, f64::INFINITY] {
        s.set_duration(id, secs(bad));
        assert_eq!(
            s.track_by_id(id).unwrap().duration_secs,
            Some(secs(4364.0)),
            "{bad} must not overwrite a real duration"
        );
    }
}

// ---- resume ---------------------------------------------------------------

#[test]
fn resume_positions_round_trip_and_are_cleared_with_their_track() {
    let mut s = store();
    let id = add(&mut s, "/sets/one.webm");
    assert_eq!(s.resume_for(id), None);

    s.set_resume(id, secs(90.0)).unwrap();
    s.set_resume(id, secs(120.0)).unwrap();
    assert_eq!(s.resume_for(id), Some(secs(120.0)), "the latest wins");

    s.clear_resume(id);
    assert_eq!(s.resume_for(id), None);
}

#[test]
fn forgetting_a_missing_file_takes_its_resume_position_with_it() {
    let mut s = store();
    let scratch = Scratch::new();
    let gone = add(&mut s, "/definitely/not/here.webm");
    s.set_resume(gone, secs(500.0)).unwrap();

    assert_eq!(scratch.forget_missing(&mut s), 1);
    assert!(s.track_by_id(gone).is_none());
    assert_eq!(
        s.resume_for(gone),
        None,
        "an orphaned resume row would fire on whatever reused the id"
    );
}

// ---- the queue ------------------------------------------------------------

#[test]
fn a_saved_queue_loads_back_with_the_same_rows_and_index() {
    let mut s = store();
    let ids: Vec<i64> = ["a", "b", "c"]
        .iter()
        .map(|n| add(&mut s, &format!("/sets/{n}.webm")))
        .collect();

    s.save_queue(&ids, Some(1));
    assert_eq!(s.load_queue(), (ids.clone(), Some(1)));

    s.save_queue(&ids, None);
    assert_eq!(s.load_queue(), (ids.clone(), None));

    s.save_queue(&[], None);
    assert_eq!(s.load_queue(), (Vec::new(), None));
}

/// The regression this exists for: a scan forgets a deleted file, SQLite
/// cascades the deletion into `queue_items`, and the caller still holds the
/// old id. Writing it back would violate the foreign key and fail the save —
/// which would make every later queue operation error until a restart.
#[test]
fn saving_a_queue_that_names_a_forgotten_track_still_succeeds() {
    let mut s = store();
    let mut scratch = Scratch::new();
    let kept = scratch.on_disk(&mut s, "kept.webm");
    let gone = add(&mut s, "/definitely/not/here.webm");
    let also_kept = scratch.on_disk(&mut s, "also-kept.webm");

    s.save_queue(&[kept, gone, also_kept], Some(2));
    assert_eq!(scratch.forget_missing(&mut s), 1);

    // The caller's copy of the queue still lists the forgotten track.
    // A deleted file must not break saving the queue.
    s.save_queue(&[kept, gone, also_kept], Some(2));

    let (items, index) = s.load_queue();
    assert_eq!(items, vec![kept, also_kept], "the ghost row is not written");
    assert_eq!(
        index,
        Some(1),
        "and the current row follows its track to its new position"
    );
}

#[test]
fn a_current_row_that_was_forgotten_selects_nothing() {
    let mut s = store();
    let mut scratch = Scratch::new();
    let kept = scratch.on_disk(&mut s, "kept.webm");
    let gone = add(&mut s, "/definitely/not/here.webm");
    scratch.forget_missing(&mut s);

    s.save_queue(&[kept, gone], Some(1));
    assert_eq!(s.load_queue(), (vec![kept], None));
}

#[test]
fn existing_track_ids_reports_only_what_is_still_indexed() {
    let mut s = store();
    let mut scratch = Scratch::new();
    let kept = scratch.on_disk(&mut s, "kept.webm");
    let gone = add(&mut s, "/definitely/not/here.webm");
    scratch.forget_missing(&mut s);

    let alive = s.existing_track_ids(&[kept, gone, 9999]);
    assert!(alive.contains(&kept));
    assert!(!alive.contains(&gone));
    assert!(!alive.contains(&9999));
    assert!(s.existing_track_ids(&[]).is_empty());
}

/// `queue_index` is stored as text in the settings table, so it has to survive
/// whatever is in there — including a value left by an older build.
#[test]
fn a_queue_index_past_the_end_is_ignored_rather_than_trusted() {
    let mut s = store();
    let id = add(&mut s, "/sets/one.webm");
    s.save_queue(&[id], Some(0));
    s.set_setting("queue_index", "17");
    assert_eq!(s.load_queue(), (vec![id], None));

    s.set_setting("queue_index", "not a number");
    assert_eq!(s.load_queue(), (vec![id], None));
}

// ---- folders and settings -------------------------------------------------

#[test]
fn watching_a_folder_twice_watches_it_once() {
    let mut s = store();
    s.add_folder("/lib/sets");
    s.add_folder("/lib/sets");
    s.add_folder("/lib/music");
    assert_eq!(*s.folders(), ["/lib/music", "/lib/sets"]);

    assert!(s.remove_folder("/lib/sets"));
    assert!(
        !s.remove_folder("/lib/sets"),
        "removing what is not watched reports so rather than failing"
    );
    assert_eq!(*s.folders(), ["/lib/music"]);
}

#[test]
fn settings_are_last_write_wins() {
    let mut s = store();
    assert_eq!(s.setting("repeat"), None);
    s.set_setting("repeat", "all");
    s.set_setting("repeat", "one");
    assert_eq!(s.setting("repeat").as_deref(), Some("one"));
    s.set_setting("repeat", "");
    assert_eq!(
        s.setting("repeat").as_deref(),
        Some(""),
        "an empty value is a value, not an absence"
    );
}

#[test]
fn recents_lists_only_what_has_been_played_newest_first() {
    let mut s = store();
    let a = add(&mut s, "/sets/a.webm");
    let b = add(&mut s, "/sets/b.webm");
    add(&mut s, "/sets/never.webm");

    s.mark_played(a);
    s.mark_played(b);

    let recents = s.recents(10);
    assert_eq!(recents.len(), 2, "unplayed tracks are not recent");
    assert!(recents.iter().all(|t| t.last_played_at.is_some()));
    assert!(s.recents(0).is_empty());
}

// ---- identity and order ---------------------------------------------------

#[test]
fn indexing_a_file_again_keeps_one_row_and_its_id() {
    let mut s = store();
    let id = add(&mut s, "/sets/one.webm");
    assert_eq!(add(&mut s, "/sets/one.webm"), id);
    assert_eq!(s.track_count(), 1);
    assert_eq!(s.track_by_path("/sets/one.webm").unwrap().id, id);
    assert!(s.track_by_path("/sets/ONE.webm").is_none());
}

#[test]
fn recents_are_ordered_by_the_time_they_were_played() {
    let mut s = store();
    let a = add(&mut s, "/sets/a.webm");
    let b = add(&mut s, "/sets/b.webm");
    s.mark_played_at(b, 10);
    s.mark_played_at(a, 20);
    let ids: Vec<i64> = s.recents(10).iter().map(|t| t.id).collect();
    assert_eq!(ids, vec![a, b]);
    s.mark_played_at(b, 30);
    let ids: Vec<i64> = s.recents(1).iter().map(|t| t.id).collect();
    assert_eq!(ids, vec![b]);
}

#[test]
fn a_position_is_only_kept_for_an_indexed_track() {
    let mut s = store();
    let id = add(&mut s, "/sets/a.webm");
    assert!(s.set_resume(id + 1, secs(90.0)).is_err());
    assert_eq!(s.resume_for(id + 1), None);
    assert!(s.positions().is_empty());
}

#[test]
fn a_position_that_is_not_a_number_is_refused() {
    let mut s = store();
    let id = add(&mut s, "/sets/a.webm");
    s.set_resume(id, secs(90.0)).unwrap();
    for track in [id, id + 1] {
        assert_eq!(
            s.set_resume(track, Fixed::NaN).err().unwrap().message(),
            "library storage failed: NOT NULL constraint failed: resume.position_secs"
        );
    }
    assert_eq!(s.resume_for(id), Some(secs(90.0)));
    assert_eq!(s.resume_for(id + 1), None);
    s.set_resume(id, Fixed::PosInfinity).unwrap();
    assert_eq!(s.resume_for(id), Some(Fixed::PosInfinity));
}

#[test]
fn a_duration_that_is_not_a_number_is_none() {
    let mut s = store();
    let odd = Probed { duration_secs: Some(Fixed::NaN), ..Probed::default() };
    let id = s.upsert_track(&file("/sets/a.webm"), &odd).unwrap();
    assert_eq!(s.track_by_id(id).unwrap().duration_secs, None);
    let known = Probed { duration_secs: Some(secs(60.0)), ..Probed::default() };
    s.upsert_track(&file("/sets/a.webm"), &known).unwrap();
    s.upsert_track(&file("/sets/a.webm"), &odd).unwrap();
    assert_eq!(s.track_by_id(id).unwrap().duration_secs, Some(secs(60.0)));
    s.set_duration(id, Fixed::NaN);
    assert_eq!(s.track_by_id(id).unwrap().duration_secs, Some(secs(60.0)));
}

#[test]
fn a_current_row_that_the_queue_does_not_have_is_stored_and_ignored() {
    let mut s = store();
    let a = add(&mut s, "/sets/a.webm");
    s.save_queue(&[a], Some(7));
    assert_eq!(s.setting("queue_index").as_deref(), Some("7"));
    assert_eq!(s.load_queue(), (vec![a], None));
    s.save_queue(&[a], None);
    assert_eq!(s.setting("queue_index").as_deref(), Some(""));
}

#[test]
fn forgetting_a_track_drops_it_from_the_stored_queue() {
    let mut s = store();
    let a = add(&mut s, "/sets/a.webm");
    let b = add(&mut s, "/sets/b.webm");
    s.save_queue(&[a, b, a], Some(1));
    assert_eq!(s.forget_missing(&[a]), 1);
    assert_eq!(s.load_queue().0, vec![b]);
    assert_eq!(s.forget_missing(&[a]), 0, "it is gone already");
}

#[test]
fn what_a_store_holds_restores_it() {
    let mut s = store();
    let a = tagged(&mut s, "/sets/a.webm", "A", "Artist");
    let b = add(&mut s, "/sets/b.webm");
    s.set_resume(a, secs(90.0)).unwrap();
    s.add_folder("/sets");
    s.set_setting("repeat", "all");
    s.save_queue(&[b, a], Some(1));

    let mut again = Store::restore(
        s.tracks().clone(),
        s.positions(),
        s.folders(),
        s.load_queue().0,
        s.settings(),
    )
    .unwrap();
    assert_eq!(again.tracks(), s.tracks());
    assert_eq!(again.resume_for(a), Some(secs(90.0)));
    assert_eq!(again.folders(), s.folders());
    assert_eq!(again.load_queue(), (vec![b, a], Some(1)));
    assert_eq!(again.setting("repeat").as_deref(), Some("all"));
    assert_eq!(add(&mut again, "/sets/c.webm"), b + 1);
}

#[test]
fn rows_that_do_not_belong_together_are_not_restored() {
    let mut s = store();
    let id = add(&mut s, "/sets/a.webm");
    let rows = s.tracks().clone();
    let mut twins = rows.clone();
    twins.push(rows[0].clone());
    assert!(
        Store::restore(twins, &Vec::new(), &Vec::new(), Vec::new(), &Vec::new()).is_err(),
        "one id for two tracks"
    );
    let astray = vec![(id as i128 + 1, secs(90.0))];
    assert!(
        Store::restore(rows.clone(), &astray, &Vec::new(), Vec::new(), &Vec::new()).is_err(),
        "a position of no track"
    );
    assert!(
        Store::restore(rows, &Vec::new(), &Vec::new(), vec![id + 1], &Vec::new()).is_err(),
        "a queue row of no track"
    );
}

#[test]
fn the_last_id_there_is_leaves_none() {
    let mut s = store();
    add(&mut s, "/sets/a.webm");
    let mut rows = s.tracks().clone();
    rows[0].id = i64::MAX;
    let mut full =
        Store::restore(rows, &Vec::new(), &Vec::new(), Vec::new(), &Vec::new()).unwrap();
    assert!(full.upsert_track(&file("/sets/b.webm"), &Probed::default()).is_err());
    assert!(full.upsert_track(&file("/sets/a.webm"), &Probed::default()).is_ok());
}

// ---- tables ---------------------------------------------------------------

#[test]
fn a_numbered_table_keeps_one_row_for_each_key() {
    let mut t: Numbered<&str> = Numbered::new();
    t.set(3, "three");
    t.set(1, "one");
    t.set(3, "tres");
    assert_eq!(t.get(3), Some(&"tres"));
    assert_eq!(t.get(2), None);
    assert_eq!(t.remove(3), Some("tres"));
    assert_eq!(t.remove(3), None);
    assert_eq!(t.rows().len(), 1);
}

#[test]
fn a_named_table_keeps_one_row_for_each_name() {
    let mut t: Named<u8> = Named::new();
    t.set("b", 1);
    t.set("a", 2);
    t.set("b", 3);
    assert_eq!(t.get("b"), Some(&3));
    assert_eq!(t.get("c"), None);
    assert_eq!(t.rows().len(), 2);
}
