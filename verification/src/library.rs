//! Scanning watched folders into the index.
//!
//! The host walks the disk. For each entry it finds, [`scan_entry`] decides what
//! becomes of it, and [`scan_folder`] goes through them all; only a file that is
//! new or has changed needs probing, so rescanning a folder of two-hour sets is
//! cheap.

use vstd::prelude::*;

use crate::error::CoreError;
use crate::probe::Probed;
use crate::store::{
    increasing, is_unchanged, no_id_left, same_file, with_path, ScannedFile, Store, StoreView,
};
use crate::store_laws::{law_indexed_file_is_unchanged, law_indexing_leaves_other_files};
use crate::track::{is_media_file, media_extension, path_extension, Track};

verus! {

/// What a scan came to.
#[derive(Debug, Clone, Copy, PartialEq, Eq, Structural)]
pub struct ScanReport {
    /// Media files seen on disk.
    pub seen: usize,
    /// Files new to the index.
    pub added: usize,
    /// Files whose size or modified time changed, so they were probed again.
    pub updated: usize,
    /// Files unchanged since the last scan, skipped without probing.
    pub unchanged: usize,
    /// Index entries dropped because the file is gone.
    pub removed: usize,
}

impl Default for ScanReport {
    fn default() -> (r: Self)
        ensures
            r == ScanReport::nothing(),
    {
        ScanReport { seen: 0, added: 0, updated: 0, unchanged: 0, removed: 0 }
    }
}

impl ScanReport {
    pub open spec fn nothing() -> ScanReport {
        ScanReport { seen: 0, added: 0, updated: 0, unchanged: 0, removed: 0 }
    }

    /// Every file that was seen is counted once more, by what became of it.
    pub open spec fn adds_up(self) -> bool {
        self.seen == self.added + self.updated + self.unchanged
    }

    /// Count another report in.
    pub fn merge(&mut self, other: ScanReport)
        requires
            old(self).seen + other.seen <= usize::MAX,
            old(self).added + other.added <= usize::MAX,
            old(self).updated + other.updated <= usize::MAX,
            old(self).unchanged + other.unchanged <= usize::MAX,
            old(self).removed + other.removed <= usize::MAX,
        ensures
            final(self).seen == old(self).seen + other.seen,
            final(self).added == old(self).added + other.added,
            final(self).updated == old(self).updated + other.updated,
            final(self).unchanged == old(self).unchanged + other.unchanged,
            final(self).removed == old(self).removed + other.removed,
            old(self).adds_up() && other.adds_up() ==> final(self).adds_up(),
    {
        self.seen = self.seen + other.seen;
        self.added = self.added + other.added;
        self.updated = self.updated + other.updated;
        self.unchanged = self.unchanged + other.unchanged;
        self.removed = self.removed + other.removed;
    }
}

/// An entry of the disk, as a walk finds it.
#[derive(Debug)]
pub struct Found {
    pub path: String,
    pub is_file: bool,
    /// Its size and modified time, where they can be read.
    pub stat: Option<(i64, i64)>,
}

/// What becomes of an entry.
#[derive(Debug, Clone, Copy, PartialEq, Eq, Structural)]
pub enum Verdict {
    /// No media file, or one that cannot be looked at.
    Skip,
    /// As the index has it.
    Unchanged,
    /// Known, but changed.
    Update,
    /// New to the index.
    Add,
}

/// What becomes of an entry.
pub open spec fn verdict(tracks: Seq<Track>, found: Found) -> Verdict {
    if !found.is_file || !(path_extension(found.path@) matches Some(ext) && media_extension(ext))
        || found.stat is None {
        Verdict::Skip
    } else {
        match with_path(tracks, found.path@) {
            Some(track) => if is_unchanged(track, scanned(found)) {
                Verdict::Unchanged
            } else {
                Verdict::Update
            },
            None => Verdict::Add,
        }
    }
}

/// An entry as a file of the index.
pub open spec fn scanned(found: Found) -> ScannedFile {
    ScannedFile {
        path: found.path,
        size_bytes: (found.stat->0).0,
        mtime: (found.stat->0).1,
    }
}

/// A report with one more file in it.
pub open spec fn counted(report: ScanReport, v: Verdict) -> ScanReport {
    match v {
        Verdict::Skip => report,
        Verdict::Unchanged => ScanReport {
            seen: (report.seen + 1) as usize,
            unchanged: (report.unchanged + 1) as usize,
            ..report
        },
        Verdict::Update => ScanReport {
            seen: (report.seen + 1) as usize,
            updated: (report.updated + 1) as usize,
            ..report
        },
        Verdict::Add => ScanReport {
            seen: (report.seen + 1) as usize,
            added: (report.added + 1) as usize,
            ..report
        },
    }
}

/// What becomes of an entry.
pub fn judge(store: &Store, found: &Found) -> (r: Verdict)
    ensures
        r == verdict(store@.tracks, *found),
{
    if !found.is_file || !is_media_file(found.path.as_str()) {
        return Verdict::Skip;
    }
    match found.stat {
        None => Verdict::Skip,
        Some((size_bytes, mtime)) => {
            let file = ScannedFile { path: found.path.clone(), size_bytes, mtime };
            match store.track_by_path(found.path.as_str()) {
                Some(track) => if same_file(&track, &file) {
                    Verdict::Unchanged
                } else {
                    Verdict::Update
                },
                None => Verdict::Add,
            }
        },
    }
}

/// How far an entry came.
#[derive(Debug, Clone, Copy, PartialEq, Eq, Structural)]
pub enum Scanned {
    /// It is dealt with.
    Settled,
    /// It has to be probed first.
    NeedsProbe,
}

/// Deal with an entry: count it, and index it where it is new or has changed.
/// Where that needs its metadata and `probed` does not give it, nothing changes
/// and the metadata is asked for.
pub fn scan_entry(
    store: &mut Store,
    report: &mut ScanReport,
    found: &Found,
    probed: Option<&Probed>,
    now: i64,
) -> (r: Result<Scanned, CoreError>)
    requires
        old(store).wf(),
        old(report).adds_up(),
        old(report).seen < usize::MAX,
    ensures
        final(store).wf(),
        final(report).adds_up(),
        ({
            let v = verdict(old(store)@.tracks, *found);
            let file = scanned(*found);
            match v {
                Verdict::Skip | Verdict::Unchanged => r == Ok::<Scanned, CoreError>(
                    Scanned::Settled,
                ) && final(store)@ == old(store)@ && *final(report) == counted(*old(report), v),
                Verdict::Update | Verdict::Add => match probed {
                    None => r == Ok::<Scanned, CoreError>(Scanned::NeedsProbe) && final(store)@
                        == old(store)@ && *final(report) == *old(report),
                    Some(p) => if old(store)@.upserted_id(file) <= i64::MAX {
                        r == Ok::<Scanned, CoreError>(Scanned::Settled) && final(store)@ == old(
                            store,
                        )@.upserted(file, *p, now) && *final(report) == counted(*old(report), v)
                    } else {
                        r matches Err(e) && e@ == no_id_left() && final(store)@ == old(store)@
                            && *final(report) == *old(report)
                    },
                },
            }
        }),
{
    let v: Verdict = judge(store, found);
    match v {
        Verdict::Skip => {
            return Ok(Scanned::Settled);
        },
        Verdict::Unchanged => {
            report.seen = report.seen + 1;
            report.unchanged = report.unchanged + 1;
            return Ok(Scanned::Settled);
        },
        _ => {},
    }
    let p: &Probed = match probed {
        Some(p) => p,
        None => {
            return Ok(Scanned::NeedsProbe);
        },
    };
    let (size_bytes, mtime): (i64, i64) = match found.stat {
        Some(s) => s,
        None => {
            return Ok(Scanned::Settled);
        },
    };
    let file = ScannedFile { path: found.path.clone(), size_bytes, mtime };
    store.upsert_track_at(&file, p, now)?;
    report.seen = report.seen + 1;
    match v {
        Verdict::Update => {
            report.updated = report.updated + 1;
        },
        _ => {
            report.added = report.added + 1;
        },
    }
    Ok(Scanned::Settled)
}

/// How far the scan of a folder has come.
#[derive(Debug, Clone, Copy, PartialEq, Eq, Structural)]
pub struct Scan {
    pub report: ScanReport,
    /// The entry that is next.
    pub at: usize,
}

impl Scan {
    pub open spec fn wf(self) -> bool {
        self.report.adds_up() && self.report.seen <= self.at
    }

    /// A scan that has not begun.
    pub fn new() -> (r: Scan)
        ensures
            r.report == ScanReport::nothing(),
            r.at == 0,
            r.wf(),
    {
        Scan { report: ScanReport { seen: 0, added: 0, updated: 0, unchanged: 0, removed: 0 }, at: 0 }
    }
}

/// How a scan comes to a halt.
pub enum ScanEnd {
    /// Every entry is dealt with.
    Finished,
    /// The next entry has to be probed.
    NeedsProbe,
    /// The index has no room for the next entry.
    Full,
}

/// What a scan leaves behind.
pub struct ScanRun {
    pub store: StoreView,
    pub report: ScanReport,
    pub at: int,
    pub end: ScanEnd,
}

/// The entries from `i` on dealt with, as far as that goes with the metadata of
/// the first of them, or with none.
pub open spec fn scan_from(
    s: StoreView,
    report: ScanReport,
    found: Seq<Found>,
    i: int,
    probed: Option<Probed>,
    now: i64,
) -> ScanRun
    decreases found.len() - i,
{
    if 0 <= i < found.len() {
        let v = verdict(s.tracks, found[i]);
        match (v, probed) {
            (Verdict::Skip, _) | (Verdict::Unchanged, _) => scan_from(
                s,
                counted(report, v),
                found,
                i + 1,
                None,
                now,
            ),
            (_, None) => ScanRun { store: s, report, at: i, end: ScanEnd::NeedsProbe },
            (_, Some(p)) => if s.upserted_id(scanned(found[i])) <= i64::MAX {
                scan_from(
                    s.upserted(scanned(found[i]), p, now),
                    counted(report, v),
                    found,
                    i + 1,
                    None,
                    now,
                )
            } else {
                ScanRun { store: s, report, at: i, end: ScanEnd::Full }
            },
        }
    } else {
        ScanRun { store: s, report, at: i, end: ScanEnd::Finished }
    }
}

pub open spec fn given(probed: Option<&Probed>) -> Option<Probed> {
    match probed {
        Some(p) => Some(*p),
        None => None,
    }
}

/// Deal with the entries of a folder from where the scan has come to: until one
/// has to be probed, whose path is given, or to the end. `probed` is the metadata
/// of the entry that the scan has come to.
pub fn scan_folder(
    store: &mut Store,
    scan: &mut Scan,
    found: &Vec<Found>,
    probed: Option<&Probed>,
    now: i64,
) -> (r: Result<Option<String>, CoreError>)
    requires
        old(store).wf(),
        old(scan).wf(),
        old(scan).at <= found@.len(),
    ensures
        final(store).wf(),
        final(scan).wf(),
        final(scan).at <= found@.len(),
        ({
            let run = scan_from(
                old(store)@,
                old(scan).report,
                found@,
                old(scan).at as int,
                given(probed),
                now,
            );
            &&& final(store)@ == run.store
            &&& final(scan).report == run.report
            &&& final(scan).at == run.at
            &&& match run.end {
                ScanEnd::Finished => r matches Ok(None),
                ScanEnd::NeedsProbe => r matches Ok(Some(path)) && path@
                    == found@[run.at].path@,
                ScanEnd::Full => r matches Err(e) && e@ == no_id_left(),
            }
        }),
{
    let ghost run = scan_from(
        store@,
        scan.report,
        found@,
        scan.at as int,
        given(probed),
        now,
    );
    let mut metadata: Option<&Probed> = probed;
    while scan.at < found.len()
        invariant
            store.wf(),
            scan.wf(),
            scan.at <= found@.len(),
            run == scan_from(
                old(store)@,
                old(scan).report,
                found@,
                old(scan).at as int,
                given(probed),
                now,
            ),
            run == scan_from(
                store@,
                scan.report,
                found@,
                scan.at as int,
                given(metadata),
                now,
            ),
        decreases found@.len() - scan.at,
    {
        let mut report: ScanReport = scan.report;
        match scan_entry(store, &mut report, &found[scan.at], metadata, now)? {
            Scanned::NeedsProbe => {
                return Ok(Some(found[scan.at].path.clone()));
            },
            Scanned::Settled => {},
        }
        scan.report = report;
        scan.at = scan.at + 1;
        metadata = None;
    }
    Ok(None)
}

/// How much reports count in one column, one after another.
pub open spec fn total(reports: Seq<ScanReport>, column: spec_fn(ScanReport) -> nat) -> nat
    decreases reports.len(),
{
    if reports.len() == 0 {
        0
    } else {
        total(reports.drop_last(), column) + column(reports.last())
    }
}

/// What a report says in each column.
pub open spec fn seen_of() -> spec_fn(ScanReport) -> nat {
    |r: ScanReport| r.seen as nat
}

pub open spec fn added_of() -> spec_fn(ScanReport) -> nat {
    |r: ScanReport| r.added as nat
}

pub open spec fn updated_of() -> spec_fn(ScanReport) -> nat {
    |r: ScanReport| r.updated as nat
}

pub open spec fn unchanged_of() -> spec_fn(ScanReport) -> nat {
    |r: ScanReport| r.unchanged as nat
}

/// Fewer reports count less.
proof fn lemma_total_prefix(
    reports: Seq<ScanReport>,
    column: spec_fn(ScanReport) -> nat,
    k: int,
)
    requires
        0 <= k <= reports.len(),
    ensures
        total(reports.take(k), column) <= total(reports, column),
    decreases reports.len() - k,
{
    if k == reports.len() {
        assert(reports.take(k) =~= reports);
    } else {
        assert(reports.take(k + 1).drop_last() =~= reports.take(k));
        lemma_total_prefix(reports, column, k + 1);
    }
}

/// The reports of every watched folder, and how many tracks were forgotten
/// because their files have disappeared.
pub fn scan_all(reports: &Vec<ScanReport>, removed: usize) -> (r: ScanReport)
    requires
        forall|i: int| 0 <= i < reports@.len() ==> (#[trigger] reports@[i]).adds_up(),
        total(reports@, seen_of()) <= usize::MAX,
    ensures
        r.seen == total(reports@, seen_of()),
        r.added == total(reports@, added_of()),
        r.updated == total(reports@, updated_of()),
        r.unchanged == total(reports@, unchanged_of()),
        r.removed == removed,
        r.adds_up(),
{
    let mut r = ScanReport { seen: 0, added: 0, updated: 0, unchanged: 0, removed: 0 };
    let mut i: usize = 0;
    while i < reports.len()
        invariant
            i <= reports@.len(),
            forall|i: int| 0 <= i < reports@.len() ==> (#[trigger] reports@[i]).adds_up(),
            total(reports@, seen_of()) <= usize::MAX,
            r.adds_up(),
            r.removed == 0,
            r.seen == total(reports@.take(i as int), seen_of()),
            r.added == total(reports@.take(i as int), added_of()),
            r.updated == total(reports@.take(i as int), updated_of()),
            r.unchanged == total(reports@.take(i as int), unchanged_of()),
        decreases reports@.len() - i,
    {
        proof {
            assert(reports@.take(i as int + 1).drop_last() =~= reports@.take(i as int));
            assert(reports@.take(i as int + 1).last() == reports@[i as int]);
            lemma_total_prefix(reports@, seen_of(), i as int + 1);
        }
        let one: ScanReport = reports[i];
        r.merge(ScanReport { removed: 0, ..one });
        i = i + 1;
    }
    assert(reports@.take(i as int) =~= reports@);
    r.removed = removed;
    r
}

/// A file that was just indexed is unchanged the next time it is found as it is:
/// a second scan costs nothing.
pub proof fn law_second_scan_costs_nothing(s: StoreView, found: Found, probed: Probed, now: i64)
    requires
        verdict(s.tracks, found) is Add || verdict(s.tracks, found) is Update,
        s.upserted_id(scanned(found)) <= i64::MAX,
    ensures
        verdict(s.upserted(scanned(found), probed, now).tracks, found) is Unchanged,
{
    law_indexed_file_is_unchanged(s, scanned(found), probed, now);
}

/// Whether an entry is a media file that can be looked at.
pub open spec fn countable(found: Found) -> bool {
    found.is_file && (path_extension(found.path@) matches Some(ext) && media_extension(ext))
        && found.stat is Some
}

/// How many of the first `k` entries are media files that can be looked at.
pub open spec fn files_among(found: Seq<Found>, k: int) -> int
    decreases k,
{
    if k <= 0 {
        0
    } else {
        files_among(found, k - 1) + (if countable(found[k - 1]) {
            1int
        } else {
            0int
        })
    }
}

proof fn lemma_files_among(found: Seq<Found>, k: int)
    requires
        0 <= k,
    ensures
        0 <= files_among(found, k) <= k,
    decreases k,
{
    if k > 0 {
        lemma_files_among(found, k - 1);
    }
}

/// Whether the first `k` entries are as the index has them, or none of its concern.
pub open spec fn settled(tracks: Seq<Track>, found: Seq<Found>, k: int) -> bool {
    forall|i: int|
        0 <= i < k ==> (verdict(tracks, #[trigger] found[i]) is Skip || verdict(
            tracks,
            found[i],
        ) is Unchanged)
}

/// Whether each entry has a path of its own, as in a walk of a disk.
pub open spec fn walked(found: Seq<Found>) -> bool {
    forall|i: int, j: int| 0 <= i < j < found.len() ==> found[i].path@ != found[j].path@
}

/// What a scan has dealt with stays dealt with, whatever comes later in it, and it
/// has counted the media files among it; a finished scan has dealt with everything.
pub proof fn law_scanned_entries_are_settled(
    s: StoreView,
    report: ScanReport,
    found: Seq<Found>,
    i: int,
    probed: Option<Probed>,
    now: i64,
)
    requires
        increasing(s.tracks),
        walked(found),
        0 <= i <= found.len() <= usize::MAX,
        settled(s.tracks, found, i),
        report.adds_up(),
        report.seen == files_among(found, i),
    ensures
        ({
            let run = scan_from(s, report, found, i, probed, now);
            &&& run.report.adds_up()
            &&& run.report.seen == files_among(found, run.at)
            &&& increasing(run.store.tracks)
            &&& i <= run.at <= found.len()
            &&& settled(run.store.tracks, found, run.at)
            &&& run.end is Finished ==> run.at == found.len()
        }),
    decreases found.len() - i,
{
    lemma_files_among(found, i);
    if i < found.len() {
        let v = verdict(s.tracks, found[i]);
        let file = scanned(found[i]);
        match (v, probed) {
            (Verdict::Skip, _) | (Verdict::Unchanged, _) => {
                law_scanned_entries_are_settled(s, counted(report, v), found, i + 1, None, now);
            },
            (_, None) => {},
            (_, Some(p)) => if s.upserted_id(file) <= i64::MAX {
                let next = s.upserted(file, p, now);
                law_second_scan_costs_nothing(s, found[i], p, now);
                assert forall|j: int| 0 <= j < i + 1 implies (verdict(
                    next.tracks,
                    #[trigger] found[j],
                ) is Skip || verdict(next.tracks, found[j]) is Unchanged) by {
                    if j < i {
                        law_indexing_leaves_other_files(s, file, p, now, found[j].path@);
                    }
                }
                law_indexing_leaves_other_files(s, file, p, now, file.path@);
                law_scanned_entries_are_settled(next, counted(report, v), found, i + 1, None, now);
            },
        }
    }
}

/// Scanning a folder again, with nothing changed on disk, asks for no metadata,
/// writes nothing, sees the same files, and counts every one of them as unchanged.
pub proof fn law_rescan_of_a_settled_folder_costs_nothing(
    s: StoreView,
    report: ScanReport,
    found: Seq<Found>,
    i: int,
    now: i64,
)
    requires
        0 <= i <= found.len(),
        settled(s.tracks, found, found.len() as int),
        found.len() <= usize::MAX,
        report.adds_up(),
        report.seen == files_among(found, i),
    ensures
        ({
            let run = scan_from(s, report, found, i, None, now);
            &&& run.end is Finished
            &&& run.store == s
            &&& run.report.seen == files_among(found, found.len() as int)
            &&& run.report.added == report.added
            &&& run.report.updated == report.updated
            &&& run.report.adds_up()
        }),
    decreases found.len() - i,
{
    lemma_files_among(found, i);
    if i < found.len() {
        let v = verdict(s.tracks, found[i]);
        assert(v is Skip || v is Unchanged);
        law_rescan_of_a_settled_folder_costs_nothing(s, counted(report, v), found, i + 1, now);
    }
}

/// What becomes of an entry: a media file that can be looked at is new where the index
/// has no track of its path; it has changed where its size or its modified time is
/// another than the index has; else it is unchanged. Everything else is skipped.
pub proof fn law_files_are_told_apart(tracks: Seq<Track>, found: Found, size: i64, mtime: i64)
    requires
        found.is_file,
        found.stat == Some((size, mtime)),
        path_extension(found.path@) matches Some(ext) && media_extension(ext),
    ensures
        with_path(tracks, found.path@) is None ==> verdict(tracks, found) == Verdict::Add,
        with_path(tracks, found.path@) matches Some(t) ==> {
            &&& t.size_bytes == size && t.mtime == mtime ==> verdict(tracks, found)
                == Verdict::Unchanged
            &&& t.size_bytes != size || t.mtime != mtime ==> verdict(tracks, found)
                == Verdict::Update
        },
        verdict(tracks, Found { is_file: false, ..found }) == Verdict::Skip,
        verdict(tracks, Found { stat: None, ..found }) == Verdict::Skip,
{
}

/// What is no media file is skipped, whatever else it is.
pub proof fn law_other_files_are_skipped(tracks: Seq<Track>, found: Found)
    requires
        !(path_extension(found.path@) matches Some(ext) && media_extension(ext)),
    ensures
        verdict(tracks, found) == Verdict::Skip,
{
}

/// One entry that a scan deals with: a new or changed file is probed first, and then
/// indexed with what that gave and with its size and modified time; it is counted as
/// seen, and as what became of it. An unchanged file is only counted, and what is
/// skipped is not even that.
pub proof fn law_scanning_an_entry(
    s: StoreView,
    report: ScanReport,
    found: Found,
    probed: Probed,
    now: i64,
)
    requires
        report.seen < usize::MAX,
        report.added < usize::MAX,
        report.updated < usize::MAX,
        report.unchanged < usize::MAX,
        found.stat is Some ==> s.upserted_id(scanned(found)) <= i64::MAX,
    ensures
        ({
            let v = verdict(s.tracks, found);
            let bare = scan_from(s, report, seq![found], 0, None, now);
            let run = scan_from(s, report, seq![found], 0, Some(probed), now);
            &&& v == Verdict::Skip ==> bare.store == s && bare.report == report && bare.end
                is Finished
            &&& v == Verdict::Unchanged ==> bare.store == s && bare.end is Finished
                && bare.report.seen == report.seen + 1 && bare.report.unchanged
                == report.unchanged + 1 && bare.report.added == report.added
                && bare.report.updated == report.updated
            &&& v == Verdict::Add || v == Verdict::Update ==> {
                &&& bare.end is NeedsProbe
                &&& bare.at == 0
                &&& bare.store == s
                &&& bare.report == report
                &&& run.end is Finished
                &&& run.at == 1
                &&& run.report.seen == report.seen + 1
                &&& run.report.unchanged == report.unchanged
                &&& with_path(run.store.tracks, found.path@) matches Some(t) && t.size_bytes
                    == (found.stat->0).0 && t.mtime == (found.stat->0).1 && (probed.title is Some
                    ==> t.title == probed.title)
            }
            &&& v == Verdict::Add ==> run.report.added == report.added + 1 && run.report.updated
                == report.updated
            &&& v == Verdict::Update ==> run.report.updated == report.updated + 1
                && run.report.added == report.added
        }),
{
    let one = seq![found];
    let v = verdict(s.tracks, found);
    assert(one[0] == found);
    assert(scan_from(s, counted(report, v), one, 1, None, now).end is Finished);
    if v == Verdict::Add || v == Verdict::Update {
        let file = scanned(found);
        let next = s.upserted(file, probed, now);
        assert(scan_from(next, counted(report, v), one, 1, None, now).end is Finished);
        law_indexed_file_is_unchanged(s, file, probed, now);
        match with_path(s.tracks, found.path@) {
            Some(t) => {
                crate::store_laws::law_probe_replaces_what_it_learned(s, file, probed, now, t);
            },
            None => {
                assert(next.tracks.last().path == file.path);
            },
        }
    }
}

/// A scan of several entries is the scan of the first, and then of the others.
pub proof fn law_scan_goes_entry_by_entry(
    s: StoreView,
    report: ScanReport,
    found: Seq<Found>,
    i: int,
    now: i64,
)
    requires
        0 <= i < found.len(),
        verdict(s.tracks, found[i]) == Verdict::Skip || verdict(s.tracks, found[i])
            == Verdict::Unchanged,
    ensures
        ({
            let first = scan_from(s, report, seq![found[i]], 0, None, now);
            scan_from(s, report, found, i, None, now) == scan_from(
                s,
                first.report,
                found,
                i + 1,
                None,
                now,
            )
        }),
{
    let one = seq![found[i]];
    assert(one[0] == found[i]);
    let v = verdict(s.tracks, found[i]);
    assert(scan_from(s, counted(report, v), one, 1, None, now).end is Finished);
}

} // verus!
