//! The work scheduler's decision core: one full reconciliation sequence per
//! path, a batch pass over a list of discovered paths, and the pruning sweep.
//!
//! `reconcile_path` drives the engine over the catalog with the outside
//! answers (metadata, lookup) handed in as values, and its contract collects
//! the pipeline's guarantees: a path not yet stored is inserted exactly once;
//! an entry with an external identifier is never looked up again and never
//! loses it; a fresh last check suppresses the lookup; a stale or missing one
//! leads to exactly one lookup and a new last-check stamp whatever the
//! outcome.

use vstd::prelude::*;

use vstd::string::StrSliceExecFns;

use crate::basic_types::ProcessorError;
use crate::catalog::Catalog;
use crate::file_processor::{is_stale, EngineEvent, EngineRequest, EngineState, FileProcessor};
use crate::models::{MediaFileInfo, MediaFileInfoDocument, NewMediaFileInfo};

verus! {

/// What one reconciliation pass did for one path.
pub struct ReconcileReport {
    /// The reconciled entry, or why this path's pass ended without one.
    pub result: Result<MediaFileInfo, ProcessorError>,
    /// A new entry was inserted.
    pub inserted: bool,
    /// The stored entry's descriptive fields were rewritten.
    pub updated: bool,
    /// The identification service was asked (exactly once).
    pub looked_up: bool,
}

/// Reconciles one path against the catalog. `mtime` is the file's current
/// modification time; `metadata` is the freshly read metadata (`None` for a
/// file that is not usable), consulted only when the engine needs it; and
/// `lookup` is the identification outcome, consumed only when the engine
/// decides a lookup is due — `looked_up` in the report says whether it was.
pub fn reconcile_path(
    catalog: &mut Catalog,
    path: String,
    mtime: Option<i64>,
    metadata: Option<NewMediaFileInfo>,
    lookup: Result<Option<String>, ProcessorError>,
    now: i64,
) -> (r: ReconcileReport)
    requires
        old(catalog).wf(),
        now >= 0,
        old(catalog).next_id < i32::MAX,
        old(catalog).next_check_id < i32::MAX,
        metadata matches Some(info) ==> info.path@ == path@,
    ensures
        final(catalog).wf(),
        final(catalog).next_id <= old(catalog).next_id + 1,
        final(catalog).next_check_id <= old(catalog).next_check_id + 1,
        forall|p: Seq<char>|
            p != path@ ==> final(catalog).spec_fetch(p) == old(catalog).spec_fetch(p),
        // an unusable file under a new path changes nothing
        (!old(catalog).has_path(path@) && metadata is None) ==> ({
            &&& *final(catalog) == *old(catalog)
            &&& !r.inserted
            &&& !r.updated
            &&& !r.looked_up
            &&& (r.result matches Err(e) && e == ProcessorError::NothingUseful)
        }),
        // a usable file under a new path is inserted, exactly once, and
        // identified at once; the last check is stamped whatever the outcome
        !old(catalog).has_path(path@) ==> (metadata matches Some(info) ==> ({
            &&& r.inserted
            &&& r.looked_up
            &&& !r.updated
            &&& final(catalog).has_path(path@)
            &&& (final(catalog).spec_fetch(path@) matches Some(e) && {
                &&& e.id == old(catalog).next_id
                &&& e.path@ == path@
                &&& e.title == info.title
                &&& e.artist == info.artist
                &&& e.album == info.album
                &&& e.track == info.track
                &&& e.track_number == info.track_number
                &&& e.duration == info.duration
                &&& e.mtime == info.mtime
                &&& final(catalog).spec_check_time(e.id) == Some(now)
                &&& (lookup matches Ok(Some(m)) ==> (e.mbid == Some(m) && r.result
                    == Result::<MediaFileInfo, ProcessorError>::Ok(e)))
                &&& (lookup == Result::<Option<String>, ProcessorError>::Ok(None) ==> (
                e.mbid is None && r.result == Result::<MediaFileInfo, ProcessorError>::Ok(e)))
                &&& (lookup matches Err(er) ==> (e.mbid is None && r.result == Result::<
                    MediaFileInfo,
                    ProcessorError,
                >::Err(er)))
            })
        })),
        // a second pass over a stored path never inserts again
        old(catalog).has_path(path@) ==> (!r.inserted && final(catalog).has_path(path@)),
        old(catalog).spec_fetch(path@) matches Some(db) ==> ({
            // an entry that already has its identifier is never looked up
            // again, and the identifier is never cleared
            &&& (db.mbid is Some ==> (!r.looked_up && (final(catalog).spec_fetch(path@) matches
                Some(e2) && e2.mbid == db.mbid)))
            &&& ((db.mbid is Some && db.mtime == mtime) ==> (*final(catalog) == *old(catalog)
                && !r.updated && r.result == Result::<MediaFileInfo, ProcessorError>::Ok(db)))
            // a check younger than two weeks suppresses the lookup
            &&& ((db.mbid is None && db.mtime == mtime && !is_stale(
                old(catalog).spec_check_time(db.id),
                now,
            )) ==> (!r.looked_up && !r.updated && *final(catalog) == *old(catalog) && r.result
                == Result::<MediaFileInfo, ProcessorError>::Ok(db)))
            // a stale or missing check leads to exactly one lookup and a new
            // last-check stamp, whatever the service answered
            &&& ((db.mbid is None && db.mtime == mtime && is_stale(
                old(catalog).spec_check_time(db.id),
                now,
            )) ==> ({
                &&& r.looked_up
                &&& !r.updated
                &&& final(catalog).spec_check_time(db.id) == Some(now)
                &&& (lookup matches Ok(Some(m)) ==> ({
                    &&& final(catalog).spec_fetch(path@) == Some(
                        MediaFileInfo { mbid: Some(m), ..db },
                    )
                    &&& r.result == Result::<MediaFileInfo, ProcessorError>::Ok(
                        MediaFileInfo { mbid: Some(m), ..db },
                    )
                }))
                &&& (lookup == Result::<Option<String>, ProcessorError>::Ok(None) ==> (final(catalog).spec_fetch(path@) == Some(db) && r.result == Result::<MediaFileInfo,
                    ProcessorError,
                >::Ok(db)))
                &&& (lookup matches Err(er) ==> (final(catalog).spec_fetch(path@) == Some(db)
                    && r.result == Result::<MediaFileInfo, ProcessorError>::Err(er)))
            }))
            // a changed file that is no longer usable is a soft failure
            &&& ((db.mtime != mtime && metadata is None) ==> ({
                &&& *final(catalog) == *old(catalog)
                &&& !r.updated
                &&& !r.looked_up
                &&& (r.result matches Err(e) && e == ProcessorError::NothingUseful)
            }))
            // a changed file has its stored fields rewritten from fresh
            // metadata; identification follows only by the usual rules
            &&& (db.mtime != mtime ==> (metadata matches Some(info) ==> ({
                &&& r.updated
                &&& !r.inserted
                &&& (final(catalog).spec_fetch(path@) matches Some(u) && {
                    &&& u.id == db.id
                    &&& u.title == info.title
                    &&& u.artist == info.artist
                    &&& u.album == info.album
                    &&& u.track == info.track
                    &&& u.track_number == info.track_number
                    &&& u.duration == info.duration
                    &&& u.mtime == info.mtime
                    &&& (db.mbid is Some ==> (u.mbid == db.mbid && !r.looked_up && r.result
                        == Result::<MediaFileInfo, ProcessorError>::Ok(u)))
                    &&& ((db.mbid is None && !is_stale(old(catalog).spec_check_time(db.id), now))
                        ==> (!r.looked_up && u.mbid is None && r.result == Result::<MediaFileInfo,
                        ProcessorError,
                    >::Ok(u)))
                    &&& ((db.mbid is None && is_stale(old(catalog).spec_check_time(db.id), now))
                        ==> ({
                        &&& r.looked_up
                        &&& final(catalog).spec_check_time(db.id) == Some(now)
                        &&& (lookup matches Ok(Some(m)) ==> (u.mbid == Some(m) && r.result
                            == Result::<MediaFileInfo, ProcessorError>::Ok(u)))
                        &&& (lookup == Result::<Option<String>, ProcessorError>::Ok(None) ==> (
                        u.mbid is None && r.result == Result::<MediaFileInfo,
                            ProcessorError,
                        >::Ok(u)))
                        &&& (lookup matches Err(er) ==> (u.mbid is None && r.result == Result::<
                            MediaFileInfo,
                            ProcessorError,
                        >::Err(er)))
                    }))
                })
            })))
        }),
{
    let meta_is_some = metadata.is_some();
    let mut fp = FileProcessor::new(path, now);
    let req = fp.call(&*catalog, mtime);
    match req {
        EngineRequest::Complete(res) => {
            ReconcileReport { result: res, inserted: false, updated: false, looked_up: false }
        },
        EngineRequest::ReadMetadata => {
            let was_insert = match &fp.state {
                EngineState::AwaitInsertInfo => true,
                _ => false,
            };
            let req2 = fp.step(catalog, EngineEvent::Metadata(metadata));
            match req2 {
                EngineRequest::Complete(res) => {
                    ReconcileReport {
                        result: res,
                        inserted: false,
                        updated: !was_insert && meta_is_some,
                        looked_up: false,
                    }
                },
                EngineRequest::Lookup => {
                    let req3 = fp.step(catalog, EngineEvent::LookupDone(lookup));
                    match req3 {
                        EngineRequest::Complete(res) => {
                            ReconcileReport {
                                result: res,
                                inserted: was_insert,
                                updated: !was_insert,
                                looked_up: true,
                            }
                        },
                        _ => {
                            proof {
                                assert(false);
                            }
                            unreached()
                        },
                    }
                },
                EngineRequest::ReadMetadata => {
                    proof {
                        assert(false);
                    }
                    unreached()
                },
            }
        },
        EngineRequest::Lookup => {
            let req2 = fp.step(catalog, EngineEvent::LookupDone(lookup));
            match req2 {
                EngineRequest::Complete(res) => {
                    ReconcileReport {
                        result: res,
                        inserted: false,
                        updated: false,
                        looked_up: true,
                    }
                },
                _ => {
                    proof {
                        assert(false);
                    }
                    unreached()
                },
            }
        },
    }
}

/// One discovered path with the outside answers its reconciliation may need:
/// the file's current modification time, its freshly read metadata, and the
/// identification outcome the service would give for it.
pub struct ScanItem {
    pub path: String,
    pub mtime: Option<i64>,
    pub metadata: Option<NewMediaFileInfo>,
    pub lookup: Result<Option<String>, ProcessorError>,
}

/// Reconciles a whole scan pass, in discovery order. Failures of one path do
/// not stop the pass. Returns how many paths reconciled successfully and the
/// search-index documents for them, one per success; an empty scan changes
/// nothing and counts zero.
#[verifier::loop_isolation(false)]
pub fn scan_paths(catalog: &mut Catalog, items: Vec<ScanItem>, now: i64) -> (r: (
    usize,
    Vec<MediaFileInfoDocument>,
))
    requires
        old(catalog).wf(),
        now >= 0,
        old(catalog).next_id + items@.len() <= i32::MAX,
        old(catalog).next_check_id + items@.len() <= i32::MAX,
        forall|i: int|
            0 <= i < items@.len() ==> ((#[trigger] items@[i]).metadata matches Some(info)
                ==> info.path@ == items@[i].path@),
    ensures
        final(catalog).wf(),
        items@.len() == 0 ==> (*final(catalog) == *old(catalog) && r.0 == 0),
        r.0 <= items@.len(),
        r.1@.len() == r.0,
        forall|i: int|
            0 <= i < items@.len() ==> ((#[trigger] items@[i]).metadata is Some ==> final(catalog).has_path(items@[i].path@)),
        forall|p: Seq<char>|
            !(exists|i: int| 0 <= i < items@.len() && (#[trigger] items@[i]).path@ == p) ==> final(catalog).spec_fetch(p) == old(catalog).spec_fetch(p),
{
    let ghost items_seq = items@;
    let mut items = items;
    let mut count: usize = 0;
    let mut docs: Vec<MediaFileInfoDocument> = Vec::new();
    let n = items.len();
    let mut k: usize = 0;
    while k < n
        invariant
            catalog.wf(),
            0 <= k <= n,
            n == items_seq.len(),
            items@ =~= items_seq.subrange(k as int, n as int),
            catalog.next_id <= old(catalog).next_id + k,
            catalog.next_check_id <= old(catalog).next_check_id + k,
            count <= k,
            docs@.len() == count,
            k == 0 ==> *catalog == *old(catalog),
            forall|j: int|
                0 <= j < k ==> ((#[trigger] items_seq[j]).metadata is Some ==> catalog.has_path(
                    items_seq[j].path@,
                )),
            forall|p: Seq<char>|
                !(exists|i: int| 0 <= i < k && (#[trigger] items_seq[i]).path@ == p)
                    ==> catalog.spec_fetch(p) == old(catalog).spec_fetch(p),
        decreases n - k,
    {
        proof {
            assert(items@[0] == items_seq[k as int]);
        }
        let ghost pre = *catalog;
        let item = items.remove(0);
        let report = reconcile_path(catalog, item.path, item.mtime, item.metadata, item.lookup, now);
        match report.result {
            Ok(entry) => {
                docs.push(entry.to_document());
                count += 1;
            },
            Err(_) => {},
        }
        proof {
            let cur = items_seq[k as int];
            assert forall|j: int|
                0 <= j <= k as int implies ((#[trigger] items_seq[j]).metadata is Some
                ==> catalog.has_path(items_seq[j].path@)) by {
                if items_seq[j].metadata is Some {
                    if items_seq[j].path@ == cur.path@ {
                        if j < k as int {
                            assert(pre.has_path(cur.path@));
                        }
                    } else {
                        assert(catalog.spec_fetch(items_seq[j].path@) == pre.spec_fetch(
                            items_seq[j].path@,
                        ));
                    }
                }
            }
        }
        k += 1;
    }
    (count, docs)
}

/// The pruning sweep: deletes every catalog entry whose path is in
/// `absent_paths` — the stored paths whose backing file no longer exists —
/// together with its last-check row. Entries under other paths, and their
/// last checks, are untouched; a sweep that finds nothing to delete changes
/// nothing, so a second pass over the same list is a no-op.
#[verifier::loop_isolation(false)]
pub fn prune_db(catalog: &mut Catalog, absent_paths: &Vec<String>)
    requires
        old(catalog).wf(),
    ensures
        final(catalog).wf(),
        final(catalog).next_id == old(catalog).next_id,
        final(catalog).next_check_id == old(catalog).next_check_id,
        forall|i: int|
            0 <= i < absent_paths@.len() ==> !final(catalog).has_path(
                (#[trigger] absent_paths@[i])@,
            ),
        forall|i: int|
            0 <= i < absent_paths@.len() ==> ((#[trigger] old(catalog).spec_fetch(
                absent_paths@[i]@,
            )) matches Some(db) ==> (!final(catalog).has_check(db.id) && !final(catalog).has_entry_id(db.id))),
        forall|p: Seq<char>|
            !(exists|i: int| 0 <= i < absent_paths@.len() && (#[trigger] absent_paths@[i])@ == p)
                ==> (final(catalog).spec_fetch(p) == old(catalog).spec_fetch(p) && final(catalog).has_path(p) == old(catalog).has_path(p)),
        forall|id: i32| #[trigger]
            final(catalog).has_entry_id(id) ==> (old(catalog).has_entry_id(id) && final(catalog).spec_entry_for_id(id) == old(catalog).spec_entry_for_id(id) && final(catalog).spec_check_time(id) == old(catalog).spec_check_time(id)),
        (forall|i: int|
            0 <= i < absent_paths@.len() ==> !old(catalog).has_path(
                (#[trigger] absent_paths@[i])@,
            )) ==> *final(catalog) == *old(catalog),
{
    let n = absent_paths.len();
    let mut k: usize = 0;
    while k < n
        invariant
            catalog.wf(),
            0 <= k <= n,
            n == absent_paths@.len(),
            catalog.next_id == old(catalog).next_id,
            catalog.next_check_id == old(catalog).next_check_id,
            forall|j: int|
                0 <= j < k ==> !catalog.has_path((#[trigger] absent_paths@[j])@),
            forall|j: int|
                0 <= j < k ==> ((#[trigger] old(catalog).spec_fetch(absent_paths@[j]@)) matches
                    Some(db) ==> (!catalog.has_check(db.id) && !catalog.has_entry_id(db.id))),
            forall|p: Seq<char>|
                !(exists|j: int|
                    0 <= j < k && (#[trigger] absent_paths@[j])@ == p) ==> (catalog.spec_fetch(p)
                    == old(catalog).spec_fetch(p) && catalog.has_path(p) == old(catalog).has_path(p)),
            forall|id: i32| #[trigger]
                catalog.has_entry_id(id) ==> (old(catalog).has_entry_id(id)
                    && catalog.spec_entry_for_id(id) == old(catalog).spec_entry_for_id(id)
                    && catalog.spec_check_time(id) == old(catalog).spec_check_time(id)),
            (forall|j: int|
                0 <= j < k ==> !old(catalog).has_path((#[trigger] absent_paths@[j])@)) ==> *catalog
                == *old(catalog),
        decreases n - k,
    {
        let fetched = catalog.fetch_file(&absent_paths[k]);
        match fetched {
            Some(db) => {
                catalog.delete_acoustid_last_check(db.id);
                catalog.delete_file(db.id);
            },
            None => {},
        }
        k += 1;
    }
}

/// True for file names the scan skips: hidden entries, whose name starts
/// with a dot.
pub fn is_hidden(file_name: &str) -> (r: bool)
    ensures
        r == (file_name@.len() > 0 && file_name@[0] == '.'),
{
    if file_name.is_empty() {
        false
    } else {
        file_name.get_char(0) == '.'
    }
}

} // verus!
