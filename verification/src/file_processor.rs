//! The per-file reconciliation engine: a state machine that combines the
//! stored entry for a path, the file's current modification time, freshly
//! read metadata and the identification service's answer into one consistent
//! catalog update.
//!
//! The engine never performs outside work itself. It hands the driver a
//! request (`ReadMetadata`, `Lookup`) and consumes the answer as an event;
//! every catalog change between two requests is verified here. A driver runs
//! one `FileProcessor` per discovered path: `call` starts the machine,
//! `step` feeds it until it answers `Complete`.

use vstd::prelude::*;

use crate::basic_types::ProcessorError;
use crate::catalog::Catalog;
use crate::models::{MediaFileInfo, NewMediaFileInfo};

verus! {

/// Re-check interval for entries without an external identifier: two weeks.
pub const TWO_WEEKS_SECONDS: i64 = 1209600;

/// The recorded last-check time, with "never checked" read as the epoch, so
/// that an entry never checked is infinitely stale.
pub open spec fn check_or_epoch(last_check: Option<i64>) -> i64 {
    match last_check {
        Some(t) => t,
        None => 0,
    }
}

/// True when an identification attempt is due: the last check lies two weeks
/// or more in the past, or never happened.
pub open spec fn is_stale(last_check: Option<i64>, now: i64) -> bool {
    now - check_or_epoch(last_check) >= TWO_WEEKS_SECONDS
}

/// What the engine asks its driver to do next.
pub enum EngineRequest {
    /// Read the file's full metadata and answer with `Metadata`.
    ReadMetadata,
    /// Fingerprint the file and ask the identification service; answer with
    /// `LookupDone`.
    Lookup,
    /// Reconciliation of this path is finished with the given outcome.
    Complete(Result<MediaFileInfo, ProcessorError>),
}

/// The driver's answer to a request.
pub enum EngineEvent {
    /// The metadata read's outcome; `None` marks a file that is not usable.
    Metadata(Option<NewMediaFileInfo>),
    /// The identification outcome: an external identifier, a confident "no
    /// match" (`Ok(None)`), or a transport or decode failure.
    LookupDone(Result<Option<String>, ProcessorError>),
}

/// Where the engine stands for one path.
pub enum EngineState {
    /// Nothing decided yet.
    Start,
    /// No entry is stored for the path; metadata was requested to insert one.
    AwaitInsertInfo,
    /// The stored entry's modification time differs from the file's;
    /// metadata was requested to refresh the stored fields.
    AwaitUpdateInfo { db: MediaFileInfo },
    /// A lookup was requested for the stored entry `db`, which has no
    /// external identifier; `had_check` remembers whether a last-check row
    /// already exists.
    AwaitLookup { db: MediaFileInfo, had_check: bool },
    /// A `Complete` request was returned.
    Finished,
}

/// The reconciliation engine for one path at one scan instant.
pub struct FileProcessor {
    pub path: String,
    pub now: i64,
    pub state: EngineState,
}

impl FileProcessor {
    /// The engine's consistency with the catalog between two requests.
    pub open spec fn inv(self, catalog: Catalog) -> bool {
        &&& catalog.wf()
        &&& self.now >= 0
        &&& match self.state {
            EngineState::Start => true,
            EngineState::AwaitInsertInfo => !catalog.has_path(self.path@),
            EngineState::AwaitUpdateInfo { db } => {
                &&& catalog.has_entry_id(db.id)
                &&& catalog.spec_entry_for_id(db.id) == db
                &&& db.path@ == self.path@
            },
            EngineState::AwaitLookup { db, had_check } => {
                &&& catalog.has_entry_id(db.id)
                &&& catalog.spec_entry_for_id(db.id) == db
                &&& db.path@ == self.path@
                &&& db.mbid is None
                &&& had_check == catalog.has_check(db.id)
            },
            EngineState::Finished => true,
        }
    }

    /// A fresh engine for `path`, with `now` the scan instant in unix
    /// seconds.
    pub fn new(path: String, now: i64) -> (r: Self)
        requires
            now >= 0,
        ensures
            r.path == path,
            r.now == now,
            r.state is Start,
    {
        FileProcessor { path, now, state: EngineState::Start }
    }

    /// Decides whether the stored entry `db`, which carries no external
    /// identifier, is due for an identification attempt: due when the
    /// recorded last check is two weeks old or missing, otherwise the entry
    /// is left as it stands.
    fn handle_acoustid(&mut self, catalog: &Catalog, db: MediaFileInfo) -> (r: EngineRequest)
        requires
            old(self).now >= 0,
            catalog.wf(),
            catalog.has_entry_id(db.id),
            catalog.spec_entry_for_id(db.id) == db,
            db.path@ == old(self).path@,
            db.mbid is None,
        ensures
            final(self).path == old(self).path,
            final(self).now == old(self).now,
            final(self).inv(*catalog),
            !is_stale(catalog.spec_check_time(db.id), old(self).now) ==> (r matches
                EngineRequest::Complete(res) && res == Result::<MediaFileInfo,
                ProcessorError,
            >::Ok(db) && final(self).state is Finished),
            is_stale(catalog.spec_check_time(db.id), old(self).now) ==> (final(self).state matches
                EngineState::AwaitLookup { db: d, had_check } && d == db && had_check == (
            catalog.spec_check_time(db.id) is Some) && r is Lookup),
    {
        let last_check = catalog.get_acoustid_last_check(&db);
        proof {
            if catalog.has_check(db.id) {
                let i = catalog.check_index(db.id);
                assert(catalog.last_checks@[i].last_check >= 0);
            }
        }
        let base: i64 = match last_check {
            Some(t) => t,
            None => 0,
        };
        let difference = self.now - base;
        if difference < TWO_WEEKS_SECONDS {
            self.state = EngineState::Finished;
            EngineRequest::Complete(Ok(db))
        } else {
            let had = last_check.is_some();
            self.state = EngineState::AwaitLookup { db, had_check: had };
            EngineRequest::Lookup
        }
    }

    /// Decides what a stored entry needs: a metadata refresh when the file's
    /// modification time changed, nothing when an external identifier is
    /// already set, otherwise a staleness check of the last identification
    /// attempt.
    fn check_if_update_needed(&mut self, catalog: &Catalog, db: MediaFileInfo, mtime: Option<i64>)
        -> (r: EngineRequest)
        requires
            old(self).now >= 0,
            catalog.wf(),
            catalog.has_entry_id(db.id),
            catalog.spec_entry_for_id(db.id) == db,
            db.path@ == old(self).path@,
        ensures
            final(self).path == old(self).path,
            final(self).now == old(self).now,
            final(self).inv(*catalog),
            db.mtime != mtime ==> (final(self).state matches EngineState::AwaitUpdateInfo {
                db: d,
            } && d == db && r is ReadMetadata),
            (db.mtime == mtime && db.mbid is Some) ==> (r matches EngineRequest::Complete(res)
                && res == Result::<MediaFileInfo, ProcessorError>::Ok(db) && final(self).state is Finished),
            (db.mtime == mtime && db.mbid is None && !is_stale(
                catalog.spec_check_time(db.id),
                old(self).now,
            )) ==> (r matches EngineRequest::Complete(res) && res == Result::<MediaFileInfo,
                ProcessorError,
            >::Ok(db) && final(self).state is Finished),
            (db.mtime == mtime && db.mbid is None && is_stale(
                catalog.spec_check_time(db.id),
                old(self).now,
            )) ==> (final(self).state matches EngineState::AwaitLookup { db: d, had_check } && d
                == db && had_check == (catalog.spec_check_time(db.id) is Some) && r is Lookup),
    {
        let same_mtime = match (mtime, db.mtime) {
            (Option::None, Option::None) => true,
            (Option::Some(a), Option::Some(b)) => a == b,
            _ => false,
        };
        if !same_mtime {
            self.state = EngineState::AwaitUpdateInfo { db };
            EngineRequest::ReadMetadata
        } else if db.mbid.is_some() {
            self.state = EngineState::Finished;
            EngineRequest::Complete(Ok(db))
        } else {
            self.handle_acoustid(catalog, db)
        }
    }

    /// Starts reconciliation: fetches the stored entry for the engine's path
    /// and decides the first request. With no stored entry, metadata is
    /// requested for an insert; with one, `check_if_update_needed` decides.
    pub fn call(&mut self, catalog: &Catalog, mtime: Option<i64>) -> (r: EngineRequest)
        requires
            old(self).state is Start,
            old(self).now >= 0,
            catalog.wf(),
        ensures
            final(self).path == old(self).path,
            final(self).now == old(self).now,
            final(self).inv(*catalog),
            !catalog.has_path(old(self).path@) ==> (r is ReadMetadata && final(self).state is AwaitInsertInfo),
            catalog.spec_fetch(old(self).path@) matches Some(db) ==> ({
                &&& (db.mtime != mtime ==> (final(self).state matches
                    EngineState::AwaitUpdateInfo { db: d } && d == db && r is ReadMetadata))
                &&& ((db.mtime == mtime && db.mbid is Some) ==> (r matches
                    EngineRequest::Complete(res) && res == Result::<MediaFileInfo,
                    ProcessorError,
                >::Ok(db) && final(self).state is Finished))
                &&& ((db.mtime == mtime && db.mbid is None && !is_stale(
                    catalog.spec_check_time(db.id),
                    old(self).now,
                )) ==> (r matches EngineRequest::Complete(res) && res == Result::<MediaFileInfo,
                    ProcessorError,
                >::Ok(db) && final(self).state is Finished))
                &&& ((db.mtime == mtime && db.mbid is None && is_stale(
                    catalog.spec_check_time(db.id),
                    old(self).now,
                )) ==> (final(self).state matches EngineState::AwaitLookup { db: d, had_check }
                    && d == db && had_check == (catalog.spec_check_time(db.id) is Some)
                    && r is Lookup))
            }),
    {
        let fetched = catalog.fetch_file(&self.path);
        match fetched {
            Some(db) => {
                proof {
                    let i = catalog.path_index(self.path@);
                    catalog.lemma_entry_at(db.id, i);
                }
                self.check_if_update_needed(catalog, db, mtime)
            },
            None => {
                self.state = EngineState::AwaitInsertInfo;
                EngineRequest::ReadMetadata
            },
        }
    }

    /// Inserts a freshly read entry for a path not yet stored and requests
    /// the immediate identification attempt that every new entry gets.
    fn insert_path_entry(&mut self, catalog: &mut Catalog, info: NewMediaFileInfo) -> (r:
        EngineRequest)
        requires
            old(self).now >= 0,
            old(catalog).wf(),
            old(catalog).next_id < i32::MAX,
            !old(catalog).has_path(old(self).path@),
            info.path@ == old(self).path@,
        ensures
            final(self).path == old(self).path,
            final(self).now == old(self).now,
            final(self).inv(*final(catalog)),
            r is Lookup,
            final(self).state matches EngineState::AwaitLookup { db: e, had_check: false } && {
                &&& e.id == old(catalog).next_id
                &&& e.path@ == info.path@
                &&& e.title == info.title
                &&& e.artist == info.artist
                &&& e.album == info.album
                &&& e.track == info.track
                &&& e.track_number == info.track_number
                &&& e.duration == info.duration
                &&& e.mbid is None
                &&& e.mtime == info.mtime
                &&& final(catalog).spec_fetch(info.path@) == Some(e)
                &&& final(catalog).has_path(info.path@)
                &&& final(catalog).has_entry_id(e.id)
                &&& final(catalog).spec_entry_for_id(e.id) == e
            },
            final(catalog).next_id == old(catalog).next_id + 1,
            final(catalog).next_check_id == old(catalog).next_check_id,
            forall|p: Seq<char>|
                p != info.path@ ==> final(catalog).spec_fetch(p) == old(catalog).spec_fetch(p),
            forall|p: Seq<char>|
                p != info.path@ ==> final(catalog).has_path(p) == old(catalog).has_path(p),
            forall|id: i32| #[trigger]
                final(catalog).spec_check_time(id) == old(catalog).spec_check_time(id),
            forall|id: i32| #[trigger] final(catalog).has_check(id) == old(catalog).has_check(id),
            forall|id: i32|
                id != old(catalog).next_id && old(catalog).has_entry_id(id) ==> #[trigger] final(catalog).spec_entry_for_id(id) == old(catalog).spec_entry_for_id(id),
    {
        let res = catalog.insert_file(&info);
        match res {
            Ok(entry) => {
                proof {
                    if catalog.has_check(entry.id) {
                        let i = catalog.check_index(entry.id);
                        let lib = catalog.last_checks@[i].library_id;
                        assert(old(catalog).has_check(lib));
                        let v = choose|v: int|
                            0 <= v < old(catalog).entries@.len() && old(catalog).entries@[v].id
                                == lib;
                        assert(old(catalog).entries@[v].id < old(catalog).next_id);
                    }
                }
                self.state = EngineState::AwaitLookup { db: entry, had_check: false };
                EngineRequest::Lookup
            },
            Err(_) => {
                proof {
                    assert(false);
                }
                unreached()
            },
        }
    }

    /// Stores freshly read metadata over the stored entry `db`, whose
    /// modification time no longer matches the file, then decides whether an
    /// identification attempt follows: never when an external identifier is
    /// already set, otherwise by last-check staleness.
    fn update_path_entry(&mut self, catalog: &mut Catalog, info: NewMediaFileInfo,
        db: MediaFileInfo) -> (r: EngineRequest)
        requires
            old(self).now >= 0,
            old(catalog).wf(),
            old(catalog).has_entry_id(db.id),
            old(catalog).spec_entry_for_id(db.id) == db,
            db.path@ == old(self).path@,
            info.path@ == old(self).path@,
        ensures
            final(self).path == old(self).path,
            final(self).now == old(self).now,
            final(self).inv(*final(catalog)),
            final(catalog).next_id == old(catalog).next_id,
            final(catalog).next_check_id == old(catalog).next_check_id,
            forall|id: i32| #[trigger]
                final(catalog).spec_check_time(id) == old(catalog).spec_check_time(id),
            forall|id: i32| #[trigger] final(catalog).has_check(id) == old(catalog).has_check(id),
            forall|p: Seq<char>|
                p != info.path@ ==> final(catalog).spec_fetch(p) == old(catalog).spec_fetch(p),
            forall|p: Seq<char>| final(catalog).has_path(p) == old(catalog).has_path(p),
            forall|id: i32|
                id != db.id && old(catalog).has_entry_id(id) ==> #[trigger] final(catalog).spec_entry_for_id(id) == old(catalog).spec_entry_for_id(id),
            final(catalog).spec_fetch(info.path@) matches Some(u) && {
                &&& u.id == db.id
                &&& u.path@ == info.path@
                &&& u.title == info.title
                &&& u.artist == info.artist
                &&& u.album == info.album
                &&& u.track == info.track
                &&& u.track_number == info.track_number
                &&& u.duration == info.duration
                &&& u.mbid == db.mbid
                &&& u.mtime == info.mtime
                &&& (db.mbid is Some ==> (r matches EngineRequest::Complete(res) && res
                    == Result::<MediaFileInfo, ProcessorError>::Ok(u) && final(self).state is Finished))
                &&& ((db.mbid is None && !is_stale(
                    old(catalog).spec_check_time(db.id),
                    old(self).now,
                )) ==> (r matches EngineRequest::Complete(res) && res == Result::<MediaFileInfo,
                    ProcessorError,
                >::Ok(u) && final(self).state is Finished))
                &&& ((db.mbid is None && is_stale(
                    old(catalog).spec_check_time(db.id),
                    old(self).now,
                )) ==> (final(self).state matches EngineState::AwaitLookup { db: d, had_check }
                    && d == u && had_check == (old(catalog).spec_check_time(db.id) is Some)
                    && r is Lookup))
            },
    {
        let had_mbid = db.mbid.is_some();
        let updated = catalog.update_file(db.id, info);
        if had_mbid {
            self.state = EngineState::Finished;
            EngineRequest::Complete(Ok(updated))
        } else {
            self.handle_acoustid(&*catalog, updated)
        }
    }

    /// Applies the identification outcome to the stored entry `db`: a match
    /// stamps the external identifier, "no match" leaves it unset, a failure
    /// is passed on — and in every case the last-check timestamp is moved to
    /// the scan instant, so repeated failures do not retry every scan.
    fn finish_lookup(&mut self, catalog: &mut Catalog, db: MediaFileInfo, had_check: bool,
        res: Result<Option<String>, ProcessorError>) -> (r: EngineRequest)
        requires
            old(self).now >= 0,
            old(catalog).wf(),
            old(catalog).has_entry_id(db.id),
            old(catalog).spec_entry_for_id(db.id) == db,
            db.path@ == old(self).path@,
            db.mbid is None,
            had_check == old(catalog).has_check(db.id),
            old(catalog).next_check_id < i32::MAX,
        ensures
            final(self).path == old(self).path,
            final(self).now == old(self).now,
            final(self).inv(*final(catalog)),
            final(self).state is Finished,
            final(catalog).spec_check_time(db.id) == Some(old(self).now),
            final(catalog).next_id == old(catalog).next_id,
            final(catalog).next_check_id <= old(catalog).next_check_id + 1,
            forall|p: Seq<char>|
                p != db.path@ ==> final(catalog).spec_fetch(p) == old(catalog).spec_fetch(p),
            forall|p: Seq<char>| final(catalog).has_path(p) == old(catalog).has_path(p),
            forall|id: i32| #[trigger]
                final(catalog).has_entry_id(id) == old(catalog).has_entry_id(id),
            forall|id: i32|
                id != db.id && old(catalog).has_entry_id(id) ==> #[trigger] final(catalog).spec_entry_for_id(id) == old(catalog).spec_entry_for_id(id),
            forall|id: i32|
                id != db.id ==> #[trigger] final(catalog).spec_check_time(id) == old(catalog).spec_check_time(id),
            res matches Ok(Some(mbid)) ==> ({
                &&& final(catalog).spec_fetch(db.path@) == Some(
                    MediaFileInfo { mbid: Some(mbid), ..db },
                )
                &&& (r matches EngineRequest::Complete(out) && out == Result::<MediaFileInfo,
                    ProcessorError,
                >::Ok(MediaFileInfo { mbid: Some(mbid), ..db }))
            }),
            res == Result::<Option<String>, ProcessorError>::Ok(None) ==> ({
                &&& final(catalog).spec_fetch(db.path@) == Some(db)
                &&& (r matches EngineRequest::Complete(out) && out == Result::<MediaFileInfo,
                    ProcessorError,
                >::Ok(db))
            }),
            res matches Err(e) ==> ({
                &&& final(catalog).spec_fetch(db.path@) == Some(db)
                &&& (r matches EngineRequest::Complete(out) && out == Result::<MediaFileInfo,
                    ProcessorError,
                >::Err(e))
            }),
    {
        self.state = EngineState::Finished;
        match res {
            Ok(Some(mbid)) => {
                let updated = catalog.update_file_uuid(db.id, mbid);
                if had_check {
                    catalog.update_acoustid_last_check(db.id, self.now);
                } else {
                    catalog.add_acoustid_last_check(db.id, self.now);
                }
                EngineRequest::Complete(Ok(updated))
            },
            Ok(None) => {
                if had_check {
                    catalog.update_acoustid_last_check(db.id, self.now);
                } else {
                    catalog.add_acoustid_last_check(db.id, self.now);
                }
                EngineRequest::Complete(Ok(db))
            },
            Err(e) => {
                if had_check {
                    catalog.update_acoustid_last_check(db.id, self.now);
                } else {
                    catalog.add_acoustid_last_check(db.id, self.now);
                }
                EngineRequest::Complete(Err(e))
            },
        }
    }

    /// Feeds the driver's answer to the engine and returns the next request.
    pub fn step(&mut self, catalog: &mut Catalog, event: EngineEvent) -> (r: EngineRequest)
        requires
            old(self).inv(*old(catalog)),
            (old(self).state is AwaitInsertInfo || old(self).state is AwaitUpdateInfo) <==> (
            event is Metadata),
            (old(self).state is AwaitLookup) <==> (event is LookupDone),
            !(old(self).state is Start),
            !(old(self).state is Finished),
            event matches EngineEvent::Metadata(Some(info)) ==> info.path@ == old(self).path@,
            old(self).state is AwaitInsertInfo ==> old(catalog).next_id < i32::MAX,
            old(self).state is AwaitLookup ==> old(catalog).next_check_id < i32::MAX,
        ensures
            final(self).path == old(self).path,
            final(self).now == old(self).now,
            final(self).inv(*final(catalog)),
            final(catalog).next_id <= old(catalog).next_id + 1,
            final(catalog).next_check_id <= old(catalog).next_check_id + 1,
            event is Metadata ==> final(catalog).next_check_id == old(catalog).next_check_id,
            event is LookupDone ==> final(catalog).next_id == old(catalog).next_id,
            forall|p: Seq<char>|
                p != old(self).path@ ==> final(catalog).spec_fetch(p) == old(catalog).spec_fetch(
                    p,
                ),
            // a file the scan cannot use ends the path's reconciliation untouched
            event matches EngineEvent::Metadata(None) ==> ({
                &&& *final(catalog) == *old(catalog)
                &&& final(self).state is Finished
                &&& (r matches EngineRequest::Complete(out) && out == Result::<MediaFileInfo,
                    ProcessorError,
                >::Err(ProcessorError::NothingUseful))
            }),
            // a new entry is inserted and identification requested at once
            old(self).state is AwaitInsertInfo ==> (event matches EngineEvent::Metadata(
                Some(info),
            ) ==> ({
                &&& r is Lookup
                &&& (final(self).state matches EngineState::AwaitLookup { db: e, had_check: false }
                    && {
                    &&& e.id == old(catalog).next_id
                    &&& e.path@ == info.path@
                    &&& e.title == info.title
                    &&& e.artist == info.artist
                    &&& e.album == info.album
                    &&& e.track == info.track
                    &&& e.track_number == info.track_number
                    &&& e.duration == info.duration
                    &&& e.mbid is None
                    &&& e.mtime == info.mtime
                    &&& final(catalog).spec_fetch(info.path@) == Some(e)
                })
                &&& final(catalog).next_id == old(catalog).next_id + 1
                &&& forall|id: i32| #[trigger]
                    final(catalog).spec_check_time(id) == old(catalog).spec_check_time(id)
            })),
            // refreshed metadata is stored; the staleness rule decides what follows
            old(self).state matches EngineState::AwaitUpdateInfo { db } ==> (event matches
                EngineEvent::Metadata(Some(info)) ==> (final(catalog).spec_fetch(info.path@)
                matches Some(u) && {
                &&& u.id == db.id
                &&& u.title == info.title
                &&& u.artist == info.artist
                &&& u.album == info.album
                &&& u.track == info.track
                &&& u.track_number == info.track_number
                &&& u.duration == info.duration
                &&& u.mbid == db.mbid
                &&& u.mtime == info.mtime
                &&& forall|id: i32| #[trigger]
                    final(catalog).spec_check_time(id) == old(catalog).spec_check_time(id)
                &&& forall|p: Seq<char>| final(catalog).has_path(p) == old(catalog).has_path(p)
                &&& (db.mbid is Some ==> (r matches EngineRequest::Complete(out) && out
                    == Result::<MediaFileInfo, ProcessorError>::Ok(u) && final(self).state is Finished))
                &&& ((db.mbid is None && !is_stale(
                    old(catalog).spec_check_time(db.id),
                    old(self).now,
                )) ==> (r matches EngineRequest::Complete(out) && out == Result::<MediaFileInfo,
                    ProcessorError,
                >::Ok(u) && final(self).state is Finished))
                &&& ((db.mbid is None && is_stale(
                    old(catalog).spec_check_time(db.id),
                    old(self).now,
                )) ==> (final(self).state matches EngineState::AwaitLookup { db: d, had_check }
                    && d == u && had_check == (old(catalog).spec_check_time(db.id) is Some)
                    && r is Lookup))
            })),
            // the lookup outcome is applied; the last check moves to now either way
            old(self).state matches EngineState::AwaitLookup { db, had_check } ==> (event matches
                EngineEvent::LookupDone(res) ==> ({
                &&& final(self).state is Finished
                &&& final(catalog).spec_check_time(db.id) == Some(old(self).now)
                &&& forall|id: i32|
                    id != db.id ==> #[trigger] final(catalog).spec_check_time(id) == old(catalog).spec_check_time(id)
                &&& forall|p: Seq<char>| final(catalog).has_path(p) == old(catalog).has_path(p)
                &&& final(catalog).next_id == old(catalog).next_id
                &&& (res matches Ok(Some(mbid)) ==> ({
                    &&& final(catalog).spec_fetch(db.path@) == Some(
                        MediaFileInfo { mbid: Some(mbid), ..db },
                    )
                    &&& (r matches EngineRequest::Complete(out) && out == Result::<MediaFileInfo,
                        ProcessorError,
                    >::Ok(MediaFileInfo { mbid: Some(mbid), ..db }))
                }))
                &&& (res == Result::<Option<String>, ProcessorError>::Ok(None) ==> ({
                    &&& final(catalog).spec_fetch(db.path@) == Some(db)
                    &&& (r matches EngineRequest::Complete(out) && out == Result::<MediaFileInfo,
                        ProcessorError,
                    >::Ok(db))
                }))
                &&& (res matches Err(e) ==> ({
                    &&& final(catalog).spec_fetch(db.path@) == Some(db)
                    &&& (r matches EngineRequest::Complete(out) && out == Result::<MediaFileInfo,
                        ProcessorError,
                    >::Err(e))
                }))
            })),
    {
        let mut st = EngineState::Finished;
        core::mem::swap(&mut st, &mut self.state);
        match (st, event) {
            (EngineState::AwaitInsertInfo, EngineEvent::Metadata(None)) => {
                self.state = EngineState::Finished;
                EngineRequest::Complete(Err(ProcessorError::NothingUseful))
            },
            (EngineState::AwaitInsertInfo, EngineEvent::Metadata(Some(info))) => {
                self.insert_path_entry(catalog, info)
            },
            (EngineState::AwaitUpdateInfo { .. }, EngineEvent::Metadata(None)) => {
                self.state = EngineState::Finished;
                EngineRequest::Complete(Err(ProcessorError::NothingUseful))
            },
            (EngineState::AwaitUpdateInfo { db }, EngineEvent::Metadata(Some(info))) => {
                self.update_path_entry(catalog, info, db)
            },
            (EngineState::AwaitLookup { db, had_check }, EngineEvent::LookupDone(res)) => {
                self.finish_lookup(catalog, db, had_check, res)
            },
            (_, _) => {
                proof {
                    assert(false);
                }
                unreached()
            },
        }
    }
}

} // verus!
