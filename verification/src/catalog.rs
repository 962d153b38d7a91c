//! In-memory model of the persistent store: a `library` of catalog entries
//! keyed uniquely by path and id, and a `last_checks` table with at most one
//! row per entry. Every gateway operation is specified exactly: what it
//! returns, what it changes, and what it leaves alone.

use vstd::prelude::*;

use crate::basic_types::ProcessorError;
use crate::models::{AcoustIdLastCheck, MediaFileInfo, MusicBrainzRecording, NewMediaFileInfo};

verus! {

/// The store's state: all catalog entries, all last-check rows, and the next
/// identifiers the store will assign.
pub struct Catalog {
    pub entries: Vec<MediaFileInfo>,
    pub last_checks: Vec<AcoustIdLastCheck>,
    pub next_id: i32,
    pub next_check_id: i32,
}

impl Catalog {
    /// Well-formedness: ids and paths are unique among entries, last-check
    /// rows are unique per entry and reference existing entries, and assigned
    /// ids stay below the next free one.
    pub open spec fn wf(self) -> bool {
        &&& 0 <= self.next_id
        &&& 0 <= self.next_check_id
        &&& forall|i: int, j: int|
            0 <= i < j < self.entries@.len() ==> self.entries@[i].id != self.entries@[j].id
        &&& forall|i: int, j: int|
            0 <= i < j < self.entries@.len() ==> self.entries@[i].path@ != self.entries@[j].path@
        &&& forall|i: int|
            0 <= i < self.entries@.len() ==> 0 <= #[trigger] self.entries@[i].id < self.next_id
        &&& forall|i: int, j: int|
            0 <= i < j < self.last_checks@.len() ==> self.last_checks@[i].library_id
                != self.last_checks@[j].library_id
        &&& forall|i: int, j: int|
            0 <= i < j < self.last_checks@.len() ==> self.last_checks@[i].id
                != self.last_checks@[j].id
        &&& forall|i: int|
            0 <= i < self.last_checks@.len() ==> 0 <= #[trigger] self.last_checks@[i].id
                < self.next_check_id
        &&& forall|i: int|
            0 <= i < self.last_checks@.len() ==> self.has_entry_id(
                #[trigger] self.last_checks@[i].library_id,
            )
        &&& forall|i: int|
            0 <= i < self.last_checks@.len() ==> #[trigger] self.last_checks@[i].last_check >= 0
    }

    /// True when some entry is stored under the path `p`.
    pub open spec fn has_path(self, p: Seq<char>) -> bool {
        exists|i: int| 0 <= i < self.entries@.len() && self.entries@[i].path@ == p
    }

    /// Index of the entry stored under `p` (unique when `wf`).
    pub open spec fn path_index(self, p: Seq<char>) -> int {
        choose|i: int| 0 <= i < self.entries@.len() && self.entries@[i].path@ == p
    }

    /// The entry stored under `p`, if any.
    pub open spec fn spec_fetch(self, p: Seq<char>) -> Option<MediaFileInfo> {
        if self.has_path(p) {
            Some(self.entries@[self.path_index(p)])
        } else {
            None
        }
    }

    /// True when some entry carries the store-assigned id `id`.
    pub open spec fn has_entry_id(self, id: i32) -> bool {
        exists|i: int| 0 <= i < self.entries@.len() && self.entries@[i].id == id
    }

    /// Index of the entry with id `id` (unique when `wf`).
    pub open spec fn id_index(self, id: i32) -> int {
        choose|i: int| 0 <= i < self.entries@.len() && self.entries@[i].id == id
    }

    /// The entry with id `id` (meaningful only when `has_entry_id`).
    pub open spec fn spec_entry_for_id(self, id: i32) -> MediaFileInfo {
        self.entries@[self.id_index(id)]
    }

    /// True when a last-check row exists for the entry with id `id`.
    pub open spec fn has_check(self, id: i32) -> bool {
        exists|i: int| 0 <= i < self.last_checks@.len() && self.last_checks@[i].library_id == id
    }

    /// Index of the last-check row for `id` (unique when `wf`).
    pub open spec fn check_index(self, id: i32) -> int {
        choose|i: int| 0 <= i < self.last_checks@.len() && self.last_checks@[i].library_id == id
    }

    /// The recorded last-check timestamp for the entry with id `id`, if any.
    pub open spec fn spec_check_time(self, id: i32) -> Option<i64> {
        if self.has_check(id) {
            Some(self.last_checks@[self.check_index(id)].last_check)
        } else {
            None
        }
    }

    /// In a well-formed catalog, any index whose entry has path `p` is the
    /// index `spec_fetch` speaks of.
    pub proof fn lemma_fetch_at(self, p: Seq<char>, i: int)
        requires
            self.wf(),
            0 <= i < self.entries@.len(),
            self.entries@[i].path@ == p,
        ensures
            self.has_path(p),
            self.path_index(p) == i,
            self.spec_fetch(p) == Some(self.entries@[i]),
    {
        assert(self.has_path(p));
        let j = self.path_index(p);
        if j != i {
            assert(self.entries@[i].path@ != self.entries@[j].path@);
        }
    }

    /// In a well-formed catalog, any index whose entry has id `id` is the
    /// index `spec_entry_for_id` speaks of.
    pub proof fn lemma_entry_at(self, id: i32, i: int)
        requires
            self.wf(),
            0 <= i < self.entries@.len(),
            self.entries@[i].id == id,
        ensures
            self.has_entry_id(id),
            self.id_index(id) == i,
            self.spec_entry_for_id(id) == self.entries@[i],
    {
        assert(self.has_entry_id(id));
        let j = self.id_index(id);
        if j != i {
            assert(self.entries@[i].id != self.entries@[j].id);
        }
    }

    /// In a well-formed catalog, any row whose `library_id` is `id` is the row
    /// `spec_check_time` speaks of.
    pub proof fn lemma_check_at(self, id: i32, i: int)
        requires
            self.wf(),
            0 <= i < self.last_checks@.len(),
            self.last_checks@[i].library_id == id,
        ensures
            self.has_check(id),
            self.check_index(id) == i,
            self.spec_check_time(id) == Some(self.last_checks@[i].last_check),
    {
        assert(self.has_check(id));
        let j = self.check_index(id);
        if j != i {
            assert(self.last_checks@[i].library_id != self.last_checks@[j].library_id);
        }
    }

    /// Two catalogs with the same `entries` column answer every entry
    /// lookup alike.
    proof fn lemma_same_entries(self, other: Catalog)
        requires
            self.wf(),
            other.wf(),
            other.entries@ == self.entries@,
        ensures
            forall|p: Seq<char>| other.spec_fetch(p) == self.spec_fetch(p),
            forall|p: Seq<char>| other.has_path(p) == self.has_path(p),
            forall|id: i32| #[trigger] other.has_entry_id(id) == self.has_entry_id(id),
            forall|id: i32| self.has_entry_id(id) ==> #[trigger] other.spec_entry_for_id(id)
                == self.spec_entry_for_id(id),
    {
        assert forall|p: Seq<char>| other.spec_fetch(p) == self.spec_fetch(p) by {
            if self.has_path(p) {
                let i = self.path_index(p);
                assert(other.entries@[i].path@ == p);
                self.lemma_fetch_at(p, i);
                other.lemma_fetch_at(p, i);
            } else {
                if other.has_path(p) {
                    let i = other.path_index(p);
                    assert(self.entries@[i].path@ == p);
                }
            }
        }
        assert forall|p: Seq<char>| other.has_path(p) == self.has_path(p) by {
            if self.has_path(p) {
                let i = self.path_index(p);
                assert(other.entries@[i].path@ == p);
            }
            if other.has_path(p) {
                let i = other.path_index(p);
                assert(self.entries@[i].path@ == p);
            }
        }
        assert forall|id: i32| #[trigger] other.has_entry_id(id) == self.has_entry_id(id) by {
            if self.has_entry_id(id) {
                let i = self.id_index(id);
                assert(other.entries@[i].id == id);
            }
            if other.has_entry_id(id) {
                let i = other.id_index(id);
                assert(self.entries@[i].id == id);
            }
        }
        assert forall|id: i32| self.has_entry_id(id) implies #[trigger] other.spec_entry_for_id(
            id,
        ) == self.spec_entry_for_id(id) by {
            let i = self.id_index(id);
            assert(other.entries@[i].id == id);
            self.lemma_entry_at(id, i);
            other.lemma_entry_at(id, i);
        }
    }

    /// Appending a fresh entry (new id, new path) keeps the catalog well
    /// formed; lookups of every other path, id and check row are unchanged.
    proof fn lemma_push_entry(self, new_c: Catalog, e: MediaFileInfo)
        requires
            self.wf(),
            !self.has_path(e.path@),
            e.id == self.next_id,
            self.next_id < i32::MAX,
            new_c.entries@ == self.entries@.push(e),
            new_c.last_checks@ == self.last_checks@,
            new_c.next_id == self.next_id + 1,
            new_c.next_check_id == self.next_check_id,
        ensures
            new_c.wf(),
            new_c.spec_fetch(e.path@) == Some(e),
            new_c.has_path(e.path@),
            new_c.has_entry_id(e.id),
            new_c.spec_entry_for_id(e.id) == e,
            forall|p: Seq<char>| p != e.path@ ==> new_c.spec_fetch(p) == self.spec_fetch(p),
            forall|p: Seq<char>| p != e.path@ ==> new_c.has_path(p) == self.has_path(p),
            forall|id: i32| #[trigger] new_c.spec_check_time(id) == self.spec_check_time(id),
            forall|id: i32| #[trigger] new_c.has_check(id) == self.has_check(id),
            forall|id: i32| id != e.id ==> #[trigger] new_c.has_entry_id(id) == self.has_entry_id(
                id,
            ),
            forall|id: i32| id != e.id && self.has_entry_id(id) ==> #[trigger] new_c
                .spec_entry_for_id(id) == self.spec_entry_for_id(id),
    {
        let n = self.entries@.len() as int;
        assert forall|i: int, j: int|
            0 <= i < j < new_c.entries@.len() implies new_c.entries@[i].path@
            != new_c.entries@[j].path@ by {
            if j == n {
                assert(new_c.entries@[i] == self.entries@[i]);
                if new_c.entries@[i].path@ == e.path@ {
                    assert(self.has_path(e.path@));
                }
            } else {
                assert(new_c.entries@[i] == self.entries@[i]);
                assert(new_c.entries@[j] == self.entries@[j]);
            }
        }
        assert forall|i: int, j: int|
            0 <= i < j < new_c.entries@.len() implies new_c.entries@[i].id
            != new_c.entries@[j].id by {
            if j == n {
                assert(new_c.entries@[i] == self.entries@[i]);
            } else {
                assert(new_c.entries@[i] == self.entries@[i]);
                assert(new_c.entries@[j] == self.entries@[j]);
            }
        }
        assert forall|i: int|
            0 <= i < new_c.entries@.len() implies 0 <= #[trigger] new_c.entries@[i].id
            < new_c.next_id by {
            if i < n {
                assert(new_c.entries@[i] == self.entries@[i]);
            }
        }
        assert forall|i: int|
            0 <= i < new_c.last_checks@.len() implies new_c.has_entry_id(
            #[trigger] new_c.last_checks@[i].library_id) by {
            let id = self.last_checks@[i].library_id;
            let w = choose|w: int|
                0 <= w < self.entries@.len() && self.entries@[w].id == id;
            assert(new_c.entries@[w].id == id);
        }
        new_c.lemma_fetch_at(e.path@, n);
        new_c.lemma_entry_at(e.id, n);
        assert forall|p: Seq<char>| p != e.path@ implies new_c.spec_fetch(p) == self.spec_fetch(
            p,
        ) by {
            if self.has_path(p) {
                let i = self.path_index(p);
                assert(new_c.entries@[i].path@ == p);
                self.lemma_fetch_at(p, i);
                new_c.lemma_fetch_at(p, i);
            } else {
                if new_c.has_path(p) {
                    let i = new_c.path_index(p);
                    assert(i < n || i == n);
                    if i < n {
                        assert(self.entries@[i].path@ == p);
                    }
                }
            }
        }
        assert forall|p: Seq<char>| p != e.path@ implies new_c.has_path(p) == self.has_path(p) by {
            assert(new_c.spec_fetch(p) == self.spec_fetch(p));
        }
        assert forall|id: i32| #[trigger] new_c.spec_check_time(id) == self.spec_check_time(
            id,
        ) by {
            if self.has_check(id) {
                let i = self.check_index(id);
                assert(new_c.last_checks@[i].library_id == id);
                self.lemma_check_at(id, i);
                new_c.lemma_check_at(id, i);
            } else {
                if new_c.has_check(id) {
                    let i = new_c.check_index(id);
                    assert(self.last_checks@[i].library_id == id);
                }
            }
        }
        assert forall|id: i32| #[trigger] new_c.has_check(id) == self.has_check(id) by {
            if self.has_check(id) {
                let i = self.check_index(id);
                assert(new_c.last_checks@[i].library_id == id);
            }
            if new_c.has_check(id) {
                let i = new_c.check_index(id);
                assert(self.last_checks@[i].library_id == id);
            }
        }
        assert forall|id: i32| id != e.id implies #[trigger] new_c.has_entry_id(id)
            == self.has_entry_id(id) by {
            if self.has_entry_id(id) {
                let i = self.id_index(id);
                assert(new_c.entries@[i].id == id);
            }
            if new_c.has_entry_id(id) {
                let i = new_c.id_index(id);
                if i < n {
                    assert(self.entries@[i].id == id);
                }
            }
        }
        assert forall|id: i32| id != e.id && self.has_entry_id(id) implies #[trigger] new_c
            .spec_entry_for_id(id) == self.spec_entry_for_id(id) by {
            let i = self.id_index(id);
            assert(new_c.entries@[i].id == id);
            self.lemma_entry_at(id, i);
            new_c.lemma_entry_at(id, i);
        }
    }

    /// Replacing the entry at one index while keeping its id and path keeps
    /// the catalog well formed; every other lookup is unchanged.
    proof fn lemma_set_entry(self, new_c: Catalog, k: int, e: MediaFileInfo)
        requires
            self.wf(),
            0 <= k < self.entries@.len(),
            e.id == self.entries@[k].id,
            e.path@ == self.entries@[k].path@,
            new_c.entries@ == self.entries@.update(k, e),
            new_c.last_checks@ == self.last_checks@,
            new_c.next_id == self.next_id,
            new_c.next_check_id == self.next_check_id,
        ensures
            new_c.wf(),
            new_c.spec_fetch(e.path@) == Some(e),
            new_c.has_entry_id(e.id),
            new_c.spec_entry_for_id(e.id) == e,
            forall|p: Seq<char>| p != e.path@ ==> new_c.spec_fetch(p) == self.spec_fetch(p),
            forall|p: Seq<char>| new_c.has_path(p) == self.has_path(p),
            forall|id: i32| #[trigger] new_c.spec_check_time(id) == self.spec_check_time(id),
            forall|id: i32| #[trigger] new_c.has_check(id) == self.has_check(id),
            forall|id: i32| #[trigger] new_c.has_entry_id(id) == self.has_entry_id(id),
            forall|id: i32| id != e.id && self.has_entry_id(id) ==> #[trigger] new_c
                .spec_entry_for_id(id) == self.spec_entry_for_id(id),
    {
        assert forall|i: int, j: int|
            0 <= i < j < new_c.entries@.len() implies new_c.entries@[i].path@
            != new_c.entries@[j].path@ by {
            assert(self.entries@[i].path@ != self.entries@[j].path@);
            assert(new_c.entries@[i].path@ == self.entries@[i].path@);
            assert(new_c.entries@[j].path@ == self.entries@[j].path@);
        }
        assert forall|i: int, j: int|
            0 <= i < j < new_c.entries@.len() implies new_c.entries@[i].id
            != new_c.entries@[j].id by {
            assert(self.entries@[i].id != self.entries@[j].id);
            assert(new_c.entries@[i].id == self.entries@[i].id);
            assert(new_c.entries@[j].id == self.entries@[j].id);
        }
        assert forall|i: int|
            0 <= i < new_c.entries@.len() implies 0 <= #[trigger] new_c.entries@[i].id
            < new_c.next_id by {
            assert(new_c.entries@[i].id == self.entries@[i].id);
        }
        assert forall|i: int|
            0 <= i < new_c.last_checks@.len() implies new_c.has_entry_id(
            #[trigger] new_c.last_checks@[i].library_id) by {
            let id = self.last_checks@[i].library_id;
            let w = choose|w: int|
                0 <= w < self.entries@.len() && self.entries@[w].id == id;
            assert(new_c.entries@[w].id == id);
        }
        new_c.lemma_fetch_at(e.path@, k);
        new_c.lemma_entry_at(e.id, k);
        assert forall|p: Seq<char>| p != e.path@ implies new_c.spec_fetch(p) == self.spec_fetch(
            p,
        ) by {
            if self.has_path(p) {
                let i = self.path_index(p);
                self.lemma_fetch_at(p, i);
                assert(i != k);
                assert(new_c.entries@[i].path@ == p);
                new_c.lemma_fetch_at(p, i);
            } else {
                if new_c.has_path(p) {
                    let i = new_c.path_index(p);
                    assert(new_c.entries@[i].path@ == p);
                    assert(self.entries@[i].path@ == p);
                }
            }
        }
        assert forall|p: Seq<char>| new_c.has_path(p) == self.has_path(p) by {
            if self.has_path(p) {
                let i = self.path_index(p);
                assert(new_c.entries@[i].path@ == self.entries@[i].path@);
            }
            if new_c.has_path(p) {
                let i = new_c.path_index(p);
                assert(self.entries@[i].path@ == new_c.entries@[i].path@);
            }
        }
        assert forall|id: i32| #[trigger] new_c.spec_check_time(id) == self.spec_check_time(
            id,
        ) by {
            if self.has_check(id) {
                let i = self.check_index(id);
                assert(new_c.last_checks@[i].library_id == id);
                self.lemma_check_at(id, i);
                new_c.lemma_check_at(id, i);
            } else {
                if new_c.has_check(id) {
                    let i = new_c.check_index(id);
                    assert(self.last_checks@[i].library_id == id);
                }
            }
        }
        assert forall|id: i32| #[trigger] new_c.has_check(id) == self.has_check(id) by {
            if self.has_check(id) {
                let i = self.check_index(id);
                assert(new_c.last_checks@[i].library_id == id);
            }
            if new_c.has_check(id) {
                let i = new_c.check_index(id);
                assert(self.last_checks@[i].library_id == id);
            }
        }
        assert forall|id: i32| #[trigger] new_c.has_entry_id(id) == self.has_entry_id(id) by {
            if self.has_entry_id(id) {
                let i = self.id_index(id);
                assert(new_c.entries@[i].id == self.entries@[i].id);
            }
            if new_c.has_entry_id(id) {
                let i = new_c.id_index(id);
                assert(self.entries@[i].id == new_c.entries@[i].id);
            }
        }
        assert forall|id: i32| id != e.id && self.has_entry_id(id) implies #[trigger] new_c
            .spec_entry_for_id(id) == self.spec_entry_for_id(id) by {
            let i = self.id_index(id);
            self.lemma_entry_at(id, i);
            assert(i != k);
            assert(new_c.entries@[i].id == id);
            new_c.lemma_entry_at(id, i);
        }
    }

    /// An empty catalog.
    pub fn new() -> (r: Self)
        ensures
            r.wf(),
            r.entries@.len() == 0,
            r.last_checks@.len() == 0,
            r.next_id == 0,
            r.next_check_id == 0,
    {
        Catalog { entries: Vec::new(), last_checks: Vec::new(), next_id: 0, next_check_id: 0 }
    }

    /// Looks an entry up by path.
    #[verifier::loop_isolation(false)]
    pub fn fetch_file(&self, file_path: &String) -> (r: Option<MediaFileInfo>)
        requires
            self.wf(),
        ensures
            r == self.spec_fetch(file_path@),
    {
        let n = self.entries.len();
        let mut k: usize = 0;
        while k < n
            invariant
                self.wf(),
                n == self.entries@.len(),
                0 <= k <= n,
                forall|i: int| 0 <= i < k ==> self.entries@[i].path@ != file_path@,
            decreases n - k,
        {
            if self.entries[k].path == *file_path {
                proof {
                    self.lemma_fetch_at(file_path@, k as int);
                }
                return Some(self.entries[k].duplicate());
            }
            k += 1;
        }
        proof {
            if self.has_path(file_path@) {
                let i = self.path_index(file_path@);
                assert(self.entries@[i].path@ != file_path@);
            }
        }
        None
    }

    /// Inserts a new entry for a path not yet stored; the store assigns the
    /// next free id and the entry starts without an external identifier.
    /// Inserting an already-stored path answers `Conflict` and changes
    /// nothing.
    pub fn insert_file(&mut self, info: &NewMediaFileInfo) -> (r: Result<
        MediaFileInfo,
        ProcessorError,
    >)
        requires
            old(self).wf(),
            old(self).next_id < i32::MAX,
        ensures
            final(self).wf(),
            old(self).has_path(info.path@) ==> (r matches Err(e) && e == ProcessorError::Conflict
                && *final(self) == *old(self)),
            !old(self).has_path(info.path@) ==> (r matches Ok(entry) && {
                &&& entry.id == old(self).next_id
                &&& entry.path == info.path
                &&& entry.title == info.title
                &&& entry.artist == info.artist
                &&& entry.album == info.album
                &&& entry.track == info.track
                &&& entry.track_number == info.track_number
                &&& entry.duration == info.duration
                &&& entry.mbid is None
                &&& entry.mtime == info.mtime
                &&& final(self).entries@ == old(self).entries@.push(entry)
                &&& final(self).last_checks == old(self).last_checks
                &&& final(self).next_id == old(self).next_id + 1
                &&& final(self).next_check_id == old(self).next_check_id
                &&& final(self).spec_fetch(info.path@) == Some(entry)
                &&& final(self).has_path(info.path@)
                &&& final(self).has_entry_id(entry.id)
                &&& final(self).spec_entry_for_id(entry.id) == entry
                &&& forall|p: Seq<char>|
                    p != info.path@ ==> final(self).spec_fetch(p) == old(self).spec_fetch(p)
                &&& forall|p: Seq<char>|
                    p != info.path@ ==> final(self).has_path(p) == old(self).has_path(p)
                &&& forall|id: i32| #[trigger]
                    final(self).spec_check_time(id) == old(self).spec_check_time(id)
                &&& forall|id: i32| #[trigger]
                    final(self).has_check(id) == old(self).has_check(id)
                &&& forall|id: i32|
                    id != entry.id && old(self).has_entry_id(id) ==> #[trigger] final(self)
                        .spec_entry_for_id(id) == old(self).spec_entry_for_id(id)
            }),
    {
        if self.fetch_file(&info.path).is_some() {
            return Err(ProcessorError::Conflict);
        }
        let entry = MediaFileInfo {
            id: self.next_id,
            path: info.path.clone(),
            title: crate::models::clone_opt_string(&info.title),
            artist: crate::models::clone_opt_string(&info.artist),
            album: crate::models::clone_opt_string(&info.album),
            track: crate::models::clone_opt_string(&info.track),
            track_number: info.track_number,
            duration: info.duration,
            mbid: None,
            mtime: info.mtime,
        };
        let result = entry.duplicate();
        let ghost old_self = *self;
        self.entries.push(entry);
        self.next_id = self.next_id + 1;
        proof {
            old_self.lemma_push_entry(*self, result);
        }
        Ok(result)
    }

    /// Overwrites the descriptive fields and the modification time of the
    /// entry with id `db_id` from freshly read metadata. The id, the path and
    /// the external identifier are untouched; no other entry and no
    /// last-check row changes. The caller must name the stored path: renames
    /// are not performed here.
    #[verifier::loop_isolation(false)]
    pub fn update_file(&mut self, db_id: i32, info: NewMediaFileInfo) -> (r: MediaFileInfo)
        requires
            old(self).wf(),
            old(self).has_entry_id(db_id),
            info.path@ == old(self).spec_entry_for_id(db_id).path@,
        ensures
            final(self).wf(),
            r.id == db_id,
            r.path@ == info.path@,
            r.title == info.title,
            r.artist == info.artist,
            r.album == info.album,
            r.track == info.track,
            r.track_number == info.track_number,
            r.duration == info.duration,
            r.mbid == old(self).spec_entry_for_id(db_id).mbid,
            r.mtime == info.mtime,
            final(self).entries@ == old(self).entries@.update(old(self).id_index(db_id), r),
            final(self).last_checks == old(self).last_checks,
            final(self).next_id == old(self).next_id,
            final(self).next_check_id == old(self).next_check_id,
            final(self).spec_entry_for_id(db_id) == r,
            final(self).has_entry_id(db_id),
            final(self).spec_fetch(info.path@) == Some(r),
            forall|p: Seq<char>|
                p != info.path@ ==> final(self).spec_fetch(p) == old(self).spec_fetch(p),
            forall|p: Seq<char>| final(self).has_path(p) == old(self).has_path(p),
            forall|id: i32| #[trigger]
                final(self).spec_check_time(id) == old(self).spec_check_time(id),
            forall|id: i32| #[trigger] final(self).has_check(id) == old(self).has_check(id),
            forall|id: i32| #[trigger] final(self).has_entry_id(id) == old(self).has_entry_id(id),
            forall|id: i32|
                id != db_id && old(self).has_entry_id(id) ==> #[trigger] final(self)
                    .spec_entry_for_id(id) == old(self).spec_entry_for_id(id),
    {
        let ghost old_self = *self;
        let n = self.entries.len();
        let mut k: usize = 0;
        while k < n
            invariant
                self.wf(),
                *self == old_self,
                old_self.has_entry_id(db_id),
                n == self.entries@.len(),
                0 <= k <= n,
                forall|i: int| 0 <= i < k ==> self.entries@[i].id != db_id,
            decreases n - k,
        {
            if self.entries[k].id == db_id {
                proof {
                    old_self.lemma_entry_at(db_id, k as int);
                }
                let updated = MediaFileInfo {
                    id: db_id,
                    path: info.path,
                    title: info.title,
                    artist: info.artist,
                    album: info.album,
                    track: info.track,
                    track_number: info.track_number,
                    duration: info.duration,
                    mbid: crate::models::clone_opt_string(&self.entries[k].mbid),
                    mtime: info.mtime,
                };
                let r = updated.duplicate();
                self.entries.set(k, updated);
                proof {
                    old_self.lemma_set_entry(*self, k as int, r);
                }
                return r;
            }
            k += 1;
        }
        proof {
            let i = old_self.id_index(db_id);
            assert(self.entries@[i].id != db_id);
        }
        unreached()
    }

    /// Stamps the external identifier `mbid` on the entry with id `db_id`,
    /// leaving every other field, entry and last-check row unchanged.
    #[verifier::loop_isolation(false)]
    pub fn update_file_uuid(&mut self, db_id: i32, mbid: String) -> (r: MediaFileInfo)
        requires
            old(self).wf(),
            old(self).has_entry_id(db_id),
        ensures
            final(self).wf(),
            r == (MediaFileInfo { mbid: Some(mbid), ..old(self).spec_entry_for_id(db_id) }),
            final(self).entries@ == old(self).entries@.update(old(self).id_index(db_id), r),
            final(self).last_checks == old(self).last_checks,
            final(self).next_id == old(self).next_id,
            final(self).next_check_id == old(self).next_check_id,
            final(self).spec_entry_for_id(db_id) == r,
            final(self).has_entry_id(db_id),
            final(self).spec_fetch(r.path@) == Some(r),
            forall|p: Seq<char>|
                p != old(self).spec_entry_for_id(db_id).path@ ==> final(self).spec_fetch(p) == old(
                    self,
                ).spec_fetch(p),
            forall|p: Seq<char>| final(self).has_path(p) == old(self).has_path(p),
            forall|id: i32| #[trigger]
                final(self).spec_check_time(id) == old(self).spec_check_time(id),
            forall|id: i32| #[trigger] final(self).has_check(id) == old(self).has_check(id),
            forall|id: i32| #[trigger] final(self).has_entry_id(id) == old(self).has_entry_id(id),
            forall|id: i32|
                id != db_id && old(self).has_entry_id(id) ==> #[trigger] final(self)
                    .spec_entry_for_id(id) == old(self).spec_entry_for_id(id),
    {
        let ghost old_self = *self;
        let n = self.entries.len();
        let mut k: usize = 0;
        while k < n
            invariant
                self.wf(),
                *self == old_self,
                old_self.has_entry_id(db_id),
                n == self.entries@.len(),
                0 <= k <= n,
                forall|i: int| 0 <= i < k ==> self.entries@[i].id != db_id,
            decreases n - k,
        {
            if self.entries[k].id == db_id {
                proof {
                    old_self.lemma_entry_at(db_id, k as int);
                }
                let stored = &self.entries[k];
                let updated = MediaFileInfo {
                    id: stored.id,
                    path: stored.path.clone(),
                    title: crate::models::clone_opt_string(&stored.title),
                    artist: crate::models::clone_opt_string(&stored.artist),
                    album: crate::models::clone_opt_string(&stored.album),
                    track: crate::models::clone_opt_string(&stored.track),
                    track_number: stored.track_number,
                    duration: stored.duration,
                    mbid: Some(mbid),
                    mtime: stored.mtime,
                };
                let r = updated.duplicate();
                self.entries.set(k, updated);
                proof {
                    old_self.lemma_set_entry(*self, k as int, r);
                }
                return r;
            }
            k += 1;
        }
        proof {
            let i = old_self.id_index(db_id);
            assert(self.entries@[i].id != db_id);
        }
        unreached()
    }

    /// Deleting an entry keeps the catalog well formed; the store's foreign
    /// key demands that the entry's last-check row, if any, is deleted first.
    proof fn lemma_remove_entry(self, new_c: Catalog, k: int)
        requires
            self.wf(),
            0 <= k < self.entries@.len(),
            !self.has_check(self.entries@[k].id),
            new_c.entries@ == self.entries@.remove(k),
            new_c.last_checks@ == self.last_checks@,
            new_c.next_id == self.next_id,
            new_c.next_check_id == self.next_check_id,
        ensures
            new_c.wf(),
            !new_c.has_path(self.entries@[k].path@),
            !new_c.has_entry_id(self.entries@[k].id),
            forall|p: Seq<char>|
                p != self.entries@[k].path@ ==> new_c.spec_fetch(p) == self.spec_fetch(p),
            forall|p: Seq<char>|
                p != self.entries@[k].path@ ==> new_c.has_path(p) == self.has_path(p),
            forall|id: i32| #[trigger] new_c.spec_check_time(id) == self.spec_check_time(id),
            forall|id: i32| #[trigger] new_c.has_check(id) == self.has_check(id),
            forall|id: i32|
                id != self.entries@[k].id ==> #[trigger] new_c.has_entry_id(id)
                    == self.has_entry_id(id),
            forall|id: i32|
                id != self.entries@[k].id && self.has_entry_id(id) ==> #[trigger] new_c
                    .spec_entry_for_id(id) == self.spec_entry_for_id(id),
    {
        let e = self.entries@[k];
        let n = self.entries@.len() as int;
        assert forall|i: int|
            0 <= i < new_c.entries@.len() implies new_c.entries@[i] == (if i < k {
            self.entries@[i]
        } else {
            self.entries@[i + 1]
        }) by {}
        assert forall|i: int, j: int|
            0 <= i < j < new_c.entries@.len() implies new_c.entries@[i].path@
            != new_c.entries@[j].path@ by {
            let i0 = if i < k { i } else { i + 1 };
            let j0 = if j < k { j } else { j + 1 };
            assert(self.entries@[i0].path@ != self.entries@[j0].path@);
        }
        assert forall|i: int, j: int|
            0 <= i < j < new_c.entries@.len() implies new_c.entries@[i].id
            != new_c.entries@[j].id by {
            let i0 = if i < k { i } else { i + 1 };
            let j0 = if j < k { j } else { j + 1 };
            assert(self.entries@[i0].id != self.entries@[j0].id);
        }
        assert forall|i: int|
            0 <= i < new_c.entries@.len() implies 0 <= #[trigger] new_c.entries@[i].id
            < new_c.next_id by {
            let i0 = if i < k { i } else { i + 1 };
            assert(0 <= self.entries@[i0].id < self.next_id);
        }
        assert forall|i: int|
            0 <= i < new_c.last_checks@.len() implies new_c.has_entry_id(
            #[trigger] new_c.last_checks@[i].library_id) by {
            let id = self.last_checks@[i].library_id;
            let w = choose|w: int|
                0 <= w < self.entries@.len() && self.entries@[w].id == id;
            if w == k {
                assert(self.has_check(e.id));
            } else if w < k {
                assert(new_c.entries@[w].id == id);
            } else {
                assert(new_c.entries@[w - 1].id == id);
            }
        }
        assert(new_c.wf());
        if new_c.has_path(e.path@) {
            let i = new_c.path_index(e.path@);
            let i0 = if i < k { i } else { i + 1 };
            assert(self.entries@[i0].path@ == e.path@);
            assert(i0 != k ==> self.entries@[i0].path@ != self.entries@[k].path@);
        }
        if new_c.has_entry_id(e.id) {
            let i = new_c.id_index(e.id);
            let i0 = if i < k { i } else { i + 1 };
            assert(self.entries@[i0].id == e.id);
            assert(i0 != k ==> self.entries@[i0].id != self.entries@[k].id);
        }
        assert forall|p: Seq<char>| p != e.path@ implies new_c.spec_fetch(p) == self.spec_fetch(
            p,
        ) by {
            if self.has_path(p) {
                let i = self.path_index(p);
                self.lemma_fetch_at(p, i);
                assert(i != k);
                if i < k {
                    assert(new_c.entries@[i].path@ == p);
                    new_c.lemma_fetch_at(p, i);
                } else {
                    assert(new_c.entries@[i - 1].path@ == p);
                    new_c.lemma_fetch_at(p, i - 1);
                }
            } else {
                if new_c.has_path(p) {
                    let i = new_c.path_index(p);
                    let i0 = if i < k { i } else { i + 1 };
                    assert(self.entries@[i0].path@ == p);
                }
            }
        }
        assert forall|p: Seq<char>| p != e.path@ implies new_c.has_path(p) == self.has_path(
            p,
        ) by {
            assert(new_c.spec_fetch(p) == self.spec_fetch(p));
        }
        assert forall|id: i32| #[trigger] new_c.spec_check_time(id) == self.spec_check_time(
            id,
        ) by {
            if self.has_check(id) {
                let i = self.check_index(id);
                assert(new_c.last_checks@[i].library_id == id);
                self.lemma_check_at(id, i);
                new_c.lemma_check_at(id, i);
            } else {
                if new_c.has_check(id) {
                    let i = new_c.check_index(id);
                    assert(self.last_checks@[i].library_id == id);
                }
            }
        }
        assert forall|id: i32| #[trigger] new_c.has_check(id) == self.has_check(id) by {
            if self.has_check(id) {
                let i = self.check_index(id);
                assert(new_c.last_checks@[i].library_id == id);
            }
            if new_c.has_check(id) {
                let i = new_c.check_index(id);
                assert(self.last_checks@[i].library_id == id);
            }
        }
        assert forall|id: i32| id != e.id implies #[trigger] new_c.has_entry_id(id)
            == self.has_entry_id(id) by {
            if self.has_entry_id(id) {
                let i = self.id_index(id);
                assert(self.entries@[i].id == id);
                assert(i != k);
                if i < k {
                    assert(new_c.entries@[i].id == id);
                } else {
                    assert(new_c.entries@[i - 1].id == id);
                }
            }
            if new_c.has_entry_id(id) {
                let i = new_c.id_index(id);
                let i0 = if i < k { i } else { i + 1 };
                assert(self.entries@[i0].id == id);
            }
        }
        assert forall|id: i32| id != e.id && self.has_entry_id(id) implies #[trigger] new_c
            .spec_entry_for_id(id) == self.spec_entry_for_id(id) by {
            let i = self.id_index(id);
            self.lemma_entry_at(id, i);
            assert(i != k);
            if i < k {
                assert(new_c.entries@[i].id == id);
                new_c.lemma_entry_at(id, i);
            } else {
                assert(new_c.entries@[i - 1].id == id);
                new_c.lemma_entry_at(id, i - 1);
            }
        }
    }

    /// Deletes the entry with id `db_id`, if stored. The store's foreign key
    /// requires the entry's last-check row to be gone already. Entries under
    /// other paths and all last-check rows are untouched.
    #[verifier::loop_isolation(false)]
    pub fn delete_file(&mut self, db_id: i32)
        requires
            old(self).wf(),
            !old(self).has_check(db_id),
        ensures
            final(self).wf(),
            !final(self).has_entry_id(db_id),
            !old(self).has_entry_id(db_id) ==> *final(self) == *old(self),
            old(self).has_entry_id(db_id) ==> {
                &&& !final(self).has_path(old(self).spec_entry_for_id(db_id).path@)
                &&& final(self).entries@ == old(self).entries@.remove(old(self).id_index(db_id))
                &&& final(self).last_checks == old(self).last_checks
                &&& final(self).next_id == old(self).next_id
                &&& final(self).next_check_id == old(self).next_check_id
                &&& forall|p: Seq<char>|
                    p != old(self).spec_entry_for_id(db_id).path@ ==> final(self).spec_fetch(p)
                        == old(self).spec_fetch(p)
                &&& forall|p: Seq<char>|
                    p != old(self).spec_entry_for_id(db_id).path@ ==> final(self).has_path(p)
                        == old(self).has_path(p)
                &&& forall|id: i32| #[trigger]
                    final(self).spec_check_time(id) == old(self).spec_check_time(id)
                &&& forall|id: i32| #[trigger]
                    final(self).has_check(id) == old(self).has_check(id)
                &&& forall|id: i32|
                    id != db_id ==> #[trigger] final(self).has_entry_id(id) == old(
                        self,
                    ).has_entry_id(id)
                &&& forall|id: i32|
                    id != db_id && old(self).has_entry_id(id) ==> #[trigger] final(self)
                        .spec_entry_for_id(id) == old(self).spec_entry_for_id(id)
            },
    {
        let ghost old_self = *self;
        let n = self.entries.len();
        let mut k: usize = 0;
        while k < n
            invariant
                *self == old_self,
                n == self.entries@.len(),
                0 <= k <= n,
                forall|i: int| 0 <= i < k ==> self.entries@[i].id != db_id,
            decreases n - k,
        {
            if self.entries[k].id == db_id {
                proof {
                    old_self.lemma_entry_at(db_id, k as int);
                }
                self.entries.remove(k);
                proof {
                    old_self.lemma_remove_entry(*self, k as int);
                }
                return ;
            }
            k += 1;
        }
        proof {
            if old_self.has_entry_id(db_id) {
                let i = old_self.id_index(db_id);
                assert(self.entries@[i].id != db_id);
            }
        }
    }

    /// The store-assigned id of the entry stored under the path of `info`.
    #[verifier::loop_isolation(false)]
    pub fn get_id(&self, info: &MediaFileInfo) -> (r: i32)
        requires
            self.wf(),
            self.has_path(info.path@),
        ensures
            r == self.spec_fetch(info.path@)->Some_0.id,
    {
        let n = self.entries.len();
        let mut k: usize = 0;
        while k < n
            invariant
                0 <= k <= n,
                forall|i: int| 0 <= i < k ==> self.entries@[i].path@ != info.path@,
            decreases n - k,
        {
            if self.entries[k].path == info.path {
                proof {
                    self.lemma_fetch_at(info.path@, k as int);
                }
                return self.entries[k].id;
            }
            k += 1;
        }
        proof {
            let i = self.path_index(info.path@);
            assert(self.entries@[i].path@ != info.path@);
        }
        unreached()
    }

    /// The last-check timestamp recorded for the entry `info`, if any.
    #[verifier::loop_isolation(false)]
    pub fn get_acoustid_last_check(&self, info: &MediaFileInfo) -> (r: Option<i64>)
        requires
            self.wf(),
        ensures
            r == self.spec_check_time(info.id),
    {
        let n = self.last_checks.len();
        let mut k: usize = 0;
        while k < n
            invariant
                0 <= k <= n,
                n == self.last_checks@.len(),
                forall|i: int| 0 <= i < k ==> self.last_checks@[i].library_id != info.id,
            decreases n - k,
        {
            if self.last_checks[k].library_id == info.id {
                proof {
                    self.lemma_check_at(info.id, k as int);
                }
                return Some(self.last_checks[k].last_check);
            }
            k += 1;
        }
        proof {
            if self.has_check(info.id) {
                let i = self.check_index(info.id);
                assert(self.last_checks@[i].library_id != info.id);
            }
        }
        None
    }

    /// Records a first last-check timestamp for the entry with id
    /// `db_library_id`; the row must not exist yet (the store's unique
    /// constraint) and the entry must (its foreign key).
    pub fn add_acoustid_last_check(&mut self, db_library_id: i32, current_time: i64)
        requires
            old(self).wf(),
            old(self).has_entry_id(db_library_id),
            !old(self).has_check(db_library_id),
            current_time >= 0,
            old(self).next_check_id < i32::MAX,
        ensures
            final(self).wf(),
            final(self).spec_check_time(db_library_id) == Some(current_time),
            final(self).has_check(db_library_id),
            final(self).entries == old(self).entries,
            final(self).next_id == old(self).next_id,
            final(self).last_checks@ == old(self).last_checks@.push(
                AcoustIdLastCheck {
                    id: old(self).next_check_id,
                    library_id: db_library_id,
                    last_check: current_time,
                },
            ),
            final(self).next_check_id == old(self).next_check_id + 1,
            forall|p: Seq<char>| final(self).spec_fetch(p) == old(self).spec_fetch(p),
            forall|p: Seq<char>| final(self).has_path(p) == old(self).has_path(p),
            forall|id: i32| #[trigger] final(self).has_entry_id(id) == old(self).has_entry_id(id),
            forall|id: i32|
                old(self).has_entry_id(id) ==> #[trigger] final(self).spec_entry_for_id(id) == old(
                    self,
                ).spec_entry_for_id(id),
            forall|id: i32|
                id != db_library_id ==> #[trigger] final(self).spec_check_time(id) == old(
                    self,
                ).spec_check_time(id),
            forall|id: i32|
                id != db_library_id ==> #[trigger] final(self).has_check(id) == old(
                    self,
                ).has_check(id),
    {
        let ghost old_self = *self;
        let row = AcoustIdLastCheck {
            id: self.next_check_id,
            library_id: db_library_id,
            last_check: current_time,
        };
        self.last_checks.push(row);
        self.next_check_id = self.next_check_id + 1;
        proof {
            let n = old_self.last_checks@.len() as int;
            assert forall|i: int, j: int|
                0 <= i < j < self.last_checks@.len() implies self.last_checks@[i].library_id
                != self.last_checks@[j].library_id by {
                if j == n {
                    if self.last_checks@[i].library_id == db_library_id {
                        assert(old_self.has_check(db_library_id));
                    }
                } else {
                    assert(old_self.last_checks@[i].library_id
                        != old_self.last_checks@[j].library_id);
                }
            }
            assert forall|i: int, j: int|
                0 <= i < j < self.last_checks@.len() implies self.last_checks@[i].id
                != self.last_checks@[j].id by {
                if j < n {
                    assert(old_self.last_checks@[i].id != old_self.last_checks@[j].id);
                }
            }
            assert forall|i: int|
                0 <= i < self.last_checks@.len() implies self.has_entry_id(
                #[trigger] self.last_checks@[i].library_id) by {
                let id = self.last_checks@[i].library_id;
                if i < n {
                    let w = choose|w: int|
                        0 <= w < old_self.entries@.len() && old_self.entries@[w].id == id;
                    assert(self.entries@[w].id == id);
                } else {
                    let w = choose|w: int|
                        0 <= w < old_self.entries@.len() && old_self.entries@[w].id
                            == db_library_id;
                    assert(self.entries@[w].id == id);
                }
            }
            assert(self.wf());
            old_self.lemma_same_entries(*self);
            self.lemma_check_at(db_library_id, n);
            assert forall|id: i32| id != db_library_id implies #[trigger] self.spec_check_time(id)
                == old_self.spec_check_time(id) by {
                if old_self.has_check(id) {
                    let i = old_self.check_index(id);
                    old_self.lemma_check_at(id, i);
                    assert(self.last_checks@[i].library_id == id);
                    self.lemma_check_at(id, i);
                } else {
                    if self.has_check(id) {
                        let i = self.check_index(id);
                        assert(self.last_checks@[i].library_id == id);
                        assert(i < n ==> old_self.last_checks@[i].library_id == id);
                    }
                }
            }
            assert forall|id: i32| id != db_library_id implies #[trigger] self.has_check(id)
                == old_self.has_check(id) by {
                assert(self.spec_check_time(id) == old_self.spec_check_time(id));
                if old_self.has_check(id) {
                    let i = old_self.check_index(id);
                    assert(self.last_checks@[i].library_id == id);
                }
                if self.has_check(id) {
                    let i = self.check_index(id);
                    assert(i < n ==> old_self.last_checks@[i].library_id == id);
                }
            }
        }
    }

    /// Moves the recorded last-check timestamp for the entry with id
    /// `db_library_id` to `current_time`; with no row recorded, nothing
    /// changes.
    #[verifier::loop_isolation(false)]
    pub fn update_acoustid_last_check(&mut self, db_library_id: i32, current_time: i64)
        requires
            old(self).wf(),
            current_time >= 0,
        ensures
            final(self).wf(),
            !old(self).has_check(db_library_id) ==> *final(self) == *old(self),
            old(self).has_check(db_library_id) ==> {
                &&& final(self).spec_check_time(db_library_id) == Some(current_time)
                &&& final(self).entries == old(self).entries
                &&& final(self).next_id == old(self).next_id
                &&& final(self).next_check_id == old(self).next_check_id
                &&& final(self).last_checks@ == old(self).last_checks@.update(
                    old(self).check_index(db_library_id),
                    AcoustIdLastCheck {
                        id: old(self).last_checks@[old(self).check_index(db_library_id)].id,
                        library_id: db_library_id,
                        last_check: current_time,
                    },
                )
                &&& forall|p: Seq<char>| final(self).spec_fetch(p) == old(self).spec_fetch(p)
                &&& forall|p: Seq<char>| final(self).has_path(p) == old(self).has_path(p)
                &&& forall|id: i32| #[trigger]
                    final(self).has_entry_id(id) == old(self).has_entry_id(id)
                &&& forall|id: i32|
                    old(self).has_entry_id(id) ==> #[trigger] final(self).spec_entry_for_id(id)
                        == old(self).spec_entry_for_id(id)
                &&& forall|id: i32|
                    id != db_library_id ==> #[trigger] final(self).spec_check_time(id) == old(
                        self,
                    ).spec_check_time(id)
                &&& forall|id: i32| #[trigger]
                    final(self).has_check(id) == old(self).has_check(id)
            },
    {
        let ghost old_self = *self;
        let n = self.last_checks.len();
        let mut k: usize = 0;
        while k < n
            invariant
                *self == old_self,
                n == self.last_checks@.len(),
                0 <= k <= n,
                forall|i: int| 0 <= i < k ==> self.last_checks@[i].library_id != db_library_id,
            decreases n - k,
        {
            if self.last_checks[k].library_id == db_library_id {
                proof {
                    old_self.lemma_check_at(db_library_id, k as int);
                }
                let row = AcoustIdLastCheck {
                    id: self.last_checks[k].id,
                    library_id: db_library_id,
                    last_check: current_time,
                };
                self.last_checks.set(k, row);
                proof {
                    assert forall|i: int, j: int|
                        0 <= i < j < self.last_checks@.len() implies self.last_checks@[i].library_id
                        != self.last_checks@[j].library_id by {
                        assert(old_self.last_checks@[i].library_id
                            != old_self.last_checks@[j].library_id);
                    }
                    assert forall|i: int, j: int|
                        0 <= i < j < self.last_checks@.len() implies self.last_checks@[i].id
                        != self.last_checks@[j].id by {
                        assert(old_self.last_checks@[i].id != old_self.last_checks@[j].id);
                    }
                    assert forall|i: int|
                        0 <= i < self.last_checks@.len() implies self.has_entry_id(
                        #[trigger] self.last_checks@[i].library_id) by {
                        let id = old_self.last_checks@[i].library_id;
                        let w = choose|w: int|
                            0 <= w < old_self.entries@.len() && old_self.entries@[w].id == id;
                        assert(self.entries@[w].id == id);
                        assert(self.last_checks@[i].library_id == id);
                    }
                    assert(self.wf());
                    old_self.lemma_same_entries(*self);
                    self.lemma_check_at(db_library_id, k as int);
                    assert forall|id: i32| id != db_library_id implies #[trigger] self
                        .spec_check_time(id) == old_self.spec_check_time(id) by {
                        if old_self.has_check(id) {
                            let i = old_self.check_index(id);
                            old_self.lemma_check_at(id, i);
                            assert(i != k as int);
                            assert(self.last_checks@[i].library_id == id);
                            self.lemma_check_at(id, i);
                        } else {
                            if self.has_check(id) {
                                let i = self.check_index(id);
                                assert(old_self.last_checks@[i].library_id
                                    == self.last_checks@[i].library_id);
                            }
                        }
                    }
                    assert forall|id: i32| #[trigger] self.has_check(id) == old_self.has_check(
                        id,
                    ) by {
                        if old_self.has_check(id) {
                            let i = old_self.check_index(id);
                            assert(self.last_checks@[i].library_id
                                == old_self.last_checks@[i].library_id);
                        }
                        if self.has_check(id) {
                            let i = self.check_index(id);
                            assert(old_self.last_checks@[i].library_id
                                == self.last_checks@[i].library_id);
                        }
                    }
                }
                return ;
            }
            k += 1;
        }
        proof {
            if old_self.has_check(db_library_id) {
                let i = old_self.check_index(db_library_id);
                assert(self.last_checks@[i].library_id != db_library_id);
            }
        }
    }

    /// Deletes the last-check row for the entry with id `db_library_id`, if
    /// one exists; entries are untouched.
    #[verifier::loop_isolation(false)]
    pub fn delete_acoustid_last_check(&mut self, db_library_id: i32)
        requires
            old(self).wf(),
        ensures
            final(self).wf(),
            !final(self).has_check(db_library_id),
            final(self).spec_check_time(db_library_id) is None,
            !old(self).has_check(db_library_id) ==> *final(self) == *old(self),
            old(self).has_check(db_library_id) ==> {
                &&& final(self).entries == old(self).entries
                &&& final(self).next_id == old(self).next_id
                &&& final(self).next_check_id == old(self).next_check_id
                &&& final(self).last_checks@ == old(self).last_checks@.remove(
                    old(self).check_index(db_library_id),
                )
                &&& forall|p: Seq<char>| final(self).spec_fetch(p) == old(self).spec_fetch(p)
                &&& forall|p: Seq<char>| final(self).has_path(p) == old(self).has_path(p)
                &&& forall|id: i32| #[trigger]
                    final(self).has_entry_id(id) == old(self).has_entry_id(id)
                &&& forall|id: i32|
                    old(self).has_entry_id(id) ==> #[trigger] final(self).spec_entry_for_id(id)
                        == old(self).spec_entry_for_id(id)
                &&& forall|id: i32|
                    id != db_library_id ==> #[trigger] final(self).spec_check_time(id) == old(
                        self,
                    ).spec_check_time(id)
                &&& forall|id: i32|
                    id != db_library_id ==> #[trigger] final(self).has_check(id) == old(
                        self,
                    ).has_check(id)
            },
    {
        let ghost old_self = *self;
        let n = self.last_checks.len();
        let mut k: usize = 0;
        while k < n
            invariant
                *self == old_self,
                n == self.last_checks@.len(),
                0 <= k <= n,
                forall|i: int| 0 <= i < k ==> self.last_checks@[i].library_id != db_library_id,
            decreases n - k,
        {
            if self.last_checks[k].library_id == db_library_id {
                proof {
                    old_self.lemma_check_at(db_library_id, k as int);
                }
                self.last_checks.remove(k);
                proof {
                    let kk = k as int;
                    let m = old_self.last_checks@.len() as int;
                    assert forall|i: int|
                        0 <= i < self.last_checks@.len() implies self.last_checks@[i] == (if i < kk {
                        old_self.last_checks@[i]
                    } else {
                        old_self.last_checks@[i + 1]
                    }) by {}
                    assert forall|i: int, j: int|
                        0 <= i < j < self.last_checks@.len() implies self.last_checks@[i].library_id
                        != self.last_checks@[j].library_id by {
                        let i0 = if i < kk { i } else { i + 1 };
                        let j0 = if j < kk { j } else { j + 1 };
                        assert(old_self.last_checks@[i0].library_id
                            != old_self.last_checks@[j0].library_id);
                    }
                    assert forall|i: int, j: int|
                        0 <= i < j < self.last_checks@.len() implies self.last_checks@[i].id
                        != self.last_checks@[j].id by {
                        let i0 = if i < kk { i } else { i + 1 };
                        let j0 = if j < kk { j } else { j + 1 };
                        assert(old_self.last_checks@[i0].id != old_self.last_checks@[j0].id);
                    }
                    assert forall|i: int|
                        0 <= i < self.last_checks@.len() implies self.has_entry_id(
                        #[trigger] self.last_checks@[i].library_id) by {
                        let i0 = if i < kk { i } else { i + 1 };
                        let id = old_self.last_checks@[i0].library_id;
                        let w = choose|w: int|
                            0 <= w < old_self.entries@.len() && old_self.entries@[w].id == id;
                        assert(self.entries@[w].id == id);
                        assert(self.last_checks@[i].library_id == id);
                    }
                    assert forall|i: int|
                        0 <= i < self.last_checks@.len() implies 0 <= #[trigger] self
                        .last_checks@[i].id < self.next_check_id by {
                        let i0 = if i < kk { i } else { i + 1 };
                        assert(0 <= old_self.last_checks@[i0].id < old_self.next_check_id);
                    }
                    assert forall|i: int|
                        0 <= i < self.last_checks@.len() implies #[trigger] self.last_checks@[i]
                        .last_check >= 0 by {
                        let i0 = if i < kk { i } else { i + 1 };
                        assert(old_self.last_checks@[i0].last_check >= 0);
                    }
                    assert(self.wf());
                    old_self.lemma_same_entries(*self);
                    if self.has_check(db_library_id) {
                        let i = self.check_index(db_library_id);
                        let i0 = if i < kk { i } else { i + 1 };
                        assert(old_self.last_checks@[i0].library_id == db_library_id);
                        assert(i0 != kk ==> old_self.last_checks@[i0].library_id
                            != old_self.last_checks@[kk].library_id);
                    }
                    assert forall|id: i32| id != db_library_id implies #[trigger] self
                        .spec_check_time(id) == old_self.spec_check_time(id) by {
                        if old_self.has_check(id) {
                            let i = old_self.check_index(id);
                            old_self.lemma_check_at(id, i);
                            assert(i != kk);
                            if i < kk {
                                assert(self.last_checks@[i].library_id == id);
                                self.lemma_check_at(id, i);
                            } else {
                                assert(self.last_checks@[i - 1].library_id == id);
                                self.lemma_check_at(id, i - 1);
                            }
                        } else {
                            if self.has_check(id) {
                                let i = self.check_index(id);
                                let i0 = if i < kk { i } else { i + 1 };
                                assert(old_self.last_checks@[i0].library_id == id);
                            }
                        }
                    }
                    assert forall|id: i32| id != db_library_id implies #[trigger] self.has_check(
                        id,
                    ) == old_self.has_check(id) by {
                        assert(self.spec_check_time(id) == old_self.spec_check_time(id));
                        if old_self.has_check(id) {
                            assert(old_self.spec_check_time(id) is Some);
                        }
                        if self.has_check(id) {
                            assert(self.spec_check_time(id) is Some);
                        }
                    }
                }
                return ;
            }
            k += 1;
        }
        proof {
            if old_self.has_check(db_library_id) {
                let i = old_self.check_index(db_library_id);
                assert(self.last_checks@[i].library_id != db_library_id);
            }
            if self.has_check(db_library_id) {
                let i = self.check_index(db_library_id);
                assert(self.last_checks@[i].library_id != db_library_id);
            }
        }
    }

    /// A snapshot of every stored `(id, path)` pair, in storage order; the
    /// pruning sweep walks this to find entries whose file is gone.
    #[verifier::loop_isolation(false)]
    pub fn path_iter(&self) -> (r: Vec<(i32, String)>)
        ensures
            r@.len() == self.entries@.len(),
            forall|i: int|
                0 <= i < r@.len() ==> #[trigger] r@[i].0 == self.entries@[i].id && r@[i].1@
                    == self.entries@[i].path@,
    {
        let n = self.entries.len();
        let mut out: Vec<(i32, String)> = Vec::new();
        let mut k: usize = 0;
        while k < n
            invariant
                0 <= k <= n,
                out@.len() == k,
                forall|i: int|
                    0 <= i < k ==> #[trigger] out@[i].0 == self.entries@[i].id && out@[i].1@
                        == self.entries@[i].path@,
            decreases n - k,
        {
            out.push((self.entries[k].id, self.entries[k].path.clone()));
            k += 1;
        }
        out
    }
}

/// True when a recording-count query found at least one MusicBrainz recording
/// with the asked-for identifier. The query's rows are handed in; the caller
/// is responsible for having run the count query, which yields one row.
pub fn check_valid_recording_uuid(counts: &Vec<MusicBrainzRecording>) -> (r: bool)
    requires
        counts@.len() > 0,
    ensures
        r == (counts@[0].count > 0),
{
    counts[0].count > 0
}

} // verus!
