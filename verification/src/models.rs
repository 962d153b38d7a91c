//! Data model of the catalog: freshly scanned file metadata, persisted
//! entries, last-check records, and the search-index document shape.

use vstd::prelude::*;

verus! {

/// Metadata read from a file on disk, not yet persisted. Timestamps are unix
/// seconds; `duration` is in milliseconds.
pub struct NewMediaFileInfo {
    pub path: String,
    pub title: Option<String>,
    pub artist: Option<String>,
    pub album: Option<String>,
    pub track: Option<String>,
    pub track_number: u32,
    pub duration: u32,
    pub mtime: Option<i64>,
}

/// A persisted catalog entry. `id` is assigned by the store and never changes;
/// `mbid` is the opaque identifier from the identification service, absent
/// until a lookup succeeds.
pub struct MediaFileInfo {
    pub id: i32,
    pub path: String,
    pub title: Option<String>,
    pub artist: Option<String>,
    pub album: Option<String>,
    pub track: Option<String>,
    pub track_number: u32,
    pub duration: u32,
    pub mbid: Option<String>,
    pub mtime: Option<i64>,
}

/// Timestamp of the most recent identification attempt for one catalog entry.
pub struct AcoustIdLastCheck {
    pub id: i32,
    pub library_id: i32,
    pub last_check: i64,
}

/// Row shape of a recording-count query against a MusicBrainz mirror.
pub struct MusicBrainzRecording {
    pub count: i32,
}

/// Document sent to the search index, mirroring a catalog entry with the
/// external identifier serialized as a string.
pub struct MediaFileInfoDocument {
    pub id: i32,
    pub path: String,
    pub title: Option<String>,
    pub artist: Option<String>,
    pub album: Option<String>,
    pub track: Option<String>,
    pub track_number: i32,
    pub duration: i32,
    pub mbid: Option<String>,
}

/// Clones an optional string, preserving the value exactly.
pub fn clone_opt_string(s: &Option<String>) -> (r: Option<String>)
    ensures
        r == *s,
{
    match s {
        Some(v) => Some(v.clone()),
        None => None,
    }
}

impl NewMediaFileInfo {
    /// True when the scan produced nothing beyond defaults; such files carry
    /// no usable metadata and are filtered out before insertion.
    pub fn is_default_values(&self) -> (r: bool)
        ensures
            r == (self.title is None && self.artist is None && self.album is None
                && self.track is None && self.track_number == 0 && self.duration == 0),
    {
        self.title.is_none() && self.artist.is_none() && self.album.is_none()
            && self.track.is_none() && self.track_number == 0 && self.duration == 0
    }

    /// An exact copy of this metadata record.
    pub fn duplicate(&self) -> (r: Self)
        ensures
            r == *self,
    {
        NewMediaFileInfo {
            path: self.path.clone(),
            title: clone_opt_string(&self.title),
            artist: clone_opt_string(&self.artist),
            album: clone_opt_string(&self.album),
            track: clone_opt_string(&self.track),
            track_number: self.track_number,
            duration: self.duration,
            mtime: self.mtime,
        }
    }
}

impl MediaFileInfo {
    /// An exact copy of this catalog entry.
    pub fn duplicate(&self) -> (r: Self)
        ensures
            r == *self,
    {
        MediaFileInfo {
            id: self.id,
            path: self.path.clone(),
            title: clone_opt_string(&self.title),
            artist: clone_opt_string(&self.artist),
            album: clone_opt_string(&self.album),
            track: clone_opt_string(&self.track),
            track_number: self.track_number,
            duration: self.duration,
            mbid: clone_opt_string(&self.mbid),
            mtime: self.mtime,
        }
    }

    /// The search-index document for this entry: every descriptive field
    /// carried over, the numeric fields reinterpreted as signed, and the
    /// external identifier kept as an optional string.
    pub fn to_document(&self) -> (r: MediaFileInfoDocument)
        ensures
            r.id == self.id,
            r.path == self.path,
            r.title == self.title,
            r.artist == self.artist,
            r.album == self.album,
            r.track == self.track,
            r.track_number == self.track_number as i32,
            r.duration == self.duration as i32,
            r.mbid == self.mbid,
    {
        MediaFileInfoDocument {
            id: self.id,
            path: self.path.clone(),
            title: clone_opt_string(&self.title),
            artist: clone_opt_string(&self.artist),
            album: clone_opt_string(&self.album),
            track: clone_opt_string(&self.track),
            #[verifier::truncate]
            track_number: self.track_number as i32,
            #[verifier::truncate]
            duration: self.duration as i32,
            mbid: clone_opt_string(&self.mbid),
        }
    }
}

} // verus!
