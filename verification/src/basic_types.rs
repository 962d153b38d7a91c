//! Shared basic types: the error taxonomy of the pipeline and the shapes of
//! the identification service's response.

use vstd::prelude::*;

verus! {

/// Error taxonomy of the pipeline.
///
/// `NothingUseful` marks a file with no usable metadata (filtered, not fatal);
/// `NoFingerprintMatch` marks a lookup the service answered with no confident
/// result; `Conflict` marks an insert that raced another insert of the same
/// path; `PoolTimeout` marks a bounded wait for a store connection that ran
/// out. The payload-carrying variants keep an opaque description of the
/// underlying transport, parse, or decode failure for logging.
#[derive(Debug, PartialEq, Eq)]
pub enum ProcessorError {
    NothingUseful,
    ApiKey,
    NoFingerprintMatch,
    NoAudioStream,
    Conflict,
    PoolTimeout,
    HyperError(String),
    JsonError(String),
    Io(String),
    FFmpeg(String),
    Chromaprint(String),
    Thread(String),
    Mutex(String),
}

/// An artist attached to a recording in the identification response.
pub struct AcoustIdArtist {
    pub id: String,
    pub name: String,
}

/// A recording attached to a result in the identification response. `id` is
/// the opaque external identifier the catalog stores on a match.
pub struct AcoustIdRecording {
    pub duration: Option<i32>,
    pub title: Option<String>,
    pub id: String,
    pub artists: Option<Vec<AcoustIdArtist>>,
}

/// One ranked candidate match. `score` is the service's confidence,
/// represented in millionths (a score of 0.95 is 950_000) so that the
/// selection logic can compare confidences exactly.
pub struct AcoustIdResult {
    pub recordings: Option<Vec<AcoustIdRecording>>,
    pub score: u32,
    pub id: String,
}

/// The identification service's whole response.
pub struct AcoustIdResponse {
    pub status: String,
    pub results: Option<Vec<AcoustIdResult>>,
}

} // verus!
