//! Tests for the reconciliation pipeline: insert, update, re-check and
//! pruning behaviour over the catalog, and the supporting components.

use music_card_catalog::acoustid::AcoustId;
use music_card_catalog::basic_types::ProcessorError;
use music_card_catalog::catalog::{check_valid_recording_uuid, Catalog};
use music_card_catalog::config::Config;
use music_card_catalog::file_processor::TWO_WEEKS_SECONDS;
use music_card_catalog::models::{MediaFileInfo, MusicBrainzRecording, NewMediaFileInfo};
use music_card_catalog::processor::{prune_db, reconcile_path, scan_paths, ScanItem};
use music_card_catalog::rate_limit::TokenBucket;

fn candidate(path: &str, mtime: i64) -> NewMediaFileInfo {
    NewMediaFileInfo {
        path: path.to_owned(),
        title: Some("Title".to_owned()),
        artist: Some("Artist".to_owned()),
        album: Some("Album".to_owned()),
        track: Some("Track".to_owned()),
        track_number: 7,
        duration: 215_000,
        mtime: Some(mtime),
    }
}

const NOW: i64 = 1_700_000_000;

#[test]
fn new_path_is_inserted_exactly_once() {
    let mut catalog = Catalog::new();
    let report = reconcile_path(
        &mut catalog,
        "/music/a.flac".to_owned(),
        Some(100),
        Some(candidate("/music/a.flac", 100)),
        Ok(None),
        NOW,
    );
    assert!(report.inserted);
    assert!(report.looked_up);
    assert!(!report.updated);
    let entry = report.result.unwrap();
    assert_eq!(entry.path, "/music/a.flac");
    assert_eq!(entry.title.as_deref(), Some("Title"));
    assert_eq!(catalog.entries.len(), 1);

    // a second pass over the same path performs no insert
    let report2 = reconcile_path(
        &mut catalog,
        "/music/a.flac".to_owned(),
        Some(100),
        Some(candidate("/music/a.flac", 100)),
        Ok(None),
        NOW,
    );
    assert!(!report2.inserted);
    assert_eq!(catalog.entries.len(), 1);
}

#[test]
fn unusable_file_is_filtered() {
    let mut catalog = Catalog::new();
    let report = reconcile_path(
        &mut catalog,
        "/music/notes.txt".to_owned(),
        Some(5),
        None,
        Ok(None),
        NOW,
    );
    assert!(matches!(report.result, Err(ProcessorError::NothingUseful)));
    assert!(!report.inserted);
    assert_eq!(catalog.entries.len(), 0);
}

fn insert_identified(catalog: &mut Catalog, path: &str, mtime: i64, mbid: &str) -> MediaFileInfo {
    let report = reconcile_path(
        catalog,
        path.to_owned(),
        Some(mtime),
        Some(candidate(path, mtime)),
        Ok(Some(mbid.to_owned())),
        NOW,
    );
    report.result.unwrap()
}

#[test]
fn identified_entry_is_never_looked_up_again() {
    let mut catalog = Catalog::new();
    let entry = insert_identified(&mut catalog, "/music/b.flac", 100, "some-external-id");
    assert_eq!(entry.mbid.as_deref(), Some("some-external-id"));

    // unchanged file: no lookup, identifier kept, even with a stale check
    let report = reconcile_path(
        &mut catalog,
        "/music/b.flac".to_owned(),
        Some(100),
        Some(candidate("/music/b.flac", 100)),
        Ok(Some("would-be-different".to_owned())),
        NOW + 10 * TWO_WEEKS_SECONDS,
    );
    assert!(!report.looked_up);
    let entry = report.result.unwrap();
    assert_eq!(entry.mbid.as_deref(), Some("some-external-id"));

    // changed file: fields refresh, identifier kept, still no lookup
    let report = reconcile_path(
        &mut catalog,
        "/music/b.flac".to_owned(),
        Some(200),
        Some(candidate("/music/b.flac", 200)),
        Ok(Some("would-be-different".to_owned())),
        NOW + 10 * TWO_WEEKS_SECONDS,
    );
    assert!(!report.looked_up);
    assert!(report.updated);
    let entry = report.result.unwrap();
    assert_eq!(entry.mbid.as_deref(), Some("some-external-id"));
    assert_eq!(entry.mtime, Some(200));
}

#[test]
fn fresh_check_suppresses_lookup() {
    let mut catalog = Catalog::new();
    // first pass: inserted, looked up (no match), last check stamped at NOW
    let report = reconcile_path(
        &mut catalog,
        "/music/c.flac".to_owned(),
        Some(100),
        Some(candidate("/music/c.flac", 100)),
        Ok(None),
        NOW,
    );
    let entry = report.result.unwrap();
    assert!(entry.mbid.is_none());
    assert_eq!(catalog.get_acoustid_last_check(&entry), Some(NOW));

    // less than two weeks later: no lookup at all
    let report = reconcile_path(
        &mut catalog,
        "/music/c.flac".to_owned(),
        Some(100),
        Some(candidate("/music/c.flac", 100)),
        Ok(Some("late-match".to_owned())),
        NOW + TWO_WEEKS_SECONDS - 1,
    );
    assert!(!report.looked_up);
    let entry = report.result.unwrap();
    assert!(entry.mbid.is_none());
    assert_eq!(catalog.get_acoustid_last_check(&entry), Some(NOW));
}

#[test]
fn stale_check_leads_to_one_lookup_and_new_stamp() {
    let mut catalog = Catalog::new();
    let report = reconcile_path(
        &mut catalog,
        "/music/d.flac".to_owned(),
        Some(100),
        Some(candidate("/music/d.flac", 100)),
        Ok(None),
        NOW,
    );
    let entry = report.result.unwrap();

    // exactly two weeks later the entry is due again; "no match" still
    // refreshes the last-check stamp
    let later = NOW + TWO_WEEKS_SECONDS;
    let report = reconcile_path(
        &mut catalog,
        "/music/d.flac".to_owned(),
        Some(100),
        Some(candidate("/music/d.flac", 100)),
        Ok(None),
        later,
    );
    assert!(report.looked_up);
    let entry2 = report.result.unwrap();
    assert!(entry2.mbid.is_none());
    assert_eq!(catalog.get_acoustid_last_check(&entry), Some(later));

    // due again and this time the service answers: the id is stamped
    let even_later = later + TWO_WEEKS_SECONDS;
    let report = reconcile_path(
        &mut catalog,
        "/music/d.flac".to_owned(),
        Some(100),
        Some(candidate("/music/d.flac", 100)),
        Ok(Some("finally-found".to_owned())),
        even_later,
    );
    assert!(report.looked_up);
    let entry3 = report.result.unwrap();
    assert_eq!(entry3.mbid.as_deref(), Some("finally-found"));
    assert_eq!(catalog.get_acoustid_last_check(&entry), Some(even_later));
}

#[test]
fn changed_file_updates_fields_and_rechecks_when_due() {
    let mut catalog = Catalog::new();
    let report = reconcile_path(
        &mut catalog,
        "/music/f.flac".to_owned(),
        Some(100),
        Some(candidate("/music/f.flac", 100)),
        Ok(None),
        NOW,
    );
    let entry = report.result.unwrap();
    assert!(entry.mbid.is_none());

    // the file changed and the last check is stale: one pass refreshes the
    // fields and performs the due lookup
    let later = NOW + TWO_WEEKS_SECONDS;
    let mut refreshed = candidate("/music/f.flac", 300);
    refreshed.title = Some("New Title".to_owned());
    let report = reconcile_path(
        &mut catalog,
        "/music/f.flac".to_owned(),
        Some(300),
        Some(refreshed),
        Ok(Some("now-known".to_owned())),
        later,
    );
    assert!(report.updated);
    assert!(report.looked_up);
    assert!(!report.inserted);
    let entry2 = report.result.unwrap();
    assert_eq!(entry2.id, entry.id);
    assert_eq!(entry2.title.as_deref(), Some("New Title"));
    assert_eq!(entry2.mtime, Some(300));
    assert_eq!(entry2.mbid.as_deref(), Some("now-known"));
    assert_eq!(catalog.get_acoustid_last_check(&entry2), Some(later));
}

#[test]
fn transient_lookup_failure_still_stamps_last_check() {
    let mut catalog = Catalog::new();
    let report = reconcile_path(
        &mut catalog,
        "/music/e.flac".to_owned(),
        Some(100),
        Some(candidate("/music/e.flac", 100)),
        Err(ProcessorError::HyperError("connection reset".to_owned())),
        NOW,
    );
    assert!(report.looked_up);
    assert!(matches!(report.result, Err(ProcessorError::HyperError(_))));
    // the entry was inserted and its last check recorded all the same
    let stored = catalog.fetch_file(&"/music/e.flac".to_owned()).unwrap();
    assert!(stored.mbid.is_none());
    assert_eq!(catalog.get_acoustid_last_check(&stored), Some(NOW));
}

#[test]
fn pruning_deletes_entry_and_last_check_once() {
    let mut catalog = Catalog::new();
    let keep = insert_identified(&mut catalog, "/music/keep.flac", 1, "kept-id");
    let report = reconcile_path(
        &mut catalog,
        "/music/gone.flac".to_owned(),
        Some(2),
        Some(candidate("/music/gone.flac", 2)),
        Ok(None),
        NOW,
    );
    let gone = report.result.unwrap();
    assert_eq!(catalog.entries.len(), 2);

    let absent = vec!["/music/gone.flac".to_owned()];
    prune_db(&mut catalog, &absent);
    assert_eq!(catalog.entries.len(), 1);
    assert!(catalog.fetch_file(&"/music/gone.flac".to_owned()).is_none());
    assert_eq!(catalog.get_acoustid_last_check(&gone), None);
    assert!(catalog.fetch_file(&"/music/keep.flac".to_owned()).is_some());
    assert_eq!(catalog.get_acoustid_last_check(&keep), Some(NOW));

    // a second sweep finds nothing to delete
    prune_db(&mut catalog, &absent);
    assert_eq!(catalog.entries.len(), 1);
    assert_eq!(catalog.last_checks.len(), 1);
}

#[test]
fn empty_scan_counts_zero() {
    let mut catalog = Catalog::new();
    let (count, docs) = scan_paths(&mut catalog, Vec::new(), NOW);
    assert_eq!(count, 0);
    assert!(docs.is_empty());
    assert_eq!(catalog.entries.len(), 0);
}

#[test]
fn scan_with_identified_file_sets_external_id() {
    // the mocked identification service answers with one confident result
    let json = r#"{"status":"ok","results":[{"id":"x","score":0.99,
        "recordings":[{"id":"bdf27e74-cc62-43ae-8eb8-2b40d5c421a5","title":"T"}]}]}"#;
    let best = AcoustId::handle_response(json.as_bytes()).unwrap();
    let lookup = AcoustId::absorb_soft_errors(
        Ok(AcoustId::first_recording_id(&best)),
    );

    let mut catalog = Catalog::new();
    let items = vec![ScanItem {
        path: "/music/song.flac".to_owned(),
        mtime: Some(42),
        metadata: Some(candidate("/music/song.flac", 42)),
        lookup,
    }];
    let (count, docs) = scan_paths(&mut catalog, items, NOW);
    assert_eq!(count, 1);
    assert_eq!(docs.len(), 1);
    assert_eq!(docs[0].mbid.as_deref(), Some("bdf27e74-cc62-43ae-8eb8-2b40d5c421a5"));
    let stored = catalog.fetch_file(&"/music/song.flac".to_owned()).unwrap();
    assert_eq!(stored.mbid.as_deref(), Some("bdf27e74-cc62-43ae-8eb8-2b40d5c421a5"));
}

#[test]
fn scan_with_empty_service_answer_leaves_id_unset() {
    // the mocked identification service has no confident result
    let json = r#"{"status":"ok","results":[]}"#;
    let outcome = AcoustId::handle_response(json.as_bytes());
    assert!(matches!(outcome, Err(ProcessorError::NoFingerprintMatch)));
    let lookup = AcoustId::absorb_soft_errors(match outcome {
        Ok(best) => Ok(AcoustId::first_recording_id(&best)),
        Err(e) => Err(e),
    });
    assert_eq!(lookup, Ok(None));

    let mut catalog = Catalog::new();
    let items = vec![ScanItem {
        path: "/music/quiet.flac".to_owned(),
        mtime: Some(7),
        metadata: Some(candidate("/music/quiet.flac", 7)),
        lookup,
    }];
    let (count, _docs) = scan_paths(&mut catalog, items, NOW);
    assert_eq!(count, 1);
    let stored = catalog.fetch_file(&"/music/quiet.flac".to_owned()).unwrap();
    assert!(stored.mbid.is_none());
    assert_eq!(catalog.get_acoustid_last_check(&stored), Some(NOW));
}

#[test]
fn catalog_gateway_operations() {
    let mut catalog = Catalog::new();
    let entry = catalog.insert_file(&candidate("/m/x.flac", 1)).unwrap();
    assert_eq!(entry.id, 0);
    assert!(entry.mbid.is_none());

    // inserting the same path again is a conflict and changes nothing
    let conflict = catalog.insert_file(&candidate("/m/x.flac", 1));
    assert!(matches!(conflict, Err(ProcessorError::Conflict)));
    assert_eq!(catalog.entries.len(), 1);

    assert_eq!(catalog.get_id(&entry), 0);

    let mut info2 = candidate("/m/x.flac", 9);
    info2.title = Some("Renamed".to_owned());
    let updated = catalog.update_file(0, info2);
    assert_eq!(updated.title.as_deref(), Some("Renamed"));
    assert_eq!(updated.mtime, Some(9));

    let stamped = catalog.update_file_uuid(0, "ext-1".to_owned());
    assert_eq!(stamped.mbid.as_deref(), Some("ext-1"));

    catalog.add_acoustid_last_check(0, 1000);
    assert_eq!(catalog.get_acoustid_last_check(&stamped), Some(1000));
    catalog.update_acoustid_last_check(0, 2000);
    assert_eq!(catalog.get_acoustid_last_check(&stamped), Some(2000));

    let pairs = catalog.path_iter();
    assert_eq!(pairs.len(), 1);
    assert_eq!(pairs[0].0, 0);
    assert_eq!(pairs[0].1, "/m/x.flac");

    catalog.delete_acoustid_last_check(0);
    assert_eq!(catalog.get_acoustid_last_check(&stamped), None);
    catalog.delete_file(0);
    assert!(catalog.fetch_file(&"/m/x.flac".to_owned()).is_none());
}

#[test]
fn document_mirrors_entry() {
    let mut catalog = Catalog::new();
    let entry = catalog.insert_file(&candidate("/m/doc.flac", 4)).unwrap();
    let stamped = catalog.update_file_uuid(entry.id, "ext-9".to_owned());
    let doc = stamped.to_document();
    assert_eq!(doc.id, stamped.id);
    assert_eq!(doc.path, "/m/doc.flac");
    assert_eq!(doc.title.as_deref(), Some("Title"));
    assert_eq!(doc.track_number, 7);
    assert_eq!(doc.duration, 215_000);
    assert_eq!(doc.mbid.as_deref(), Some("ext-9"));
}

#[test]
fn default_values_are_filtered() {
    let empty = NewMediaFileInfo {
        path: "/m/empty.bin".to_owned(),
        title: None,
        artist: None,
        album: None,
        track: None,
        track_number: 0,
        duration: 0,
        mtime: Some(1),
    };
    assert!(empty.is_default_values());
    assert!(!candidate("/m/full.flac", 1).is_default_values());
}

#[test]
fn token_bucket_paces_admission() {
    let mut bucket = TokenBucket::new(3, 3, 1000);
    assert!(bucket.try_acquire());
    assert!(bucket.try_acquire());
    assert!(bucket.try_acquire());
    assert!(!bucket.try_acquire());
    bucket.refill();
    assert_eq!(bucket.tokens, 3);
    assert!(bucket.try_acquire());

    let mut small = TokenBucket::new(5, 2, 1000);
    assert!(small.try_acquire());
    assert!(small.try_acquire());
    assert!(small.try_acquire());
    small.refill();
    assert_eq!(small.tokens, 4);
    small.refill();
    assert_eq!(small.tokens, 5);
}

#[test]
fn config_lookup_finds_credential() {
    let config = Config {
        api_keys: vec![
            ("acoustid".to_owned(), "SECRET-REDACTED".to_owned()),
            ("other".to_owned(), "value".to_owned()),
        ],
        paths: vec!["/music".to_owned()],
    };
    assert_eq!(
        config.get_api_key(&"acoustid".to_owned()),
        Some("SECRET-REDACTED".to_owned())
    );
    assert_eq!(config.get_api_key(&"missing".to_owned()), None);
}

#[test]
fn recording_count_check() {
    let some = vec![MusicBrainzRecording { count: 3 }];
    assert!(check_valid_recording_uuid(&some));
    let none = vec![MusicBrainzRecording { count: 0 }];
    assert!(!check_valid_recording_uuid(&none));
}
