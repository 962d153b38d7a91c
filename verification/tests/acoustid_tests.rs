//! Tests for the identification client: response parsing, result selection,
//! recording extraction, and the lookup request URL.

use music_card_catalog::acoustid::AcoustId;
use music_card_catalog::basic_types::{AcoustIdRecording, AcoustIdResult, ProcessorError};
use music_card_catalog::json::{parse_document, JsonValue};

#[test]
fn test_handle_response() {
    let json = r#"{
      "status": "ok",
      "results": [
        {
          "recordings": [
            {
              "title": "フラワリングナイト",
              "id": "bdf27e74-cc62-43ae-8eb8-2b40d5c421a5",
              "artists": [
                {
                  "id": "9f9a5476-22bd-48ef-8952-25cd8e3f1545",
                  "name": "TAMUSIC"
                }
              ]
            }
          ],
          "score": 0.999473,
          "id": "f2451269-9fec-4e82-aaf8-0bdf1f069ecf"
        }
      ]
    }"#;

    let first_result = AcoustId::handle_response(json.as_bytes()).unwrap();
    assert_eq!(first_result.id, "f2451269-9fec-4e82-aaf8-0bdf1f069ecf");
}

#[test]
fn handle_response_reads_score_and_recordings() {
    let json = r#"{"status":"ok","results":[{"id":"x","score":0.95,
        "recordings":[{"id":"r1","title":"T","duration":240}]}]}"#;
    let best = AcoustId::handle_response(json.as_bytes()).unwrap();
    assert_eq!(best.score, 950_000);
    let recs = best.recordings.as_ref().unwrap();
    assert_eq!(recs.len(), 1);
    assert_eq!(recs[0].id, "r1");
    assert_eq!(recs[0].title.as_deref(), Some("T"));
    assert_eq!(recs[0].duration, Some(240));
}

#[test]
fn handle_response_empty_results_is_no_match() {
    let json = r#"{"status":"ok","results":[]}"#;
    let r = AcoustId::handle_response(json.as_bytes());
    assert!(matches!(r, Err(ProcessorError::NoFingerprintMatch)));
}

#[test]
fn handle_response_missing_results_is_no_match() {
    let json = r#"{"status":"ok"}"#;
    let r = AcoustId::handle_response(json.as_bytes());
    assert!(matches!(r, Err(ProcessorError::NoFingerprintMatch)));
}

#[test]
fn handle_response_malformed_is_json_error() {
    let r = AcoustId::handle_response(b"{\"status\": \"ok\"");
    assert!(matches!(r, Err(ProcessorError::JsonError(_))));
    let r2 = AcoustId::handle_response(b"[1, 2]");
    assert!(matches!(r2, Err(ProcessorError::JsonError(_))));
    // numerals with exponent notation are not part of the response grammar
    let r3 = AcoustId::handle_response(b"{\"status\":\"ok\",\"results\":[{\"id\":\"x\",\"score\":1e-3}]}");
    assert!(matches!(r3, Err(ProcessorError::JsonError(_))));
}

#[test]
fn handle_response_first_field_occurrence_wins() {
    let json = r#"{"status":"ok","results":[{"id":"first","score":0.5,"id":"second"}]}"#;
    let best = AcoustId::handle_response(json.as_bytes()).unwrap();
    assert_eq!(best.id, "first");
}

fn result_with(id: &str, score: u32) -> AcoustIdResult {
    AcoustIdResult { recordings: None, score, id: id.to_owned() }
}

#[test]
fn select_best_result_prefers_first_of_equal_scores() {
    // scores [0.7, 0.95, 0.95] in millionths: the earlier 0.95 entry wins
    let results = vec![
        result_with("low", 700_000),
        result_with("first-high", 950_000),
        result_with("second-high", 950_000),
    ];
    let best = AcoustId::select_best_result(results).unwrap();
    assert_eq!(best.id, "first-high");
    assert_eq!(best.score, 950_000);
}

#[test]
fn select_best_result_empty_is_no_match() {
    let r = AcoustId::select_best_result(Vec::new());
    assert!(matches!(r, Err(ProcessorError::NoFingerprintMatch)));
}

#[test]
fn first_recording_id_takes_the_first() {
    let result = AcoustIdResult {
        recordings: Some(vec![
            AcoustIdRecording {
                duration: None,
                title: None,
                id: "aaa".to_owned(),
                artists: None,
            },
            AcoustIdRecording {
                duration: None,
                title: None,
                id: "bbb".to_owned(),
                artists: None,
            },
        ]),
        score: 999_999,
        id: "x".to_owned(),
    };
    assert_eq!(AcoustId::first_recording_id(&result), Some("aaa".to_owned()));

    let none = AcoustIdResult { recordings: None, score: 1, id: "y".to_owned() };
    assert_eq!(AcoustId::first_recording_id(&none), None);

    let empty = AcoustIdResult { recordings: Some(Vec::new()), score: 1, id: "z".to_owned() };
    assert_eq!(AcoustId::first_recording_id(&empty), None);
}

#[test]
fn absorb_soft_errors_maps_soft_failures_to_none() {
    assert_eq!(
        AcoustId::absorb_soft_errors(Err(ProcessorError::NoFingerprintMatch)),
        Ok(None)
    );
    assert_eq!(AcoustId::absorb_soft_errors(Err(ProcessorError::NoAudioStream)), Ok(None));
    assert_eq!(
        AcoustId::absorb_soft_errors(Err(ProcessorError::FFmpeg("boom".to_owned()))),
        Ok(None)
    );
    assert_eq!(
        AcoustId::absorb_soft_errors(Ok(Some("id".to_owned()))),
        Ok(Some("id".to_owned()))
    );
    assert_eq!(
        AcoustId::absorb_soft_errors(Err(ProcessorError::PoolTimeout)),
        Err(ProcessorError::PoolTimeout)
    );
}

#[test]
fn test_get() {
    // a known good fingerprint payload travels into the lookup request
    // unchanged, with its duration rounded to whole seconds
    let client = AcoustId::new("k".to_owned());
    let fingerprint = "AQADtEqkRIkkrQ";
    let url = client.lookup_url(120, fingerprint);
    assert!(url.contains("&fingerprint=AQADtEqkRIkkrQ&"));
    assert!(url.contains("&duration=120&"));
}

#[test]
fn lookup_url_is_exact() {
    let client = AcoustId::new("SECRET-REDACTED".to_owned());
    let url = client.lookup_url(247, "AQAAf5KYJE");
    assert_eq!(
        url,
        "https://api.acoustid.org/v2/lookup?format=json&client=SECRET-REDACTED\
         &duration=247&fingerprint=AQAAf5KYJE&meta=recordings"
    );
}

#[test]
fn parse_document_values() {
    // raw UTF-8 passes through; named escapes unescape
    let v = parse_document("\"a\\né😀b\"".as_bytes()).unwrap();
    match v {
        JsonValue::Str(bytes) => {
            assert_eq!(String::from_utf8(bytes).unwrap(), "a\n\u{e9}\u{1f600}b");
        }
        _ => panic!("expected a string"),
    }

    // \uXXXX escapes, including a surrogate pair
    let v = parse_document("\"\\u00e9 \\ud83d\\ude00\"".as_bytes()).unwrap();
    match v {
        JsonValue::Str(bytes) => {
            assert_eq!(String::from_utf8(bytes).unwrap(), "\u{e9} \u{1f600}");
        }
        _ => panic!("expected a string"),
    }
    // a lone high surrogate is malformed
    assert!(parse_document("\"\\ud83d\"".as_bytes()).is_none());

    // numbers are fixed point in millionths; extra fraction digits drop
    let v = parse_document(b"[0.999473, -2.5, 10, 0.1234567]").unwrap();
    match v {
        JsonValue::Arr(items) => {
            let nums: Vec<i64> = items
                .iter()
                .map(|x| match x {
                    JsonValue::Num(n) => *n,
                    _ => panic!("expected numbers"),
                })
                .collect();
            assert_eq!(nums, vec![999_473, -2_500_000, 10_000_000, 123_456]);
        }
        _ => panic!("expected an array"),
    }

    // nested structure with whitespace, null, and booleans
    let v = parse_document(b" { \"a\" : [ true , false , null ] } ").unwrap();
    match v {
        JsonValue::Obj(members) => {
            assert_eq!(members.len(), 1);
            assert_eq!(members[0].0, b"a".to_vec());
            match &members[0].1 {
                JsonValue::Arr(items) => assert_eq!(items.len(), 3),
                _ => panic!("expected an array"),
            }
        }
        _ => panic!("expected an object"),
    }

    // empty containers
    assert!(matches!(parse_document(b"[]"), Some(JsonValue::Arr(v)) if v.is_empty()));
    assert!(matches!(parse_document(b" { } "), Some(JsonValue::Obj(v)) if v.is_empty()));

    // malformed documents are rejected
    assert!(parse_document(b"{\"a\":1,}").is_none());
    assert!(parse_document(b"[1 2]").is_none());
    assert!(parse_document(b"\"unterminated").is_none());
    assert!(parse_document(b"1.5e3").is_none());
    assert!(parse_document(b"[1] trailing").is_none());
    assert!(parse_document(b"\"\x01\"").is_none());
}
