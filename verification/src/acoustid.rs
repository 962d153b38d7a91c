//! The identification client's decision logic: building the lookup request,
//! ranking the service's results, and extracting the matched recording's
//! identifier. The transport (fingerprinting the file, issuing the HTTP call)
//! is the driver's; everything the response's bytes decide is verified here.

use vstd::prelude::*;

use crate::basic_types::{AcoustIdArtist, AcoustIdRecording, AcoustIdResponse, AcoustIdResult,
    ProcessorError};
use crate::json::{lemma_member_reps_of_index, member_reps_of, parse_document,
    spec_parse_document, JsonRep, JsonValue};
use vstd::utf8::{decode_utf8, encode_utf8, valid_utf8};

verus! {

/// The decimal digit character for `d`.
pub open spec fn spec_digit_char(d: nat) -> char {
    ((48 + (d % 10)) as u8) as char
}

/// The decimal numeral of `n`, most significant digit first.
pub open spec fn spec_uint_string(n: nat) -> Seq<char>
    decreases n,
{
    if n < 10 {
        seq![spec_digit_char(n)]
    } else {
        spec_uint_string(n / 10).push(spec_digit_char(n % 10))
    }
}

/// Appends the digit character for `d` to `s`.
fn append_digit(s: &mut String, d: u64)
    requires
        d < 10,
    ensures
        final(s)@ == old(s)@.push(spec_digit_char(d as nat)),
{
    if d == 0 {
        proof {
            reveal_strlit("0");
        }
        s.append("0");
    } else if d == 1 {
        proof {
            reveal_strlit("1");
        }
        s.append("1");
    } else if d == 2 {
        proof {
            reveal_strlit("2");
        }
        s.append("2");
    } else if d == 3 {
        proof {
            reveal_strlit("3");
        }
        s.append("3");
    } else if d == 4 {
        proof {
            reveal_strlit("4");
        }
        s.append("4");
    } else if d == 5 {
        proof {
            reveal_strlit("5");
        }
        s.append("5");
    } else if d == 6 {
        proof {
            reveal_strlit("6");
        }
        s.append("6");
    } else if d == 7 {
        proof {
            reveal_strlit("7");
        }
        s.append("7");
    } else if d == 8 {
        proof {
            reveal_strlit("8");
        }
        s.append("8");
    } else {
        proof {
            reveal_strlit("9");
        }
        s.append("9");
    }
    proof {
        assert(final(s)@ =~= old(s)@.push(spec_digit_char(d as nat)));
    }
}

/// Appends the decimal numeral of `n` to `s`.
fn append_uint(s: &mut String, n: u64)
    ensures
        final(s)@ == old(s)@ + spec_uint_string(n as nat),
    decreases n,
{
    if n < 10 {
        append_digit(s, n);
        proof {
            assert(final(s)@ =~= old(s)@ + spec_uint_string(n as nat));
        }
    } else {
        append_uint(s, n / 10);
        append_digit(s, n % 10);
        proof {
            assert(final(s)@ =~= old(s)@ + spec_uint_string(n as nat));
        }
    }
}

/// The decimal numeral of `n` as a string.
pub fn u64_to_string(n: u64) -> (r: String)
    ensures
        r@ == spec_uint_string(n as nat),
{
    let mut s = String::new();
    append_uint(&mut s, n);
    proof {
        assert(s@ =~= spec_uint_string(n as nat));
    }
    s
}

/// The lookup request's URL: the service endpoint with the response format,
/// the caller's credential, the track duration in whole seconds, the
/// fingerprint payload, and the ask for recording metadata.
pub open spec fn spec_lookup_url(api_key: Seq<char>, duration_secs: nat, fingerprint: Seq<char>)
    -> Seq<char> {
    "https://api.acoustid.org/v2/lookup?format=json&client="@ + api_key + "&duration="@
        + spec_uint_string(duration_secs) + "&fingerprint="@ + fingerprint + "&meta=recordings"@
}

/// The mathematical shape of an artist in the response.
pub struct ArtistRep {
    pub id: Seq<char>,
    pub name: Seq<char>,
}

/// The mathematical shape of a recording in the response.
pub struct RecordingRep {
    pub duration: Option<int>,
    pub title: Option<Seq<char>>,
    pub id: Seq<char>,
    pub artists: Option<Seq<ArtistRep>>,
}

/// The mathematical shape of one ranked result.
pub struct ResultRep {
    pub recordings: Option<Seq<RecordingRep>>,
    pub score: int,
    pub id: Seq<char>,
}

/// The mathematical shape of the whole response.
pub struct ResponseRep {
    pub status: Seq<char>,
    pub results: Option<Seq<ResultRep>>,
}

impl View for AcoustIdArtist {
    type V = ArtistRep;

    open spec fn view(&self) -> ArtistRep {
        ArtistRep { id: self.id@, name: self.name@ }
    }
}

/// The views of a sequence of artists.
pub open spec fn artist_reps(v: Seq<AcoustIdArtist>) -> Seq<ArtistRep> {
    Seq::new(v.len(), |i: int| v[i]@)
}

impl View for AcoustIdRecording {
    type V = RecordingRep;

    open spec fn view(&self) -> RecordingRep {
        RecordingRep {
            duration: match self.duration {
                Some(d) => Some(d as int),
                None => None,
            },
            title: match self.title {
                Some(t) => Some(t@),
                None => None,
            },
            id: self.id@,
            artists: match self.artists {
                Some(a) => Some(artist_reps(a@)),
                None => None,
            },
        }
    }
}

/// The views of a sequence of recordings.
pub open spec fn recording_reps(v: Seq<AcoustIdRecording>) -> Seq<RecordingRep> {
    Seq::new(v.len(), |i: int| v[i]@)
}

impl View for AcoustIdResult {
    type V = ResultRep;

    open spec fn view(&self) -> ResultRep {
        ResultRep {
            recordings: match self.recordings {
                Some(r) => Some(recording_reps(r@)),
                None => None,
            },
            score: self.score as int,
            id: self.id@,
        }
    }
}

/// The views of a sequence of results.
pub open spec fn result_reps(v: Seq<AcoustIdResult>) -> Seq<ResultRep> {
    Seq::new(v.len(), |i: int| v[i]@)
}

impl View for AcoustIdResponse {
    type V = ResponseRep;

    open spec fn view(&self) -> ResponseRep {
        ResponseRep {
            status: self.status@,
            results: match self.results {
                Some(r) => Some(result_reps(r@)),
                None => None,
            },
        }
    }
}

/// The value of the first member under `key`, as the service's objects carry
/// each field once.
pub open spec fn spec_obj_get(ms: Seq<(Seq<u8>, JsonRep)>, key: Seq<u8>) -> Option<JsonRep>
    decreases ms.len(),
{
    if ms.len() == 0 {
        None
    } else if ms[0].0 == key {
        Some(ms[0].1)
    } else {
        spec_obj_get(ms.drop_first(), key)
    }
}

/// A JSON string decoded to characters; anything else, or bytes that are not
/// valid UTF-8, is malformed.
pub open spec fn spec_string_of(j: JsonRep) -> Option<Seq<char>> {
    match j {
        JsonRep::Str(b) => if valid_utf8(b) {
            Some(decode_utf8(b))
        } else {
            None
        },
        _ => None,
    }
}

/// A required string field: present and a string, or malformed.
pub open spec fn spec_req_string_field(ms: Seq<(Seq<u8>, JsonRep)>, key: Seq<u8>) -> Option<
    Seq<char>,
> {
    match spec_obj_get(ms, key) {
        Some(j) => spec_string_of(j),
        None => None,
    }
}

/// An optional string field: absent or null reads as no value; a string
/// reads as its characters; anything else is malformed (outer `None`).
pub open spec fn spec_opt_string_field(ms: Seq<(Seq<u8>, JsonRep)>, key: Seq<u8>) -> Option<
    Option<Seq<char>>,
> {
    match spec_obj_get(ms, key) {
        None => Some(None),
        Some(j) => match j {
            JsonRep::Null => Some(None),
            JsonRep::Str(b) => if valid_utf8(b) {
                Some(Some(decode_utf8(b)))
            } else {
                None
            },
            _ => None,
        },
    }
}

/// An optional duration field, in whole seconds: absent or null reads as no
/// value; a non-negative number whose seconds fit an `i32` reads as its
/// (truncated) seconds; anything else is malformed.
pub open spec fn spec_duration_field(ms: Seq<(Seq<u8>, JsonRep)>, key: Seq<u8>) -> Option<
    Option<int>,
> {
    match spec_obj_get(ms, key) {
        None => Some(None),
        Some(j) => match j {
            JsonRep::Null => Some(None),
            JsonRep::Num(micro) => if micro < 0 || micro / 1000000 > i32::MAX {
                None
            } else {
                Some(Some(micro / 1000000))
            },
            _ => None,
        },
    }
}

/// A confidence in millionths, clamped into `u32` range.
pub open spec fn spec_score_clamp(micro: int) -> int {
    if micro < 0 {
        0
    } else if micro > 0xFFFFFFFF {
        0xFFFFFFFF
    } else {
        micro
    }
}

/// One artist from its JSON value: an object with string `id` and `name`.
pub open spec fn spec_artist_of(j: JsonRep) -> Option<ArtistRep> {
    match j {
        JsonRep::Obj(ms) => match (
            spec_req_string_field(ms, encode_utf8("id"@)),
            spec_req_string_field(ms, encode_utf8("name"@)),
        ) {
            (Some(id), Some(name)) => Some(ArtistRep { id, name }),
            _ => None,
        },
        _ => None,
    }
}

/// All artists of a list, or malformed if any element is.
pub open spec fn spec_artists_of(js: Seq<JsonRep>) -> Option<Seq<ArtistRep>>
    decreases js.len(),
{
    if js.len() == 0 {
        Some(Seq::empty())
    } else {
        match (spec_artist_of(js[0]), spec_artists_of(js.drop_first())) {
            (Some(a), Some(rest)) => Some(seq![a] + rest),
            _ => None,
        }
    }
}

/// One recording from its JSON value.
pub open spec fn spec_recording_of(j: JsonRep) -> Option<RecordingRep> {
    match j {
        JsonRep::Obj(ms) => match (
            spec_req_string_field(ms, encode_utf8("id"@)),
            spec_opt_string_field(ms, encode_utf8("title"@)),
            spec_duration_field(ms, encode_utf8("duration"@)),
        ) {
            (Some(id), Some(title), Some(duration)) => match spec_obj_get(
                ms,
                encode_utf8("artists"@),
            ) {
                None => Some(RecordingRep { duration, title, id, artists: None }),
                Some(aj) => match aj {
                    JsonRep::Null => Some(RecordingRep { duration, title, id, artists: None }),
                    JsonRep::Arr(items) => match spec_artists_of(items) {
                        Some(artists) => Some(
                            RecordingRep { duration, title, id, artists: Some(artists) },
                        ),
                        None => None,
                    },
                    _ => None,
                },
            },
            _ => None,
        },
        _ => None,
    }
}

/// All recordings of a list, or malformed if any element is.
pub open spec fn spec_recordings_of(js: Seq<JsonRep>) -> Option<Seq<RecordingRep>>
    decreases js.len(),
{
    if js.len() == 0 {
        Some(Seq::empty())
    } else {
        match (spec_recording_of(js[0]), spec_recordings_of(js.drop_first())) {
            (Some(r), Some(rest)) => Some(seq![r] + rest),
            _ => None,
        }
    }
}

/// One ranked result from its JSON value: a required string `id`, a required
/// numeric `score`, and an optional recording list.
pub open spec fn spec_result_of(j: JsonRep) -> Option<ResultRep> {
    match j {
        JsonRep::Obj(ms) => match (
            spec_req_string_field(ms, encode_utf8("id"@)),
            spec_obj_get(ms, encode_utf8("score"@)),
        ) {
            (Some(id), Some(sj)) => match sj {
                JsonRep::Num(micro) => {
                    let score = spec_score_clamp(micro);
                    match spec_obj_get(ms, encode_utf8("recordings"@)) {
                        None => Some(ResultRep { recordings: None, score, id }),
                        Some(rj) => match rj {
                            JsonRep::Null => Some(ResultRep { recordings: None, score, id }),
                            JsonRep::Arr(items) => match spec_recordings_of(items) {
                                Some(recs) => Some(
                                    ResultRep { recordings: Some(recs), score, id },
                                ),
                                None => None,
                            },
                            _ => None,
                        },
                    }
                },
                _ => None,
            },
            _ => None,
        },
        _ => None,
    }
}

/// All results of a list, or malformed if any element is.
pub open spec fn spec_results_of(js: Seq<JsonRep>) -> Option<Seq<ResultRep>>
    decreases js.len(),
{
    if js.len() == 0 {
        Some(Seq::empty())
    } else {
        match (spec_result_of(js[0]), spec_results_of(js.drop_first())) {
            (Some(r), Some(rest)) => Some(seq![r] + rest),
            _ => None,
        }
    }
}

/// The whole response from its JSON value: a required string `status` and an
/// optional result list.
pub open spec fn spec_response_of(j: JsonRep) -> Option<ResponseRep> {
    match j {
        JsonRep::Obj(ms) => match spec_req_string_field(ms, encode_utf8("status"@)) {
            Some(status) => match spec_obj_get(ms, encode_utf8("results"@)) {
                None => Some(ResponseRep { status, results: None }),
                Some(rj) => match rj {
                    JsonRep::Null => Some(ResponseRep { status, results: None }),
                    JsonRep::Arr(items) => match spec_results_of(items) {
                        Some(results) => Some(ResponseRep { status, results: Some(results) }),
                        None => None,
                    },
                    _ => None,
                },
            },
            None => None,
        },
        _ => None,
    }
}

/// Relies on `String::from_utf8`: accepts exactly the valid UTF-8 byte
/// sequences and decodes them to the characters they encode.
#[verifier::external_body]
fn string_from_utf8(bytes: &Vec<u8>) -> (r: Option<String>)
    ensures
        r is Some <==> valid_utf8(bytes@),
        r matches Some(s) ==> s@ == decode_utf8(bytes@),
{
    String::from_utf8(bytes.clone()).ok()
}

/// Byte-for-byte equality of a vector and a slice.
#[verifier::loop_isolation(false)]
fn bytes_eq(a: &Vec<u8>, b: &[u8]) -> (r: bool)
    ensures
        r == (a@ == b@),
{
    if a.len() != b.len() {
        proof {
            assert(a@.len() != b@.len());
        }
        return false;
    }
    let n = a.len();
    let mut k: usize = 0;
    while k < n
        invariant
            0 <= k <= n,
            n == a@.len() == b@.len(),
            forall|t: int| 0 <= t < k ==> a@[t] == b@[t],
        decreases n - k,
    {
        if a[k] != b[k] {
            return false;
        }
        k += 1;
    }
    proof {
        assert(a@ =~= b@);
    }
    true
}

/// The value of the first member under `key`, if any.
#[verifier::loop_isolation(false)]
fn obj_get<'a>(members: &'a Vec<(Vec<u8>, JsonValue)>, key: &[u8]) -> (r: Option<&'a JsonValue>)
    ensures
        r is Some <==> spec_obj_get(member_reps_of(members@), key@) is Some,
        r matches Some(v) ==> spec_obj_get(member_reps_of(members@), key@) == Some(v@),
{
    proof {
        lemma_member_reps_of_index(members@);
        assert(member_reps_of(members@).skip(0) =~= member_reps_of(members@));
    }
    let n = members.len();
    let mut k: usize = 0;
    while k < n
        invariant
            0 <= k <= n,
            n == members@.len(),
            spec_obj_get(member_reps_of(members@), key@) == spec_obj_get(
                member_reps_of(members@).skip(k as int),
                key@,
            ),
        decreases n - k,
    {
        proof {
            assert(member_reps_of(members@).skip(k as int)[0] == member_reps_of(members@)[
                k as int]);
        }
        if bytes_eq(&members[k].0, key) {
            return Some(&members[k].1);
        }
        proof {
            assert(member_reps_of(members@).skip(k as int).drop_first() =~= member_reps_of(
                members@,
            ).skip(k as int + 1));
        }
        k += 1;
    }
    proof {
        assert(member_reps_of(members@).skip(n as int) =~= Seq::<(Seq<u8>, JsonRep)>::empty());
    }
    None
}

/// A required string field of an object.
fn req_string_field(members: &Vec<(Vec<u8>, JsonValue)>, key: &[u8]) -> (r: Option<String>)
    ensures
        r is Some <==> spec_req_string_field(member_reps_of(members@), key@) is Some,
        r matches Some(v) ==> spec_req_string_field(member_reps_of(members@), key@) == Some(v@),
{
    match obj_get(members, key) {
        Some(j) => match j {
            JsonValue::Str(b) => string_from_utf8(b),
            _ => None,
        },
        None => None,
    }
}

/// An optional string field of an object; the outer `None` marks a malformed
/// field.
fn opt_string_field(members: &Vec<(Vec<u8>, JsonValue)>, key: &[u8]) -> (r: Option<
    Option<String>,
>)
    ensures
        r is Some <==> spec_opt_string_field(member_reps_of(members@), key@) is Some,
        r matches Some(v) ==> ({
            &&& spec_opt_string_field(member_reps_of(members@), key@) matches Some(sv)
            &&& (v is Some <==> sv is Some)
            &&& (v matches Some(t) ==> sv == Some(t@))
        }),
{
    match obj_get(members, key) {
        None => Some(None),
        Some(j) => match j {
            JsonValue::Null => Some(None),
            JsonValue::Str(b) => match string_from_utf8(b) {
                Some(t) => Some(Some(t)),
                None => None,
            },
            _ => None,
        },
    }
}

/// An optional duration field of an object, in whole seconds.
fn duration_field(members: &Vec<(Vec<u8>, JsonValue)>, key: &[u8]) -> (r: Option<Option<i32>>)
    ensures
        r is Some <==> spec_duration_field(member_reps_of(members@), key@) is Some,
        r matches Some(v) ==> ({
            &&& spec_duration_field(member_reps_of(members@), key@) matches Some(sv)
            &&& (v is Some <==> sv is Some)
            &&& (v matches Some(d) ==> sv == Some(d as int))
        }),
{
    match obj_get(members, key) {
        None => Some(None),
        Some(j) => match j {
            JsonValue::Null => Some(None),
            JsonValue::Num(micro) => {
                let m = *micro;
                if m < 0 {
                    None
                } else {
                    let secs = m / 1000000;
                    if secs > i32::MAX as i64 {
                        None
                    } else {
                        Some(Some(secs as i32))
                    }
                }
            },
            _ => None,
        },
    }
}

/// One artist from its JSON value.
fn artist_from(v: &JsonValue) -> (r: Option<AcoustIdArtist>)
    ensures
        r is Some <==> spec_artist_of(v@) is Some,
        r matches Some(a) ==> spec_artist_of(v@) == Some(a@),
{
    match v {
        JsonValue::Obj(ms) => {
            let id = req_string_field(ms, "id".as_bytes());
            let name = req_string_field(ms, "name".as_bytes());
            match (id, name) {
                (Some(id), Some(name)) => Some(AcoustIdArtist { id, name }),
                _ => None,
            }
        },
        _ => None,
    }
}

/// The artists of a list, from index `idx` on.
fn artists_from(items: &Vec<JsonValue>, idx: usize) -> (r: Option<Vec<AcoustIdArtist>>)
    requires
        idx <= items@.len(),
    ensures
        r is Some <==> spec_artists_of(crate::json::reps_of(items@).skip(idx as int)) is Some,
        r matches Some(v) ==> spec_artists_of(crate::json::reps_of(items@).skip(idx as int))
            == Some(artist_reps(v@)),
    decreases items@.len() - idx,
{
    proof {
        crate::json::lemma_reps_of_index(items@);
    }
    let ghost js = crate::json::reps_of(items@);
    if idx == items.len() {
        let out: Vec<AcoustIdArtist> = Vec::new();
        proof {
            assert(js.skip(idx as int) =~= Seq::<JsonRep>::empty());
            assert(artist_reps(out@) =~= Seq::<ArtistRep>::empty());
        }
        Some(out)
    } else {
        proof {
            assert(js.skip(idx as int)[0] == js[idx as int]);
            assert(js.skip(idx as int).drop_first() =~= js.skip(idx as int + 1));
        }
        match artist_from(&items[idx]) {
            Some(a) => {
                match artists_from(items, idx + 1) {
                    Some(rest) => {
                        let ghost rest_seq = rest@;
                        let mut out: Vec<AcoustIdArtist> = Vec::new();
                        out.push(a);
                        let mut rest = rest;
                        out.append(&mut rest);
                        proof {
                            assert(out@ =~= seq![a] + rest_seq);
                            assert(artist_reps(out@) =~= seq![a@] + artist_reps(rest_seq));
                        }
                        Some(out)
                    },
                    None => None,
                }
            },
            None => None,
        }
    }
}

/// One recording from its JSON value.
fn recording_from(v: &JsonValue) -> (r: Option<AcoustIdRecording>)
    ensures
        r is Some <==> spec_recording_of(v@) is Some,
        r matches Some(rec) ==> spec_recording_of(v@) == Some(rec@),
{
    match v {
        JsonValue::Obj(ms) => {
            let id = match req_string_field(ms, "id".as_bytes()) {
                Some(id) => id,
                None => {
                    return None;
                },
            };
            let title = match opt_string_field(ms, "title".as_bytes()) {
                Some(t) => t,
                None => {
                    return None;
                },
            };
            let duration = match duration_field(ms, "duration".as_bytes()) {
                Some(d) => d,
                None => {
                    return None;
                },
            };
            match obj_get(ms, "artists".as_bytes()) {
                None => Some(AcoustIdRecording { duration, title, id, artists: None }),
                Some(aj) => match aj {
                    JsonValue::Null => Some(
                        AcoustIdRecording { duration, title, id, artists: None },
                    ),
                    JsonValue::Arr(items) => {
                        proof {
                            assert(crate::json::reps_of(items@).skip(0) =~= crate::json::reps_of(
                                items@,
                            ));
                        }
                        match artists_from(items, 0) {
                            Some(artists) => Some(
                                AcoustIdRecording { duration, title, id, artists: Some(artists) },
                            ),
                            None => None,
                        }
                    },
                    _ => None,
                },
            }
        },
        _ => None,
    }
}

/// The recordings of a list, from index `idx` on.
fn recordings_from(items: &Vec<JsonValue>, idx: usize) -> (r: Option<Vec<AcoustIdRecording>>)
    requires
        idx <= items@.len(),
    ensures
        r is Some <==> spec_recordings_of(crate::json::reps_of(items@).skip(idx as int)) is Some,
        r matches Some(v) ==> spec_recordings_of(crate::json::reps_of(items@).skip(idx as int))
            == Some(recording_reps(v@)),
    decreases items@.len() - idx,
{
    proof {
        crate::json::lemma_reps_of_index(items@);
    }
    let ghost js = crate::json::reps_of(items@);
    if idx == items.len() {
        let out: Vec<AcoustIdRecording> = Vec::new();
        proof {
            assert(js.skip(idx as int) =~= Seq::<JsonRep>::empty());
            assert(recording_reps(out@) =~= Seq::<RecordingRep>::empty());
        }
        Some(out)
    } else {
        proof {
            assert(js.skip(idx as int)[0] == js[idx as int]);
            assert(js.skip(idx as int).drop_first() =~= js.skip(idx as int + 1));
        }
        match recording_from(&items[idx]) {
            Some(rec) => {
                match recordings_from(items, idx + 1) {
                    Some(rest) => {
                        let ghost rest_seq = rest@;
                        let mut out: Vec<AcoustIdRecording> = Vec::new();
                        out.push(rec);
                        let mut rest = rest;
                        out.append(&mut rest);
                        proof {
                            assert(out@ =~= seq![rec] + rest_seq);
                            assert(recording_reps(out@) =~= seq![rec@] + recording_reps(rest_seq));
                        }
                        Some(out)
                    },
                    None => None,
                }
            },
            None => None,
        }
    }
}

/// One ranked result from its JSON value.
fn result_from(v: &JsonValue) -> (r: Option<AcoustIdResult>)
    ensures
        r is Some <==> spec_result_of(v@) is Some,
        r matches Some(res) ==> spec_result_of(v@) == Some(res@),
{
    match v {
        JsonValue::Obj(ms) => {
            let id = match req_string_field(ms, "id".as_bytes()) {
                Some(id) => id,
                None => {
                    return None;
                },
            };
            let score: u32 = match obj_get(ms, "score".as_bytes()) {
                Some(sj) => match sj {
                    JsonValue::Num(micro) => {
                        let m = *micro;
                        if m < 0 {
                            0
                        } else if m > 0xFFFFFFFFi64 {
                            0xFFFFFFFFu32
                        } else {
                            m as u32
                        }
                    },
                    _ => {
                        return None;
                    },
                },
                None => {
                    return None;
                },
            };
            match obj_get(ms, "recordings".as_bytes()) {
                None => Some(AcoustIdResult { recordings: None, score, id }),
                Some(rj) => match rj {
                    JsonValue::Null => Some(AcoustIdResult { recordings: None, score, id }),
                    JsonValue::Arr(items) => {
                        proof {
                            assert(crate::json::reps_of(items@).skip(0) =~= crate::json::reps_of(
                                items@,
                            ));
                        }
                        match recordings_from(items, 0) {
                            Some(recs) => Some(
                                AcoustIdResult { recordings: Some(recs), score, id },
                            ),
                            None => None,
                        }
                    },
                    _ => None,
                },
            }
        },
        _ => None,
    }
}

/// The results of a list, from index `idx` on.
fn results_from(items: &Vec<JsonValue>, idx: usize) -> (r: Option<Vec<AcoustIdResult>>)
    requires
        idx <= items@.len(),
    ensures
        r is Some <==> spec_results_of(crate::json::reps_of(items@).skip(idx as int)) is Some,
        r matches Some(v) ==> spec_results_of(crate::json::reps_of(items@).skip(idx as int))
            == Some(result_reps(v@)),
    decreases items@.len() - idx,
{
    proof {
        crate::json::lemma_reps_of_index(items@);
    }
    let ghost js = crate::json::reps_of(items@);
    if idx == items.len() {
        let out: Vec<AcoustIdResult> = Vec::new();
        proof {
            assert(js.skip(idx as int) =~= Seq::<JsonRep>::empty());
            assert(result_reps(out@) =~= Seq::<ResultRep>::empty());
        }
        Some(out)
    } else {
        proof {
            assert(js.skip(idx as int)[0] == js[idx as int]);
            assert(js.skip(idx as int).drop_first() =~= js.skip(idx as int + 1));
        }
        match result_from(&items[idx]) {
            Some(res) => {
                match results_from(items, idx + 1) {
                    Some(rest) => {
                        let ghost rest_seq = rest@;
                        let mut out: Vec<AcoustIdResult> = Vec::new();
                        out.push(res);
                        let mut rest = rest;
                        out.append(&mut rest);
                        proof {
                            assert(out@ =~= seq![res] + rest_seq);
                            assert(result_reps(out@) =~= seq![res@] + result_reps(rest_seq));
                        }
                        Some(out)
                    },
                    None => None,
                }
            },
            None => None,
        }
    }
}

/// The whole response from its parsed JSON value.
fn response_from(v: &JsonValue) -> (r: Option<AcoustIdResponse>)
    ensures
        r is Some <==> spec_response_of(v@) is Some,
        r matches Some(resp) ==> spec_response_of(v@) == Some(resp@),
{
    match v {
        JsonValue::Obj(ms) => {
            let status = match req_string_field(ms, "status".as_bytes()) {
                Some(st) => st,
                None => {
                    return None;
                },
            };
            match obj_get(ms, "results".as_bytes()) {
                None => Some(AcoustIdResponse { status, results: None }),
                Some(rj) => match rj {
                    JsonValue::Null => Some(AcoustIdResponse { status, results: None }),
                    JsonValue::Arr(items) => {
                        proof {
                            assert(crate::json::reps_of(items@).skip(0) =~= crate::json::reps_of(
                                items@,
                            ));
                        }
                        match results_from(items, 0) {
                            Some(results) => Some(
                                AcoustIdResponse { status, results: Some(results) },
                            ),
                            None => None,
                        }
                    },
                    _ => None,
                },
            }
        },
        _ => None,
    }
}

/// The selection rule over response shapes: the least index of a maximal
/// score.
pub open spec fn is_best_rep_index(results: Seq<ResultRep>, i: int) -> bool {
    &&& 0 <= i < results.len()
    &&& forall|j: int| 0 <= j < results.len() ==> (#[trigger] results[j].score) <= results[i].score
    &&& forall|j: int| 0 <= j < i ==> (#[trigger] results[j].score) < results[i].score
}

/// True exactly for the least index of a maximal score: the engine's
/// selection rule, a stable tie-break preferring earlier results.
pub open spec fn is_best_index(results: Seq<AcoustIdResult>, i: int) -> bool {
    &&& 0 <= i < results.len()
    &&& forall|j: int| 0 <= j < results.len() ==> (#[trigger] results[j].score) <= results[i].score
    &&& forall|j: int| 0 <= j < i ==> (#[trigger] results[j].score) < results[i].score
}

/// The identification client. The driver owns the transport; this holds the
/// credential and the request/response logic.
pub struct AcoustId {
    pub api_key: String,
}

impl AcoustId {
    /// A client for the given API credential.
    pub fn new(api_key: String) -> (r: Self)
        ensures
            r.api_key == api_key,
    {
        AcoustId { api_key }
    }

    /// The URL for one lookup call, keyed by the client's credential, with
    /// the duration in whole seconds and the fingerprint payload.
    pub fn lookup_url(&self, duration_secs: u64, fingerprint: &str) -> (r: String)
        ensures
            r@ == spec_lookup_url(self.api_key@, duration_secs as nat, fingerprint@),
    {
        let mut url = String::new();
        url.append("https://api.acoustid.org/v2/lookup?format=json&client=");
        url.append(self.api_key.as_str());
        url.append("&duration=");
        let duration_text = u64_to_string(duration_secs);
        url.append(duration_text.as_str());
        url.append("&fingerprint=");
        url.append(fingerprint);
        url.append("&meta=recordings");
        proof {
            assert(url@ =~= spec_lookup_url(
                self.api_key@,
                duration_secs as nat,
                fingerprint@,
            ));
        }
        url
    }

    /// Parses the service's raw response and selects the best-matching
    /// result: the parsed document must be a response object; a missing or
    /// empty result list is "no match"; otherwise the highest-scoring result
    /// wins, ties broken in favour of the earliest.
    pub fn handle_response(data: &[u8]) -> (r: Result<AcoustIdResult, ProcessorError>)
        ensures
            spec_parse_document(data@) is None ==> (r matches Err(e) && e is JsonError),
            spec_parse_document(data@) matches Some(doc) ==> ({
                &&& (spec_response_of(doc) is None ==> (r matches Err(e) && e is JsonError))
                &&& (spec_response_of(doc) matches Some(resp) ==> ({
                    &&& (resp.results is None ==> r == Result::<AcoustIdResult,
                        ProcessorError,
                    >::Err(ProcessorError::NoFingerprintMatch))
                    &&& (resp.results matches Some(rs) ==> ({
                        &&& (rs.len() == 0 ==> r == Result::<AcoustIdResult,
                            ProcessorError,
                        >::Err(ProcessorError::NoFingerprintMatch))
                        &&& (rs.len() > 0 ==> (r matches Ok(res) && exists|i: int|
                            is_best_rep_index(rs, i) && res@ == rs[i]))
                    }))
                }))
            }),
    {
        let parsed = parse_document(data);
        match parsed {
            None => Err(
                ProcessorError::JsonError("malformed identification response".to_owned()),
            ),
            Some(doc) => {
                match response_from(&doc) {
                    None => Err(
                        ProcessorError::JsonError(
                            "unexpected identification response shape".to_owned(),
                        ),
                    ),
                    Some(resp) => {
                        match resp.results {
                            None => Err(ProcessorError::NoFingerprintMatch),
                            Some(rs_vec) => {
                                let ghost rs_seq = rs_vec@;
                                let best = Self::select_best_result(rs_vec);
                                match best {
                                    Ok(res) => {
                                        proof {
                                            let i = choose|i: int|
                                                is_best_index(rs_seq, i) && res == rs_seq[i];
                                            assert forall|j: int|
                                                0 <= j < result_reps(rs_seq).len() implies (
                                            #[trigger] result_reps(rs_seq)[j].score)
                                                <= result_reps(rs_seq)[i].score by {
                                                assert(rs_seq[j].score <= rs_seq[i].score);
                                            }
                                            assert forall|j: int|
                                                0 <= j < i implies (#[trigger] result_reps(
                                                rs_seq,
                                            )[j].score) < result_reps(rs_seq)[i].score by {
                                                assert(rs_seq[j].score < rs_seq[i].score);
                                            }
                                            assert(is_best_rep_index(result_reps(rs_seq), i));
                                            assert(res@ == result_reps(rs_seq)[i]);
                                        }
                                        Ok(res)
                                    },
                                    Err(e) => Err(e),
                                }
                            },
                        }
                    },
                }
            },
        }
    }

    /// Selects the best of the service's ranked results: the highest score
    /// wins, ties broken in favour of the earliest result; an empty list is
    /// "no match".
    pub fn select_best_result(results: Vec<AcoustIdResult>) -> (r: Result<
        AcoustIdResult,
        ProcessorError,
    >)
        ensures
            results@.len() == 0 ==> (r matches Err(e) && e == ProcessorError::NoFingerprintMatch),
            results@.len() > 0 ==> (r matches Ok(res) && exists|i: int|
                is_best_index(results@, i) && res == results@[i]),
    {
        let n = results.len();
        if n == 0 {
            return Err(ProcessorError::NoFingerprintMatch);
        }
        let mut best: usize = 0;
        let mut k: usize = 1;
        while k < n
            invariant
                n == results@.len(),
                0 <= best < k <= n,
                forall|j: int|
                    0 <= j < k ==> (#[trigger] results@[j].score) <= results@[best as int].score,
                forall|j: int|
                    0 <= j < best ==> (#[trigger] results@[j].score) < results@[best as int].score,
            decreases n - k,
        {
            if results[k].score > results[best].score {
                best = k;
            }
            k += 1;
        }
        proof {
            assert(is_best_index(results@, best as int));
        }
        let mut results = results;
        let res = results.remove(best);
        Ok(res)
    }

    /// The matched recording's identifier from a selected result: the first
    /// associated recording's id, or `None` when the result carries no
    /// recordings — "no match" rather than an error.
    pub fn first_recording_id(result: &AcoustIdResult) -> (r: Option<String>)
        ensures
            (result.recordings matches Some(recs) && recs@.len() > 0) ==> r == Some(
                result.recordings->Some_0@[0].id,
            ),
            result.recordings is None ==> r is None,
            (result.recordings matches Some(recs) && recs@.len() == 0) ==> r is None,
    {
        match &result.recordings {
            Some(recs) => {
                if recs.len() > 0 {
                    Some(recs[0].id.clone())
                } else {
                    None
                }
            },
            None => None,
        }
    }

    /// Maps the soft identification failures — no audio stream, no
    /// fingerprint match, a decode error — to a plain "no identifier", as the
    /// reconciliation treats them; every other failure is passed through.
    pub fn absorb_soft_errors(r: Result<Option<String>, ProcessorError>) -> (out: Result<
        Option<String>,
        ProcessorError,
    >)
        ensures
            r matches Ok(v) ==> out == Result::<Option<String>, ProcessorError>::Ok(v),
            r == Result::<Option<String>, ProcessorError>::Err(ProcessorError::NoAudioStream)
                ==> out == Result::<Option<String>, ProcessorError>::Ok(None),
            r == Result::<Option<String>, ProcessorError>::Err(
                ProcessorError::NoFingerprintMatch,
            ) ==> out == Result::<Option<String>, ProcessorError>::Ok(None),
            (r matches Err(e) && e matches ProcessorError::FFmpeg(_)) ==> out == Result::<
                Option<String>,
                ProcessorError,
            >::Ok(None),
            r matches Err(e) ==> ((!(e is NoAudioStream) && !(e is NoFingerprintMatch) && !(
            e is FFmpeg)) ==> out == Result::<Option<String>, ProcessorError>::Err(e)),
    {
        match r {
            Ok(v) => Ok(v),
            Err(ProcessorError::NoAudioStream) => Ok(None),
            Err(ProcessorError::NoFingerprintMatch) => Ok(None),
            Err(ProcessorError::FFmpeg(_)) => Ok(None),
            Err(e) => Err(e),
        }
    }
}

} // verus!
