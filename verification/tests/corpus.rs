use std::collections::VecDeque;

use wotoha::automix::kinds::TransitionKind;
use wotoha::automix::plan::gapless_plan;
use wotoha::automix::track::TrackAnalysis;
use wotoha::contracts::{
    PreparedHeader, PreparedHttp, PreparedRangeMode, PreparedSource, TrackMetadata,
    TrackRequest,
};
use wotoha::corpus::acquisition::{
    full_body_length, full_body_media_type, http_error_code, parse_content_range,
    redirect_error, retryable_acquisition_code, sha256_hex, AcquisitionOutcome, BodyError,
    BoundedBody, HashSession, HashStep, HeaderText, ResponseHead, HASH_REQUEST_RETRIES,
    MAX_ACQUISITION_CYCLES, MAX_SOURCE_BYTES,
};
use wotoha::corpus::cycle::{
    corpus_passed, AttemptReport, PreparationStep, StageError, TrackCycle, TrackPreparation,
    TrackReport, FIXTURE_TOTAL_TIMEOUT_SECS,
};
use wotoha::corpus::gate::{
    analysis_backend_reason, apply_pcm_thresholds, judge_pair, strict_analysis_passes,
    unavailable_track, AnalysisBackend, KickPhaseReport, PairEvidence, PcmReport,
    RenderOutcome, RmsReport, Thresholds,
};
use wotoha::corpus::identity::{
    normalized_identity_tokens, safe_component, validate_fixture_identity, youtube_video_id,
    TrackFixture,
};
use wotoha::corpus::manifest::{
    validate_manifest, CorpusManifest, ManifestError, Options, PairFixture,
};
use wotoha::corpus::measure::{
    error_percentile, keep_strongest, kick_phase_report, kick_shortfall, match_beats,
    maximum_peaks, onsets_are_usable, pick_peaks, quietest_window, rms_report, GridPeak,
    KickFinding, KickOutcome, KickPeak, UNMEASURED,
};
use wotoha::corpus::wav::{
    count_and_longest_run, decode_pcm16_wav, expected_overlap_beats, frames_for_ms,
    silence_report, window_starts, SilenceReport, WavError,
};
use wotoha::corpus::workspace::{may_be_run_directory, removal_verdict, run_directory_name, Found};
use wotoha::time::Duration;

fn bits(value: f32) -> u32 {
    value.to_bits()
}

fn test_thresholds() -> Thresholds {
    Thresholds {
        min_kick_coverage: bits(0.65),
        min_matched_kicks: 8,
        kick_phase_p95_ms: bits(25.0),
        kick_phase_max_ms: bits(35.0),
        kick_handoff_ms: bits(25.0),
        minimum_rms_gap_ratio: bits(0.35),
        silence_window_ms: 250,
        silence_threshold_dbfs: bits(-45.0),
        maximum_sample_peak_dbfs: bits(-1.0),
        maximum_true_peak_dbtp: bits(-1.0),
    }
}

#[test]
fn acquisition_refresh_codes_are_bounded_and_explicit() {
    for code in [
        "http_403",
        "http_410",
        "source_request_failed",
        "range_content_range_mismatch",
        "range_short_nonfinal",
        "hash_timeout",
    ] {
        assert!(retryable_acquisition_code(code), "{code} should refresh");
    }
    for code in [
        "http_404",
        "source_length_exceeded",
        "source_url_not_https",
        "range_full_body_media_type_invalid",
    ] {
        assert!(
            !retryable_acquisition_code(code),
            "{code} must not retry the same acquisition class"
        );
    }
    assert_eq!(MAX_ACQUISITION_CYCLES, 3);
    assert_eq!(
        Duration::from_secs(FIXTURE_TOTAL_TIMEOUT_SECS),
        Duration::from_secs(900)
    );
    assert_eq!(http_error_code(410), "http_410");
}

#[test]
fn provider_expiry_is_not_retried_on_the_same_signed_url() {
    for (status, code) in [(401, "http_401"), (403, "http_403"), (410, "http_410")] {
        let result = run_mock_hash(vec![mock_response(status, None, b"")], Some(10), Some(4));
        assert!(!result.outcome.ok, "unexpected success: {result:?}");
        assert_eq!(result.request_count, 1, "{result:?}");
        assert_eq!(result.error_code(), Some(code));
    }
}

fn identity_fixture() -> TrackFixture {
    TrackFixture {
        id: "identity".to_owned(),
        title: "NOTD & Maia Wright - Lover Online (Extended Mix)".to_owned(),
        genre: "house".to_owned(),
        url: "https://youtu.be/tbM2h4rWcmg?list=playlist".to_owned(),
        expected_video_id: "tbM2h4rWcmg".to_owned(),
        expected_title_tokens: vec![
            "NOTD".to_owned(),
            "Maia Wright".to_owned(),
            "Lover Online".to_owned(),
            "Extended Mix".to_owned(),
        ],
    }
}

fn http_source(stream_url: &str, length: Option<u64>, chunk: Option<u64>) -> PreparedSource {
    PreparedSource::Http(PreparedHttp {
        stream_url: stream_url.to_owned(),
        headers: Vec::new(),
        content_length: length,
        range_chunk_size: chunk,
        range_mode: PreparedRangeMode::Header,
    })
}

fn identity_request(title: &str, canonical_url: &str, canonical_key: &str) -> TrackRequest {
    TrackRequest {
        provider_id: "youtube".to_owned(),
        canonical_key: canonical_key.to_owned(),
        canonical_url: canonical_url.to_owned(),
        prepared: http_source(canonical_url, None, None),
        metadata: TrackMetadata {
            title: title.to_owned(),
            author: "placeholder".to_owned(),
            uri: canonical_url.to_owned(),
            thumbnail_url: None,
            duration: None,
        },
    }
}

#[test]
fn identity_accepts_case_punctuation_and_unicode_separator_variants() {
    let fixture = identity_fixture();
    let request = identity_request(
        "ＮＯＴＤ ＆ Maia Wright – lover online （Extended Mix）",
        "https://www.youtube.com/watch?v=tbM2h4rWcmg&list=other-playlist",
        "youtube:video:tbM2h4rWcmg",
    );
    validate_fixture_identity(&fixture, &request).unwrap();
}

#[test]
fn identity_rejects_wrong_title_and_video_id() {
    let fixture = identity_fixture();
    let wrong_title = identity_request(
        "NOTD & Maia Wright - Other Song (Extended Mix)",
        "https://www.youtube.com/watch?v=tbM2h4rWcmg",
        "youtube:video:tbM2h4rWcmg",
    );
    assert_eq!(
        validate_fixture_identity(&fixture, &wrong_title),
        Err("identity_title_token_mismatch")
    );
    let wrong_video = identity_request(
        "NOTD & Maia Wright - Lover Online (Extended Mix)",
        "https://www.youtube.com/watch?v=wrong-video",
        "youtube:video:wrong-video",
    );
    assert_eq!(
        validate_fixture_identity(&fixture, &wrong_video),
        Err("identity_video_id_mismatch")
    );
}

#[test]
fn a_title_without_extended_mix_has_a_code_of_its_own() {
    let request = identity_request(
        "NOTD & Maia Wright - Lover Online",
        "https://www.youtube.com/watch?v=tbM2h4rWcmg",
        "youtube:video:tbM2h4rWcmg",
    );
    assert_eq!(
        validate_fixture_identity(&identity_fixture(), &request),
        Err("identity_title_missing_extended_mix")
    );
}

#[test]
fn tokens_are_runs_of_letters_and_digits_in_lower_case() {
    assert_eq!(
        normalized_identity_tokens("  NOTD & Maïa – Ⅷ 2nd_Mix ＮＯＴＤ "),
        vec!["notd", "maïa", "ⅷ", "2nd", "mix", "notd"]
    );
    assert_eq!(normalized_identity_tokens("İ"), vec!["i\u{307}"]);
    assert!(normalized_identity_tokens(" -&- ").is_empty());
}

#[test]
fn video_ids_are_read_from_the_known_hosts() {
    for (url, id) in [
        ("https://youtu.be/abc?list=x", Some("abc")),
        ("HTTPS://WWW.YouTube.COM/watch?list=x&v=abc", Some("abc")),
        ("https://www.youtube.com/watch?list=x", None),
        ("https://example.com/watch?v=abc", None),
        ("youtube", None),
    ] {
        assert_eq!(youtube_video_id(url).as_deref(), id, "{url}");
    }
}

#[test]
fn file_names_keep_only_safe_characters() {
    assert_eq!(safe_component("a/B:ü 9-_"), "a_B___9-_");
}

#[test]
fn classical_backend_cannot_pass_strict_neural_gate() {
    assert!(!AnalysisBackend::ClassicalTransientFailure.is_fresh_neural());
    assert!(!AnalysisBackend::ClassicalPermanentIneligible.is_fresh_neural());
    assert!(!AnalysisBackend::CachedNeural.is_fresh_neural());
    assert!(!AnalysisBackend::CachedClassicalTransientFailure.is_fresh_neural());
    assert!(AnalysisBackend::Neural.is_fresh_neural());
    assert!(!strict_analysis_passes(
        true,
        Some(AnalysisBackend::ClassicalTransientFailure)
    ));
    assert!(strict_analysis_passes(true, Some(AnalysisBackend::Neural)));
}

#[test]
fn backends_and_reasons_have_their_names() {
    let fixture = identity_fixture();
    let report = TrackReport::failed(&fixture, Vec::new(), "analysis_backend_not_neural");
    assert_eq!(
        report.failure_code.as_deref(),
        Some("analysis_backend_not_neural")
    );
    assert!(!report.ready);
    assert_eq!(
        AnalysisBackend::ClassicalTransientFailure.as_str(),
        "ClassicalTransientFailure"
    );
    assert_eq!(
        analysis_backend_reason(AnalysisBackend::ClassicalTransientFailure),
        "fresh_classical_transient_fallback"
    );
    assert_eq!(
        AnalysisBackend::CachedClassicalTransientFailure.as_str(),
        "CachedClassicalTransientFailure"
    );
    assert_eq!(
        analysis_backend_reason(AnalysisBackend::CachedClassicalTransientFailure),
        "classical_transient_fallback_cache_hit"
    );
}

fn manifest() -> CorpusManifest {
    let tracks = (0..4)
        .map(|index| TrackFixture {
            id: format!("track-{index}"),
            title: format!("Track {index} Extended Mix"),
            genre: "house".to_owned(),
            url: format!("https://www.youtube.com/watch?v=test{index}"),
            expected_video_id: format!("test{index}"),
            expected_title_tokens: vec![format!("Track {index}"), "Extended Mix".to_owned()],
        })
        .collect::<Vec<_>>();
    let mut pairs = tracks
        .iter()
        .map(|track| PairFixture {
            outgoing: track.id.clone(),
            incoming: track.id.clone(),
            expected_transition_kind: "BeatMatched".to_owned(),
        })
        .collect::<Vec<_>>();
    pairs.push(PairFixture {
        outgoing: "track-0".to_owned(),
        incoming: "track-1".to_owned(),
        expected_transition_kind: "BeatMatched".to_owned(),
    });
    pairs.push(PairFixture {
        outgoing: "track-1".to_owned(),
        incoming: "track-2".to_owned(),
        expected_transition_kind: "BeatMatched".to_owned(),
    });
    CorpusManifest {
        schema_version: 1,
        tracks,
        pairs,
        thresholds: test_thresholds(),
    }
}

#[test]
fn manifest_requires_all_self_pairs_and_two_cross_pairs() {
    let manifest = manifest();
    validate_manifest(&manifest).unwrap();
}

#[test]
fn manifests_are_refused_for_what_they_lack() {
    let mut wrong = manifest();
    wrong.schema_version = 2;
    assert_eq!(
        validate_manifest(&wrong),
        Err(ManifestError::UnsupportedSchema)
    );

    let mut wrong = manifest();
    wrong.tracks.truncate(3);
    assert_eq!(validate_manifest(&wrong), Err(ManifestError::TooFewTracks));

    let mut wrong = manifest();
    wrong.tracks[1].genre = String::new();
    assert_eq!(
        validate_manifest(&wrong),
        Err(ManifestError::IncompleteTrack)
    );

    let mut wrong = manifest();
    wrong.tracks[1].expected_title_tokens[0] = "&".to_owned();
    assert_eq!(
        validate_manifest(&wrong),
        Err(ManifestError::UnsearchableToken)
    );

    let mut wrong = manifest();
    wrong.tracks[1].url = "not a url".to_owned();
    let error = validate_manifest(&wrong).unwrap_err();
    assert!(matches!(error, ManifestError::InvalidUrl(_)));
    assert_eq!(error.message(), "relative URL without a base");
    wrong.tracks[1].url = "https://www.youtube.com:port/watch?v=test1".to_owned();
    assert_eq!(
        validate_manifest(&wrong).unwrap_err().message(),
        "invalid port number"
    );

    let mut wrong = manifest();
    wrong.tracks[1].url = "http://www.youtube.com/watch?v=test1".to_owned();
    assert_eq!(validate_manifest(&wrong), Err(ManifestError::InsecureUrl));

    let mut wrong = manifest();
    wrong.tracks[1].url = "https://www.youtube.com/watch?v=other".to_owned();
    assert_eq!(validate_manifest(&wrong), Err(ManifestError::UrlIdMismatch));

    let mut wrong = manifest();
    wrong.pairs[0].incoming = "track-9".to_owned();
    assert_eq!(
        validate_manifest(&wrong),
        Err(ManifestError::UnknownPairTrack)
    );

    let mut wrong = manifest();
    wrong.pairs[0].expected_transition_kind = "Gapless".to_owned();
    assert_eq!(
        validate_manifest(&wrong),
        Err(ManifestError::UnexpectedKind)
    );

    let mut wrong = manifest();
    wrong.pairs.remove(0);
    assert_eq!(
        validate_manifest(&wrong),
        Err(ManifestError::IncompletePairs)
    );

    let mut wrong = manifest();
    wrong.thresholds.kick_handoff_ms = bits(26.0);
    assert_eq!(
        validate_manifest(&wrong),
        Err(ManifestError::ForeignThresholds)
    );
}

#[test]
fn options_are_read_in_order() {
    let words = |text: &str| text.split(' ').map(str::to_owned).collect::<Vec<_>>();
    let options =
        Options::parse(words("--allow-network --report r.json --manifest m.json --keep-artifacts"))
            .unwrap();
    assert!(options.allow_network && options.keep_artifacts);
    assert_eq!(options.report.as_deref(), Some("r.json"));
    assert_eq!(options.manifest.as_deref(), Some("m.json"));
    assert_eq!(
        Options::parse(words("--report")),
        Err("--report requires a path".to_owned())
    );
    assert_eq!(
        Options::parse(words("--manifest")),
        Err("--manifest requires a path".to_owned())
    );
    assert_eq!(
        Options::parse(words("--nonsense")),
        Err("unknown option: --nonsense".to_owned())
    );
    assert!(Options::parse(words("-h")).unwrap_err().starts_with("usage: "));
}

#[test]
fn run_directories_are_named_and_recognized() {
    let name = run_directory_name(1_700_000_000_123, 4_242, 7);
    assert_eq!(name, "wotoha-automix-corpus-1700000000123-4242-7");
    assert!(may_be_run_directory(true, Some(&name)));
    assert!(!may_be_run_directory(false, Some(&name)));
    assert!(!may_be_run_directory(true, Some("other")));
    assert!(!may_be_run_directory(true, None));
    assert_eq!(removal_verdict(true, Found::Directory, Found::File), Ok(()));
    assert!(removal_verdict(false, Found::Directory, Found::File).is_err());
    assert!(removal_verdict(true, Found::Link, Found::File).is_err());
    assert!(removal_verdict(true, Found::Directory, Found::Other).is_err());
}

#[test]
fn ranged_hash_accepts_verified_multi_range_body() {
    let responses = vec![
        mock_response(206, Some("bytes 0-3/10"), b"abcd"),
        mock_response(206, Some("bytes 4-7/10"), b"efgh"),
        mock_response(206, Some("bytes 8-9/10"), b"ij"),
    ];
    let result = run_mock_hash(responses, Some(10), Some(4));
    assert!(result.outcome.ok, "{result:?}");
    assert_eq!(result.request_count, 3, "{result:?}");
    assert_eq!(
        result.outcome.digest.unwrap().sha256,
        sha256_hex(b"abcdefghij")
    );
}

#[test]
fn ranged_hash_rejects_wrong_start_repeated_range_missing_header_short_nonfinal_and_total() {
    let cases = [
        (
            vec![
                mock_response(206, Some("bytes 1-4/10"), b"bcde"),
                mock_response(206, Some("bytes 1-4/10"), b"bcde"),
            ],
            2,
            "range_content_range_mismatch",
        ),
        (
            vec![
                mock_response(206, Some("bytes 0-3/10"), b"abcd"),
                mock_response(206, Some("bytes 0-3/10"), b"abcd"),
                mock_response(206, Some("bytes 0-3/10"), b"abcd"),
            ],
            3,
            "range_content_range_mismatch",
        ),
        (
            vec![
                mock_response(206, None, b"abcd"),
                mock_response(206, None, b"abcd"),
            ],
            2,
            "range_missing_content_range",
        ),
        (
            vec![
                mock_response(206, Some("bytes 0-2/10"), b"abc"),
                mock_response(206, Some("bytes 0-2/10"), b"abc"),
            ],
            2,
            "range_short_nonfinal",
        ),
        (
            vec![
                mock_response(206, Some("bytes 0-3/11"), b"abcd"),
                mock_response(206, Some("bytes 0-3/11"), b"abcd"),
            ],
            2,
            "range_content_range_mismatch",
        ),
        (
            vec![
                mock_response(206, Some("bytes 0-3/10"), b"abcd"),
                mock_response(200, None, b"abcdefghij"),
                mock_response(200, None, b"abcdefghij"),
            ],
            3,
            "range_full_body_media_type_invalid",
        ),
    ];
    for (responses, expected_requests, expected_error) in cases {
        let result = run_mock_hash(responses, Some(10), Some(4));
        assert!(!result.outcome.ok, "unexpected success: {result:?}");
        assert_eq!(result.request_count, expected_requests, "{result:?}");
        assert_eq!(result.error_code(), Some(expected_error), "{result:?}");
    }
}

#[test]
fn full_200_is_accepted_only_when_body_matches_known_length() {
    let result = run_mock_hash(
        vec![mock_full_response(
            200,
            "audio/webm",
            Some(10),
            b"abcdefghij",
        )],
        Some(10),
        None,
    );
    assert!(result.outcome.ok, "{result:?}");
    assert_eq!(result.request_count, 1, "{result:?}");
}

#[test]
fn ranged_full_200_is_accepted_as_one_verified_media_body() {
    let result = run_mock_hash(
        vec![mock_full_response(
            200,
            "application/octet-stream",
            Some(10),
            b"abcdefghij",
        )],
        None,
        Some(4),
    );
    assert!(result.outcome.ok, "{result:?}");
    assert_eq!(result.request_count, 1, "{result:?}");
    assert_eq!(
        result.outcome.digest.unwrap().sha256,
        sha256_hex(b"abcdefghij")
    );
}

#[test]
fn full_200_rejects_missing_or_wrong_media_type_and_bad_lengths() {
    let cases = [
        (
            repeated_mock_response(mock_full_response_without_length(
                200,
                "audio/webm",
                b"abcdefghij",
            )),
            None,
            Some(4),
            "range_full_body_length_missing",
        ),
        (
            repeated_mock_response(mock_full_response(
                200,
                "text/html",
                Some(10),
                b"abcdefghij",
            )),
            None,
            Some(4),
            "range_full_body_media_type_invalid",
        ),
        (
            repeated_mock_response(mock_full_response(
                200,
                "audio/webm",
                Some(10),
                b"abcdefghi",
            )),
            None,
            Some(4),
            "source_body_failed",
        ),
        (
            repeated_mock_response(mock_full_response(
                200,
                "audio/webm",
                Some(9),
                b"abcdefghi",
            )),
            Some(10),
            Some(4),
            "range_full_body_length_mismatch",
        ),
        (
            repeated_mock_response(mock_full_response(
                200,
                "audio/webm",
                Some(11),
                b"abcdefghijk",
            )),
            Some(10),
            Some(4),
            "range_full_body_length_mismatch",
        ),
    ];
    for (responses, content_length, chunk_size, expected_error) in cases {
        let result = run_mock_hash(responses, content_length, chunk_size);
        assert!(!result.outcome.ok, "unexpected success: {result:?}");
        assert_eq!(result.request_count, 2, "{result:?}");
        assert_eq!(result.error_code(), Some(expected_error));
    }
}

#[derive(Clone, Debug)]
struct MockResponse {
    status: u16,
    content_range: Option<String>,
    content_type: Option<String>,
    content_length: Option<u64>,
    include_content_length: bool,
    body: Vec<u8>,
}

#[derive(Debug)]
struct MockHashResult {
    outcome: AcquisitionOutcome,
    request_count: usize,
}

impl MockHashResult {
    fn error_code(&self) -> Option<&'static str> {
        self.outcome.error.map(|error| error.code())
    }
}

fn mock_response(status: u16, content_range: Option<&str>, body: &[u8]) -> MockResponse {
    MockResponse {
        status,
        content_range: content_range.map(str::to_owned),
        content_type: None,
        content_length: None,
        include_content_length: true,
        body: body.to_vec(),
    }
}

fn mock_full_response(
    status: u16,
    content_type: &str,
    content_length: Option<u64>,
    body: &[u8],
) -> MockResponse {
    MockResponse {
        status,
        content_range: None,
        content_type: Some(content_type.to_owned()),
        content_length,
        include_content_length: true,
        body: body.to_vec(),
    }
}

fn mock_full_response_without_length(
    status: u16,
    content_type: &str,
    body: &[u8],
) -> MockResponse {
    MockResponse {
        status,
        content_range: None,
        content_type: Some(content_type.to_owned()),
        content_length: None,
        include_content_length: false,
        body: body.to_vec(),
    }
}

fn repeated_mock_response(response: MockResponse) -> Vec<MockResponse> {
    vec![response; HASH_REQUEST_RETRIES]
}

/// Drives a session with the responses, in order, as a server would give them.
fn run_mock_hash(
    responses: Vec<MockResponse>,
    content_length: Option<u64>,
    chunk_size: Option<u64>,
) -> MockHashResult {
    let source = http_source("https://example.test/source", content_length, chunk_size);
    let (mut session, headers) = HashSession::start(&source).unwrap();
    assert!(headers.is_empty());
    let mut queue: VecDeque<MockResponse> = responses.into();
    let mut request_count = 0;
    let mut body: Result<Vec<u8>, BodyError> = Ok(Vec::new());
    let mut step = session.next(false);
    loop {
        step = match step {
            HashStep::Continue => session.next(false),
            HashStep::Send { url, range_header } => {
                assert_eq!(url, "https://example.test/source");
                assert_eq!(range_header.is_some(), chunk_size.is_some());
                request_count += 1;
                let response = queue.pop_front().expect("one more request than responses");
                let length = response
                    .include_content_length
                    .then(|| response.content_length.unwrap_or(response.body.len() as u64));
                body = if length.is_some_and(|length| length > response.body.len() as u64) {
                    Err(BodyError::Failed)
                } else {
                    Ok(response.body)
                };
                session.on_response(&ResponseHead {
                    url_scheme: "https".to_owned(),
                    status: response.status,
                    body_length: length,
                    content_length: length.map(|length| length.to_string()),
                    content_type: response.content_type,
                    content_range: match response.content_range {
                        Some(text) => HeaderText::Text(text),
                        None => HeaderText::Missing,
                    },
                })
            }
            HashStep::Read { limit } => {
                let mut read = BoundedBody::new(limit);
                let result = match &body {
                    Ok(bytes) if read.push(bytes) => Ok(read.bytes),
                    Ok(_) => Err(BodyError::TooLong),
                    Err(error) => Err(*error),
                };
                session.on_body(result)
            }
            HashStep::Done(outcome) => {
                return MockHashResult {
                    outcome,
                    request_count,
                };
            }
        };
    }
}

#[test]
fn digests_are_those_of_the_standard() {
    assert_eq!(
        sha256_hex(b""),
        "e3b0c44298fc1c149afbf4c8996fb92427ae41e4649b934ca495991b7852b855"
    );
    assert_eq!(
        sha256_hex(b"abc"),
        "ba7816bf8f01cfea414140de5dae2223b00361a396177a9cb410ff61f20015ad"
    );
}

#[test]
fn sources_that_cannot_be_hashed_are_refused_at_once() {
    let error = |source: &PreparedSource| {
        HashSession::start(source)
            .map(|_| ())
            .unwrap_err()
            .error
            .unwrap()
            .code()
    };
    let url = "https://example.test/source";
    assert_eq!(
        error(&PreparedSource::Hls),
        "hls_content_hash_unsupported"
    );
    assert_eq!(error(&http_source(url, Some(0), None)), "empty_source");
    assert_eq!(
        error(&http_source(url, Some(MAX_SOURCE_BYTES + 1), None)),
        "source_too_large"
    );
    assert_eq!(
        error(&http_source(url, Some(1), Some(0))),
        "invalid_range_chunk_size"
    );
    assert_eq!(
        error(&http_source(url, None, None)),
        "source_length_unknown"
    );
}

#[test]
fn headers_are_validated_and_lowered() {
    let with_header = |name: &str, value: &str| {
        PreparedSource::Http(PreparedHttp {
            stream_url: "https://example.test/source".to_owned(),
            headers: vec![PreparedHeader {
                name: name.to_owned(),
                value: value.to_owned(),
            }],
            content_length: Some(10),
            range_chunk_size: None,
            range_mode: PreparedRangeMode::Header,
        })
    };
    let (_, headers) = HashSession::start(&with_header("User-Agent", "Test 1")).unwrap();
    assert_eq!(
        headers,
        vec![PreparedHeader {
            name: "user-agent".to_owned(),
            value: "Test 1".to_owned(),
        }]
    );
    for (name, value) in [("", "x"), ("a b", "x"), ("ä", "x"), ("a", "x\ny"), ("a", "\u{7f}")] {
        let outcome = HashSession::start(&with_header(name, value)).unwrap_err();
        assert_eq!(outcome.error.unwrap().code(), "invalid_header", "{name:?}");
        assert_eq!(outcome.requests, 0);
    }
}

#[test]
fn ranges_can_be_asked_for_in_the_query() {
    let source = PreparedSource::Http(PreparedHttp {
        stream_url: "https://example.test/source?a=1".to_owned(),
        headers: Vec::new(),
        content_length: Some(10),
        range_chunk_size: Some(4),
        range_mode: PreparedRangeMode::QueryParam,
    });
    let (mut session, _) = HashSession::start(&source).unwrap();
    match session.next(false) {
        HashStep::Send { url, range_header } => {
            assert_eq!(url, "https://example.test/source?a=1&range=0-3");
            assert!(range_header.is_none());
        }
        other => panic!("{other:?}"),
    }
}

#[test]
fn requests_need_a_secure_url_and_time() {
    let (mut session, _) =
        HashSession::start(&http_source("http://example.test/source", Some(10), None)).unwrap();
    match session.next(false) {
        HashStep::Done(outcome) => {
            assert_eq!(outcome.error.unwrap().code(), "source_url_not_https");
        }
        other => panic!("{other:?}"),
    }
    let (mut session, _) =
        HashSession::start(&http_source("not a url", Some(10), None)).unwrap();
    match session.next(false) {
        HashStep::Done(outcome) => {
            assert_eq!(outcome.error.unwrap().code(), "invalid_prepared_url");
        }
        other => panic!("{other:?}"),
    }
    let (mut session, _) =
        HashSession::start(&http_source("https://example.test/source", Some(10), None)).unwrap();
    match session.next(true) {
        HashStep::Done(outcome) => {
            assert_eq!(outcome.error.unwrap().code(), "hash_timeout");
        }
        other => panic!("{other:?}"),
    }
}

#[test]
fn a_request_without_a_response_is_sent_twice() {
    let (mut session, _) =
        HashSession::start(&http_source("https://example.test/source", Some(10), None)).unwrap();
    assert!(matches!(session.next(false), HashStep::Send { .. }));
    assert!(matches!(session.on_no_response(false), HashStep::Continue));
    assert!(matches!(session.next(false), HashStep::Send { .. }));
    match session.on_no_response(false) {
        HashStep::Done(outcome) => {
            assert_eq!(outcome.error.unwrap().code(), "source_request_failed");
            assert_eq!(outcome.requests, 2);
        }
        other => panic!("{other:?}"),
    }
}

#[test]
fn content_ranges_are_read() {
    assert_eq!(parse_content_range("bytes 4-7/10"), Ok((4, 7, 10)));
    for text in ["", "bytes", "bytes 4-7", "bytes 4/10", "items 4-7/10", "bytes 4-7/*"] {
        assert!(parse_content_range(text).is_err(), "{text}");
    }
    assert!(full_body_media_type(&Some("Audio/WebM; codecs=opus".to_owned())));
    assert!(full_body_media_type(&Some("application/octet-stream".to_owned())));
    assert!(!full_body_media_type(&Some("text/html".to_owned())));
    assert!(!full_body_media_type(&None));
    assert_eq!(full_body_length(&Some("12".to_owned())), Some(12));
    assert_eq!(full_body_length(&Some("x".to_owned())), None);
    assert_eq!(http_error_code(503), "http_5xx");
    assert_eq!(http_error_code(418), "http_error");
    assert_eq!(http_error_code(429), "http_429");
}

#[test]
fn bodies_are_bounded() {
    let mut body = BoundedBody::new(4);
    assert!(body.push(b"abc"));
    assert!(!body.push(b"de"));
    assert!(body.push(b"d") || body.bytes.len() == 3);
}

#[test]
fn a_track_is_resolved_anew_while_that_may_help() {
    let fixture = identity_fixture();
    let mut preparation = TrackPreparation::new();
    for expected_cycle in 1..=3 {
        assert_eq!(preparation.force_fresh(), expected_cycle > 1);
        let mut cycle = TrackCycle::new(preparation.cycle);
        let end = cycle
            .on_resolve(&fixture, &Err(StageError::TimedOut), 5)
            .unwrap();
        match preparation.on_cycle(end, false) {
            PreparationStep::Again => assert!(expected_cycle < 3),
            PreparationStep::Finished(report) => {
                assert!(!report.ready);
                assert!(report.failure_code.is_some());
                return;
            }
        }
    }
    panic!("the last cycle ends the preparation");
}

#[test]
fn a_track_with_bytes_and_a_fresh_analysis_is_ready() {
    let fixture = identity_fixture();
    let request = identity_request(
        "NOTD & Maia Wright - Lover Online (Extended Mix)",
        "https://www.youtube.com/watch?v=tbM2h4rWcmg",
        "youtube:video:tbM2h4rWcmg",
    );
    let mut cycle = TrackCycle::new(1);
    assert!(cycle.on_resolve(&fixture, &Ok(request.clone()), 3).is_none());
    assert!(cycle.on_prepare(&fixture, Ok(()), 4).is_none());
    let hashed = run_mock_hash(
        vec![mock_full_response(200, "audio/webm", Some(10), b"abcdefghij")],
        Some(10),
        None,
    )
    .outcome;
    cycle.on_hash(&hashed, 5);
    let end = cycle.on_analysis(
        &fixture,
        &request,
        hashed.clone(),
        Ok(Some(AnalysisBackend::Neural)),
        6,
    );
    assert!(end.prepared && end.report.ready && !end.retryable);
    assert_eq!(end.report.failure_code, None);
    assert_eq!(end.report.source, hashed.digest);
    assert_eq!(end.report.extraction_attempts.len(), 4);
    assert_eq!(
        end.report.extraction_attempts[0],
        AttemptReport::success("resolve", 1, 3)
    );

    let end = cycle.on_analysis(
        &fixture,
        &request,
        hashed,
        Ok(Some(AnalysisBackend::CachedNeural)),
        6,
    );
    assert!(!end.report.ready);
}

fn kick(matched: usize, coverage: f32) -> KickPhaseReport {
    kick_phase_report(
        bits(120.0),
        16,
        KickOutcome::Measured {
            candidate_onsets: 20,
            matched,
            beat_coverage: bits(coverage),
            p95_ms: bits(4.0),
            max_ms: bits(9.0),
            handoff_ms: bits(5.0),
        },
    )
}

fn pcm(kick_phase: Option<KickPhaseReport>) -> PcmReport {
    PcmReport {
        wav_sha256: sha256_hex(b""),
        sample_rate: 48_000,
        channels: 2,
        duration_ms: 8_000.0_f64.to_bits(),
        sample_peak_dbfs: bits(-3.0),
        true_peak_dbtp: bits(-2.0),
        kick_phase,
        rms_500ms: RmsReport {
            window_ms: 500,
            hop_ms: 250,
            windows: 12,
            quietest_dbfs: bits(-20.0),
            edge_reference_dbfs: bits(-18.0),
            quietest_to_edge_ratio: bits(0.8),
            consecutive_below_ratio_windows: 0,
        },
        silence: SilenceReport {
            window_ms: 250,
            threshold_dbfs: bits(-45.0),
            windows_detected: 0,
            longest_run_ms: 0,
        },
    }
}

fn judged(matched: usize, coverage: f32) -> Vec<String> {
    let mut report = pcm(Some(kick(matched, coverage)));
    let mut failures = Vec::new();
    apply_pcm_thresholds(&mut report, &test_thresholds(), &mut failures);
    failures
}

#[test]
fn few_kicks_fail_count_and_coverage() {
    let failures = judged(3, 0.2);
    assert!(failures.contains(&"kick_matched_beats".to_owned()));
    assert!(failures.contains(&"kick_coverage".to_owned()));
    assert!(judged(16, 0.9).is_empty());
}

#[test]
fn a_report_without_a_grid_fails_closed() {
    let report = kick_phase_report(
        bits(120.0),
        0,
        KickOutcome::Measured {
            candidate_onsets: 20,
            matched: 12,
            beat_coverage: bits(1.0),
            p95_ms: bits(4.0),
            max_ms: bits(9.0),
            handoff_ms: bits(5.0),
        },
    );
    assert_eq!(report.expected_beats, 0);
    assert_eq!(report.matched_beats, 0);
    assert_eq!(report.beat_coverage, bits(0.0));
    assert_eq!(report.issues, vec!["kick_expected_beats_unavailable"]);
    let mut pcm = pcm(Some(report));
    let mut failures = Vec::new();
    apply_pcm_thresholds(&mut pcm, &test_thresholds(), &mut failures);
    assert!(failures.contains(&"kick_expected_beats_unavailable".to_owned()));
    assert!(failures.contains(&"kick_coverage".to_owned()));
}

#[test]
fn unmeasured_phases_say_why() {
    for (outcome, issue) in [
        (KickOutcome::NoOnsets, "kick_onsets_unavailable"),
        (KickOutcome::TooFewPeaks(2), "kick_matches_insufficient"),
        (KickOutcome::NoAnchor(5), "kick_phase_anchor_unavailable"),
        (KickOutcome::NoGrid(5), "kick_expected_beats_unavailable"),
        (KickOutcome::TooFewMatches(2), "kick_matches_insufficient"),
    ] {
        let report = kick_phase_report(bits(120.0), 16, outcome);
        assert_eq!(report.issues, vec![issue]);
        assert_eq!(report.p95_ms, UNMEASURED);
        assert_eq!(f32::from_bits(report.max_ms), f32::MAX);
    }
}

#[test]
fn searches_for_kicks_end_where_something_is_missing() {
    let onsets = |blocks: usize, maximum: f32| {
        kick_shortfall(KickFinding::Onsets {
            blocks,
            maximum: bits(maximum),
        })
    };
    assert_eq!(onsets(2, 1.0), Some(KickOutcome::NoOnsets));
    assert_eq!(onsets(3, f32::EPSILON), Some(KickOutcome::NoOnsets));
    assert_eq!(onsets(3, 1.0), None);
    assert_eq!(
        kick_shortfall(KickFinding::Peaks(2)),
        Some(KickOutcome::TooFewPeaks(2))
    );
    assert_eq!(kick_shortfall(KickFinding::Peaks(3)), None);
    let anchors = |anchors: usize| kick_shortfall(KickFinding::Anchors { peaks: 5, anchors });
    assert_eq!(anchors(1), Some(KickOutcome::NoAnchor(5)));
    assert_eq!(anchors(2), None);
    let grid = |last: i32| {
        kick_shortfall(KickFinding::Grid {
            peaks: 5,
            first: 0,
            last,
        })
    };
    assert_eq!(grid(-1), Some(KickOutcome::NoGrid(5)));
    assert_eq!(grid(0), None);
    assert_eq!(
        kick_shortfall(KickFinding::Matches(2)),
        Some(KickOutcome::TooFewMatches(2))
    );
    assert_eq!(kick_shortfall(KickFinding::Matches(3)), None);
}

#[test]
fn pairs_are_judged_by_all_their_evidence() {
    let evidence = PairEvidence {
        outgoing_hash_available: true,
        incoming_hash_available: true,
        planned_kind: TransitionKind::BeatMatched,
        expected_kind: "BeatMatched".to_owned(),
        render: RenderOutcome::Rendered {
            written: true,
            measured: Some(pcm(Some(kick(16, 0.9)))),
        },
    };
    let outcome = judge_pair(evidence.clone(), &test_thresholds());
    assert!(outcome.passed, "{outcome:?}");
    assert!(outcome.rendered_pcm.is_some());

    let mut wrong = evidence.clone();
    wrong.planned_kind = TransitionKind::Crossfade;
    assert!(!judge_pair(wrong, &test_thresholds()).passed);

    let mut wrong = evidence.clone();
    wrong.incoming_hash_available = false;
    assert!(!judge_pair(wrong, &test_thresholds()).passed);

    let mut wrong = evidence;
    wrong.render = RenderOutcome::TimedOut;
    let outcome = judge_pair(wrong, &test_thresholds());
    assert_eq!(outcome.failures, vec!["render_timeout"]);
    assert!(unavailable_track(true, true).is_none());
    assert!(unavailable_track(false, true).is_some());
}

#[test]
fn peaks_stand_apart_and_the_strongest_stay() {
    let onsets: Vec<u32> = [0.0, 0.9, 0.0, 0.5, 0.0, 0.0, 0.8, 0.0]
        .iter()
        .map(|value| bits(*value))
        .collect();
    let places: Vec<usize> = (0..8).collect();
    let peaks = pick_peaks(&onsets, &places, bits(0.3), 3);
    assert_eq!(
        peaks.iter().map(|peak| peak.index).collect::<Vec<_>>(),
        vec![1, 6]
    );
    let many: Vec<KickPeak> = [0.2, 0.9, 0.4, 0.9]
        .iter()
        .enumerate()
        .map(|(index, strength)| KickPeak {
            index,
            strength: bits(*strength),
        })
        .collect();
    assert_eq!(
        keep_strongest(&many, 2)
            .iter()
            .map(|peak| peak.index)
            .collect::<Vec<_>>(),
        vec![1, 3]
    );
    assert_eq!(maximum_peaks(0), 3);
    assert_eq!(maximum_peaks(16), 48);
    assert!(onsets_are_usable(3, bits(0.5)));
    assert!(!onsets_are_usable(2, bits(0.5)));
    assert!(!onsets_are_usable(3, bits(f32::EPSILON)));
}

#[test]
fn each_beat_has_its_strongest_kick() {
    let peak = |grid_index: i32, error: f32, strength: f32| GridPeak {
        grid_index,
        error: bits(error),
        limit: bits(0.1),
        strength: bits(strength),
    };
    let matched = match_beats(
        &vec![
            peak(2, 0.05, 0.4),
            peak(0, 0.02, 0.5),
            peak(2, 0.01, 0.7),
            peak(1, 0.2, 0.9),
            peak(9, 0.0, 0.9),
        ],
        0,
        8,
    );
    assert_eq!(matched.len(), 2);
    assert_eq!(matched[0].grid_index, 0);
    assert_eq!(matched[1].grid_index, 2);
    assert_eq!(matched[1].error, bits(0.01));
    let errors: Vec<u32> = [3.0, 1.0, 2.0].iter().map(|value| bits(*value)).collect();
    assert_eq!(error_percentile(&errors, 1), (bits(2.0), bits(3.0)));
}

#[test]
fn loudness_is_reported_against_the_edges() {
    let ratios: Vec<u32> = [1.0, 0.2, 0.3, 0.9, 0.1]
        .iter()
        .map(|value| bits(*value))
        .collect();
    let report = rms_report(&ratios, bits(0.35), bits(-30.0), bits(-20.0), bits(0.1)).unwrap();
    assert_eq!(report.windows, 5);
    assert_eq!(report.consecutive_below_ratio_windows, 2);
    assert!(rms_report(&Vec::new(), 0, 0, 0, 0).is_none());
    assert_eq!(quietest_window(&ratios), bits(0.1));
    assert_eq!(quietest_window(&Vec::new()), bits(f32::INFINITY));
}

fn wav(format: u16, bits_per_sample: u16, samples: &[i16]) -> Vec<u8> {
    let mut bytes = Vec::new();
    bytes.extend_from_slice(b"RIFF");
    bytes.extend_from_slice(&(36 + 2 * samples.len() as u32).to_le_bytes());
    bytes.extend_from_slice(b"WAVEfmt ");
    bytes.extend_from_slice(&16_u32.to_le_bytes());
    bytes.extend_from_slice(&format.to_le_bytes());
    bytes.extend_from_slice(&2_u16.to_le_bytes());
    bytes.extend_from_slice(&48_000_u32.to_le_bytes());
    bytes.extend_from_slice(&192_000_u32.to_le_bytes());
    bytes.extend_from_slice(&4_u16.to_le_bytes());
    bytes.extend_from_slice(&bits_per_sample.to_le_bytes());
    bytes.extend_from_slice(b"data");
    bytes.extend_from_slice(&(2 * samples.len() as u32).to_le_bytes());
    for sample in samples {
        bytes.extend_from_slice(&sample.to_le_bytes());
    }
    bytes
}

#[test]
fn wav_files_are_decoded() {
    let pcm = decode_pcm16_wav(&wav(1, 16, &[0, -1, i16::MAX, i16::MIN])).unwrap();
    assert_eq!(pcm.sample_rate, 48_000);
    assert_eq!(pcm.channels, 2);
    assert_eq!(pcm.samples, vec![0, -1, i16::MAX, i16::MIN]);
    assert_eq!(pcm.frames(), 2);
    assert_eq!(decode_pcm16_wav(b"RIFF"), Err(WavError::NotRiffWave));
    assert!(decode_pcm16_wav(&wav(3, 16, &[0, 0])).is_err());
    assert!(decode_pcm16_wav(&wav(1, 24, &[0, 0])).is_err());
    assert!(decode_pcm16_wav(&wav(1, 16, &[])).is_err());
    let whole = wav(1, 16, &[1, 2]);
    assert_eq!(
        decode_pcm16_wav(&whole[..whole.len() - 1]),
        Err(WavError::TruncatedChunk)
    );
}

#[test]
fn windows_and_silences_are_counted() {
    assert_eq!(frames_for_ms(48_000, 250), 12_000);
    assert_eq!(frames_for_ms(44_100, 1), 44);
    assert_eq!(window_starts(10, 4, 3), vec![0, 3, 6]);
    assert!(window_starts(3, 4, 3).is_empty());
    assert_eq!(
        count_and_longest_run(&[true, false, true, true, true, false]),
        (4, 3)
    );
    let report = silence_report(&[true, false, true, true], 250, bits(-45.0));
    assert_eq!(report.windows_detected, 3);
    assert_eq!(report.longest_run_ms, 260);
    let loud = silence_report(&[false; 100], u32::MAX, bits(-45.0));
    assert_eq!((loud.windows_detected, loud.longest_run_ms), (0, 0));
    let short = silence_report(&[false, true, false], u32::MAX, bits(-45.0));
    assert_eq!(short.longest_run_ms, u32::MAX);
}

#[test]
fn an_overlap_expects_the_beats_that_both_tracks_have() {
    let mut track = TrackAnalysis::unanalyzed(Duration::from_secs(20));
    track.bpm = Some(bits(120.0));
    track.beat_markers = (0..40).map(|k| Duration::from_millis(500 * k)).collect();
    let mut plan = gapless_plan(&track, &track);
    plan.outgoing_start = Duration::zero();
    plan.incoming_start = Duration::from_millis(250);
    plan.duration = Duration::from_secs(4);
    let source = Duration::from_secs(4);
    assert_eq!(expected_overlap_beats(&track, &track, &plan, source), Some(8));
    let short = Duration::from_millis(1_250);
    assert_eq!(expected_overlap_beats(&track, &track, &plan, short), Some(3));
    let unknown = TrackAnalysis::unanalyzed(Duration::from_secs(20));
    assert_eq!(expected_overlap_beats(&unknown, &track, &plan, source), None);
    plan.duration = Duration::zero();
    assert_eq!(expected_overlap_beats(&unknown, &unknown, &plan, source), Some(0));
}

#[test]
fn redirects_are_counted_and_allowlisted() {
    assert_eq!(redirect_error(4, true), None);
    assert_eq!(redirect_error(5, true), Some("too many redirects"));
    assert_eq!(redirect_error(4, false), Some("redirect host is not allowlisted"));
    assert_eq!(redirect_error(5, false), Some("too many redirects"));
}

#[test]
fn the_network_takes_the_option_and_the_opt_in() {
    let allowed = Options::parse(vec!["--allow-network".to_owned()]).unwrap();
    assert_eq!(allowed.network_error(Some("1")), None);
    for opt_in in [None, Some(""), Some("true")] {
        assert!(allowed.network_error(opt_in).unwrap().starts_with("network execution requires"));
    }
    let refused = Options::parse(Vec::new()).unwrap();
    assert!(refused.network_error(Some("1")).is_some());
}

#[test]
fn a_run_passes_where_all_tracks_and_pairs_do() {
    let failed = TrackReport::failed(&identity_fixture(), Vec::new(), "resolve_failed");
    let ready = TrackReport {
        ready: true,
        ..failed.clone()
    };
    assert!(corpus_passed(&vec![ready.clone(), ready.clone()], &vec![true, true]));
    assert!(!corpus_passed(&vec![ready.clone(), failed], &vec![true, true]));
    assert!(!corpus_passed(&vec![ready], &vec![true, false]));
    assert!(corpus_passed(&Vec::new(), &Vec::new()));
}
