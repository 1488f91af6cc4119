//! Preparation of a track of the corpus, stage by stage and cycle by cycle.
//!
//! A cycle resolves the track, prepares it for playback, hashes its bytes and
//! analyzes it. Who drives it performs the stages; what each result means for the
//! report, and whether the track is resolved anew, is decided here.

use vstd::prelude::*;

use super::acquisition::{
    retryable_acquisition_code, spec_retryable, AcquisitionError, AcquisitionOutcome,
    SourceDigestReport, MAX_ACQUISITION_CYCLES,
};
use super::gate::{analysis_backend_reason, strict_analysis_passes, AnalysisBackend};
use super::identity::{
    identity_error, optional_text, validate_fixture_identity, video_id_of_text, youtube_video_id,
    TrackFixture,
};
use crate::contracts::TrackRequest;
use crate::text::texts;

verus! {

/// How long resolving a track may take, in seconds.
pub const RESOLVE_STAGE_TIMEOUT_SECS: u64 = 90;

/// How long preparing a track may take, in seconds.
pub const PREPARE_STAGE_TIMEOUT_SECS: u64 = 90;

/// How long hashing a source may take, in seconds.
pub const CONTENT_HASH_STAGE_TIMEOUT_SECS: u64 = 180;

/// How long analyzing a track may take, in seconds.
pub const ANALYZE_STAGE_TIMEOUT_SECS: u64 = 300;

/// How long rendering a pair may take, in seconds.
pub const PAIR_RENDER_STAGE_TIMEOUT_SECS: u64 = 180;

/// How long all cycles of a track may take, in seconds.
pub const FIXTURE_TOTAL_TIMEOUT_SECS: u64 = 900;

/// How one stage went.
#[derive(Clone, Debug, PartialEq, Eq)]
pub struct AttemptReport {
    pub stage: String,
    pub attempts: usize,
    pub ok: bool,
    /// Bits of the milliseconds in double precision.
    pub elapsed_ms: u64,
    pub error_code: Option<String>,
}

/// What an attempt tells.
pub struct AttemptText {
    pub stage: Seq<char>,
    pub attempts: usize,
    pub ok: bool,
    pub elapsed_ms: u64,
    pub error_code: Option<Seq<char>>,
}

impl View for AttemptReport {
    type V = AttemptText;

    open spec fn view(&self) -> AttemptText {
        AttemptText {
            stage: self.stage@,
            attempts: self.attempts,
            ok: self.ok,
            elapsed_ms: self.elapsed_ms,
            error_code: optional_text(self.error_code),
        }
    }
}

impl AttemptReport {
    /// What a stage tells that went well.
    pub open spec fn success_text(stage: Seq<char>, attempts: usize, elapsed_ms: u64) -> AttemptText {
        AttemptText { stage, attempts, ok: true, elapsed_ms, error_code: None }
    }

    /// What a stage tells that failed.
    pub open spec fn failure_text(
        stage: Seq<char>,
        attempts: usize,
        elapsed_ms: u64,
        code: Seq<char>,
    ) -> AttemptText {
        AttemptText { stage, attempts, ok: false, elapsed_ms, error_code: Some(code) }
    }

    pub fn success(stage: &str, attempts: usize, elapsed_ms: u64) -> (r: Self)
        ensures
            r@ == AttemptReport::success_text(stage@, attempts, elapsed_ms),
    {
        AttemptReport { stage: stage.to_owned(), attempts, ok: true, elapsed_ms, error_code: None }
    }

    pub fn failure(stage: &str, attempts: usize, elapsed_ms: u64, error_code: &str) -> (r: Self)
        ensures
            r@ == AttemptReport::failure_text(stage@, attempts, elapsed_ms, error_code@),
    {
        AttemptReport {
            stage: stage.to_owned(),
            attempts,
            ok: false,
            elapsed_ms,
            error_code: Some(error_code.to_owned()),
        }
    }
}

/// What a list of attempts tells.
pub open spec fn attempt_texts(attempts: Seq<AttemptReport>) -> Seq<AttemptText> {
    attempts.map_values(|attempt: AttemptReport| attempt@)
}

/// The report on the preparation of a track.
#[derive(Clone, Debug)]
pub struct TrackReport {
    pub id: String,
    pub expected_title: String,
    pub genre: String,
    pub url: String,
    pub resolved_title: Option<String>,
    pub resolved_video_id: Option<String>,
    pub provider_id: Option<String>,
    pub canonical_key: Option<String>,
    pub ready: bool,
    pub failure_code: Option<String>,
    pub analysis_backend: Option<String>,
    pub analysis_backend_reason: Option<String>,
    pub extraction_attempts: Vec<AttemptReport>,
    pub source: Option<SourceDigestReport>,
}

impl TrackReport {
    /// Whether the report is about the fixture.
    pub open spec fn is_about(&self, fixture: TrackFixture) -> bool {
        &&& self.id@ == fixture.id@
        &&& self.expected_title@ == fixture.title@
        &&& self.genre@ == fixture.genre@
        &&& self.url@ == fixture.url@
    }

    /// Whether the report tells nothing of a resolved track.
    pub open spec fn is_unresolved(&self) -> bool {
        &&& self.resolved_title is None
        &&& self.resolved_video_id is None
        &&& self.provider_id is None
        &&& self.canonical_key is None
    }

    /// Whether the report tells of a resolved track.
    pub open spec fn tells_of(&self, resolved: TrackRequest) -> bool {
        &&& optional_text(self.resolved_title) == Some(resolved.metadata.title@)
        &&& optional_text(self.resolved_video_id) == video_id_of_text(
            resolved.canonical_url@,
        )
        &&& optional_text(self.provider_id) == Some(resolved.provider_id@)
        &&& optional_text(self.canonical_key) == Some(resolved.canonical_key@)
    }

    /// Whether the report tells of no analysis.
    pub open spec fn is_unanalyzed(&self) -> bool {
        self.analysis_backend is None && self.analysis_backend_reason is None
    }

    /// A report on a track that is not ready.
    pub fn failed(fixture: &TrackFixture, attempts: Vec<AttemptReport>, code: &str) -> (r: Self)
        ensures
            r.is_about(*fixture),
            r.is_unresolved(),
            r.is_unanalyzed(),
            !r.ready,
            optional_text(r.failure_code) == Some(code@),
            r.extraction_attempts == attempts,
            r.source is None,
    {
        TrackReport {
            id: fixture.id.clone(),
            expected_title: fixture.title.clone(),
            genre: fixture.genre.clone(),
            url: fixture.url.clone(),
            resolved_title: None,
            resolved_video_id: None,
            provider_id: None,
            canonical_key: None,
            ready: false,
            failure_code: Some(code.to_owned()),
            analysis_backend: None,
            analysis_backend_reason: None,
            extraction_attempts: attempts,
            source: None,
        }
    }

    fn tell_of(&mut self, resolved: &TrackRequest)
        ensures
            final(self).tells_of(*resolved),
            *final(self) == (TrackReport {
                resolved_title: final(self).resolved_title,
                resolved_video_id: final(self).resolved_video_id,
                provider_id: final(self).provider_id,
                canonical_key: final(self).canonical_key,
                ..*old(self)
            }),
    {
        self.resolved_title = Some(resolved.metadata.title.clone());
        self.resolved_video_id = youtube_video_id(resolved.canonical_url.as_str());
        self.provider_id = Some(resolved.provider_id.clone());
        self.canonical_key = Some(resolved.canonical_key.clone());
    }
}

/// How a cycle ended.
#[derive(Clone, Debug)]
pub struct CycleEnd {
    /// Whether the track was prepared, hashed or not, and analyzed.
    pub prepared: bool,
    pub report: TrackReport,
    /// Whether a fresh resolution may help.
    pub retryable: bool,
}

/// Why a stage brought no result.
#[derive(Clone, Copy, Debug, PartialEq, Eq, Structural)]
pub enum StageError {
    Failed,
    TimedOut,
}

/// One cycle of the preparation of a track.
#[derive(Clone, Debug)]
pub struct TrackCycle {
    /// The number of the cycle, from one on.
    pub cycle: usize,
    pub attempts: Vec<AttemptReport>,
}

impl TrackCycle {
    pub fn new(cycle: usize) -> (r: Self)
        ensures
            r.cycle == cycle,
            r.attempts@.len() == 0,
    {
        TrackCycle { cycle, attempts: Vec::new() }
    }

    fn record(&mut self, attempt: AttemptReport)
        ensures
            final(self).cycle == old(self).cycle,
            attempt_texts(final(self).attempts@) == attempt_texts(old(self).attempts@).push(
                attempt@,
            ),
    {
        let ghost before = self.attempts@;
        self.attempts.push(attempt);
        assert(attempt_texts(self.attempts@) =~= attempt_texts(before).push(attempt@));
    }

    /// The code of a resolution that brought no track.
    pub open spec fn resolve_code(error: StageError) -> Seq<char> {
        match error {
            StageError::Failed => "resolve_failed"@,
            StageError::TimedOut => "resolve_timeout"@,
        }
    }

    /// Why a resolved track is not the expected one.
    pub open spec fn resolved_error(fixture: TrackFixture, resolved: TrackRequest) -> Option<
        Seq<char>,
    > {
        identity_error(
            texts(fixture.expected_title_tokens@),
            fixture.expected_video_id@,
            resolved.metadata.title@,
            video_id_of_text(resolved.canonical_url@),
            resolved.canonical_key@,
        )
    }

    /// Whether a cycle ended without a prepared track, after one more failed stage.
    pub open spec fn ends_with_failure(
        &self,
        end: CycleEnd,
        fixture: TrackFixture,
        stage: Seq<char>,
        elapsed_ms: u64,
        code: Seq<char>,
    ) -> bool {
        &&& !end.prepared
        &&& end.report.is_about(fixture)
        &&& end.report.is_unanalyzed()
        &&& !end.report.ready
        &&& optional_text(end.report.failure_code) == Some(code)
        &&& attempt_texts(end.report.extraction_attempts@) == attempt_texts(self.attempts@).push(
            AttemptReport::failure_text(stage, self.cycle, elapsed_ms, code),
        )
    }

    /// The result of the resolution. A track of another identity ends the cycle,
    /// and resolving it anew would not help; without a track it may.
    pub fn on_resolve(
        &mut self,
        fixture: &TrackFixture,
        result: &Result<TrackRequest, StageError>,
        elapsed_ms: u64,
    ) -> (r: Option<CycleEnd>)
        ensures
            final(self).cycle == old(self).cycle,
            match *result {
                Ok(resolved) => match TrackCycle::resolved_error(*fixture, resolved) {
                    None => r is None && attempt_texts(final(self).attempts@) == attempt_texts(
                        old(self).attempts@,
                    ).push(
                        AttemptReport::success_text("resolve"@, old(self).cycle, elapsed_ms),
                    ),
                    Some(code) => r matches Some(end) && old(self).ends_with_failure(
                        end,
                        *fixture,
                        "resolve"@,
                        elapsed_ms,
                        code,
                    ) && !end.retryable && end.report.tells_of(resolved) && end.report.source
                        is None,
                },
                Err(error) => r matches Some(end) && old(self).ends_with_failure(
                    end,
                    *fixture,
                    "resolve"@,
                    elapsed_ms,
                    TrackCycle::resolve_code(error),
                ) && end.retryable && end.report.is_unresolved() && end.report.source is None,
            },
    {
        match result {
            Ok(resolved) => match validate_fixture_identity(fixture, resolved) {
                Ok(()) => {
                    self.record(AttemptReport::success("resolve", self.cycle, elapsed_ms));
                    None
                },
                Err(code) => {
                    let mut report = self.fail(fixture, "resolve", elapsed_ms, code);
                    report.tell_of(resolved);
                    Some(CycleEnd { prepared: false, report, retryable: false })
                },
            },
            Err(error) => {
                let code: &str = match error {
                    StageError::Failed => "resolve_failed",
                    StageError::TimedOut => "resolve_timeout",
                };
                let report = self.fail(fixture, "resolve", elapsed_ms, code);
                Some(CycleEnd { prepared: false, report, retryable: true })
            },
        }
    }

    fn fail(
        &mut self,
        fixture: &TrackFixture,
        stage: &str,
        elapsed_ms: u64,
        code: &str,
    ) -> (r: TrackReport)
        ensures
            final(self).cycle == old(self).cycle,
            r.is_about(*fixture),
            r.is_unresolved(),
            r.is_unanalyzed(),
            !r.ready,
            optional_text(r.failure_code) == Some(code@),
            r.source is None,
            attempt_texts(r.extraction_attempts@) == attempt_texts(old(self).attempts@).push(
                AttemptReport::failure_text(stage@, old(self).cycle, elapsed_ms, code@),
            ),
    {
        self.record(AttemptReport::failure(stage, self.cycle, elapsed_ms, code));
        let mut attempts: Vec<AttemptReport> = Vec::new();
        attempts.append(&mut self.attempts);
        assert(attempts@ =~= Seq::<AttemptReport>::empty() + attempts@);
        TrackReport::failed(fixture, attempts, code)
    }

    /// The code of a preparation that failed.
    pub open spec fn prepare_code(error: StageError) -> Seq<char> {
        match error {
            StageError::Failed => "prepare_failed"@,
            StageError::TimedOut => "prepare_timeout"@,
        }
    }

    /// The result of preparing the track for playback.
    pub fn on_prepare(
        &mut self,
        fixture: &TrackFixture,
        result: Result<(), StageError>,
        elapsed_ms: u64,
    ) -> (r: Option<CycleEnd>)
        ensures
            final(self).cycle == old(self).cycle,
            match result {
                Ok(()) => r is None && attempt_texts(final(self).attempts@) == attempt_texts(
                    old(self).attempts@,
                ).push(AttemptReport::success_text("prepare"@, old(self).cycle, elapsed_ms)),
                Err(error) => r matches Some(end) && old(self).ends_with_failure(
                    end,
                    *fixture,
                    "prepare"@,
                    elapsed_ms,
                    TrackCycle::prepare_code(error),
                ) && end.retryable && end.report.is_unresolved() && end.report.source is None,
            },
    {
        match result {
            Ok(()) => {
                self.record(AttemptReport::success("prepare", self.cycle, elapsed_ms));
                None
            },
            Err(error) => {
                let code: &str = match error {
                    StageError::Failed => "prepare_failed",
                    StageError::TimedOut => "prepare_timeout",
                };
                let report = self.fail(fixture, "prepare", elapsed_ms, code);
                Some(CycleEnd { prepared: false, report, retryable: true })
            },
        }
    }

    /// The code of an acquisition that failed.
    pub open spec fn hash_code(outcome: AcquisitionOutcome) -> Seq<char> {
        match outcome.error {
            Some(error) => error.spec_code(),
            None => "hash_failed"@,
        }
    }

    /// What the acquisition adds to the attempts.
    pub open spec fn hash_attempt(
        cycle: usize,
        outcome: AcquisitionOutcome,
        elapsed_ms: u64,
    ) -> AttemptText {
        if outcome.ok {
            AttemptReport::success_text(
                "content_hash"@,
                if outcome.requests >= cycle {
                    outcome.requests
                } else {
                    cycle
                },
                elapsed_ms,
            )
        } else {
            AttemptReport::failure_text(
                "content_hash"@,
                outcome.requests,
                elapsed_ms,
                TrackCycle::hash_code(outcome),
            )
        }
    }

    /// The result of hashing the bytes of the track. A failure is recorded; the
    /// track is analyzed all the same.
    pub fn on_hash(&mut self, outcome: &AcquisitionOutcome, elapsed_ms: u64)
        ensures
            final(self).cycle == old(self).cycle,
            attempt_texts(final(self).attempts@) == attempt_texts(old(self).attempts@).push(
                TrackCycle::hash_attempt(old(self).cycle, *outcome, elapsed_ms),
            ),
    {
        if outcome.ok {
            let attempts: usize = if outcome.requests >= self.cycle {
                outcome.requests
            } else {
                self.cycle
            };
            self.record(AttemptReport::success("content_hash", attempts, elapsed_ms));
        } else {
            let code: &str = match outcome.error {
                Some(error) => error.code(),
                None => "hash_failed",
            };
            self.record(AttemptReport::failure("content_hash", outcome.requests, elapsed_ms, code));
        }
    }

    /// The code of an analysis; it went well only where it is a fresh neural one.
    pub open spec fn analysis_code(result: Result<Option<AnalysisBackend>, ()>) -> Option<
        Seq<char>,
    > {
        match result {
            Ok(Some(AnalysisBackend::Neural)) => None,
            Ok(Some(_)) => Some("analysis_backend_not_neural"@),
            Ok(None) => Some("analysis_unavailable"@),
            Err(()) => Some("analyze_timeout"@),
        }
    }

    /// What the analysis adds to the attempts.
    pub open spec fn analysis_attempt(
        cycle: usize,
        result: Result<Option<AnalysisBackend>, ()>,
        elapsed_ms: u64,
    ) -> AttemptText {
        match TrackCycle::analysis_code(result) {
            None => AttemptReport::success_text("analyze"@, cycle, elapsed_ms),
            Some(code) => AttemptReport::failure_text("analyze"@, cycle, elapsed_ms, code),
        }
    }

    /// Why an analyzed track is not ready.
    pub open spec fn ready_error(acquisition_ok: bool, backend: AnalysisBackend) -> Option<
        Seq<char>,
    > {
        if !acquisition_ok {
            Some("source_hash_failed"@)
        } else if backend != AnalysisBackend::Neural {
            Some("analysis_backend_not_neural"@)
        } else {
            None
        }
    }

    /// Whether a fresh resolution may help against a failed acquisition.
    pub open spec fn hash_is_retryable(outcome: AcquisitionOutcome) -> bool {
        !outcome.ok && outcome.error is Some && spec_retryable(outcome.error->0.spec_code())
    }

    /// The result of the analysis, which ends the cycle: the backend it came from,
    /// or none, or that its time ran out.
    pub fn on_analysis(
        &mut self,
        fixture: &TrackFixture,
        resolved: &TrackRequest,
        acquisition: AcquisitionOutcome,
        result: Result<Option<AnalysisBackend>, ()>,
        elapsed_ms: u64,
    ) -> (r: CycleEnd)
        ensures
            r.report.is_about(*fixture),
            r.report.tells_of(*resolved),
            r.report.source == acquisition.digest,
            attempt_texts(r.report.extraction_attempts@) == attempt_texts(
                old(self).attempts@,
            ).push(TrackCycle::analysis_attempt(old(self).cycle, result, elapsed_ms)),
            match result {
                Ok(Some(backend)) => {
                    &&& r.prepared
                    &&& r.report.ready == (acquisition.ok && backend == AnalysisBackend::Neural)
                    &&& optional_text(r.report.failure_code) == TrackCycle::ready_error(
                        acquisition.ok,
                        backend,
                    )
                    &&& optional_text(r.report.analysis_backend) == Some(backend.name())
                    &&& optional_text(r.report.analysis_backend_reason) == Some(backend.reason())
                    &&& r.retryable == TrackCycle::hash_is_retryable(acquisition)
                },
                _ => {
                    &&& !r.prepared
                    &&& !r.report.ready
                    &&& optional_text(r.report.failure_code) == TrackCycle::analysis_code(result)
                    &&& r.report.is_unanalyzed()
                    &&& r.retryable
                },
            },
    {
        let code: Option<&str> = match result {
            Ok(Some(backend)) => if backend.is_fresh_neural() {
                None
            } else {
                Some("analysis_backend_not_neural")
            },
            Ok(None) => Some("analysis_unavailable"),
            Err(()) => Some("analyze_timeout"),
        };
        match code {
            Some(code) => {
                self.record(AttemptReport::failure("analyze", self.cycle, elapsed_ms, code));
            },
            None => {
                self.record(AttemptReport::success("analyze", self.cycle, elapsed_ms));
            },
        }
        let mut attempts: Vec<AttemptReport> = Vec::new();
        attempts.append(&mut self.attempts);
        assert(attempts@ =~= Seq::<AttemptReport>::empty() + attempts@);
        match result {
            Ok(Some(backend)) => {
                let ready: bool = strict_analysis_passes(acquisition.ok, Some(backend));
                let failure_code: Option<String> = if !acquisition.ok {
                    Some("source_hash_failed".to_owned())
                } else if !backend.is_fresh_neural() {
                    Some("analysis_backend_not_neural".to_owned())
                } else {
                    None
                };
                let retryable: bool = !acquisition.ok && match acquisition.error {
                    Some(error) => retryable_acquisition_code(error.code()),
                    None => false,
                };
                let mut report = TrackReport::failed(fixture, attempts, "");
                report.tell_of(resolved);
                report.ready = ready;
                report.failure_code = failure_code;
                report.analysis_backend = Some(backend.as_str().to_owned());
                report.analysis_backend_reason = Some(analysis_backend_reason(backend).to_owned());
                report.source = acquisition.digest;
                CycleEnd { prepared: true, report, retryable }
            },
            _ => {
                let code: &str = match result {
                    Ok(_) => "analysis_unavailable",
                    Err(()) => "analyze_timeout",
                };
                let mut report = TrackReport::failed(fixture, attempts, code);
                report.tell_of(resolved);
                report.source = acquisition.digest;
                CycleEnd { prepared: false, report, retryable: true }
            },
        }
    }
}

/// The cycles of the preparation of a track.
#[derive(Clone, Debug)]
pub struct TrackPreparation {
    /// The number of the current cycle, from one on.
    pub cycle: usize,
    /// The attempts of the cycles before it.
    pub attempts: Vec<AttemptReport>,
}

/// What follows a cycle.
#[derive(Clone, Debug)]
pub enum PreparationStep {
    /// Resolve the track anew.
    Again,
    /// The preparation ended with a report.
    Finished(TrackReport),
}

/// The note that a track is resolved anew, for the cycle that follows.
pub open spec fn refresh_text(next_cycle: usize) -> AttemptText {
    AttemptText {
        stage: "request_refresh"@,
        attempts: next_cycle,
        ok: true,
        elapsed_ms: 0,
        error_code: Some("fresh_resolve_cycle"@),
    }
}

impl TrackPreparation {
    pub fn new() -> (r: Self)
        ensures
            r.cycle == 1,
            r.attempts@.len() == 0,
    {
        TrackPreparation { cycle: 1, attempts: Vec::new() }
    }

    /// Whether the track is to be resolved without what was cached: in every cycle
    /// but the first.
    pub fn force_fresh(&self) -> (r: bool)
        ensures
            r == (self.cycle > 1),
    {
        self.cycle > 1
    }

    /// The end of a cycle. The track is resolved anew where that may help, the last
    /// cycle has not been reached and the deadline has not passed. The report tells
    /// the attempts of all cycles.
    pub fn on_cycle(&mut self, end: CycleEnd, deadline_passed: bool) -> (r: PreparationStep)
        requires
            1 <= old(self).cycle <= MAX_ACQUISITION_CYCLES,
        ensures
            1 <= final(self).cycle <= MAX_ACQUISITION_CYCLES,
            ({
                let told = attempt_texts(old(self).attempts@) + attempt_texts(
                    end.report.extraction_attempts@,
                );
                if end.retryable && old(self).cycle < MAX_ACQUISITION_CYCLES && !deadline_passed {
                    &&& r is Again
                    &&& final(self).cycle == old(self).cycle + 1
                    &&& attempt_texts(final(self).attempts@) == told.push(
                        refresh_text((old(self).cycle + 1) as usize),
                    )
                } else {
                    &&& r matches PreparationStep::Finished(report) && report == (TrackReport {
                        extraction_attempts: report.extraction_attempts,
                        ..end.report
                    }) && attempt_texts(report.extraction_attempts@) == told
                }
            }),
    {
        let mut report = end.report;
        let ghost before = self.attempts@;
        let ghost added = report.extraction_attempts@;
        self.attempts.append(&mut report.extraction_attempts);
        assert(attempt_texts(self.attempts@) =~= attempt_texts(before) + attempt_texts(added));
        if !end.retryable || self.cycle == MAX_ACQUISITION_CYCLES || deadline_passed {
            let mut attempts: Vec<AttemptReport> = Vec::new();
            let ghost all = self.attempts@;
            attempts.append(&mut self.attempts);
            assert(attempts@ =~= all);
            report.extraction_attempts = attempts;
            return PreparationStep::Finished(report);
        }
        self.cycle = self.cycle + 1;
        let ghost all = self.attempts@;
        self.attempts.push(
            AttemptReport {
                stage: "request_refresh".to_owned(),
                attempts: self.cycle,
                ok: true,
                elapsed_ms: 0,
                error_code: Some("fresh_resolve_cycle".to_owned()),
            },
        );
        assert(attempt_texts(self.attempts@) =~= attempt_texts(all).push(
            refresh_text(self.cycle),
        ));
        PreparationStep::Again
    }
}

/// Whether a run of the corpus passed: every track is ready and every pair passed.
pub fn corpus_passed(tracks: &Vec<TrackReport>, pairs: &Vec<bool>) -> (r: bool)
    ensures
        r <==> (forall|i: int| 0 <= i < tracks@.len() ==> (#[trigger] tracks@[i]).ready) && (forall|
            i: int,
        |
            0 <= i < pairs@.len() ==> #[trigger] pairs@[i]),
{
    let mut i: usize = 0;
    while i < pairs.len()
        invariant
            i <= pairs@.len(),
            forall|k: int| 0 <= k < i ==> #[trigger] pairs@[k],
        decreases pairs@.len() - i,
    {
        if !pairs[i] {
            return false;
        }
        i = i + 1;
    }
    let mut i: usize = 0;
    while i < tracks.len()
        invariant
            i <= tracks@.len(),
            forall|k: int| 0 <= k < i ==> (#[trigger] tracks@[k]).ready,
        decreases tracks@.len() - i,
    {
        if !tracks[i].ready {
            return false;
        }
        i = i + 1;
    }
    true
}

/// A track has no failure to tell just where its bytes are known and its analysis
/// is a fresh one by the neural model.
pub proof fn ready_tracks_have_no_failure(acquisition_ok: bool, backend: AnalysisBackend)
    ensures
        TrackCycle::ready_error(acquisition_ok, backend) is None <==> acquisition_ok && backend
            == AnalysisBackend::Neural,
{
}

/// Each stage that fails is reported under its own code, a timeout apart from a failure;
/// an analysis counts only where it is fresh and neural.
pub proof fn stages_fail_under_their_codes(outcome: AcquisitionOutcome, backend: AnalysisBackend)
    ensures
        TrackCycle::resolve_code(StageError::Failed) == "resolve_failed"@,
        TrackCycle::resolve_code(StageError::TimedOut) == "resolve_timeout"@,
        TrackCycle::prepare_code(StageError::Failed) == "prepare_failed"@,
        TrackCycle::prepare_code(StageError::TimedOut) == "prepare_timeout"@,
        outcome.error matches Some(error) ==> TrackCycle::hash_code(outcome) == error.spec_code(),
        outcome.error is None ==> TrackCycle::hash_code(outcome) == "hash_failed"@,
        TrackCycle::analysis_code(Err(())) == Some("analyze_timeout"@),
        TrackCycle::analysis_code(Ok(None)) == Some("analysis_unavailable"@),
        TrackCycle::analysis_code(Ok(Some(AnalysisBackend::Neural))) is None,
        backend != AnalysisBackend::Neural ==> TrackCycle::analysis_code(Ok(Some(backend))) == Some(
            "analysis_backend_not_neural"@,
        ),
{
}

/// An attempt that succeeded has no code, one that failed has its own; a hash counts at
/// least as many attempts as there were cycles where it succeeded, and its requests where
/// it did not.
pub proof fn attempts_tell_whether_they_succeeded(
    cycle: usize,
    outcome: AcquisitionOutcome,
    result: Result<Option<AnalysisBackend>, ()>,
    elapsed_ms: u64,
)
    ensures
        ({
            let hash = TrackCycle::hash_attempt(cycle, outcome, elapsed_ms);
            let analysis = TrackCycle::analysis_attempt(cycle, result, elapsed_ms);
            let neural = result == Ok::<Option<AnalysisBackend>, ()>(
                Some(AnalysisBackend::Neural),
            );
            &&& hash.stage == "content_hash"@ && hash.elapsed_ms == elapsed_ms
            &&& hash.ok == outcome.ok
            &&& outcome.ok ==> hash.error_code is None && hash.attempts >= cycle && hash.attempts
                >= outcome.requests && (hash.attempts == cycle || hash.attempts
                == outcome.requests)
            &&& !outcome.ok ==> hash.attempts == outcome.requests && hash.error_code == Some(
                TrackCycle::hash_code(outcome),
            )
            &&& analysis.stage == "analyze"@ && analysis.elapsed_ms == elapsed_ms
            &&& analysis.attempts == cycle
            &&& analysis.ok <==> neural
            &&& analysis.error_code == TrackCycle::analysis_code(result)
        }),
{
}

/// A hash is tried again only where it failed with an error that may pass.
pub proof fn only_failed_hashes_are_tried_again(outcome: AcquisitionOutcome)
    ensures
        outcome.ok ==> !TrackCycle::hash_is_retryable(outcome),
        outcome.error is None ==> !TrackCycle::hash_is_retryable(outcome),
        !outcome.ok && outcome.error is Some ==> (TrackCycle::hash_is_retryable(outcome)
            <==> spec_retryable(outcome.error->0.spec_code())),
{
}

/// The stages have 90, 90, 180, 300 and 180 seconds, and a fixture 900 in all.
pub proof fn stages_have_their_time()
    ensures
        RESOLVE_STAGE_TIMEOUT_SECS == 90,
        PREPARE_STAGE_TIMEOUT_SECS == 90,
        CONTENT_HASH_STAGE_TIMEOUT_SECS == 180,
        ANALYZE_STAGE_TIMEOUT_SECS == 300,
        PAIR_RENDER_STAGE_TIMEOUT_SECS == 180,
        FIXTURE_TOTAL_TIMEOUT_SECS == 900,
{
}

/// A track that failed is told with its own fixture, is not ready, and ends its attempts
/// with the one that failed, under the same code.
pub proof fn failed_tracks_end_with_their_attempt(
    cycle: TrackCycle,
    end: CycleEnd,
    fixture: TrackFixture,
    stage: Seq<char>,
    elapsed_ms: u64,
    code: Seq<char>,
)
    requires
        cycle.ends_with_failure(end, fixture, stage, elapsed_ms, code),
    ensures
        !end.prepared && !end.report.ready,
        end.report.failure_code matches Some(told) && told@ == code,
        end.report.id@ == fixture.id@ && end.report.url@ == fixture.url@,
        end.report.expected_title@ == fixture.title@ && end.report.genre@ == fixture.genre@,
        end.report.analysis_backend is None && end.report.analysis_backend_reason is None,
        attempt_texts(end.report.extraction_attempts@).len() == cycle.attempts@.len() + 1,
        ({
            let last = attempt_texts(end.report.extraction_attempts@).last();
            &&& last.stage == stage && last.attempts == cycle.cycle
            &&& !last.ok && last.elapsed_ms == elapsed_ms && last.error_code == Some(code)
        }),
{
}

/// A report that tells of a resolved track has its title, provider and key, and the video
/// that its address names.
pub proof fn resolved_tracks_are_told_in_full(report: TrackReport, resolved: TrackRequest)
    requires
        report.tells_of(resolved),
    ensures
        report.resolved_title matches Some(title) && title@ == resolved.metadata.title@,
        report.provider_id matches Some(provider) && provider@ == resolved.provider_id@,
        report.canonical_key matches Some(key) && key@ == resolved.canonical_key@,
        optional_text(report.resolved_video_id) == video_id_of_text(resolved.canonical_url@),
{
}

/// A refresh is told as the start of the next cycle, at no cost of time.
pub proof fn refreshes_tell_the_next_cycle(next_cycle: usize)
    ensures
        ({
            let attempt = refresh_text(next_cycle);
            &&& attempt.stage == "request_refresh"@ && attempt.attempts == next_cycle
            &&& attempt.ok && attempt.elapsed_ms == 0
            &&& attempt.error_code == Some("fresh_resolve_cycle"@)
        }),
{
}

/// A report that is unresolved tells nothing of what was found.
pub proof fn unresolved_reports_tell_nothing(report: TrackReport)
    ensures
        report.is_unresolved() ==> report.resolved_title is None && report.resolved_video_id
            is None && report.provider_id is None && report.canonical_key is None,
        report.is_unanalyzed() ==> report.analysis_backend is None
            && report.analysis_backend_reason is None,
{
}

} // verus!
