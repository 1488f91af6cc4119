//! Judgement of a rendered transition against the thresholds of the release gate.
//!
//! Measurements and thresholds are the bits of single-precision numbers.

use vstd::prelude::*;

use super::wav::SilenceReport;
use crate::automix::kinds::TransitionKind;
use crate::scalar;
use crate::text::{is_sorted_set, same_text, sort_and_dedup, texts};

verus! {

/// The thresholds of the release gate.
#[derive(Clone, Copy, Debug)]
pub struct Thresholds {
    pub min_kick_coverage: u32,
    pub min_matched_kicks: usize,
    pub kick_phase_p95_ms: u32,
    pub kick_phase_max_ms: u32,
    pub kick_handoff_ms: u32,
    pub minimum_rms_gap_ratio: u32,
    pub silence_window_ms: u32,
    pub silence_threshold_dbfs: u32,
    pub maximum_sample_peak_dbfs: u32,
    pub maximum_true_peak_dbtp: u32,
}

impl Thresholds {
    /// Whether these are the agreed thresholds: a coverage of 0.65 with eight
    /// kicks, 25, 35 and 25 milliseconds, a gap ratio of 0.35, silence of 250
    /// milliseconds below -45 dBFS, and peaks of at most -1 dB.
    pub open spec fn agreed(&self) -> bool {
        &&& scalar::spec_same(self.min_kick_coverage, 0x3F26_6666)
        &&& self.min_matched_kicks == 8
        &&& scalar::spec_same(self.kick_phase_p95_ms, 0x41C8_0000)
        &&& scalar::spec_same(self.kick_phase_max_ms, 0x420C_0000)
        &&& scalar::spec_same(self.kick_handoff_ms, 0x41C8_0000)
        &&& scalar::spec_same(self.minimum_rms_gap_ratio, 0x3EB3_3333)
        &&& self.silence_window_ms == 250
        &&& scalar::spec_same(self.silence_threshold_dbfs, 0xC234_0000)
        &&& scalar::spec_same(self.maximum_sample_peak_dbfs, 0xBF80_0000)
        &&& scalar::spec_same(self.maximum_true_peak_dbtp, 0xBF80_0000)
    }

    /// Whether these are the agreed thresholds.
    pub fn are_agreed(&self) -> (r: bool)
        ensures
            r == self.agreed(),
    {
        scalar::same(self.min_kick_coverage, 0x3F26_6666) && self.min_matched_kicks == 8
            && scalar::same(self.kick_phase_p95_ms, 0x41C8_0000) && scalar::same(
            self.kick_phase_max_ms,
            0x420C_0000,
        ) && scalar::same(self.kick_handoff_ms, 0x41C8_0000) && scalar::same(
            self.minimum_rms_gap_ratio,
            0x3EB3_3333,
        ) && self.silence_window_ms == 250 && scalar::same(
            self.silence_threshold_dbfs,
            0xC234_0000,
        ) && scalar::same(self.maximum_sample_peak_dbfs, 0xBF80_0000) && scalar::same(
            self.maximum_true_peak_dbtp,
            0xBF80_0000,
        )
    }
}

/// How well the kicks of an overlap keep their phase.
#[derive(Clone, Debug, PartialEq, Eq)]
pub struct KickPhaseReport {
    pub expected_bpm: u32,
    pub candidate_onsets: usize,
    pub matched_beats: usize,
    pub expected_beats: usize,
    pub beat_coverage: u32,
    pub p95_ms: u32,
    pub max_ms: u32,
    pub handoff_ms: u32,
    pub issues: Vec<String>,
}

/// How even the loudness of an overlap is.
#[derive(Clone, Copy, Debug, PartialEq, Eq, Structural)]
pub struct RmsReport {
    pub window_ms: u32,
    pub hop_ms: u32,
    pub windows: usize,
    pub quietest_dbfs: u32,
    pub edge_reference_dbfs: u32,
    pub quietest_to_edge_ratio: u32,
    pub consecutive_below_ratio_windows: usize,
}

/// What was measured of a rendered transition.
#[derive(Clone, Debug, PartialEq, Eq)]
pub struct PcmReport {
    pub wav_sha256: String,
    pub sample_rate: u32,
    pub channels: u16,
    /// Bits of the duration in double precision.
    pub duration_ms: u64,
    pub sample_peak_dbfs: u32,
    pub true_peak_dbtp: u32,
    pub kick_phase: Option<KickPhaseReport>,
    pub rms_500ms: RmsReport,
    pub silence: SilenceReport,
}

/// A list of codes, and one more where the condition holds.
pub open spec fn with_code(codes: Seq<Seq<char>>, condition: bool, code: Seq<char>) -> Seq<
    Seq<char>,
> {
    if condition {
        codes.push(code)
    } else {
        codes
    }
}

fn push_code(codes: &mut Vec<String>, condition: bool, code: &str)
    ensures
        texts(final(codes)@) == with_code(texts(old(codes)@), condition, code@),
{
    if condition {
        let ghost before = codes@;
        codes.push(code.to_owned());
        assert(texts(codes@) =~= texts(before).push(code@));
    }
}

/// The codes, and what the kicks of an overlap fail.
pub open spec fn with_kick_failures(
    codes: Seq<Seq<char>>,
    kick: KickPhaseReport,
    thresholds: Thresholds,
) -> Seq<Seq<char>> {
    let codes = with_code(codes, kick.expected_beats == 0, "kick_expected_beats_unavailable"@);
    let codes = with_code(
        codes,
        kick.matched_beats < thresholds.min_matched_kicks,
        "kick_matched_beats"@,
    );
    let codes = with_code(
        codes,
        !scalar::spec_is_finite(kick.beat_coverage) || scalar::spec_less(
            kick.beat_coverage,
            thresholds.min_kick_coverage,
        ),
        "kick_coverage"@,
    );
    let codes = with_code(
        codes,
        scalar::spec_less(thresholds.kick_phase_p95_ms, kick.p95_ms),
        "kick_phase_p95"@,
    );
    let codes = with_code(
        codes,
        scalar::spec_less(thresholds.kick_phase_max_ms, kick.max_ms),
        "kick_phase_max"@,
    );
    with_code(
        codes,
        scalar::spec_less(thresholds.kick_handoff_ms, kick.handoff_ms),
        "kick_handoff"@,
    )
}

fn push_kick_failures(codes: &mut Vec<String>, kick: &KickPhaseReport, thresholds: &Thresholds)
    ensures
        texts(final(codes)@) == with_kick_failures(texts(old(codes)@), *kick, *thresholds),
{
    push_code(codes, kick.expected_beats == 0, "kick_expected_beats_unavailable");
    push_code(codes, kick.matched_beats < thresholds.min_matched_kicks, "kick_matched_beats");
    push_code(
        codes,
        !scalar::is_finite(kick.beat_coverage) || scalar::less(
            kick.beat_coverage,
            thresholds.min_kick_coverage,
        ),
        "kick_coverage",
    );
    push_code(codes, scalar::less(thresholds.kick_phase_p95_ms, kick.p95_ms), "kick_phase_p95");
    push_code(codes, scalar::less(thresholds.kick_phase_max_ms, kick.max_ms), "kick_phase_max");
    push_code(codes, scalar::less(thresholds.kick_handoff_ms, kick.handoff_ms), "kick_handoff");
}

/// The codes, and what a rendered transition fails.
pub open spec fn with_pcm_failures(
    codes: Seq<Seq<char>>,
    pcm: PcmReport,
    thresholds: Thresholds,
) -> Seq<Seq<char>> {
    let codes = match pcm.kick_phase {
        Some(kick) => with_kick_failures(codes, kick, thresholds),
        None => codes.push("kick_phase_unavailable"@),
    };
    let codes = with_code(
        codes,
        scalar::spec_less(
            pcm.rms_500ms.quietest_to_edge_ratio,
            thresholds.minimum_rms_gap_ratio,
        ),
        "rms_gap_ratio"@,
    );
    let codes = with_code(codes, pcm.silence.windows_detected > 0, "silence_250ms"@);
    let codes = with_code(
        codes,
        scalar::spec_less(thresholds.maximum_sample_peak_dbfs, pcm.sample_peak_dbfs),
        "sample_peak"@,
    );
    with_code(
        codes,
        scalar::spec_less(thresholds.maximum_true_peak_dbtp, pcm.true_peak_dbtp),
        "true_peak"@,
    )
}

/// Whether a report differs from another only in the issues of its kicks, which
/// are those of the other and what its kicks fail, sorted.
pub open spec fn is_judged(after: PcmReport, before: PcmReport, thresholds: Thresholds) -> bool {
    &&& after == (PcmReport { kick_phase: after.kick_phase, ..before })
    &&& match (after.kick_phase, before.kick_phase) {
        (Some(judged), Some(kick)) => {
            &&& judged == (KickPhaseReport { issues: judged.issues, ..kick })
            &&& is_sorted_set(
                texts(judged.issues@),
                with_kick_failures(texts(kick.issues@), kick, thresholds),
            )
        },
        (None, None) => true,
        _ => false,
    }
}

/// Holds a measured transition against the thresholds: what it fails is added to
/// the failures, and to the issues of its kicks.
pub fn apply_pcm_thresholds(
    pcm: &mut PcmReport,
    thresholds: &Thresholds,
    failures: &mut Vec<String>,
)
    ensures
        texts(final(failures)@) == with_pcm_failures(
            texts(old(failures)@),
            *old(pcm),
            *thresholds,
        ),
        is_judged(*final(pcm), *old(pcm), *thresholds),
{
    match pcm.kick_phase.take() {
        Some(kick) => {
            push_kick_failures(failures, &kick, thresholds);
            let mut issues: Vec<String> = kick.issues.clone();
            proof {
                lemma_clone_texts(kick.issues@, issues@);
            }
            push_kick_failures(&mut issues, &kick, thresholds);
            pcm.kick_phase = Some(KickPhaseReport {
                expected_bpm: kick.expected_bpm,
                candidate_onsets: kick.candidate_onsets,
                matched_beats: kick.matched_beats,
                expected_beats: kick.expected_beats,
                beat_coverage: kick.beat_coverage,
                p95_ms: kick.p95_ms,
                max_ms: kick.max_ms,
                handoff_ms: kick.handoff_ms,
                issues: sort_and_dedup(issues),
            });
        },
        None => {
            push_code(failures, true, "kick_phase_unavailable");
        },
    }
    push_code(
        failures,
        scalar::less(pcm.rms_500ms.quietest_to_edge_ratio, thresholds.minimum_rms_gap_ratio),
        "rms_gap_ratio",
    );
    push_code(failures, pcm.silence.windows_detected > 0, "silence_250ms");
    push_code(
        failures,
        scalar::less(thresholds.maximum_sample_peak_dbfs, pcm.sample_peak_dbfs),
        "sample_peak",
    );
    push_code(
        failures,
        scalar::less(thresholds.maximum_true_peak_dbtp, pcm.true_peak_dbtp),
        "true_peak",
    );
}

proof fn lemma_clone_texts(list: Seq<String>, copy: Seq<String>)
    requires
        list.len() == copy.len(),
        forall|i: int| #![trigger list[i]] 0 <= i < list.len() ==> cloned(list[i], copy[i]),
    ensures
        texts(copy) == texts(list),
{
    assert forall|i: int| 0 <= i < list.len() implies texts(copy)[i] == texts(list)[i] by {
        assert(cloned(list[i], copy[i]));
    }
    assert(texts(copy) =~= texts(list));
}

/// The name of a transition kind in reports.
pub open spec fn spec_transition_kind(kind: TransitionKind) -> Seq<char> {
    match kind {
        TransitionKind::BeatMatched => "BeatMatched"@,
        TransitionKind::Crossfade => "Crossfade"@,
        TransitionKind::Gapless => "Gapless"@,
    }
}

/// The name of a transition kind in reports.
pub fn transition_kind(kind: TransitionKind) -> (r: &'static str)
    ensures
        r@ == spec_transition_kind(kind),
{
    match kind {
        TransitionKind::BeatMatched => "BeatMatched",
        TransitionKind::Crossfade => "Crossfade",
        TransitionKind::Gapless => "Gapless",
    }
}

/// Which track of a pair could not be prepared.
pub fn unavailable_track(outgoing: bool, incoming: bool) -> (r: Option<&'static str>)
    ensures
        match r {
            Some(code) => (!outgoing && code@ == "outgoing_unavailable"@) || (outgoing && !incoming
                && code@ == "incoming_unavailable"@),
            None => outgoing && incoming,
        },
{
    if !outgoing {
        Some("outgoing_unavailable")
    } else if !incoming {
        Some("incoming_unavailable")
    } else {
        None
    }
}

/// What became of the preview of a pair.
#[derive(Clone, Debug)]
pub enum RenderOutcome {
    /// It was rendered; it could be written or not, and measured or not.
    Rendered { written: bool, measured: Option<PcmReport> },
    Failed,
    TimedOut,
}

/// What is known of a pair whose tracks are both prepared.
#[derive(Clone, Debug)]
pub struct PairEvidence {
    pub outgoing_hash_available: bool,
    pub incoming_hash_available: bool,
    pub planned_kind: TransitionKind,
    pub expected_kind: String,
    pub render: RenderOutcome,
}

/// Everything that a pair fails, in the order in which it is found.
pub open spec fn pair_failures(evidence: PairEvidence, thresholds: Thresholds) -> Seq<Seq<char>> {
    let codes = with_code(
        Seq::empty(),
        !evidence.outgoing_hash_available,
        "outgoing_source_hash_unavailable"@,
    );
    let codes = with_code(
        codes,
        !evidence.incoming_hash_available,
        "incoming_source_hash_unavailable"@,
    );
    let codes = with_code(
        codes,
        spec_transition_kind(evidence.planned_kind) != evidence.expected_kind@,
        "transition_kind"@,
    );
    match evidence.render {
        RenderOutcome::Rendered { written, measured } => {
            let codes = with_code(codes, !written, "preview_write_failed"@);
            match measured {
                Some(pcm) => with_pcm_failures(codes, pcm, thresholds),
                None => codes.push("pcm_measurement_failed"@),
            }
        },
        RenderOutcome::Failed => codes.push("render_failed"@),
        RenderOutcome::TimedOut => codes.push("render_timeout"@),
    }
}

/// The judgement on a pair.
#[derive(Clone, Debug)]
pub struct PairVerdict {
    pub passed: bool,
    pub failures: Vec<String>,
    pub rendered_pcm: Option<PcmReport>,
}

/// Judges a pair: its failures are listed once each, in order, and it passes just
/// where there are none.
pub fn judge_pair(evidence: PairEvidence, thresholds: &Thresholds) -> (r: PairVerdict)
    ensures
        is_sorted_set(texts(r.failures@), pair_failures(evidence, *thresholds)),
        r.passed <==> pair_failures(evidence, *thresholds).len() == 0,
        r.passed <==> r.failures@.len() == 0,
        match evidence.render {
            RenderOutcome::Rendered { measured: Some(pcm), .. } => r.rendered_pcm matches Some(
                judged,
            ) && is_judged(judged, pcm, *thresholds),
            _ => r.rendered_pcm is None,
        },
{
    let mut failures: Vec<String> = Vec::new();
    assert(texts(failures@) =~= Seq::<Seq<char>>::empty());
    push_code(
        &mut failures,
        !evidence.outgoing_hash_available,
        "outgoing_source_hash_unavailable",
    );
    push_code(
        &mut failures,
        !evidence.incoming_hash_available,
        "incoming_source_hash_unavailable",
    );
    push_code(
        &mut failures,
        !same_text(transition_kind(evidence.planned_kind), evidence.expected_kind.as_str()),
        "transition_kind",
    );
    let rendered_pcm: Option<PcmReport> = match evidence.render {
        RenderOutcome::Rendered { written, measured } => {
            push_code(&mut failures, !written, "preview_write_failed");
            match measured {
                Some(pcm) => {
                    let mut judged = pcm;
                    apply_pcm_thresholds(&mut judged, thresholds, &mut failures);
                    Some(judged)
                },
                None => {
                    push_code(&mut failures, true, "pcm_measurement_failed");
                    None
                },
            }
        },
        RenderOutcome::Failed => {
            push_code(&mut failures, true, "render_failed");
            None
        },
        RenderOutcome::TimedOut => {
            push_code(&mut failures, true, "render_timeout");
            None
        },
    };
    assert(texts(failures@).len() == failures@.len());
    let sorted = sort_and_dedup(failures);
    PairVerdict { passed: sorted.len() == 0, failures: sorted, rendered_pcm }
}

/// A pair is approved only where the transition is of the expected kind, both sources
/// were hashed, the preview was written and measured, the kicks of its overlap were
/// found often enough, and none of its measurements is on the wrong side of its
/// threshold.
pub proof fn passing_pairs_are_complete(evidence: PairEvidence, thresholds: Thresholds)
    requires
        pair_failures(evidence, thresholds).len() == 0,
    ensures
        evidence.outgoing_hash_available,
        evidence.incoming_hash_available,
        spec_transition_kind(evidence.planned_kind) == evidence.expected_kind@,
        evidence.render matches RenderOutcome::Rendered { written: true, measured: Some(pcm) }
            && pcm.kick_phase is Some && pcm.silence.windows_detected == 0
            && pcm.kick_phase->0.expected_beats > 0 && pcm.kick_phase->0.matched_beats
            >= thresholds.min_matched_kicks,
        evidence.render matches RenderOutcome::Rendered { measured: Some(pcm), .. }
            && pcm.kick_phase matches Some(kick) && {
            &&& scalar::spec_is_finite(kick.beat_coverage)
            &&& !scalar::spec_less(kick.beat_coverage, thresholds.min_kick_coverage)
            &&& !scalar::spec_less(thresholds.kick_phase_p95_ms, kick.p95_ms)
            &&& !scalar::spec_less(thresholds.kick_phase_max_ms, kick.max_ms)
            &&& !scalar::spec_less(thresholds.kick_handoff_ms, kick.handoff_ms)
            &&& !scalar::spec_less(
                pcm.rms_500ms.quietest_to_edge_ratio,
                thresholds.minimum_rms_gap_ratio,
            )
            &&& !scalar::spec_less(thresholds.maximum_sample_peak_dbfs, pcm.sample_peak_dbfs)
            &&& !scalar::spec_less(thresholds.maximum_true_peak_dbtp, pcm.true_peak_dbtp)
        },
{
}

/// A pair passes where nothing is missing and every measurement keeps its threshold.
pub proof fn complete_pairs_pass(evidence: PairEvidence, thresholds: Thresholds)
    requires
        evidence.outgoing_hash_available,
        evidence.incoming_hash_available,
        evidence.expected_kind@ == match evidence.planned_kind {
            TransitionKind::BeatMatched => "BeatMatched"@,
            TransitionKind::Crossfade => "Crossfade"@,
            TransitionKind::Gapless => "Gapless"@,
        },
        evidence.render matches RenderOutcome::Rendered { written: true, measured: Some(pcm) }
            && pcm.kick_phase matches Some(kick) && {
            &&& pcm.silence.windows_detected == 0
            &&& kick.expected_beats > 0
            &&& kick.matched_beats >= thresholds.min_matched_kicks
            &&& scalar::spec_is_finite(kick.beat_coverage)
            &&& !scalar::spec_less(kick.beat_coverage, thresholds.min_kick_coverage)
            &&& !scalar::spec_less(thresholds.kick_phase_p95_ms, kick.p95_ms)
            &&& !scalar::spec_less(thresholds.kick_phase_max_ms, kick.max_ms)
            &&& !scalar::spec_less(thresholds.kick_handoff_ms, kick.handoff_ms)
            &&& !scalar::spec_less(
                pcm.rms_500ms.quietest_to_edge_ratio,
                thresholds.minimum_rms_gap_ratio,
            )
            &&& !scalar::spec_less(thresholds.maximum_sample_peak_dbfs, pcm.sample_peak_dbfs)
            &&& !scalar::spec_less(thresholds.maximum_true_peak_dbtp, pcm.true_peak_dbtp)
        },
    ensures
        pair_failures(evidence, thresholds).len() == 0,
{
}

proof fn lemma_with_code(codes: Seq<Seq<char>>, condition: bool, new: Seq<char>, code: Seq<char>)
    ensures
        with_code(codes, condition, new).contains(code) <==> codes.contains(code) || (condition
            && code == new),
{
    let longer = codes.push(new);
    if codes.contains(code) {
        let i = choose|i: int| 0 <= i < codes.len() && codes[i] == code;
        assert(longer[i] == code);
    }
    if condition && code == new {
        assert(longer[codes.len() as int] == code);
    }
    if longer.contains(code) {
        let i = choose|i: int| 0 <= i < longer.len() && longer[i] == code;
        if i < codes.len() {
            assert(codes[i] == code);
        }
    }
}

/// Kicks fail by name for just what they miss: beats to expect, matched beats, coverage,
/// and the three errors of their phase.
pub proof fn kick_failures_name_what_is_missed(
    codes: Seq<Seq<char>>,
    kick: KickPhaseReport,
    thresholds: Thresholds,
    code: Seq<char>,
)
    ensures
        with_kick_failures(codes, kick, thresholds).contains(code) <==> {
            ||| codes.contains(code)
            ||| code == "kick_expected_beats_unavailable"@ && kick.expected_beats == 0
            ||| code == "kick_matched_beats"@ && kick.matched_beats < thresholds.min_matched_kicks
            ||| code == "kick_coverage"@ && (scalar::spec_less(
                kick.beat_coverage,
                thresholds.min_kick_coverage,
            ) || !scalar::spec_is_finite(kick.beat_coverage))
            ||| code == "kick_phase_p95"@ && scalar::spec_less(
                thresholds.kick_phase_p95_ms,
                kick.p95_ms,
            )
            ||| code == "kick_phase_max"@ && scalar::spec_less(
                thresholds.kick_phase_max_ms,
                kick.max_ms,
            )
            ||| code == "kick_handoff"@ && scalar::spec_less(
                thresholds.kick_handoff_ms,
                kick.handoff_ms,
            )
        },
{
    let a = with_code(codes, kick.expected_beats == 0, "kick_expected_beats_unavailable"@);
    let few = kick.matched_beats < thresholds.min_matched_kicks;
    let b = with_code(a, few, "kick_matched_beats"@);
    let thin = !scalar::spec_is_finite(kick.beat_coverage) || scalar::spec_less(
        kick.beat_coverage,
        thresholds.min_kick_coverage,
    );
    let c = with_code(b, thin, "kick_coverage"@);
    let wide = scalar::spec_less(thresholds.kick_phase_p95_ms, kick.p95_ms);
    let d = with_code(c, wide, "kick_phase_p95"@);
    let widest = scalar::spec_less(thresholds.kick_phase_max_ms, kick.max_ms);
    let e = with_code(d, widest, "kick_phase_max"@);
    let late = scalar::spec_less(thresholds.kick_handoff_ms, kick.handoff_ms);
    lemma_with_code(codes, kick.expected_beats == 0, "kick_expected_beats_unavailable"@, code);
    lemma_with_code(a, few, "kick_matched_beats"@, code);
    lemma_with_code(b, thin, "kick_coverage"@, code);
    lemma_with_code(c, wide, "kick_phase_p95"@, code);
    lemma_with_code(d, widest, "kick_phase_max"@, code);
    lemma_with_code(e, late, "kick_handoff"@, code);
}

/// A rendered transition fails by name for just what it misses: kicks that were
/// measured and keep their phase, an even loudness, no silence, and peaks that are not
/// too high.
pub proof fn pcm_failures_name_what_is_missed(
    codes: Seq<Seq<char>>,
    pcm: PcmReport,
    thresholds: Thresholds,
    code: Seq<char>,
)
    ensures
        with_pcm_failures(codes, pcm, thresholds).contains(code) <==> {
            ||| codes.contains(code)
            ||| pcm.kick_phase is Some && with_kick_failures(
                Seq::empty(),
                pcm.kick_phase->0,
                thresholds,
            ).contains(code)
            ||| code == "kick_phase_unavailable"@ && pcm.kick_phase is None
            ||| code == "rms_gap_ratio"@ && scalar::spec_less(
                pcm.rms_500ms.quietest_to_edge_ratio,
                thresholds.minimum_rms_gap_ratio,
            )
            ||| code == "silence_250ms"@ && pcm.silence.windows_detected != 0
            ||| code == "sample_peak"@ && scalar::spec_less(
                thresholds.maximum_sample_peak_dbfs,
                pcm.sample_peak_dbfs,
            )
            ||| code == "true_peak"@ && scalar::spec_less(
                thresholds.maximum_true_peak_dbtp,
                pcm.true_peak_dbtp,
            )
        },
{
    let kicks = match pcm.kick_phase {
        Some(kick) => with_kick_failures(codes, kick, thresholds),
        None => codes.push("kick_phase_unavailable"@),
    };
    match pcm.kick_phase {
        Some(kick) => {
            kick_failures_name_what_is_missed(codes, kick, thresholds, code);
            kick_failures_name_what_is_missed(Seq::empty(), kick, thresholds, code);
        },
        None => {
            lemma_with_code(codes, true, "kick_phase_unavailable"@, code);
        },
    }
    let uneven = scalar::spec_less(
        pcm.rms_500ms.quietest_to_edge_ratio,
        thresholds.minimum_rms_gap_ratio,
    );
    let a = with_code(kicks, uneven, "rms_gap_ratio"@);
    let b = with_code(a, pcm.silence.windows_detected > 0, "silence_250ms"@);
    let loud = scalar::spec_less(thresholds.maximum_sample_peak_dbfs, pcm.sample_peak_dbfs);
    let c = with_code(b, loud, "sample_peak"@);
    let high = scalar::spec_less(thresholds.maximum_true_peak_dbtp, pcm.true_peak_dbtp);
    lemma_with_code(kicks, uneven, "rms_gap_ratio"@, code);
    lemma_with_code(a, pcm.silence.windows_detected > 0, "silence_250ms"@, code);
    lemma_with_code(b, loud, "sample_peak"@, code);
    lemma_with_code(c, high, "true_peak"@, code);
}

/// A pair fails by name for just what it misses: the digests of both sources, the
/// expected kind, a preview that was rendered in time, written and measured, and what
/// the measurement fails.
pub proof fn pair_failures_name_what_is_missed(
    evidence: PairEvidence,
    thresholds: Thresholds,
    code: Seq<char>,
)
    ensures
        pair_failures(evidence, thresholds).contains(code) <==> {
            ||| code == "outgoing_source_hash_unavailable"@ && !evidence.outgoing_hash_available
            ||| code == "incoming_source_hash_unavailable"@ && !evidence.incoming_hash_available
            ||| code == "transition_kind"@ && evidence.expected_kind@ != match evidence.planned_kind {
                TransitionKind::BeatMatched => "BeatMatched"@,
                TransitionKind::Crossfade => "Crossfade"@,
                TransitionKind::Gapless => "Gapless"@,
            }
            ||| code == "render_failed"@ && evidence.render is Failed
            ||| code == "render_timeout"@ && evidence.render is TimedOut
            ||| code == "preview_write_failed"@ && evidence.render is Rendered
                && !evidence.render->written
            ||| code == "pcm_measurement_failed"@ && evidence.render is Rendered
                && evidence.render->measured is None
            ||| evidence.render is Rendered && evidence.render->measured is Some
                && with_pcm_failures(
                Seq::empty(),
                evidence.render->measured->0,
                thresholds,
            ).contains(code)
        },
{
    let start = Seq::<Seq<char>>::empty();
    let no_outgoing = !evidence.outgoing_hash_available;
    let no_incoming = !evidence.incoming_hash_available;
    let other = spec_transition_kind(evidence.planned_kind) != evidence.expected_kind@;
    let a = with_code(start, no_outgoing, "outgoing_source_hash_unavailable"@);
    let b = with_code(a, no_incoming, "incoming_source_hash_unavailable"@);
    let c = with_code(b, other, "transition_kind"@);
    lemma_with_code(start, no_outgoing, "outgoing_source_hash_unavailable"@, code);
    lemma_with_code(a, no_incoming, "incoming_source_hash_unavailable"@, code);
    lemma_with_code(b, other, "transition_kind"@, code);
    match evidence.render {
        RenderOutcome::Rendered { written, measured } => {
            let d = with_code(c, !written, "preview_write_failed"@);
            lemma_with_code(c, !written, "preview_write_failed"@, code);
            match measured {
                Some(pcm) => {
                    pcm_failures_name_what_is_missed(d, pcm, thresholds, code);
                    pcm_failures_name_what_is_missed(start, pcm, thresholds, code);
                },
                None => {
                    lemma_with_code(d, true, "pcm_measurement_failed"@, code);
                },
            }
        },
        RenderOutcome::Failed => {
            lemma_with_code(c, true, "render_failed"@, code);
        },
        RenderOutcome::TimedOut => {
            lemma_with_code(c, true, "render_timeout"@, code);
        },
    }
}

/// Judging a measurement changes nothing of it but the issues of its kicks.
pub proof fn judging_keeps_the_measurements(
    after: PcmReport,
    before: PcmReport,
    thresholds: Thresholds,
)
    requires
        is_judged(after, before, thresholds),
    ensures
        after.wav_sha256 == before.wav_sha256,
        after.sample_rate == before.sample_rate,
        after.channels == before.channels,
        after.duration_ms == before.duration_ms,
        after.sample_peak_dbfs == before.sample_peak_dbfs,
        after.true_peak_dbtp == before.true_peak_dbtp,
        after.rms_500ms == before.rms_500ms,
        after.silence == before.silence,
        after.kick_phase is Some <==> before.kick_phase is Some,
        after.kick_phase is Some ==> {
            let judged = after.kick_phase->0;
            let kick = before.kick_phase->0;
            &&& judged.expected_bpm == kick.expected_bpm
            &&& judged.candidate_onsets == kick.candidate_onsets
            &&& judged.matched_beats == kick.matched_beats
            &&& judged.expected_beats == kick.expected_beats
            &&& judged.beat_coverage == kick.beat_coverage
            &&& judged.p95_ms == kick.p95_ms
            &&& judged.max_ms == kick.max_ms
            &&& judged.handoff_ms == kick.handoff_ms
        },
{
}

/// The agreed thresholds are 0.65 and eight kicks, 25, 35 and 25 milliseconds, 0.35,
/// 250 milliseconds below -45 dBFS, and peaks of -1 dB, and no others.
pub proof fn agreed_thresholds_have_one_value_each(thresholds: Thresholds)
    ensures
        thresholds.agreed() <==> {
            &&& scalar::key(thresholds.min_kick_coverage) == 0x3F26_6666
            &&& thresholds.min_matched_kicks == 8
            &&& scalar::key(thresholds.kick_phase_p95_ms) == 0x41C8_0000
            &&& scalar::key(thresholds.kick_phase_max_ms) == 0x420C_0000
            &&& scalar::key(thresholds.kick_handoff_ms) == 0x41C8_0000
            &&& scalar::key(thresholds.minimum_rms_gap_ratio) == 0x3EB3_3333
            &&& thresholds.silence_window_ms == 250
            &&& scalar::key(thresholds.silence_threshold_dbfs) == -0x4234_0000
            &&& scalar::key(thresholds.maximum_sample_peak_dbfs) == -0x3F80_0000
            &&& scalar::key(thresholds.maximum_true_peak_dbtp) == -0x3F80_0000
        },
{
}

/// What the fresh analysis of a track came from.
#[derive(Clone, Copy, Debug, PartialEq, Eq, Structural)]
pub enum AnalysisBackend {
    Neural,
    ClassicalPermanentIneligible,
    ClassicalTransientFailure,
    CachedNeural,
    CachedClassicalPermanentIneligible,
    CachedClassicalTransientFailure,
}

impl AnalysisBackend {
    /// Whether the analysis is a fresh one by the neural model.
    pub fn is_fresh_neural(self) -> (r: bool)
        ensures
            r == (self == AnalysisBackend::Neural),
    {
        matches!(self, AnalysisBackend::Neural)
    }

    /// The name of the backend in reports.
    pub open spec fn name(self) -> Seq<char> {
        match self {
            AnalysisBackend::Neural => "Neural"@,
            AnalysisBackend::ClassicalPermanentIneligible => "ClassicalPermanentIneligible"@,
            AnalysisBackend::ClassicalTransientFailure => "ClassicalTransientFailure"@,
            AnalysisBackend::CachedNeural => "CachedNeural"@,
            AnalysisBackend::CachedClassicalPermanentIneligible =>
                "CachedClassicalPermanentIneligible"@,
            AnalysisBackend::CachedClassicalTransientFailure => "CachedClassicalTransientFailure"@,
        }
    }

    /// The name of the backend in reports.
    pub fn as_str(self) -> (r: &'static str)
        ensures
            r@ == self.name(),
    {
        match self {
            AnalysisBackend::Neural => "Neural",
            AnalysisBackend::ClassicalPermanentIneligible => "ClassicalPermanentIneligible",
            AnalysisBackend::ClassicalTransientFailure => "ClassicalTransientFailure",
            AnalysisBackend::CachedNeural => "CachedNeural",
            AnalysisBackend::CachedClassicalPermanentIneligible => "CachedClassicalPermanentIneligible",
            AnalysisBackend::CachedClassicalTransientFailure => "CachedClassicalTransientFailure",
        }
    }

    /// Why the analysis came from the backend.
    pub open spec fn reason(self) -> Seq<char> {
        match self {
            AnalysisBackend::Neural => "fresh_neural_inference"@,
            AnalysisBackend::ClassicalPermanentIneligible =>
                "fresh_classical_permanent_ineligible"@,
            AnalysisBackend::ClassicalTransientFailure => "fresh_classical_transient_fallback"@,
            AnalysisBackend::CachedNeural => "analysis_cache_hit"@,
            AnalysisBackend::CachedClassicalPermanentIneligible => "classical_cache_hit"@,
            AnalysisBackend::CachedClassicalTransientFailure =>
                "classical_transient_fallback_cache_hit"@,
        }
    }
}

/// Why an analysis came from its backend.
pub fn analysis_backend_reason(backend: AnalysisBackend) -> (r: &'static str)
    ensures
        r@ == backend.reason(),
{
    match backend {
        AnalysisBackend::Neural => "fresh_neural_inference",
        AnalysisBackend::ClassicalPermanentIneligible => "fresh_classical_permanent_ineligible",
        AnalysisBackend::ClassicalTransientFailure => "fresh_classical_transient_fallback",
        AnalysisBackend::CachedNeural => "analysis_cache_hit",
        AnalysisBackend::CachedClassicalPermanentIneligible => "classical_cache_hit",
        AnalysisBackend::CachedClassicalTransientFailure => "classical_transient_fallback_cache_hit",
    }
}

/// Whether a track may be judged strictly: its bytes are known and its analysis is a
/// fresh one by the neural model.
pub fn strict_analysis_passes(acquisition_ok: bool, backend: Option<AnalysisBackend>) -> (r: bool)
    ensures
        r == (acquisition_ok && backend == Some(AnalysisBackend::Neural)),
{
    match backend {
        Some(backend) => acquisition_ok && backend.is_fresh_neural(),
        None => false,
    }
}

/// Each backend is reported under its own name and reason, and each kind of transition
/// under its own name.
pub proof fn backends_and_kinds_have_their_names()
    ensures
        AnalysisBackend::Neural.name() == "Neural"@,
        AnalysisBackend::ClassicalPermanentIneligible.name() == "ClassicalPermanentIneligible"@,
        AnalysisBackend::ClassicalTransientFailure.name() == "ClassicalTransientFailure"@,
        AnalysisBackend::CachedNeural.name() == "CachedNeural"@,
        AnalysisBackend::CachedClassicalPermanentIneligible.name()
            == "CachedClassicalPermanentIneligible"@,
        AnalysisBackend::CachedClassicalTransientFailure.name()
            == "CachedClassicalTransientFailure"@,
        AnalysisBackend::Neural.reason() == "fresh_neural_inference"@,
        AnalysisBackend::ClassicalPermanentIneligible.reason()
            == "fresh_classical_permanent_ineligible"@,
        AnalysisBackend::ClassicalTransientFailure.reason()
            == "fresh_classical_transient_fallback"@,
        AnalysisBackend::CachedNeural.reason() == "analysis_cache_hit"@,
        AnalysisBackend::CachedClassicalPermanentIneligible.reason() == "classical_cache_hit"@,
        AnalysisBackend::CachedClassicalTransientFailure.reason()
            == "classical_transient_fallback_cache_hit"@,
        spec_transition_kind(TransitionKind::BeatMatched) == "BeatMatched"@,
        spec_transition_kind(TransitionKind::Crossfade) == "Crossfade"@,
        spec_transition_kind(TransitionKind::Gapless) == "Gapless"@,
{
}

} // verus!
