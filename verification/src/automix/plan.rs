//! Transition plans, their quality, and the guard that rejects unsafe ones.

use vstd::prelude::*;

use super::alignment::{PhaseMeasurements, MAX_PHRASE_PHASE_ERROR_NANOS};
use super::energy::{
    dip_is_blocking, mix_energy_dip_is_blocking, DualVocalOverlapReport, TransitionEnergyReport,
    MIN_BLOCKING_ENERGY_GAP_NANOS,
};
use super::kinds::TransitionKind;
use super::markers::MAX_BEATMATCH_PHASE_ERROR_NANOS;
use super::timing::{longest_fade, plan_transition_timing};
use super::track::{
    harmonic_compatibility, keys_clash, spec_harmonic_compatibility, spec_keys_clash,
    AutoMixConfig, TrackAnalysis,
};
use crate::scalar;
use crate::time::{spec_distance, spec_max, spec_min, Duration, MAX_NANOS};

verus! {

/// The shortest overlap that counts as a mix (one second).
pub const MIN_AUDIBLE_MIX_OVERLAP_NANOS: u128 = 1_000_000_000;

/// The longest overlap of tracks whose keys clash (four seconds).
pub const MAX_CLASHING_OVERLAP_NANOS: u128 = 4_000_000_000;

/// How far an overlap may miss an audible end (20 milliseconds).
pub const END_TOLERANCE_NANOS: u128 = 20_000_000;

/// How far bars may drift apart (70 milliseconds).
pub const MAX_DOWNBEAT_PHASE_ERROR_NANOS: u128 = 70_000_000;

/// The least bass gain of the handoff (0.85).
pub const MIN_LOW_HANDOFF_GAIN: u32 = 0x3F59_999A;

/// The greatest bass gain of the handoff (1.15).
pub const MAX_LOW_HANDOFF_GAIN: u32 = 0x3F93_3333;

/// The greatest collision of two vocals (0.58).
pub const MAX_DUAL_VOCAL_RISK: u32 = 0x3F14_7AE1;

/// How many tempo segments an envelope holds.
pub const MAX_TEMPO_SEGMENTS: usize = 32;

/// Identifies which deck an equalizer curve belongs to during an overlap.
#[derive(Clone, Copy, Debug, PartialEq, Eq, Structural)]
pub enum EqTransitionRole {
    Outgoing,
    Incoming,
}

/// Per-band linear gain, as bits. One leaves the band unchanged.
#[derive(Clone, Copy, Debug, PartialEq, Eq, Structural)]
pub struct EqGains {
    pub low: u32,
    pub mid: u32,
    pub high: u32,
}

/// A source-timeline EQ automation used to exchange bass between overlapping decks.
#[derive(Clone, Copy, Debug, PartialEq, Eq, Structural)]
pub struct EqTransition {
    /// Stable identifier used to replace or cancel scheduled automation.
    pub id: u64,
    pub source_start: Duration,
    pub duration: Duration,
    pub role: EqTransitionRole,
    pub harmonic_compatibility: Option<u32>,
}

/// How far an automation has come at a position.
#[derive(Clone, Copy, Debug, PartialEq, Eq, Structural)]
pub enum EqProgress {
    NotStarted,
    Finished,
    /// So much of the duration has passed.
    Elapsed(Duration),
}

impl EqTransition {
    /// How far the automation has come at a position of the source timeline: an
    /// empty one is finished where it starts.
    pub fn progress_at(&self, timeline_position: Duration) -> (r: EqProgress)
        ensures
            r == if timeline_position@ < self.source_start@ {
                EqProgress::NotStarted
            } else if self.duration@ == 0 {
                EqProgress::Finished
            } else {
                EqProgress::Elapsed(
                    Duration { nanos: (timeline_position@ - self.source_start@) as u128 },
                )
            },
    {
        if timeline_position.shorter(self.source_start) {
            EqProgress::NotStarted
        } else if self.duration.is_zero() {
            EqProgress::Finished
        } else {
            EqProgress::Elapsed(timeline_position.saturating_sub(self.source_start))
        }
    }
}

#[derive(Clone, Copy, Debug, PartialEq, Eq, Structural)]
pub struct AutoMixEnergySelection {
    pub default_start: Duration,
    pub selected_start: Duration,
    pub candidates_checked: usize,
}

#[derive(Clone, Copy, Debug, PartialEq, Eq, Structural)]
pub struct AutoMixIncomingCueSelection {
    pub default_start: Duration,
    pub selected_start: Duration,
    pub candidates_checked: usize,
}

/// One stretch of constant speed; the speed is bits.
#[derive(Clone, Copy, Debug, PartialEq, Eq, Structural)]
pub struct TempoSegment {
    pub output_end: Duration,
    pub speed: u32,
}

/// Maps output time to source time while the incoming deck returns to native
/// tempo. Speeds are bits.
#[derive(Clone, Debug)]
pub struct TempoEnvelope {
    pub initial_speed: u32,
    /// Target speed reached at the end of the overlap.
    pub mix_end_speed: u32,
    pub hold: Duration,
    pub ramp: Duration,
    /// Stretches of constant speed inside the overlap, none past the limit.
    pub phase_segments: Vec<TempoSegment>,
}

/// Where on an envelope a moment lies.
#[derive(Clone, Copy, Debug, PartialEq, Eq, Structural)]
pub enum EnvelopeStretch {
    /// At one speed, given by its bits.
    Steady(u32),
    /// On the way from the initial speed to that of the mix end.
    Hold,
    /// On the way back to native speed, so long after the hold.
    Ramp(Duration),
    /// Past the ramp, at native speed.
    Native,
}

impl TempoEnvelope {
    /// Whether the envelope holds no more segments than it may.
    pub open spec fn wf(&self) -> bool {
        self.phase_segments@.len() <= MAX_TEMPO_SEGMENTS
    }

    /// An envelope without segments.
    pub fn new(initial_speed: u32, mix_end_speed: u32, hold: Duration, ramp: Duration) -> (r: Self)
        ensures
            r.initial_speed == initial_speed,
            r.mix_end_speed == mix_end_speed,
            r.hold == hold,
            r.ramp == ramp,
            r.phase_segments@.len() == 0,
            r.wf(),
    {
        TempoEnvelope { initial_speed, mix_end_speed, hold, ramp, phase_segments: Vec::new() }
    }

    /// The envelope with the first segments of a list, as many as it may hold.
    pub fn with_phase_segments(self, segments: &Vec<TempoSegment>) -> (r: Self)
        ensures
            r.initial_speed == self.initial_speed,
            r.mix_end_speed == self.mix_end_speed,
            r.hold == self.hold,
            r.ramp == self.ramp,
            r.phase_segments@ == segments@.take(
                spec_min(segments@.len() as int, MAX_TEMPO_SEGMENTS as int),
            ),
            r.wf(),
    {
        let mut kept: Vec<TempoSegment> = Vec::new();
        let mut i: usize = 0;
        while i < segments.len() && i < MAX_TEMPO_SEGMENTS
            invariant
                i <= segments@.len(),
                i <= MAX_TEMPO_SEGMENTS,
                kept@ == segments@.take(i as int),
            decreases segments@.len() - i,
        {
            kept.push(segments[i]);
            assert(kept@ =~= segments@.take(i + 1));
            i += 1;
        }
        TempoEnvelope {
            initial_speed: self.initial_speed,
            mix_end_speed: self.mix_end_speed,
            hold: self.hold,
            ramp: self.ramp,
            phase_segments: kept,
        }
    }

    /// The first segment, from one on, that reaches a moment.
    pub open spec fn segment_reaching(&self, moment: int, from: int) -> Option<int>
        decreases self.phase_segments@.len() - from,
    {
        if from >= self.phase_segments@.len() {
            None
        } else if moment <= self.phase_segments@[from].output_end@ {
            Some(from)
        } else {
            self.segment_reaching(moment, from + 1)
        }
    }

    /// Where a moment lies on the envelope.
    pub open spec fn stretch(&self, output_elapsed: Duration) -> EnvelopeStretch {
        if output_elapsed@ <= self.hold@ {
            match self.segment_reaching(output_elapsed@, 0) {
                Some(index) => EnvelopeStretch::Steady(self.phase_segments@[index].speed),
                None => if self.phase_segments@.len() > 0 || self.hold@ == 0 {
                    EnvelopeStretch::Steady(self.mix_end_speed)
                } else {
                    EnvelopeStretch::Hold
                },
            }
        } else if output_elapsed@ - self.hold@ >= self.ramp@ {
            EnvelopeStretch::Native
        } else {
            EnvelopeStretch::Ramp(
                Duration { nanos: (output_elapsed@ - self.hold@) as u128 },
            )
        }
    }

    /// Where a moment lies on the envelope: in the overlap at the speed of the
    /// first segment that reaches it, past the last segment at the speed of the
    /// mix end, without segments on the way between both; then on the ramp, and
    /// past it at native speed.
    pub fn stretch_at(&self, output_elapsed: Duration) -> (r: EnvelopeStretch)
        ensures
            r == self.stretch(output_elapsed),
    {
        if output_elapsed.within(self.hold) {
            let mut i: usize = 0;
            while i < self.phase_segments.len()
                invariant
                    i <= self.phase_segments@.len(),
                    output_elapsed@ <= self.hold@,
                    self.segment_reaching(output_elapsed@, 0) == self.segment_reaching(
                        output_elapsed@,
                        i as int,
                    ),
                decreases self.phase_segments@.len() - i,
            {
                if output_elapsed.within(self.phase_segments[i].output_end) {
                    return EnvelopeStretch::Steady(self.phase_segments[i].speed);
                }
                i += 1;
            }
            if self.phase_segments.len() > 0 || self.hold.is_zero() {
                return EnvelopeStretch::Steady(self.mix_end_speed);
            }
            return EnvelopeStretch::Hold;
        }
        let ramp_elapsed = output_elapsed.saturating_sub(self.hold);
        if self.ramp.within(ramp_elapsed) {
            return EnvelopeStretch::Native;
        }
        EnvelopeStretch::Ramp(ramp_elapsed)
    }
}

/// A span of the output that plays at one speed, given by its bits.
#[derive(Clone, Copy, Debug, PartialEq, Eq, Structural)]
pub struct SpeedSpan {
    pub length: Duration,
    pub speed: u32,
}

impl TempoEnvelope {
    /// The spans of the overlap up to a moment, from one segment on: each segment
    /// from the end of the one before it, and what is left at the speed of the mix
    /// end. Empty spans are left out.
    pub open spec fn spans_from(&self, index: int, previous_end: int, target: int) -> Seq<SpeedSpan>
        decreases self.phase_segments@.len() - index,
    {
        if index < 0 || index >= self.phase_segments@.len() {
            if previous_end < target {
                seq![
                    SpeedSpan {
                        length: Duration { nanos: (target - previous_end) as u128 },
                        speed: self.mix_end_speed,
                    },
                ]
            } else {
                Seq::empty()
            }
        } else {
            let segment = self.phase_segments@[index];
            let end = spec_min(segment.output_end@, target);
            let here = if previous_end < end {
                seq![
                    SpeedSpan {
                        length: Duration { nanos: (end - previous_end) as u128 },
                        speed: segment.speed,
                    },
                ]
            } else {
                Seq::empty()
            };
            if target <= segment.output_end@ {
                here
            } else {
                here + self.spans_from(index + 1, segment.output_end@, target)
            }
        }
    }

    /// The spans of constant speed that play up to a moment, inside the overlap.
    pub fn hold_spans(&self, output_elapsed: Duration) -> (r: Vec<SpeedSpan>)
        ensures
            r@ == self.spans_from(0, 0, spec_min(output_elapsed@, self.hold@)),
    {
        let target = output_elapsed.min(self.hold);
        let ghost all = self.spans_from(0, 0, target@);
        let mut spans: Vec<SpeedSpan> = Vec::new();
        let mut previous_end = Duration::zero();
        let mut i: usize = 0;
        assert(spans@ + all =~= all);
        while i < self.phase_segments.len()
            invariant
                i <= self.phase_segments@.len(),
                target@ == spec_min(output_elapsed@, self.hold@),
                all == self.spans_from(0, 0, target@),
                spans@ + self.spans_from(i as int, previous_end@, target@) == all,
            decreases self.phase_segments@.len() - i,
        {
            let segment = self.phase_segments[i];
            let end = segment.output_end.min(target);
            let ghost before = spans@;
            let ghost rest = self.spans_from(i as int, previous_end@, target@);
            let ghost tail = self.spans_from(i + 1, segment.output_end@, target@);
            if previous_end.shorter(end) {
                let length = end.saturating_sub(previous_end);
                assert(length == Duration { nanos: (end@ - previous_end@) as u128 });
                spans.push(SpeedSpan { length, speed: segment.speed });
                assert(before + (seq![spans@.last()] + tail) =~= spans@ + tail);
                assert(before + seq![spans@.last()] =~= spans@);
            } else {
                assert(before + (Seq::<SpeedSpan>::empty() + tail) =~= spans@ + tail);
                assert(before + Seq::<SpeedSpan>::empty() =~= spans@);
            }
            previous_end = segment.output_end;
            if target.within(segment.output_end) {
                return spans;
            }
            i += 1;
        }
        if previous_end.shorter(target) {
            let length = target.saturating_sub(previous_end);
            assert(length == Duration { nanos: (target@ - previous_end@) as u128 });
            let ghost before = spans@;
            spans.push(SpeedSpan { length, speed: self.mix_end_speed });
            assert(before + seq![spans@.last()] =~= spans@);
        } else {
            assert(spans@ + Seq::<SpeedSpan>::empty() =~= spans@);
        }
        spans
    }
}

/// A planned transition. Numbers are bits.
#[derive(Clone, Debug)]
pub struct TransitionPlan {
    pub kind: TransitionKind,
    pub outgoing_start: Duration,
    pub incoming_start: Duration,
    pub incoming_cue_selection: Option<AutoMixIncomingCueSelection>,
    pub duration: Duration,
    /// Playback speed applied to the incoming deck. One preserves its tempo.
    pub incoming_tempo_ratio: u32,
    pub harmonic_compatibility: Option<u32>,
    /// Relative gain retained by the incoming track after the overlap.
    pub incoming_gain: u32,
    pub tempo_envelope: Option<TempoEnvelope>,
    pub energy_selection: Option<AutoMixEnergySelection>,
}

impl TransitionPlan {
    /// Whether the two tracks sound together for some time.
    pub open spec fn overlaps(&self) -> bool {
        self.kind != TransitionKind::Gapless && self.duration@ > 0
    }

    /// Whether the two tracks sound together for some time.
    pub fn has_overlap(&self) -> (r: bool)
        ensures
            r == self.overlaps(),
    {
        self.kind != TransitionKind::Gapless && !self.duration.is_zero()
    }

    /// The equalizers of both decks: each runs from the start of the overlap on its
    /// own timeline, that of the incoming deck for as much of its source as the
    /// overlap consumes.
    pub fn deck_equalizers(&self, incoming_source: Duration) -> (r: (EqTransition, EqTransition))
        ensures
            r.0 == (EqTransition {
                id: 0,
                source_start: self.outgoing_start,
                duration: self.duration,
                role: EqTransitionRole::Outgoing,
                harmonic_compatibility: self.harmonic_compatibility,
            }),
            r.1 == (EqTransition {
                id: 0,
                source_start: self.incoming_start,
                duration: incoming_source,
                role: EqTransitionRole::Incoming,
                harmonic_compatibility: self.harmonic_compatibility,
            }),
    {
        let outgoing = EqTransition {
            id: 0,
            source_start: self.outgoing_start,
            duration: self.duration,
            role: EqTransitionRole::Outgoing,
            harmonic_compatibility: self.harmonic_compatibility,
        };
        let incoming = EqTransition {
            id: 0,
            source_start: self.incoming_start,
            duration: incoming_source,
            role: EqTransitionRole::Incoming,
            harmonic_compatibility: self.harmonic_compatibility,
        };
        (outgoing, incoming)
    }
}

/// What a quality check found wrong. Gains, risks and ratios are bits.
#[derive(Clone, Copy, Debug, PartialEq, Eq, Structural)]
pub enum AutoMixQualityIssue {
    MixOverlapTooShort { overlap: Duration },
    OutgoingOverlapMissesAudibleEnd { actual: Duration, expected: Duration },
    IncomingOverlapExceedsAudibleEnd { actual: Duration, expected: Duration },
    BeatPhaseUnverified,
    DownbeatPhaseUnverified,
    BeatPhaseDriftTooLarge { max_error: Duration },
    BeatHandoffPhaseDriftTooLarge { error: Duration },
    DownbeatPhaseDriftTooLarge { max_error: Duration },
    DownbeatHandoffPhaseDriftTooLarge { error: Duration },
    PhrasePhaseDriftTooLarge { max_error: Duration },
    PhraseHandoffPhaseDriftTooLarge { error: Duration },
    LowHandoffDip { min_gain: u32 },
    LowHandoffBuildUp { max_gain: u32 },
    DualVocalOverlapTooHigh { max_risk: u32 },
    MixEnergyDipTooDeep { min_ratio: u32 },
}

impl AutoMixQualityIssue {
    /// Whether the issue blocks a transition: all do but those of the bass gain.
    pub open spec fn blocks(self) -> bool {
        !(self is LowHandoffDip) && !(self is LowHandoffBuildUp)
    }

    /// Whether the issue blocks a transition: all do but those of the bass gain.
    pub fn blocks_automatic_transition(&self) -> (r: bool)
        ensures
            r == self.blocks(),
    {
        match self {
            AutoMixQualityIssue::LowHandoffDip { .. }
            | AutoMixQualityIssue::LowHandoffBuildUp { .. } => false,
            _ => true,
        }
    }
}

/// What a quality check measured and found. Ratios, gains and risks are bits.
#[derive(Clone, Debug)]
pub struct AutoMixQualityReport {
    pub issues: Vec<AutoMixQualityIssue>,
    pub overlap: Duration,
    pub beat_pairs_checked: usize,
    /// Fraction of the expected beat-pair slots in the overlap backed by
    /// observed, trusted markers. `None` means no valid BPM-derived grid.
    pub beat_phase_coverage: Option<u32>,
    pub max_beat_phase_error: Option<Duration>,
    pub handoff_beat_phase_error: Option<Duration>,
    pub downbeat_pairs_checked: usize,
    pub max_downbeat_phase_error: Option<Duration>,
    pub handoff_downbeat_phase_error: Option<Duration>,
    pub phrase_pairs_checked: usize,
    pub max_phrase_phase_error: Option<Duration>,
    pub handoff_phrase_phase_error: Option<Duration>,
    pub phrase_boundary_bars: Option<u8>,
    pub structure_overlap_ratio: Option<u32>,
    pub harmonic_compatibility: Option<u32>,
    pub low_handoff_min: Option<u32>,
    pub low_handoff_max: Option<u32>,
    pub vocal_overlap_samples_checked: usize,
    pub max_dual_vocal_risk: Option<u32>,
    pub energy_samples_checked: usize,
    pub min_mix_energy_ratio: Option<u32>,
    pub max_mix_energy_ratio: Option<u32>,
    pub max_mix_energy_step: Option<u32>,
    pub handoff_mix_energy_ratio: Option<u32>,
    pub handoff_incoming_mix_share: Option<u32>,
    pub max_tempo_speed_step: Option<u32>,
}

/// Whether any issue of a list blocks a transition.
pub open spec fn any_blocks(issues: Seq<AutoMixQualityIssue>) -> bool {
    exists|i: int| 0 <= i < issues.len() && (#[trigger] issues[i]).blocks()
}

impl AutoMixQualityReport {
    /// Whether nothing was found wrong.
    pub fn is_ok(&self) -> (r: bool)
        ensures
            r == (self.issues@.len() == 0),
    {
        self.issues.len() == 0
    }

    /// Whether any issue blocks a transition.
    pub open spec fn blocked(&self) -> bool {
        any_blocks(self.issues@)
    }

    /// Whether any issue blocks a transition.
    pub fn has_blocking_issue(&self) -> (r: bool)
        ensures
            r == self.blocked(),
    {
        let mut i: usize = 0;
        while i < self.issues.len()
            invariant
                i <= self.issues@.len(),
                forall|k: int| 0 <= k < i ==> !(#[trigger] self.issues@[k]).blocks(),
            decreases self.issues@.len() - i,
        {
            if self.issues[i].blocks_automatic_transition() {
                return true;
            }
            i += 1;
        }
        false
    }
}

/// What was measured on a planned transition.
#[derive(Clone, Copy, Debug, PartialEq, Eq, Structural)]
pub struct TransitionMeasurements {
    /// How much of the incoming track the overlap consumes.
    pub incoming_source: Duration,
    pub low_handoff_min: Option<u32>,
    pub low_handoff_max: Option<u32>,
    pub vocals: DualVocalOverlapReport,
    pub energy: TransitionEnergyReport,
    pub structure_overlap_ratio: Option<u32>,
    pub max_tempo_speed_step: Option<u32>,
    /// What markers say of the phases, where beats are matched.
    pub phases: PhaseMeasurements,
}

/// A list of one issue where a condition holds, else an empty one.
pub open spec fn issue_if(condition: bool, issue: AutoMixQualityIssue) -> Seq<AutoMixQualityIssue> {
    if condition {
        seq![issue]
    } else {
        Seq::empty()
    }
}

/// Whether an error was observed and is larger than a limit.
pub open spec fn drifts(error: Option<Duration>, limit: u128) -> bool {
    error is Some && error->0@ > limit
}

/// Where the overlap ends on the outgoing track.
pub open spec fn outgoing_overlap_end(plan: TransitionPlan) -> Duration {
    Duration {
        nanos: spec_min(plan.outgoing_start@ + plan.duration@, MAX_NANOS as int) as u128,
    }
}

/// Where the overlap ends on the incoming track.
pub open spec fn incoming_overlap_end(plan: TransitionPlan, source: Duration) -> Duration {
    Duration { nanos: spec_min(plan.incoming_start@ + source@, MAX_NANOS as int) as u128 }
}

/// The issues of an overlap's length and ends.
pub open spec fn overlap_issues(
    outgoing: TrackAnalysis,
    incoming: TrackAnalysis,
    plan: TransitionPlan,
    measured: TransitionMeasurements,
) -> Seq<AutoMixQualityIssue> {
    let out_end = outgoing_overlap_end(plan);
    let in_end = incoming_overlap_end(plan, measured.incoming_source);
    issue_if(
        plan.duration@ < MIN_AUDIBLE_MIX_OVERLAP_NANOS,
        AutoMixQualityIssue::MixOverlapTooShort { overlap: plan.duration },
    ) + issue_if(
        spec_distance(out_end@, outgoing.audible_end@) > END_TOLERANCE_NANOS,
        AutoMixQualityIssue::OutgoingOverlapMissesAudibleEnd {
            actual: out_end,
            expected: outgoing.audible_end,
        },
    ) + issue_if(
        in_end@ > spec_min(incoming.audible_end@ + END_TOLERANCE_NANOS, MAX_NANOS as int),
        AutoMixQualityIssue::IncomingOverlapExceedsAudibleEnd {
            actual: in_end,
            expected: incoming.audible_end,
        },
    )
}

/// The issues of bass, vocals and energy.
pub open spec fn level_issues(measured: TransitionMeasurements) -> Seq<AutoMixQualityIssue> {
    let bass_known = measured.low_handoff_min is Some && measured.low_handoff_max is Some;
    issue_if(
        bass_known && scalar::spec_less(measured.low_handoff_min->0, MIN_LOW_HANDOFF_GAIN),
        AutoMixQualityIssue::LowHandoffDip { min_gain: measured.low_handoff_min->0 },
    ) + issue_if(
        bass_known && scalar::spec_less(MAX_LOW_HANDOFF_GAIN, measured.low_handoff_max->0),
        AutoMixQualityIssue::LowHandoffBuildUp { max_gain: measured.low_handoff_max->0 },
    ) + issue_if(
        measured.vocals.max_risk is Some && scalar::spec_less(
            MAX_DUAL_VOCAL_RISK,
            measured.vocals.max_risk->0,
        ),
        AutoMixQualityIssue::DualVocalOverlapTooHigh { max_risk: measured.vocals.max_risk->0 },
    ) + issue_if(
        measured.energy.min_ratio is Some && dip_is_blocking(measured.energy.min_ratio->0)
            && measured.energy.longest_blocking_gap@ >= MIN_BLOCKING_ENERGY_GAP_NANOS,
        AutoMixQualityIssue::MixEnergyDipTooDeep { min_ratio: measured.energy.min_ratio->0 },
    )
}

/// The issues of the phase of beats, bars and phrases.
pub open spec fn phase_issues(
    outgoing: TrackAnalysis,
    incoming: TrackAnalysis,
    measured: TransitionMeasurements,
) -> Seq<AutoMixQualityIssue> {
    let beat = measured.phases.beat.phase.max_error;
    let downbeat = measured.phases.downbeat.max_error;
    issue_if(
        drifts(beat, MAX_BEATMATCH_PHASE_ERROR_NANOS),
        AutoMixQualityIssue::BeatPhaseDriftTooLarge { max_error: beat->0 },
    ) + issue_if(beat is None, AutoMixQualityIssue::BeatPhaseUnverified) + issue_if(
        drifts(measured.phases.beat.handoff_error, MAX_BEATMATCH_PHASE_ERROR_NANOS),
        AutoMixQualityIssue::BeatHandoffPhaseDriftTooLarge {
            error: measured.phases.beat.handoff_error->0,
        },
    ) + issue_if(
        drifts(downbeat, MAX_DOWNBEAT_PHASE_ERROR_NANOS),
        AutoMixQualityIssue::DownbeatPhaseDriftTooLarge { max_error: downbeat->0 },
    ) + issue_if(
        downbeat is None && outgoing.downbeat_is_actionable() && incoming.downbeat_is_actionable(),
        AutoMixQualityIssue::DownbeatPhaseUnverified,
    ) + issue_if(
        drifts(measured.phases.downbeat_handoff, MAX_DOWNBEAT_PHASE_ERROR_NANOS),
        AutoMixQualityIssue::DownbeatHandoffPhaseDriftTooLarge {
            error: measured.phases.downbeat_handoff->0,
        },
    ) + issue_if(
        drifts(measured.phases.phrase.max_error, MAX_PHRASE_PHASE_ERROR_NANOS)
            && measured.phases.phrase_actionable,
        AutoMixQualityIssue::PhrasePhaseDriftTooLarge { max_error: measured.phases.phrase.max_error->0 },
    ) + issue_if(
        drifts(measured.phases.phrase_handoff, MAX_PHRASE_PHASE_ERROR_NANOS)
            && measured.phases.phrase_actionable,
        AutoMixQualityIssue::PhraseHandoffPhaseDriftTooLarge {
            error: measured.phases.phrase_handoff->0,
        },
    )
}

/// All issues of a planned transition, in the order in which they are checked. A
/// gapless one has no overlap to check, and only a beat-matched one a phase.
pub open spec fn issues_of(
    outgoing: TrackAnalysis,
    incoming: TrackAnalysis,
    plan: TransitionPlan,
    measured: TransitionMeasurements,
) -> Seq<AutoMixQualityIssue> {
    let levels = if plan.kind == TransitionKind::Gapless {
        Seq::empty()
    } else {
        overlap_issues(outgoing, incoming, plan, measured) + level_issues(measured)
    };
    if plan.kind == TransitionKind::BeatMatched {
        levels + phase_issues(outgoing, incoming, measured)
    } else {
        levels
    }
}

fn push_if(
    issues: &mut Vec<AutoMixQualityIssue>,
    condition: bool,
    issue: AutoMixQualityIssue,
)
    ensures
        final(issues)@ == old(issues)@ + issue_if(condition, issue),
{
    if condition {
        issues.push(issue);
    }
    assert(issues@ =~= old(issues)@ + issue_if(condition, issue));
}

fn is_beyond(error: Option<Duration>, limit: u128) -> (r: bool)
    ensures
        r == drifts(error, limit),
{
    match error {
        Some(value) => value.nanos > limit,
        None => false,
    }
}

fn or_zero(error: Option<Duration>) -> (r: Duration)
    ensures
        error is Some ==> r == error->0,
{
    match error {
        Some(value) => value,
        None => Duration::zero(),
    }
}

fn check_overlap(
    outgoing: &TrackAnalysis,
    incoming: &TrackAnalysis,
    plan: &TransitionPlan,
    measured: &TransitionMeasurements,
) -> (r: Vec<AutoMixQualityIssue>)
    ensures
        r@ == overlap_issues(*outgoing, *incoming, *plan, *measured),
{
    let mut issues: Vec<AutoMixQualityIssue> = Vec::new();
    let tolerance = Duration { nanos: END_TOLERANCE_NANOS };
    let out_end = plan.outgoing_start.saturating_add(plan.duration);
    let in_end = plan.incoming_start.saturating_add(measured.incoming_source);
    push_if(
        &mut issues,
        plan.duration.shorter(Duration { nanos: MIN_AUDIBLE_MIX_OVERLAP_NANOS }),
        AutoMixQualityIssue::MixOverlapTooShort { overlap: plan.duration },
    );
    push_if(
        &mut issues,
        tolerance.shorter(out_end.abs_diff(outgoing.audible_end)),
        AutoMixQualityIssue::OutgoingOverlapMissesAudibleEnd {
            actual: out_end,
            expected: outgoing.audible_end,
        },
    );
    push_if(
        &mut issues,
        incoming.audible_end.saturating_add(tolerance).shorter(in_end),
        AutoMixQualityIssue::IncomingOverlapExceedsAudibleEnd {
            actual: in_end,
            expected: incoming.audible_end,
        },
    );
    assert(issues@ =~= overlap_issues(*outgoing, *incoming, *plan, *measured));
    issues
}

fn check_levels(measured: &TransitionMeasurements) -> (r: Vec<AutoMixQualityIssue>)
    ensures
        r@ == level_issues(*measured),
{
    let mut issues: Vec<AutoMixQualityIssue> = Vec::new();
    if let (Some(min_gain), Some(max_gain)) = (measured.low_handoff_min, measured.low_handoff_max) {
        push_if(
            &mut issues,
            scalar::less(min_gain, MIN_LOW_HANDOFF_GAIN),
            AutoMixQualityIssue::LowHandoffDip { min_gain },
        );
        push_if(
            &mut issues,
            scalar::less(MAX_LOW_HANDOFF_GAIN, max_gain),
            AutoMixQualityIssue::LowHandoffBuildUp { max_gain },
        );
    }
    if let Some(max_risk) = measured.vocals.max_risk {
        push_if(
            &mut issues,
            scalar::less(MAX_DUAL_VOCAL_RISK, max_risk),
            AutoMixQualityIssue::DualVocalOverlapTooHigh { max_risk },
        );
    }
    if let Some(min_ratio) = measured.energy.min_ratio {
        push_if(
            &mut issues,
            mix_energy_dip_is_blocking(min_ratio) && Duration {
                nanos: MIN_BLOCKING_ENERGY_GAP_NANOS,
            }.within(measured.energy.longest_blocking_gap),
            AutoMixQualityIssue::MixEnergyDipTooDeep { min_ratio },
        );
    }
    assert(issues@ =~= level_issues(*measured));
    issues
}

fn check_phase(
    outgoing: &TrackAnalysis,
    incoming: &TrackAnalysis,
    measured: &TransitionMeasurements,
) -> (r: Vec<AutoMixQualityIssue>)
    ensures
        r@ == phase_issues(*outgoing, *incoming, *measured),
{
    let mut issues: Vec<AutoMixQualityIssue> = Vec::new();
    let beat = measured.phases.beat.phase.max_error;
    let downbeat = measured.phases.downbeat.max_error;
    push_if(
        &mut issues,
        is_beyond(beat, MAX_BEATMATCH_PHASE_ERROR_NANOS),
        AutoMixQualityIssue::BeatPhaseDriftTooLarge { max_error: or_zero(beat) },
    );
    assert(issues@ =~= issue_if(
        drifts(beat, MAX_BEATMATCH_PHASE_ERROR_NANOS),
        AutoMixQualityIssue::BeatPhaseDriftTooLarge { max_error: beat->0 },
    ));
    push_if(&mut issues, beat.is_none(), AutoMixQualityIssue::BeatPhaseUnverified);
    push_if(
        &mut issues,
        is_beyond(measured.phases.beat.handoff_error, MAX_BEATMATCH_PHASE_ERROR_NANOS),
        AutoMixQualityIssue::BeatHandoffPhaseDriftTooLarge {
            error: or_zero(measured.phases.beat.handoff_error),
        },
    );
    push_if(
        &mut issues,
        is_beyond(downbeat, MAX_DOWNBEAT_PHASE_ERROR_NANOS),
        AutoMixQualityIssue::DownbeatPhaseDriftTooLarge { max_error: or_zero(downbeat) },
    );
    push_if(
        &mut issues,
        downbeat.is_none() && outgoing.actionable_downbeat_confidence()
            && incoming.actionable_downbeat_confidence(),
        AutoMixQualityIssue::DownbeatPhaseUnverified,
    );
    push_if(
        &mut issues,
        is_beyond(measured.phases.downbeat_handoff, MAX_DOWNBEAT_PHASE_ERROR_NANOS),
        AutoMixQualityIssue::DownbeatHandoffPhaseDriftTooLarge {
            error: or_zero(measured.phases.downbeat_handoff),
        },
    );
    push_if(
        &mut issues,
        is_beyond(measured.phases.phrase.max_error, MAX_PHRASE_PHASE_ERROR_NANOS)
            && measured.phases.phrase_actionable,
        AutoMixQualityIssue::PhrasePhaseDriftTooLarge {
            max_error: or_zero(measured.phases.phrase.max_error),
        },
    );
    push_if(
        &mut issues,
        is_beyond(measured.phases.phrase_handoff, MAX_PHRASE_PHASE_ERROR_NANOS)
            && measured.phases.phrase_actionable,
        AutoMixQualityIssue::PhraseHandoffPhaseDriftTooLarge {
            error: or_zero(measured.phases.phrase_handoff),
        },
    );
    issues
}

/// Whether a report carries the measurements of a planned transition: all of them
/// for a beat-matched one, those of levels for a crossfade, and none of the
/// overlap for a gapless one.
pub open spec fn report_carries(
    report: AutoMixQualityReport,
    plan: TransitionPlan,
    measured: TransitionMeasurements,
) -> bool {
    let mixed = plan.kind != TransitionKind::Gapless;
    let matched = plan.kind == TransitionKind::BeatMatched;
    &&& report.overlap == plan.duration
    &&& report.harmonic_compatibility == plan.harmonic_compatibility
    &&& report.structure_overlap_ratio == measured.structure_overlap_ratio
    &&& report.max_tempo_speed_step == measured.max_tempo_speed_step
    &&& report.low_handoff_min == measured.low_handoff_min
    &&& report.low_handoff_max == measured.low_handoff_max
    &&& report.vocal_overlap_samples_checked == if mixed {
        measured.vocals.samples
    } else {
        0
    }
    &&& report.max_dual_vocal_risk == if mixed {
        measured.vocals.max_risk
    } else {
        None
    }
    &&& report.energy_samples_checked == if mixed {
        measured.energy.samples
    } else {
        0
    }
    &&& report.min_mix_energy_ratio == if mixed {
        measured.energy.min_ratio
    } else {
        None
    }
    &&& report.max_mix_energy_ratio == if mixed {
        measured.energy.max_ratio
    } else {
        None
    }
    &&& report.max_mix_energy_step == if mixed {
        measured.energy.max_step
    } else {
        None
    }
    &&& report.handoff_mix_energy_ratio == if mixed {
        measured.energy.handoff_ratio
    } else {
        None
    }
    &&& report.handoff_incoming_mix_share == if mixed {
        measured.energy.handoff_incoming_share
    } else {
        None
    }
    &&& report.beat_pairs_checked == if matched {
        measured.phases.beat.phase.pairs
    } else {
        0
    }
    &&& report.beat_phase_coverage == if matched {
        measured.phases.beat.phase.coverage
    } else {
        None
    }
    &&& report.max_beat_phase_error == if matched {
        measured.phases.beat.phase.max_error
    } else {
        None
    }
    &&& report.handoff_beat_phase_error == if matched {
        measured.phases.beat.handoff_error
    } else {
        None
    }
    &&& report.downbeat_pairs_checked == if matched {
        measured.phases.downbeat.pairs
    } else {
        0
    }
    &&& report.max_downbeat_phase_error == if matched {
        measured.phases.downbeat.max_error
    } else {
        None
    }
    &&& report.handoff_downbeat_phase_error == if matched {
        measured.phases.downbeat_handoff
    } else {
        None
    }
    &&& report.phrase_pairs_checked == if matched {
        measured.phases.phrase.pairs
    } else {
        0
    }
    &&& report.max_phrase_phase_error == if matched {
        measured.phases.phrase.max_error
    } else {
        None
    }
    &&& report.handoff_phrase_phase_error == if matched {
        measured.phases.phrase_handoff
    } else {
        None
    }
    &&& report.phrase_boundary_bars == if matched {
        measured.phases.phrase_boundary_bars
    } else {
        None
    }
}

/// Judges a planned transition by what was measured on it.
pub fn evaluate_transition_quality(
    outgoing: &TrackAnalysis,
    incoming: &TrackAnalysis,
    plan: &TransitionPlan,
    measured: &TransitionMeasurements,
) -> (r: AutoMixQualityReport)
    ensures
        r.issues@ == issues_of(*outgoing, *incoming, *plan, *measured),
        report_carries(r, *plan, *measured),
{
    let mixed = plan.kind != TransitionKind::Gapless;
    let matched = plan.kind == TransitionKind::BeatMatched;
    let mut issues: Vec<AutoMixQualityIssue> = Vec::new();
    if mixed {
        issues = check_overlap(outgoing, incoming, plan, measured);
        let mut levels = check_levels(measured);
        issues.append(&mut levels);
    }
    if matched {
        let mut phase = check_phase(outgoing, incoming, measured);
        issues.append(&mut phase);
    }
    assert(issues@ =~= issues_of(*outgoing, *incoming, *plan, *measured));
    AutoMixQualityReport {
        issues,
        overlap: plan.duration,
        beat_pairs_checked: if matched {
            measured.phases.beat.phase.pairs
        } else {
            0
        },
        beat_phase_coverage: if matched {
            measured.phases.beat.phase.coverage
        } else {
            None
        },
        max_beat_phase_error: if matched {
            measured.phases.beat.phase.max_error
        } else {
            None
        },
        handoff_beat_phase_error: if matched {
            measured.phases.beat.handoff_error
        } else {
            None
        },
        downbeat_pairs_checked: if matched {
            measured.phases.downbeat.pairs
        } else {
            0
        },
        max_downbeat_phase_error: if matched {
            measured.phases.downbeat.max_error
        } else {
            None
        },
        handoff_downbeat_phase_error: if matched {
            measured.phases.downbeat_handoff
        } else {
            None
        },
        phrase_pairs_checked: if matched {
            measured.phases.phrase.pairs
        } else {
            0
        },
        max_phrase_phase_error: if matched {
            measured.phases.phrase.max_error
        } else {
            None
        },
        handoff_phrase_phase_error: if matched {
            measured.phases.phrase_handoff
        } else {
            None
        },
        phrase_boundary_bars: if matched {
            measured.phases.phrase_boundary_bars
        } else {
            None
        },
        structure_overlap_ratio: measured.structure_overlap_ratio,
        harmonic_compatibility: plan.harmonic_compatibility,
        low_handoff_min: measured.low_handoff_min,
        low_handoff_max: measured.low_handoff_max,
        vocal_overlap_samples_checked: if mixed {
            measured.vocals.samples
        } else {
            0
        },
        max_dual_vocal_risk: if mixed {
            measured.vocals.max_risk
        } else {
            None
        },
        energy_samples_checked: if mixed {
            measured.energy.samples
        } else {
            0
        },
        min_mix_energy_ratio: if mixed {
            measured.energy.min_ratio
        } else {
            None
        },
        max_mix_energy_ratio: if mixed {
            measured.energy.max_ratio
        } else {
            None
        },
        max_mix_energy_step: if mixed {
            measured.energy.max_step
        } else {
            None
        },
        handoff_mix_energy_ratio: if mixed {
            measured.energy.handoff_ratio
        } else {
            None
        },
        handoff_incoming_mix_share: if mixed {
            measured.energy.handoff_incoming_share
        } else {
            None
        },
        max_tempo_speed_step: measured.max_tempo_speed_step,
    }
}

/// A gapless transition is never found wrong.
pub proof fn gapless_is_always_ok(
    outgoing: TrackAnalysis,
    incoming: TrackAnalysis,
    plan: TransitionPlan,
    measured: TransitionMeasurements,
)
    requires
        plan.kind == TransitionKind::Gapless,
    ensures
        issues_of(outgoing, incoming, plan, measured).len() == 0,
{
}

/// A beat-matched transition that nothing blocks has a verified beat phase, and a
/// verified bar phase wherever both downbeats are actionable: what was not
/// observed is never taken for safe.
pub proof fn unblocked_beatmatch_is_verified(
    outgoing: TrackAnalysis,
    incoming: TrackAnalysis,
    plan: TransitionPlan,
    measured: TransitionMeasurements,
)
    requires
        plan.kind == TransitionKind::BeatMatched,
        !any_blocks(issues_of(outgoing, incoming, plan, measured)),
    ensures
        measured.phases.beat.phase.max_error is Some,
        measured.phases.beat.phase.max_error->0@ <= MAX_BEATMATCH_PHASE_ERROR_NANOS,
        outgoing.downbeat_is_actionable() && incoming.downbeat_is_actionable()
            ==> measured.phases.downbeat.max_error is Some && measured.phases.downbeat.max_error->0@
            <= MAX_DOWNBEAT_PHASE_ERROR_NANOS,
        plan.duration@ >= MIN_AUDIBLE_MIX_OVERLAP_NANOS,
{
    let all = issues_of(outgoing, incoming, plan, measured);
    let overlap = overlap_issues(outgoing, incoming, plan, measured);
    let levels = level_issues(measured);
    let phase = phase_issues(outgoing, incoming, measured);
    assert(all =~= overlap + levels + phase);
    assert forall|i: int| 0 <= i < phase.len() implies !(#[trigger] phase[i]).blocks() by {
        assert(all[overlap.len() + levels.len() + i] == phase[i]);
    }
    assert forall|i: int| 0 <= i < overlap.len() implies !(#[trigger] overlap[i]).blocks() by {
        assert(all[i] == overlap[i]);
    }
    let beat = measured.phases.beat.phase.max_error;
    let downbeat = measured.phases.downbeat.max_error;
    let actionable = outgoing.downbeat_is_actionable() && incoming.downbeat_is_actionable();
    let first = issue_if(
        drifts(beat, MAX_BEATMATCH_PHASE_ERROR_NANOS),
        AutoMixQualityIssue::BeatPhaseDriftTooLarge { max_error: beat->0 },
    );
    let second = issue_if(beat is None, AutoMixQualityIssue::BeatPhaseUnverified);
    let third = issue_if(
        drifts(measured.phases.beat.handoff_error, MAX_BEATMATCH_PHASE_ERROR_NANOS),
        AutoMixQualityIssue::BeatHandoffPhaseDriftTooLarge {
            error: measured.phases.beat.handoff_error->0,
        },
    );
    let fourth = issue_if(
        drifts(downbeat, MAX_DOWNBEAT_PHASE_ERROR_NANOS),
        AutoMixQualityIssue::DownbeatPhaseDriftTooLarge { max_error: downbeat->0 },
    );
    let fifth = issue_if(
        downbeat is None && actionable,
        AutoMixQualityIssue::DownbeatPhaseUnverified,
    );
    if drifts(beat, MAX_BEATMATCH_PHASE_ERROR_NANOS) {
        assert(phase[0] == first[0]);
        assert(phase[0].blocks());
    }
    if beat is None {
        assert(phase[0] == second[0]);
        assert(phase[0].blocks());
    }
    if drifts(downbeat, MAX_DOWNBEAT_PHASE_ERROR_NANOS) {
        assert(phase[third.len() as int] == fourth[0]);
        assert(phase[third.len() as int].blocks());
    }
    if downbeat is None && actionable {
        assert(phase[third.len() as int] == fifth[0]);
        assert(phase[third.len() as int].blocks());
    }
    if plan.duration@ < MIN_AUDIBLE_MIX_OVERLAP_NANOS {
        assert(overlap[0].blocks());
    }
}

/// A plan that a guard let through, with the one that it rejected.
#[derive(Clone, Debug)]
pub struct GuardedTransitionPlan {
    pub plan: TransitionPlan,
    pub quality: AutoMixQualityReport,
    pub rejected_plan: Option<TransitionPlan>,
    pub rejected_quality: Option<AutoMixQualityReport>,
}

/// The plan that joins two tracks without an overlap.
pub open spec fn is_gapless_plan(
    plan: TransitionPlan,
    outgoing: TrackAnalysis,
    incoming: TrackAnalysis,
) -> bool {
    &&& plan.kind == TransitionKind::Gapless
    &&& plan.outgoing_start == outgoing.audible_end
    &&& plan.incoming_start == incoming.audible_start
    &&& plan.incoming_cue_selection is None
    &&& plan.duration@ == 0
    &&& plan.incoming_tempo_ratio == scalar::ONE_BITS
    &&& plan.harmonic_compatibility == spec_harmonic_compatibility(outgoing, incoming)
    &&& plan.incoming_gain == scalar::ONE_BITS
    &&& plan.tempo_envelope is None
    &&& plan.energy_selection is None
}

/// The plan that joins two tracks without an overlap, at their audible ends.
pub fn gapless_plan(outgoing: &TrackAnalysis, incoming: &TrackAnalysis) -> (r: TransitionPlan)
    ensures
        is_gapless_plan(r, *outgoing, *incoming),
{
    TransitionPlan {
        kind: TransitionKind::Gapless,
        outgoing_start: outgoing.audible_end,
        incoming_start: incoming.audible_start,
        incoming_cue_selection: None,
        duration: Duration::zero(),
        incoming_tempo_ratio: scalar::ONE_BITS,
        harmonic_compatibility: harmonic_compatibility(outgoing, incoming),
        incoming_gain: scalar::ONE_BITS,
        tempo_envelope: None,
        energy_selection: None,
    }
}

/// How much of a track is audible from a position on.
pub open spec fn audible_from(track: TrackAnalysis, start: Duration) -> int {
    spec_max(track.audible_end@ - start@, 0)
}

/// The longest overlap that a plan may ask for: the longest fade of what is
/// audible, and no more than four seconds where keys clash.
pub open spec fn base_overlap(
    outgoing: TrackAnalysis,
    incoming: TrackAnalysis,
    incoming_start: Duration,
    crossfade: Duration,
    harmonic: Option<u32>,
) -> int {
    let fade = longest_fade(
        audible_from(outgoing, outgoing.audible_start),
        audible_from(incoming, incoming_start),
        crossfade@,
    );
    if spec_keys_clash(harmonic) {
        spec_min(fade, MAX_CLASHING_OVERLAP_NANOS as int)
    } else {
        fade
    }
}

/// The longest overlap that a plan may ask for; `None` when there is none.
pub fn base_overlap_duration(
    outgoing: &TrackAnalysis,
    incoming: &TrackAnalysis,
    incoming_start: Duration,
    crossfade: Duration,
    harmonic: Option<u32>,
) -> (r: Option<Duration>)
    ensures
        r is Some <==> base_overlap(*outgoing, *incoming, incoming_start, crossfade, harmonic) > 0,
        r matches Some(duration) ==> duration@ == base_overlap(
            *outgoing,
            *incoming,
            incoming_start,
            crossfade,
            harmonic,
        ),
{
    let available_outgoing = outgoing.audible_end.saturating_sub(outgoing.audible_start);
    let available_incoming = incoming.audible_end.saturating_sub(incoming_start);
    match plan_transition_timing(available_outgoing, available_incoming, crossfade) {
        Some(timing) => if keys_clash(harmonic) {
            Some(timing.fade_duration.min(Duration { nanos: MAX_CLASHING_OVERLAP_NANOS }))
        } else {
            Some(timing.fade_duration)
        },
        None => None,
    }
}

/// The overlap of the conservative crossfade.
pub open spec fn conservative_overlap(
    outgoing: TrackAnalysis,
    incoming: TrackAnalysis,
    config: AutoMixConfig,
    vocal_limit: Duration,
) -> int {
    spec_min(
        base_overlap(
            outgoing,
            incoming,
            incoming.audible_start,
            config.crossfade,
            spec_harmonic_compatibility(outgoing, incoming),
        ),
        vocal_limit@,
    )
}

/// The plan that fades two tracks at their audible ends without touching tempo.
/// `vocal_limit` is how long the tracks may overlap without two vocals at once.
/// Where less than a second of overlap is left, the plan is gapless.
pub fn conservative_crossfade_plan(
    outgoing: &TrackAnalysis,
    incoming: &TrackAnalysis,
    config: &AutoMixConfig,
    vocal_limit: Duration,
) -> (r: TransitionPlan)
    ensures
        !config.enabled || conservative_overlap(*outgoing, *incoming, *config, vocal_limit)
            < MIN_AUDIBLE_MIX_OVERLAP_NANOS ==> is_gapless_plan(r, *outgoing, *incoming),
        config.enabled && conservative_overlap(*outgoing, *incoming, *config, vocal_limit)
            >= MIN_AUDIBLE_MIX_OVERLAP_NANOS ==> {
            &&& r.kind == TransitionKind::Crossfade
            &&& r.duration@ == conservative_overlap(*outgoing, *incoming, *config, vocal_limit)
            &&& r.outgoing_start@ + r.duration@ == outgoing.audible_end@
            &&& r.incoming_start == incoming.audible_start
            &&& r.incoming_cue_selection is None
            &&& r.incoming_tempo_ratio == scalar::ONE_BITS
            &&& r.harmonic_compatibility == spec_harmonic_compatibility(*outgoing, *incoming)
            &&& r.incoming_gain == scalar::ONE_BITS
            &&& r.tempo_envelope is None
            &&& r.energy_selection is None
        },
{
    if !config.enabled {
        return gapless_plan(outgoing, incoming);
    }
    let harmonic = harmonic_compatibility(outgoing, incoming);
    let base = match base_overlap_duration(
        outgoing,
        incoming,
        incoming.audible_start,
        config.crossfade,
        harmonic,
    ) {
        Some(base) => base,
        None => {
            return gapless_plan(outgoing, incoming);
        },
    };
    let duration = base.min(vocal_limit);
    if duration.shorter(Duration { nanos: MIN_AUDIBLE_MIX_OVERLAP_NANOS }) {
        return gapless_plan(outgoing, incoming);
    }
    TransitionPlan {
        kind: TransitionKind::Crossfade,
        outgoing_start: outgoing.audible_end.saturating_sub(duration),
        incoming_start: incoming.audible_start,
        incoming_cue_selection: None,
        duration,
        incoming_tempo_ratio: scalar::ONE_BITS,
        harmonic_compatibility: harmonic,
        incoming_gain: scalar::ONE_BITS,
        tempo_envelope: None,
        energy_selection: None,
    }
}

/// Guards the conservative crossfade: it is kept unless an issue blocks it, else
/// the gapless plan takes its place and the crossfade is noted as rejected.
pub fn conservative_guarded_transition(
    fallback: TransitionPlan,
    fallback_quality: AutoMixQualityReport,
    gapless: TransitionPlan,
    gapless_quality: AutoMixQualityReport,
) -> (r: GuardedTransitionPlan)
    ensures
        !fallback_quality.blocked() ==> r == (GuardedTransitionPlan {
            plan: fallback,
            quality: fallback_quality,
            rejected_plan: None,
            rejected_quality: None,
        }),
        fallback_quality.blocked() ==> r == (GuardedTransitionPlan {
            plan: gapless,
            quality: gapless_quality,
            rejected_plan: Some(fallback),
            rejected_quality: Some(fallback_quality),
        }),
{
    if !fallback_quality.has_blocking_issue() {
        return GuardedTransitionPlan {
            plan: fallback,
            quality: fallback_quality,
            rejected_plan: None,
            rejected_quality: None,
        };
    }
    GuardedTransitionPlan {
        plan: gapless,
        quality: gapless_quality,
        rejected_plan: Some(fallback),
        rejected_quality: Some(fallback_quality),
    }
}

/// Guards a plan: it is kept unless an issue blocks it. Else what the guard of the
/// conservative crossfade lets through takes its place, and the plan itself is
/// noted as the rejected one.
pub fn plan_guarded_transition(
    plan: TransitionPlan,
    quality: AutoMixQualityReport,
    conservative: GuardedTransitionPlan,
) -> (r: GuardedTransitionPlan)
    ensures
        !quality.blocked() ==> r == (GuardedTransitionPlan {
            plan,
            quality,
            rejected_plan: None,
            rejected_quality: None,
        }),
        quality.blocked() ==> r == (GuardedTransitionPlan {
            plan: conservative.plan,
            quality: conservative.quality,
            rejected_plan: Some(plan),
            rejected_quality: Some(quality),
        }),
{
    if !quality.has_blocking_issue() {
        return GuardedTransitionPlan {
            plan,
            quality,
            rejected_plan: None,
            rejected_quality: None,
        };
    }
    GuardedTransitionPlan {
        plan: conservative.plan,
        quality: conservative.quality,
        rejected_plan: Some(plan),
        rejected_quality: Some(quality),
    }
}

/// What a guard lets through is never blocked, as long as its last resort is a
/// gapless plan: a blocked plan gives way to the crossfade, and a blocked
/// crossfade to the gapless one.
pub proof fn guarded_plans_are_not_blocked(
    outgoing: TrackAnalysis,
    incoming: TrackAnalysis,
    gapless: TransitionPlan,
    measured: TransitionMeasurements,
    quality: AutoMixQualityReport,
    fallback_quality: AutoMixQualityReport,
    gapless_quality: AutoMixQualityReport,
)
    requires
        is_gapless_plan(gapless, outgoing, incoming),
        gapless_quality.issues@ == issues_of(outgoing, incoming, gapless, measured),
    ensures
        ({
            let conservative = if fallback_quality.blocked() {
                gapless_quality
            } else {
                fallback_quality
            };
            let kept = if quality.blocked() {
                conservative
            } else {
                quality
            };
            !conservative.blocked() && !kept.blocked()
        }),
{
}

/// Why a transition is beat-matched or not.
#[derive(Clone, Copy, Debug, PartialEq, Eq, Structural)]
pub enum AutoMixBeatMatchDecision {
    Selected,
    Disabled,
    QualityGuarded,
    NoTrustedIncomingBeatStart,
    OutgoingTempoConfidenceTooLow,
    IncomingTempoConfidenceTooLow,
    MissingBpm,
    InvalidBpm,
    TempoDifferenceTooLarge,
    VocalLimitConstrained,
    NoSafeOverlap,
}

/// What the decision on beat matching goes by. `ratio` is the tempo ratio nearest
/// to one among the raw one, its double and its half, `difference` its distance
/// from one; both are bits.
#[derive(Clone, Copy, Debug, PartialEq, Eq, Structural)]
pub struct BeatMatchEvidence {
    pub outgoing_confident: bool,
    pub incoming_confident: bool,
    pub incoming_start_is_trusted: bool,
    pub ratio: Option<u32>,
    pub difference: u32,
}

/// Why a transition is beat-matched or not.
pub open spec fn spec_explain(
    outgoing: TrackAnalysis,
    incoming: TrackAnalysis,
    config: AutoMixConfig,
    guarded: GuardedTransitionPlan,
    evidence: BeatMatchEvidence,
) -> AutoMixBeatMatchDecision {
    if !config.enabled {
        AutoMixBeatMatchDecision::Disabled
    } else if guarded.plan.kind == TransitionKind::BeatMatched {
        AutoMixBeatMatchDecision::Selected
    } else if guarded.rejected_plan is Some && guarded.rejected_plan->0.kind
        == TransitionKind::BeatMatched {
        AutoMixBeatMatchDecision::QualityGuarded
    } else if !evidence.outgoing_confident {
        AutoMixBeatMatchDecision::OutgoingTempoConfidenceTooLow
    } else if !evidence.incoming_confident {
        AutoMixBeatMatchDecision::IncomingTempoConfidenceTooLow
    } else if !evidence.incoming_start_is_trusted {
        AutoMixBeatMatchDecision::NoTrustedIncomingBeatStart
    } else if outgoing.bpm is None || incoming.bpm is None {
        AutoMixBeatMatchDecision::MissingBpm
    } else if scalar::spec_at_most(outgoing.bpm->0, 0) || scalar::spec_at_most(incoming.bpm->0, 0)
        || evidence.ratio is None {
        AutoMixBeatMatchDecision::InvalidBpm
    } else if !scalar::spec_is_finite(evidence.ratio->0) || scalar::spec_less(
        config.max_tempo_adjustment,
        evidence.difference,
    ) {
        AutoMixBeatMatchDecision::TempoDifferenceTooLarge
    } else if guarded.plan.kind == TransitionKind::Gapless {
        AutoMixBeatMatchDecision::NoSafeOverlap
    } else {
        AutoMixBeatMatchDecision::VocalLimitConstrained
    }
}

/// Why a transition is beat-matched or not: the first reason that holds.
pub fn explain_beatmatch_decision(
    outgoing: &TrackAnalysis,
    incoming: &TrackAnalysis,
    config: &AutoMixConfig,
    guarded: &GuardedTransitionPlan,
    evidence: &BeatMatchEvidence,
) -> (r: AutoMixBeatMatchDecision)
    ensures
        r == spec_explain(*outgoing, *incoming, *config, *guarded, *evidence),
{
    if !config.enabled {
        return AutoMixBeatMatchDecision::Disabled;
    }
    if guarded.plan.kind == TransitionKind::BeatMatched {
        return AutoMixBeatMatchDecision::Selected;
    }
    if let Some(rejected) = &guarded.rejected_plan {
        if rejected.kind == TransitionKind::BeatMatched {
            return AutoMixBeatMatchDecision::QualityGuarded;
        }
    }
    if !evidence.outgoing_confident {
        return AutoMixBeatMatchDecision::OutgoingTempoConfidenceTooLow;
    }
    if !evidence.incoming_confident {
        return AutoMixBeatMatchDecision::IncomingTempoConfidenceTooLow;
    }
    if !evidence.incoming_start_is_trusted {
        return AutoMixBeatMatchDecision::NoTrustedIncomingBeatStart;
    }
    if let (Some(outgoing_bpm), Some(incoming_bpm)) = (outgoing.bpm, incoming.bpm) {
        if scalar::at_most(outgoing_bpm, 0) || scalar::at_most(incoming_bpm, 0) {
            return AutoMixBeatMatchDecision::InvalidBpm;
        }
        let ratio = match evidence.ratio {
            Some(ratio) => ratio,
            None => {
                return AutoMixBeatMatchDecision::InvalidBpm;
            },
        };
        if !scalar::is_finite(ratio) || scalar::less(
            config.max_tempo_adjustment,
            evidence.difference,
        ) {
            return AutoMixBeatMatchDecision::TempoDifferenceTooLarge;
        }
        match guarded.plan.kind {
            TransitionKind::Gapless => AutoMixBeatMatchDecision::NoSafeOverlap,
            TransitionKind::Crossfade => AutoMixBeatMatchDecision::VocalLimitConstrained,
            TransitionKind::BeatMatched => AutoMixBeatMatchDecision::Selected,
        }
    } else {
        AutoMixBeatMatchDecision::MissingBpm
    }
}

proof fn lemma_either_list(
    first: Seq<AutoMixQualityIssue>,
    second: Seq<AutoMixQualityIssue>,
    issue: AutoMixQualityIssue,
)
    ensures
        (first + second).contains(issue) <==> first.contains(issue) || second.contains(issue),
{
    let all = first + second;
    if first.contains(issue) {
        let i = choose|i: int| 0 <= i < first.len() && first[i] == issue;
        assert(all[i] == issue);
    }
    if second.contains(issue) {
        let i = choose|i: int| 0 <= i < second.len() && second[i] == issue;
        assert(all[first.len() + i] == issue);
    }
    if all.contains(issue) {
        let i = choose|i: int| 0 <= i < all.len() && all[i] == issue;
        if i < first.len() {
            assert(first[i] == issue);
        } else {
            assert(second[i - first.len()] == issue);
        }
    }
}

proof fn lemma_issue_if(condition: bool, found: AutoMixQualityIssue, issue: AutoMixQualityIssue)
    ensures
        issue_if(condition, found).contains(issue) <==> condition && issue == found,
{
    if condition {
        assert(issue_if(condition, found)[0] == found);
    }
}

/// Of the length and ends of an overlap just this is found wrong: less than a second of
/// overlap, an end that misses the audible end of the outgoing track by more than 20
/// milliseconds, and one that is as much past that of the incoming track.
pub proof fn overlap_issues_name_what_is_wrong(
    outgoing: TrackAnalysis,
    incoming: TrackAnalysis,
    plan: TransitionPlan,
    measured: TransitionMeasurements,
    issue: AutoMixQualityIssue,
)
    requires
        plan.outgoing_start@ + plan.duration@ <= MAX_NANOS,
        plan.incoming_start@ + measured.incoming_source@ <= MAX_NANOS,
        incoming.audible_end@ + 20_000_000 <= MAX_NANOS,
    ensures
        overlap_issues(outgoing, incoming, plan, measured).contains(issue) <==> match issue {
            AutoMixQualityIssue::MixOverlapTooShort { overlap } => overlap == plan.duration
                && plan.duration@ < 1_000_000_000,
            AutoMixQualityIssue::OutgoingOverlapMissesAudibleEnd { actual, expected } => {
                &&& actual@ == plan.outgoing_start@ + plan.duration@
                &&& expected == outgoing.audible_end
                &&& actual@ > expected@ + 20_000_000 || actual@ + 20_000_000 < expected@
            },
            AutoMixQualityIssue::IncomingOverlapExceedsAudibleEnd { actual, expected } => {
                &&& actual@ == plan.incoming_start@ + measured.incoming_source@
                &&& expected == incoming.audible_end
                &&& actual@ > expected@ + 20_000_000
            },
            _ => false,
        },
{
    let out_end = outgoing_overlap_end(plan);
    let in_end = incoming_overlap_end(plan, measured.incoming_source);
    let short = plan.duration@ < MIN_AUDIBLE_MIX_OVERLAP_NANOS;
    let misses = spec_distance(out_end@, outgoing.audible_end@) > END_TOLERANCE_NANOS;
    let exceeds = in_end@ > spec_min(
        incoming.audible_end@ + END_TOLERANCE_NANOS,
        MAX_NANOS as int,
    );
    let a = AutoMixQualityIssue::MixOverlapTooShort { overlap: plan.duration };
    let b = AutoMixQualityIssue::OutgoingOverlapMissesAudibleEnd {
        actual: out_end,
        expected: outgoing.audible_end,
    };
    let c = AutoMixQualityIssue::IncomingOverlapExceedsAudibleEnd {
        actual: in_end,
        expected: incoming.audible_end,
    };
    lemma_issue_if(short, a, issue);
    lemma_issue_if(misses, b, issue);
    lemma_issue_if(exceeds, c, issue);
    lemma_either_list(issue_if(short, a), issue_if(misses, b), issue);
    lemma_either_list(issue_if(short, a) + issue_if(misses, b), issue_if(exceeds, c), issue);
    if let AutoMixQualityIssue::OutgoingOverlapMissesAudibleEnd { actual, .. } = issue {
        assert(actual@ == out_end@ ==> actual == out_end);
    }
    if let AutoMixQualityIssue::IncomingOverlapExceedsAudibleEnd { actual, .. } = issue {
        assert(actual@ == in_end@ ==> actual == in_end);
    }
}

/// Of bass, vocals and energy just this is found wrong: a bass gain below 0.85 or above
/// 1.15 at the handoff, two vocals that collide by more than 0.58, and a level below
/// 0.2 for half a second or longer.
pub proof fn level_issues_name_what_is_wrong(
    measured: TransitionMeasurements,
    issue: AutoMixQualityIssue,
)
    ensures
        level_issues(measured).contains(issue) <==> match issue {
            AutoMixQualityIssue::LowHandoffDip { min_gain } => {
                &&& measured.low_handoff_min == Some(min_gain)
                &&& measured.low_handoff_max is Some
                &&& scalar::spec_less(min_gain, 0x3F59_999A)
            },
            AutoMixQualityIssue::LowHandoffBuildUp { max_gain } => {
                &&& measured.low_handoff_max == Some(max_gain)
                &&& measured.low_handoff_min is Some
                &&& scalar::spec_less(0x3F93_3333, max_gain)
            },
            AutoMixQualityIssue::DualVocalOverlapTooHigh { max_risk } => {
                &&& measured.vocals.max_risk == Some(max_risk)
                &&& scalar::spec_less(0x3F14_7AE1, max_risk)
            },
            AutoMixQualityIssue::MixEnergyDipTooDeep { min_ratio } => {
                &&& measured.energy.min_ratio == Some(min_ratio)
                &&& scalar::spec_is_finite(min_ratio)
                &&& scalar::spec_less(min_ratio, 0x3E4C_CCCD)
                &&& measured.energy.longest_blocking_gap@ >= 500_000_000
            },
            _ => false,
        },
{
    let bass_known = measured.low_handoff_min is Some && measured.low_handoff_max is Some;
    let dips = bass_known && scalar::spec_less(measured.low_handoff_min->0, MIN_LOW_HANDOFF_GAIN);
    let builds = bass_known && scalar::spec_less(
        MAX_LOW_HANDOFF_GAIN,
        measured.low_handoff_max->0,
    );
    let collides = measured.vocals.max_risk is Some && scalar::spec_less(
        MAX_DUAL_VOCAL_RISK,
        measured.vocals.max_risk->0,
    );
    let collapses = measured.energy.min_ratio is Some && dip_is_blocking(
        measured.energy.min_ratio->0,
    ) && measured.energy.longest_blocking_gap@ >= MIN_BLOCKING_ENERGY_GAP_NANOS;
    let a = AutoMixQualityIssue::LowHandoffDip { min_gain: measured.low_handoff_min->0 };
    let b = AutoMixQualityIssue::LowHandoffBuildUp { max_gain: measured.low_handoff_max->0 };
    let c = AutoMixQualityIssue::DualVocalOverlapTooHigh { max_risk: measured.vocals.max_risk->0 };
    let d = AutoMixQualityIssue::MixEnergyDipTooDeep { min_ratio: measured.energy.min_ratio->0 };
    lemma_issue_if(dips, a, issue);
    lemma_issue_if(builds, b, issue);
    lemma_issue_if(collides, c, issue);
    lemma_issue_if(collapses, d, issue);
    let first = issue_if(dips, a) + issue_if(builds, b);
    lemma_either_list(issue_if(dips, a), issue_if(builds, b), issue);
    lemma_either_list(first, issue_if(collides, c), issue);
    lemma_either_list(first + issue_if(collides, c), issue_if(collapses, d), issue);
}

/// Of the phases of a beat-matched overlap just this is found wrong: beats that drift by
/// more than 35 milliseconds or were not observed, bars that drift by more than 70 or
/// were not observed though both downbeats can be acted upon, and phrases that drift by
/// more than 150 where they can be acted upon.
pub proof fn phase_issues_name_what_is_wrong(
    outgoing: TrackAnalysis,
    incoming: TrackAnalysis,
    measured: TransitionMeasurements,
    issue: AutoMixQualityIssue,
)
    ensures
        phase_issues(outgoing, incoming, measured).contains(issue) <==> match issue {
            AutoMixQualityIssue::BeatPhaseUnverified => measured.phases.beat.phase.max_error
                is None,
            AutoMixQualityIssue::DownbeatPhaseUnverified => {
                &&& measured.phases.downbeat.max_error is None
                &&& outgoing.downbeat_is_actionable()
                &&& incoming.downbeat_is_actionable()
            },
            AutoMixQualityIssue::BeatPhaseDriftTooLarge { max_error } => {
                &&& measured.phases.beat.phase.max_error == Some(max_error)
                &&& max_error@ > 35_000_000
            },
            AutoMixQualityIssue::BeatHandoffPhaseDriftTooLarge { error } => {
                &&& measured.phases.beat.handoff_error == Some(error)
                &&& error@ > 35_000_000
            },
            AutoMixQualityIssue::DownbeatPhaseDriftTooLarge { max_error } => {
                &&& measured.phases.downbeat.max_error == Some(max_error)
                &&& max_error@ > 70_000_000
            },
            AutoMixQualityIssue::DownbeatHandoffPhaseDriftTooLarge { error } => {
                &&& measured.phases.downbeat_handoff == Some(error)
                &&& error@ > 70_000_000
            },
            AutoMixQualityIssue::PhrasePhaseDriftTooLarge { max_error } => {
                &&& measured.phases.phrase.max_error == Some(max_error)
                &&& max_error@ > 150_000_000
                &&& measured.phases.phrase_actionable
            },
            AutoMixQualityIssue::PhraseHandoffPhaseDriftTooLarge { error } => {
                &&& measured.phases.phrase_handoff == Some(error)
                &&& error@ > 150_000_000
                &&& measured.phases.phrase_actionable
            },
            _ => false,
        },
{
    let beat = measured.phases.beat.phase.max_error;
    let downbeat = measured.phases.downbeat.max_error;
    let beat_end = measured.phases.beat.handoff_error;
    let bar_end = measured.phases.downbeat_handoff;
    let phrase = measured.phases.phrase.max_error;
    let phrase_end = measured.phases.phrase_handoff;
    let acts = measured.phases.phrase_actionable;
    let a = issue_if(
        drifts(beat, MAX_BEATMATCH_PHASE_ERROR_NANOS),
        AutoMixQualityIssue::BeatPhaseDriftTooLarge { max_error: beat->0 },
    );
    let b = issue_if(beat is None, AutoMixQualityIssue::BeatPhaseUnverified);
    let c = issue_if(
        drifts(beat_end, MAX_BEATMATCH_PHASE_ERROR_NANOS),
        AutoMixQualityIssue::BeatHandoffPhaseDriftTooLarge { error: beat_end->0 },
    );
    let d = issue_if(
        drifts(downbeat, MAX_DOWNBEAT_PHASE_ERROR_NANOS),
        AutoMixQualityIssue::DownbeatPhaseDriftTooLarge { max_error: downbeat->0 },
    );
    let unverified = downbeat is None && outgoing.downbeat_is_actionable()
        && incoming.downbeat_is_actionable();
    let e = issue_if(unverified, AutoMixQualityIssue::DownbeatPhaseUnverified);
    let f = issue_if(
        drifts(bar_end, MAX_DOWNBEAT_PHASE_ERROR_NANOS),
        AutoMixQualityIssue::DownbeatHandoffPhaseDriftTooLarge { error: bar_end->0 },
    );
    let g = issue_if(
        drifts(phrase, MAX_PHRASE_PHASE_ERROR_NANOS) && acts,
        AutoMixQualityIssue::PhrasePhaseDriftTooLarge { max_error: phrase->0 },
    );
    let h = issue_if(
        drifts(phrase_end, MAX_PHRASE_PHASE_ERROR_NANOS) && acts,
        AutoMixQualityIssue::PhraseHandoffPhaseDriftTooLarge { error: phrase_end->0 },
    );
    lemma_issue_if(
        drifts(beat, MAX_BEATMATCH_PHASE_ERROR_NANOS),
        AutoMixQualityIssue::BeatPhaseDriftTooLarge { max_error: beat->0 },
        issue,
    );
    lemma_issue_if(beat is None, AutoMixQualityIssue::BeatPhaseUnverified, issue);
    lemma_issue_if(
        drifts(beat_end, MAX_BEATMATCH_PHASE_ERROR_NANOS),
        AutoMixQualityIssue::BeatHandoffPhaseDriftTooLarge { error: beat_end->0 },
        issue,
    );
    lemma_issue_if(
        drifts(downbeat, MAX_DOWNBEAT_PHASE_ERROR_NANOS),
        AutoMixQualityIssue::DownbeatPhaseDriftTooLarge { max_error: downbeat->0 },
        issue,
    );
    lemma_issue_if(unverified, AutoMixQualityIssue::DownbeatPhaseUnverified, issue);
    lemma_issue_if(
        drifts(bar_end, MAX_DOWNBEAT_PHASE_ERROR_NANOS),
        AutoMixQualityIssue::DownbeatHandoffPhaseDriftTooLarge { error: bar_end->0 },
        issue,
    );
    lemma_issue_if(
        drifts(phrase, MAX_PHRASE_PHASE_ERROR_NANOS) && acts,
        AutoMixQualityIssue::PhrasePhaseDriftTooLarge { max_error: phrase->0 },
        issue,
    );
    lemma_issue_if(
        drifts(phrase_end, MAX_PHRASE_PHASE_ERROR_NANOS) && acts,
        AutoMixQualityIssue::PhraseHandoffPhaseDriftTooLarge { error: phrase_end->0 },
        issue,
    );
    lemma_either_list(a, b, issue);
    lemma_either_list(a + b, c, issue);
    lemma_either_list(a + b + c, d, issue);
    lemma_either_list(a + b + c + d, e, issue);
    lemma_either_list(a + b + c + d + e, f, issue);
    lemma_either_list(a + b + c + d + e + f, g, issue);
    lemma_either_list(a + b + c + d + e + f + g, h, issue);
}

/// A gapless transition is checked for nothing, a crossfade for its overlap and levels,
/// and a beat-matched one for its phases as well.
pub proof fn kinds_are_checked_for_what_they_have(
    outgoing: TrackAnalysis,
    incoming: TrackAnalysis,
    plan: TransitionPlan,
    measured: TransitionMeasurements,
    issue: AutoMixQualityIssue,
)
    ensures
        ({
            let found = issues_of(outgoing, incoming, plan, measured).contains(issue);
            let overlap = overlap_issues(outgoing, incoming, plan, measured).contains(issue);
            let levels = level_issues(measured).contains(issue);
            let phases = phase_issues(outgoing, incoming, measured).contains(issue);
            &&& plan.kind == TransitionKind::Gapless ==> !found
            &&& plan.kind == TransitionKind::Crossfade ==> (found <==> overlap || levels)
            &&& plan.kind == TransitionKind::BeatMatched ==> (found <==> overlap || levels
                || phases)
        }),
{
    let overlap = overlap_issues(outgoing, incoming, plan, measured);
    let levels = level_issues(measured);
    let phases = phase_issues(outgoing, incoming, measured);
    lemma_either_list(overlap, levels, issue);
    lemma_either_list(overlap + levels, phases, issue);
}

/// A transition is blocked just where something other than the bass gain was found
/// wrong.
pub proof fn all_but_the_bass_gain_blocks(issues: Seq<AutoMixQualityIssue>)
    ensures
        any_blocks(issues) <==> exists|issue: AutoMixQualityIssue| #[trigger]
            issues.contains(issue) && match issue {
                AutoMixQualityIssue::MixOverlapTooShort { .. } => true,
                AutoMixQualityIssue::OutgoingOverlapMissesAudibleEnd { .. } => true,
                AutoMixQualityIssue::IncomingOverlapExceedsAudibleEnd { .. } => true,
                AutoMixQualityIssue::BeatPhaseUnverified => true,
                AutoMixQualityIssue::DownbeatPhaseUnverified => true,
                AutoMixQualityIssue::BeatPhaseDriftTooLarge { .. } => true,
                AutoMixQualityIssue::BeatHandoffPhaseDriftTooLarge { .. } => true,
                AutoMixQualityIssue::DownbeatPhaseDriftTooLarge { .. } => true,
                AutoMixQualityIssue::DownbeatHandoffPhaseDriftTooLarge { .. } => true,
                AutoMixQualityIssue::PhrasePhaseDriftTooLarge { .. } => true,
                AutoMixQualityIssue::PhraseHandoffPhaseDriftTooLarge { .. } => true,
                AutoMixQualityIssue::LowHandoffDip { .. } => false,
                AutoMixQualityIssue::LowHandoffBuildUp { .. } => false,
                AutoMixQualityIssue::DualVocalOverlapTooHigh { .. } => true,
                AutoMixQualityIssue::MixEnergyDipTooDeep { .. } => true,
            },
{
    if any_blocks(issues) {
        let i = choose|i: int| 0 <= i < issues.len() && (#[trigger] issues[i]).blocks();
        assert(issues.contains(issues[i]));
    }
    assert forall|issue: AutoMixQualityIssue| #[trigger]
        issues.contains(issue) && issue.blocks() implies any_blocks(issues) by {
        let i = choose|i: int| 0 <= i < issues.len() && issues[i] == issue;
        assert(issues[i].blocks());
    }
}

/// A report on a beat-matched transition hands on every measurement as it was made, that
/// on a crossfade those of its levels, and none of them speaks of phases that were not
/// measured.
pub proof fn reports_hand_on_the_measurements(
    report: AutoMixQualityReport,
    plan: TransitionPlan,
    measured: TransitionMeasurements,
)
    requires
        report_carries(report, plan, measured),
    ensures
        report.overlap == plan.duration,
        report.harmonic_compatibility == plan.harmonic_compatibility,
        report.structure_overlap_ratio == measured.structure_overlap_ratio,
        report.max_tempo_speed_step == measured.max_tempo_speed_step,
        report.low_handoff_min == measured.low_handoff_min,
        report.low_handoff_max == measured.low_handoff_max,
        plan.kind != TransitionKind::Gapless ==> {
            &&& report.vocal_overlap_samples_checked == measured.vocals.samples
            &&& report.max_dual_vocal_risk == measured.vocals.max_risk
            &&& report.energy_samples_checked == measured.energy.samples
            &&& report.min_mix_energy_ratio == measured.energy.min_ratio
            &&& report.max_mix_energy_ratio == measured.energy.max_ratio
            &&& report.max_mix_energy_step == measured.energy.max_step
            &&& report.handoff_mix_energy_ratio == measured.energy.handoff_ratio
            &&& report.handoff_incoming_mix_share == measured.energy.handoff_incoming_share
        },
        plan.kind == TransitionKind::Gapless ==> report.vocal_overlap_samples_checked == 0
            && report.energy_samples_checked == 0 && report.max_dual_vocal_risk is None
            && report.min_mix_energy_ratio is None,
        plan.kind == TransitionKind::BeatMatched ==> {
            &&& report.beat_pairs_checked == measured.phases.beat.phase.pairs
            &&& report.beat_phase_coverage == measured.phases.beat.phase.coverage
            &&& report.max_beat_phase_error == measured.phases.beat.phase.max_error
            &&& report.handoff_beat_phase_error == measured.phases.beat.handoff_error
            &&& report.downbeat_pairs_checked == measured.phases.downbeat.pairs
            &&& report.max_downbeat_phase_error == measured.phases.downbeat.max_error
            &&& report.handoff_downbeat_phase_error == measured.phases.downbeat_handoff
            &&& report.phrase_pairs_checked == measured.phases.phrase.pairs
            &&& report.max_phrase_phase_error == measured.phases.phrase.max_error
            &&& report.handoff_phrase_phase_error == measured.phases.phrase_handoff
            &&& report.phrase_boundary_bars == measured.phases.phrase_boundary_bars
        },
        plan.kind != TransitionKind::BeatMatched ==> report.beat_pairs_checked == 0
            && report.max_beat_phase_error is None && report.max_downbeat_phase_error is None
            && report.max_phrase_phase_error is None && report.phrase_boundary_bars is None,
{
}

/// A gapless plan ends the outgoing track where it ceases to be heard and starts the
/// incoming one where it is first heard, with nothing of either changed.
pub proof fn gapless_plans_join_the_audible_parts(
    plan: TransitionPlan,
    outgoing: TrackAnalysis,
    incoming: TrackAnalysis,
)
    requires
        is_gapless_plan(plan, outgoing, incoming),
    ensures
        plan.kind == TransitionKind::Gapless,
        plan.outgoing_start == outgoing.audible_end,
        plan.incoming_start == incoming.audible_start,
        plan.duration@ == 0,
        plan.incoming_tempo_ratio == 0x3F80_0000,
        plan.incoming_gain == 0x3F80_0000,
        plan.tempo_envelope is None,
        plan.incoming_cue_selection is None,
        plan.energy_selection is None,
        plan.harmonic_compatibility == spec_harmonic_compatibility(outgoing, incoming),
{
}

/// An overlap takes at most half of what is heard of either track, is no longer than the
/// crossfade, lasts four seconds at most where the keys clash, and is the longest such.
pub proof fn overlaps_are_the_longest_allowed(
    outgoing: TrackAnalysis,
    incoming: TrackAnalysis,
    incoming_start: Duration,
    crossfade: Duration,
    harmonic: Option<u32>,
    other: int,
)
    requires
        outgoing.audible_start@ <= outgoing.audible_end@,
        incoming_start@ <= incoming.audible_end@,
    ensures
        ({
            let overlap = base_overlap(outgoing, incoming, incoming_start, crossfade, harmonic);
            let clash = harmonic is Some && scalar::spec_less(harmonic->0, 0x3F00_0000);
            &&& 0 <= overlap <= crossfade@
            &&& 2 * overlap <= outgoing.audible_end@ - outgoing.audible_start@
            &&& 2 * overlap <= incoming.audible_end@ - incoming_start@
            &&& clash ==> overlap <= 4_000_000_000
            &&& other <= crossfade@ && 2 * other <= outgoing.audible_end@ - outgoing.audible_start@
                && 2 * other <= incoming.audible_end@ - incoming_start@ && (clash ==> other
                <= 4_000_000_000) ==> other <= overlap
        }),
{
}

/// The conservative crossfade keeps the vocal limit as well, and is the longest overlap
/// from the audible start of the incoming track that does.
pub proof fn conservative_overlaps_keep_the_vocal_limit(
    outgoing: TrackAnalysis,
    incoming: TrackAnalysis,
    config: AutoMixConfig,
    vocal_limit: Duration,
)
    ensures
        ({
            let overlap = conservative_overlap(outgoing, incoming, config, vocal_limit);
            let base = base_overlap(
                outgoing,
                incoming,
                incoming.audible_start,
                config.crossfade,
                spec_harmonic_compatibility(outgoing, incoming),
            );
            &&& overlap <= vocal_limit@
            &&& overlap <= base
            &&& overlap == vocal_limit@ || overlap == base
        }),
{
}

/// The explanation of a transition speaks of what holds: it was selected, it is disabled,
/// its beat-matched plan was rejected, or beats could not be matched, and then for the
/// first of the reasons in this order.
pub proof fn explanations_hold(
    outgoing: TrackAnalysis,
    incoming: TrackAnalysis,
    config: AutoMixConfig,
    guarded: GuardedTransitionPlan,
    evidence: BeatMatchEvidence,
)
    ensures
        ({
            let reason = spec_explain(outgoing, incoming, config, guarded, evidence);
            let rejected = guarded.rejected_plan is Some && guarded.rejected_plan->0.kind
                == TransitionKind::BeatMatched;
            &&& reason == AutoMixBeatMatchDecision::Disabled <==> !config.enabled
            &&& reason == AutoMixBeatMatchDecision::Selected <==> config.enabled
                && guarded.plan.kind == TransitionKind::BeatMatched
            &&& reason == AutoMixBeatMatchDecision::QualityGuarded <==> config.enabled
                && guarded.plan.kind != TransitionKind::BeatMatched && rejected
            &&& config.enabled && guarded.plan.kind != TransitionKind::BeatMatched && !rejected
                ==> {
                &&& reason == AutoMixBeatMatchDecision::OutgoingTempoConfidenceTooLow
                    <==> !evidence.outgoing_confident
                &&& reason == AutoMixBeatMatchDecision::IncomingTempoConfidenceTooLow
                    <==> evidence.outgoing_confident && !evidence.incoming_confident
                &&& reason == AutoMixBeatMatchDecision::NoTrustedIncomingBeatStart
                    <==> evidence.outgoing_confident && evidence.incoming_confident
                    && !evidence.incoming_start_is_trusted
                &&& reason == AutoMixBeatMatchDecision::MissingBpm ==> outgoing.bpm is None
                    || incoming.bpm is None
                &&& evidence.outgoing_confident && evidence.incoming_confident
                    && evidence.incoming_start_is_trusted && (outgoing.bpm is None
                    || incoming.bpm is None) ==> reason == AutoMixBeatMatchDecision::MissingBpm
                &&& reason == AutoMixBeatMatchDecision::InvalidBpm ==> evidence.ratio is None
                    || scalar::spec_at_most(outgoing.bpm->0, 0) || scalar::spec_at_most(
                    incoming.bpm->0,
                    0,
                )
                &&& reason == AutoMixBeatMatchDecision::TempoDifferenceTooLarge ==> evidence.ratio
                    is Some && (!scalar::spec_is_finite(evidence.ratio->0) || scalar::spec_less(
                    config.max_tempo_adjustment,
                    evidence.difference,
                ))
                &&& reason == AutoMixBeatMatchDecision::NoSafeOverlap ==> guarded.plan.kind
                    == TransitionKind::Gapless
                &&& reason == AutoMixBeatMatchDecision::VocalLimitConstrained ==> guarded.plan.kind
                    == TransitionKind::Crossfade
                &&& reason == AutoMixBeatMatchDecision::NoSafeOverlap || reason
                    == AutoMixBeatMatchDecision::VocalLimitConstrained ==> {
                    &&& outgoing.bpm is Some && !scalar::spec_at_most(outgoing.bpm->0, 0)
                    &&& incoming.bpm is Some && !scalar::spec_at_most(incoming.bpm->0, 0)
                    &&& evidence.ratio is Some && scalar::spec_is_finite(evidence.ratio->0)
                    &&& !scalar::spec_less(config.max_tempo_adjustment, evidence.difference)
                }
            }
        }),
{
}

proof fn lemma_segment_reaching(envelope: TempoEnvelope, moment: int, from: int)
    requires
        0 <= from,
    ensures
        match envelope.segment_reaching(moment, from) {
            Some(index) => {
                &&& from <= index < envelope.phase_segments@.len()
                &&& moment <= envelope.phase_segments@[index].output_end@
                &&& forall|k: int|
                    from <= k < index ==> (#[trigger] envelope.phase_segments@[k]).output_end@
                        < moment
            },
            None => forall|k: int|
                from <= k < envelope.phase_segments@.len() ==> (
                #[trigger] envelope.phase_segments@[k]).output_end@ < moment,
        },
    decreases envelope.phase_segments@.len() - from,
{
    if from < envelope.phase_segments@.len() {
        lemma_segment_reaching(envelope, moment, from + 1);
    }
}

/// In the overlap a moment has the speed of the first segment that does not end before
/// it, past the last one that of the mix end; then the speed returns to native for as
/// long as the ramp lasts, and stays so.
pub proof fn envelopes_go_from_segments_to_native_speed(envelope: TempoEnvelope, moment: Duration)
    ensures
        ({
            let stretch = envelope.stretch(moment);
            let segments = envelope.phase_segments@;
            &&& stretch is Native <==> moment@ > envelope.hold@ && moment@ - envelope.hold@
                >= envelope.ramp@
            &&& stretch is Ramp <==> moment@ > envelope.hold@ && moment@ - envelope.hold@
                < envelope.ramp@
            &&& stretch matches EnvelopeStretch::Ramp(elapsed) ==> elapsed@ == moment@
                - envelope.hold@
            &&& stretch is Hold <==> moment@ <= envelope.hold@ && segments.len() == 0
                && envelope.hold@ > 0
            &&& moment@ <= envelope.hold@ && segments.len() == 0 && envelope.hold@ == 0
                ==> stretch == EnvelopeStretch::Steady(envelope.mix_end_speed)
            &&& moment@ <= envelope.hold@ && (forall|k: int|
                0 <= k < segments.len() ==> (#[trigger] segments[k]).output_end@ < moment@)
                && segments.len() > 0 ==> stretch == EnvelopeStretch::Steady(
                envelope.mix_end_speed,
            )
            &&& forall|i: int|
                moment@ <= envelope.hold@ && 0 <= i < segments.len() && moment@
                    <= segments[i].output_end@ && (forall|k: int|
                    0 <= k < i ==> (#[trigger] segments[k]).output_end@ < moment@) ==> stretch
                    == EnvelopeStretch::Steady((#[trigger] segments[i]).speed)
        }),
{
    lemma_segment_reaching(envelope, moment@, 0);
}

/// The length of some spans together.
pub open spec fn total_length(spans: Seq<SpeedSpan>) -> int
    decreases spans.len(),
{
    if spans.len() == 0 {
        0
    } else {
        spans[0].length@ + total_length(spans.skip(1))
    }
}

/// The spans of an overlap fill it: where its segments end one after the other, they are
/// as long together as the time from the end before them to the moment.
pub proof fn spans_fill_the_overlap(
    envelope: TempoEnvelope,
    index: int,
    previous_end: int,
    target: int,
)
    requires
        0 <= index <= envelope.phase_segments@.len(),
        0 <= previous_end <= target <= MAX_NANOS,
        forall|k: int|
            index <= k < envelope.phase_segments@.len() ==> previous_end <= (
            #[trigger] envelope.phase_segments@[k]).output_end@,
        forall|k: int, l: int|
            index <= k <= l < envelope.phase_segments@.len() ==> (
            #[trigger] envelope.phase_segments@[k]).output_end@ <= (
            #[trigger] envelope.phase_segments@[l]).output_end@,
    ensures
        total_length(envelope.spans_from(index, previous_end, target)) == target - previous_end,
    decreases envelope.phase_segments@.len() - index,
{
    let spans = envelope.spans_from(index, previous_end, target);
    if index >= envelope.phase_segments@.len() {
        if previous_end < target {
            assert(spans.skip(1) =~= Seq::<SpeedSpan>::empty());
            assert(total_length(spans.skip(1)) == 0);
        }
    } else {
        let segment = envelope.phase_segments@[index];
        let end = spec_min(segment.output_end@, target);
        if target <= segment.output_end@ {
            if previous_end < end {
                assert(spans.skip(1) =~= Seq::<SpeedSpan>::empty());
                assert(total_length(spans.skip(1)) == 0);
            }
        } else {
            let rest = envelope.spans_from(index + 1, segment.output_end@, target);
            spans_fill_the_overlap(envelope, index + 1, segment.output_end@, target);
            if previous_end < end {
                assert(spans.skip(1) =~= rest);
            } else {
                assert(spans =~= rest);
            }
        }
    }
}

/// A plan overlaps unless it is gapless or takes no time, and tracks that are not heard
/// leave no overlap.
pub proof fn gapless_plans_do_not_overlap(
    plan: TransitionPlan,
    outgoing: TrackAnalysis,
    incoming: TrackAnalysis,
    incoming_start: Duration,
    crossfade: Duration,
    harmonic: Option<u32>,
)
    ensures
        plan.kind == TransitionKind::Gapless || plan.duration@ == 0 ==> !plan.overlaps(),
        plan.kind != TransitionKind::Gapless && plan.duration@ > 0 ==> plan.overlaps(),
        outgoing.audible_end@ <= outgoing.audible_start@ || incoming.audible_end@ <= incoming_start@
            ==> base_overlap(outgoing, incoming, incoming_start, crossfade, harmonic) == 0,
{
}

/// At most 32 tempo segments are kept.
pub proof fn segments_are_limited()
    ensures
        MAX_TEMPO_SEGMENTS == 32,
{
}

/// No span of an overlap is empty.
pub proof fn spans_take_some_time(
    envelope: TempoEnvelope,
    index: int,
    previous_end: int,
    target: int,
    at: int,
)
    requires
        0 <= index <= envelope.phase_segments@.len(),
        0 <= previous_end,
        target <= MAX_NANOS,
        0 <= at < envelope.spans_from(index, previous_end, target).len(),
    ensures
        envelope.spans_from(index, previous_end, target)[at].length@ > 0,
    decreases envelope.phase_segments@.len() - index,
{
    let spans = envelope.spans_from(index, previous_end, target);
    if index < envelope.phase_segments@.len() {
        let segment = envelope.phase_segments@[index];
        if target > segment.output_end@ {
            let rest = envelope.spans_from(index + 1, segment.output_end@, target);
            let end = spec_min(segment.output_end@, target);
            if previous_end < end {
                if at > 0 {
                    assert(spans[at] == rest[at - 1]);
                    spans_take_some_time(
                        envelope,
                        index + 1,
                        segment.output_end@,
                        target,
                        at - 1,
                    );
                }
            } else {
                assert(spans =~= rest);
                spans_take_some_time(envelope, index + 1, segment.output_end@, target, at);
            }
        }
    }
}

} // verus!
