//! Tests of the planner with its numbers: the arithmetic on tempos, levels and
//! positions stands here, the decisions are those of the library.

use wotoha::frames::frame_at;
use wotoha::scalar;
use wotoha::automix::alignment::{
    actionable_grids, beat_family_strides, marker_outputs, observed_marker_pairs,
    ObservedMarkerPair, Overlap, PhaseMeasurements, PhaseTerms, PhraseMeasure, PhraseMeasures,
    MIN_BEAT_PHASE_COVERAGE, MIN_BEAT_PHASE_PAIRS,
};
use wotoha::automix::candidates::{
    beat_start_candidates, candidate_bounds, candidate_overlap, candidate_penalty,
    choose_energy_balanced_start, energy_grid_start_candidates, lacks_phrase_evidence,
    marker_backed_candidates, ordered_candidates, BarPhaseBias, CandidateScore, EnergyPenalty,
    MAX_ENERGY_START_CANDIDATES, MIN_NATURAL_MIX_OVERLAP_NANOS,
};
use wotoha::automix::energy::{
    dual_vocal_overlap_report, energy_reference, level_window, mix_energy_dip_is_blocking,
    no_energy_report, reference_region, references_are_usable, transition_energy_report,
    Audible, DualVocalOverlapReport, EnergySample, TransitionEnergyReport, VocalSample,
    MIN_SAFE_MIX_ENERGY_RATIO,
};
use wotoha::automix::follow::{
    block_speed, confident_beats_between, correction_blocks, follow_envelope, follow_speeds,
    pair_phase_follow_beats,
};
use wotoha::automix::guard::{
    finite_mix_progress, finite_nonnegative_gain, finite_peak_or_conservative, guard_step,
    measured_peak, phrase_strength_penalty, AutoMixPeakGuard, GuardStep,
};
use wotoha::automix::incoming::{
    intro_end_region, opening_region, pickup_limit, safe_incoming_beat_starts,
    safe_to_skip_initial_pickup, safe_to_skip_intro_until, JudgedCue, SkipEvidence,
    MAX_LOW_ENERGY_INTRO_SKIP_NANOS, MAX_STRUCTURED_INTRO_SKIP_NANOS,
};
use wotoha::automix::kinds::TransitionKind;
use wotoha::automix::markers::{GridPlace, MAX_INCOMING_CUE_CANDIDATES};
use wotoha::automix::plan::{
    conservative_crossfade_plan, conservative_guarded_transition, evaluate_transition_quality,
    explain_beatmatch_decision, gapless_plan, plan_guarded_transition,
    AutoMixBeatMatchDecision, AutoMixEnergySelection, AutoMixQualityIssue,
    AutoMixQualityReport, BeatMatchEvidence, EnvelopeStretch, EqProgress, EqTransition,
    EqTransitionRole, GuardedTransitionPlan, TempoEnvelope, TempoSegment,
    TransitionMeasurements, TransitionPlan, MAX_DUAL_VOCAL_RISK, MAX_TEMPO_SEGMENTS,
};
use wotoha::automix::planner::{
    accept_bar_start, accept_phrase_start, closest_tempo_family_ratio, compatible_tempo_curve,
    may_beatmatch, open_plan, strongest_phrase_cue, Aim, Alignments, CueSearch, DraftStep,
    FinalStep, PhraseStarts, StartSearch, TempoRatio,
};
use wotoha::automix::timing::plan_transition_timing;
use wotoha::automix::track::{
    bpm_is_trusted, harmonic_compatibility, AutoMixConfig, BeatGrid, KeyMode, MusicalKey,
    PhraseCue, PhraseLength, PhraseSpans, TrackAnalysis, MIN_MARKER_BACKED_KICK_COVERAGE,
    MIN_MARKER_BACKED_KICK_MARKERS,
};
use wotoha::automix::vocals::{
    incoming_head_source, summarize_vocals, trusted_structure_span, vocal_overlap_limit,
    VocalBin, VocalSummary,
};
use wotoha::time::Duration;

/// How much better a score has to be to count.
const SELECTION_MARGIN: f32 = 0.02;
/// How many samples an overlap is measured at, less one.
const SAMPLES: u32 = 32;
/// The level of the lowest code of an energy profile.
const MIN_ENERGY_PROFILE_DBFS: f32 = -80.0;
/// How many samples a reference level is taken from.
const MAX_ENERGY_REFERENCE_SAMPLES: usize = 64;
/// The longest pickup, in beats.
const MAX_INCOMING_PICKUP_BEATS: f64 = 32.0;

fn bits(value: f32) -> u32 {
    value.to_bits()
}

fn number(bits: u32) -> f32 {
    f32::from_bits(bits)
}

fn to_std(span: Duration) -> std::time::Duration {
    std::time::Duration::new(
        (span.nanos / 1_000_000_000) as u64,
        (span.nanos % 1_000_000_000) as u32,
    )
}

fn from_std(span: std::time::Duration) -> Duration {
    Duration::from_parts(span.as_secs(), span.subsec_nanos()).expect("a valid span")
}

/// Floating point: a span in seconds.
fn seconds(span: Duration) -> f64 {
    to_std(span).as_secs_f64()
}

/// Floating point: a span in seconds, in single precision.
fn seconds_single(span: Duration) -> f32 {
    to_std(span).as_secs_f32()
}

/// Floating point: the span of some seconds.
fn span_of(seconds: f64) -> Duration {
    from_std(std::time::Duration::from_secs_f64(seconds))
}

/// Floating point: a multiple of a span.
fn scaled(span: Duration, factor: f64) -> Duration {
    from_std(to_std(span).mul_f64(factor))
}

/// Floating point: a fraction of a span.
fn divided(span: Duration, divisor: f64) -> Duration {
    from_std(to_std(span).div_f64(divisor))
}

/// Floating point: the interval of one beat at a trusted tempo.
fn beat_interval_from_bpm(bpm: u32) -> Option<Duration> {
    if !bpm_is_trusted(bpm) {
        return None;
    }
    let beat = 60.0 / number(bpm);
    if !beat.is_finite() || beat <= 0.0 {
        return None;
    }
    let interval = from_std(std::time::Duration::from_secs_f32(beat));
    (!interval.is_zero()).then_some(interval)
}

fn beat_interval(analysis: &TrackAnalysis) -> Option<Duration> {
    analysis.bpm.and_then(beat_interval_from_bpm)
}

fn beat_grid(analysis: &TrackAnalysis) -> Option<BeatGrid> {
    analysis.beat_grid(beat_interval(analysis))
}

/// Floating point: half a beat.
fn half_beat(analysis: &TrackAnalysis) -> Option<Duration> {
    beat_interval(analysis).map(|interval| divided(interval, 2.0))
}

/// Floating point: how far a marker may stand from a position.
fn marker_snap_tolerance(analysis: &TrackAnalysis) -> Duration {
    beat_interval(analysis)
        .map(|interval| divided(interval, 4.0))
        .unwrap_or(Duration::from_millis(100))
}

/// Floating point: the share of trusted markers.
fn kick_coverage(analysis: &TrackAnalysis) -> f32 {
    let coverage = analysis.trusted_kick_coverage();
    if coverage.markers == 0 {
        0.0
    } else {
        coverage.trusted as f32 / coverage.markers as f32
    }
}

/// Floating point: whether the tempo of a track is sure enough to align to.
fn tempo_alignment_confident(analysis: &TrackAnalysis, min_beat_confidence: u32) -> bool {
    let coverage = kick_coverage(analysis);
    let backed = coverage * analysis.beat_marker_confidences.len() as f32;
    analysis.tempo_alignment_confident(min_beat_confidence, bits(coverage), bits(backed))
}

/// Floating point: the span of a phrase on a grid.
fn phrase_interval(grid: BeatGrid, length: PhraseLength) -> Duration {
    scaled(
        grid.beat_interval,
        f64::from(u32::from(grid.beats_per_bar) * length.bars()),
    )
}

/// Floating point: the inferred phrase boundaries of a track.
fn phrase_cues(analysis: &TrackAnalysis) -> Vec<PhraseCue> {
    let interval = beat_interval(analysis);
    let span = |beats: f64| interval.map_or(Duration::zero(), |interval| scaled(interval, beats));
    let spans = PhraseSpans {
        four: span(16.0),
        eight: span(32.0),
        sixteen: span(64.0),
    };
    let longest = spans.four.max(spans.eight).max(spans.sixteen);
    let last = analysis.audible_start.max(analysis.audible_end);
    assert!(
        beat_grid(analysis).is_none()
            || analysis.downbeat_is_unsure()
            || to_std(last).checked_add(to_std(longest)).is_some(),
        "overflow when adding durations"
    );
    analysis.phrase_cues(interval, spans)
}

/// Floating point: the speed of an envelope at a moment.
fn speed_at(envelope: &TempoEnvelope, output_elapsed: Duration) -> f32 {
    let initial = number(envelope.initial_speed);
    let mix_end = number(envelope.mix_end_speed);
    match envelope.stretch_at(output_elapsed) {
        EnvelopeStretch::Steady(speed) => number(speed),
        EnvelopeStretch::Hold => {
            let progress = seconds_single(output_elapsed) / seconds_single(envelope.hold);
            initial + (mix_end - initial) * progress.clamp(0.0, 1.0)
        }
        EnvelopeStretch::Ramp(elapsed) => {
            let progress = seconds_single(elapsed) / seconds_single(envelope.ramp);
            mix_end + (1.0 - mix_end) * progress
        }
        EnvelopeStretch::Native => 1.0,
    }
}

/// Floating point: how much of the source has played inside the hold.
fn segmented_source_elapsed(envelope: &TempoEnvelope, output_elapsed: Duration) -> Duration {
    let mut source = 0.0_f64;
    for span in envelope.hold_spans(output_elapsed) {
        source += seconds(span.length) * f64::from(number(span.speed));
    }
    span_of(source)
}

/// Floating point: how much of the source has played at a moment of the output.
fn source_elapsed(envelope: &TempoEnvelope, output_elapsed: Duration) -> Duration {
    let output = seconds(output_elapsed);
    let hold = seconds(envelope.hold);
    let ramp = seconds(envelope.ramp);
    let initial = f64::from(number(envelope.initial_speed));
    let mix_end = f64::from(number(envelope.mix_end_speed));
    let segmented = !envelope.phase_segments.is_empty();
    let hold_source = if segmented {
        seconds(segmented_source_elapsed(envelope, envelope.hold))
    } else {
        hold * f64::from(number(envelope.initial_speed) + number(envelope.mix_end_speed)) * 0.5
    };
    let source = if output <= hold {
        if segmented {
            seconds(segmented_source_elapsed(envelope, output_elapsed))
        } else if hold > 0.0 {
            initial * output + 0.5 * (mix_end - initial) * output * output / hold
        } else {
            output * mix_end
        }
    } else if ramp > 0.0 && output < hold + ramp {
        let elapsed = output - hold;
        hold_source + mix_end * elapsed + 0.5 * (1.0 - mix_end) * elapsed * elapsed / ramp
    } else {
        hold_source + ramp * (mix_end + 1.0) * 0.5 + (output - hold - ramp)
    };
    span_of(source.max(0.0))
}

/// Floating point: the moment of the output at which so much of the source has
/// played.
fn output_elapsed(envelope: &TempoEnvelope, source: Duration) -> Duration {
    let initial = number(envelope.initial_speed);
    if envelope.phase_segments.is_empty()
        && (initial - 1.0).abs() <= f32::EPSILON
        && (number(envelope.mix_end_speed) - 1.0).abs() <= f32::EPSILON
    {
        return source;
    }
    let target = seconds(source);
    let mut low = 0.0_f64;
    let mut high = (target / f64::from(initial).clamp(0.01, 1.0))
        + seconds(envelope.hold)
        + seconds(envelope.ramp);
    for _ in 0..64 {
        let midpoint = (low + high) * 0.5;
        if seconds(source_elapsed(envelope, span_of(midpoint))) < target {
            low = midpoint;
        } else {
            high = midpoint;
        }
    }
    span_of((low + high) * 0.5)
}

fn mapped_source(envelope: &Option<TempoEnvelope>, output: Duration) -> Duration {
    match envelope {
        Some(envelope) => source_elapsed(envelope, output),
        None => output,
    }
}

fn incoming_mix_source(plan: &TransitionPlan) -> Duration {
    mapped_source(&plan.tempo_envelope, plan.duration)
}

/// Floating point: the largest step of the speed along an envelope.
fn tempo_speed_step(envelope: &Option<TempoEnvelope>) -> Option<f32> {
    let envelope = envelope.as_ref()?;
    let mut previous = number(envelope.initial_speed);
    if !previous.is_finite() {
        return None;
    }
    let mut max_step = 0.0_f32;
    for segment in &envelope.phase_segments {
        let speed = number(segment.speed);
        if !speed.is_finite() || !previous.is_finite() {
            return None;
        }
        max_step = max_step.max((speed - previous).abs());
        previous = speed;
    }
    let mix_end = number(envelope.mix_end_speed);
    if !mix_end.is_finite() || !max_step.is_finite() {
        return None;
    }
    Some(max_step.max((mix_end - previous).abs()))
}

/// Linear gains of the three bands of an equalizer.
#[derive(Clone, Copy, Debug, PartialEq)]
struct BandGains {
    low: f32,
    mid: f32,
    high: f32,
}

/// Floating point: a smooth way from zero to one.
fn smoothstep(value: f32) -> f32 {
    let value = value.clamp(0.0, 1.0);
    value * value * (3.0 - 2.0 * value)
}

/// Floating point: how far keys clash, between zero and one.
fn harmonic_clash_amount(score: Option<u32>) -> f32 {
    score
        .map(number)
        .filter(|score| score.is_finite())
        .map(|score| ((0.5 - score) / 0.5).clamp(0.0, 1.0))
        .unwrap_or(0.0)
}

/// Floating point: the gains of an equalizer at a position.
fn gains_at(transition: EqTransition, position: Duration) -> BandGains {
    let progress = match transition.progress_at(position) {
        EqProgress::NotStarted => 0.0,
        EqProgress::Finished => 1.0,
        EqProgress::Elapsed(elapsed) => {
            seconds_single(elapsed) / seconds_single(transition.duration)
        }
    }
    .clamp(0.0, 1.0);
    let bass_handoff = smoothstep((progress * 2.0).clamp(0.0, 1.0));
    let presence_handoff = smoothstep(progress);
    let duck = harmonic_clash_amount(transition.harmonic_compatibility) * 0.2;
    let (low, mid, high) = match transition.role {
        EqTransitionRole::Outgoing => (
            1.0 - bass_handoff,
            1.0 - (0.25 + duck) * presence_handoff,
            1.0 - (0.18 + duck * 0.7) * presence_handoff,
        ),
        EqTransitionRole::Incoming => (
            bass_handoff,
            (0.7 - duck) + (0.3 + duck) * presence_handoff,
            (0.82 - duck * 0.7) + (0.18 + duck * 0.7) * presence_handoff,
        ),
    };
    BandGains {
        low: low.clamp(0.0, 1.0),
        mid: mid.clamp(0.0, 1.0),
        high: high.clamp(0.0, 1.0),
    }
}

/// Floating point: the gain of the band in which voices sound.
fn vocal_band_gain(gains: BandGains) -> f32 {
    (0.7 * gains.mid + 0.3 * gains.high).clamp(0.0, 1.0)
}

/// Floating point: the gain over all bands.
fn full_band_gain(gains: BandGains) -> f32 {
    (0.35 * gains.low + 0.45 * gains.mid + 0.2 * gains.high).clamp(0.0, 1.0)
}

/// The equalizers of the two decks of a plan.
fn deck_equalizers(plan: &TransitionPlan) -> (EqTransition, EqTransition) {
    plan.deck_equalizers(incoming_mix_source(plan))
}

/// Floating point: the gains of both decks along a mix.
fn automix_mix_gains(kind: TransitionKind, progress: f32) -> (f32, f32) {
    let progress = number(finite_mix_progress(bits(progress)));
    match kind {
        TransitionKind::BeatMatched => {
            let incoming_progress = smoothstep((progress / 0.75).clamp(0.0, 1.0));
            let outgoing_progress = smoothstep(((progress - 0.15) / 0.85).clamp(0.0, 1.0));
            let incoming = (incoming_progress * std::f32::consts::FRAC_PI_2).sin();
            let outgoing = (outgoing_progress * std::f32::consts::FRAC_PI_2).cos();
            let combined_power = outgoing.hypot(incoming);
            let scale = if combined_power > 1.08 {
                1.08 / combined_power
            } else {
                1.0
            };
            (
                (outgoing * scale).clamp(0.0, 1.0),
                (incoming * scale).clamp(0.0, 1.0),
            )
        }
        TransitionKind::Gapless | TransitionKind::Crossfade => {
            let angle = progress * std::f32::consts::FRAC_PI_2;
            (angle.cos().clamp(0.0, 1.0), angle.sin().clamp(0.0, 1.0))
        }
    }
}

/// Floating point: a level in decibels as a linear one.
fn dbfs_to_linear(dbfs: f32) -> f32 {
    10.0_f32.powf(dbfs / 20.0)
}

/// Floating point: the peak of a deck after its base gain.
fn deck_peak(peak_dbfs: Option<u32>, base_gain: f32) -> f32 {
    let linear = peak_dbfs.map_or(1.0, |peak| dbfs_to_linear(number(peak)));
    let gain = number(finite_nonnegative_gain(bits(base_gain)));
    number(measured_peak(peak_dbfs, bits(linear))) * gain
}

fn peak_guard_from_sample_peaks(
    outgoing_peak_dbfs: Option<u32>,
    incoming_peak_dbfs: Option<u32>,
    outgoing_base_gain: f32,
    incoming_base_gain: f32,
) -> AutoMixPeakGuard {
    AutoMixPeakGuard::from_measured(
        bits(deck_peak(outgoing_peak_dbfs, outgoing_base_gain)),
        bits(deck_peak(incoming_peak_dbfs, incoming_base_gain)),
    )
}

fn peak_guard_from_analyses(
    outgoing: &TrackAnalysis,
    incoming: &TrackAnalysis,
    outgoing_base_gain: f32,
    incoming_base_gain: f32,
) -> AutoMixPeakGuard {
    peak_guard_from_sample_peaks(
        outgoing.peak_dbfs(),
        incoming.peak_dbfs(),
        outgoing_base_gain,
        incoming_base_gain,
    )
}

/// Floating point: the gains of both decks, attenuated where their peaks would add
/// up to more than full scale.
fn automix_peak_safe_mix_gains(
    kind: TransitionKind,
    progress: f32,
    guard: AutoMixPeakGuard,
) -> (f32, f32) {
    let (mut outgoing, mut incoming) = automix_mix_gains(kind, progress);
    let outgoing_peak = number(finite_peak_or_conservative(guard.outgoing_peak));
    let incoming_peak = number(finite_peak_or_conservative(guard.incoming_peak));
    let progress = finite_mix_progress(bits(progress));
    // The first pass attenuates, the others correct what rounding left.
    for _ in 0..5 {
        let peak = outgoing_peak * outgoing + incoming_peak * incoming;
        match guard_step(progress, bits(peak)) {
            GuardStep::Keep => break,
            GuardStep::Mute => {
                outgoing = 0.0;
                incoming = 0.0;
                break;
            }
            GuardStep::Attenuate => {
                let scale = (1.0 / peak).clamp(0.0, 1.0);
                outgoing *= scale;
                incoming *= scale;
            }
        }
    }
    (outgoing, incoming)
}

/// Floating point: a moment of the samples of an overlap, and where both tracks are
/// then.
fn sample_at(plan: &TransitionPlan, index: u32) -> (Duration, Duration, Duration) {
    let elapsed = scaled(plan.duration, f64::from(index) / f64::from(SAMPLES));
    let source = mapped_source(&plan.tempo_envelope, elapsed);
    (
        elapsed,
        plan.outgoing_start.saturating_add(elapsed),
        plan.incoming_start.saturating_add(source),
    )
}

/// Floating point: the lowest and highest bass gain of the handoff.
fn low_handoff_range(plan: &TransitionPlan) -> (Option<f32>, Option<f32>) {
    if !plan.has_overlap() {
        return (None, None);
    }
    let (outgoing, incoming) = deck_equalizers(plan);
    let mut min_gain = f32::INFINITY;
    let mut max_gain = f32::NEG_INFINITY;
    for sample in 0..=SAMPLES {
        let (_, outgoing_position, incoming_position) = sample_at(plan, sample);
        let gain = gains_at(outgoing, outgoing_position).low
            + gains_at(incoming, incoming_position).low;
        min_gain = min_gain.min(gain);
        max_gain = max_gain.max(gain);
    }
    (Some(min_gain), Some(max_gain))
}

/// Floating point: the vocal risk of a track at a position; what is not sure counts
/// as likely.
fn effective_vocal_risk(analysis: &TrackAnalysis, position: Duration) -> f32 {
    let index = frame_at(position, analysis.vocal_activity_rate.into());
    let (Some(activity), Some(confidence)) = (
        analysis.vocal_activity.get(index),
        analysis.vocal_activity_confidences.get(index),
    ) else {
        return 0.65;
    };
    let activity = number(scalar::byte_fraction(*activity));
    let confidence = number(scalar::byte_fraction(*confidence));
    (confidence * activity + (1.0 - confidence) * 0.65).clamp(0.0, 1.0)
}

/// Floating point: where the vocals of a track begin and end.
fn vocal_summary(analysis: &TrackAnalysis) -> VocalSummary {
    let rate = f64::from(analysis.vocal_activity_rate);
    if analysis.vocal_activity_rate == 0 || analysis.vocal_activity_confidences.is_empty() {
        return summarize_vocals(analysis, &Vec::new(), 0);
    }
    let confidence = analysis
        .vocal_activity_confidences
        .iter()
        .map(|value| f32::from(*value) / 255.0)
        .sum::<f32>()
        / analysis.vocal_activity_confidences.len() as f32;
    let bins = (0..analysis.vocal_activity.len())
        .map(|index| {
            let start = span_of(index as f64 / rate);
            VocalBin {
                start,
                end: span_of((index + 1) as f64 / rate),
                risk: bits(effective_vocal_risk(analysis, start)),
            }
        })
        .collect();
    summarize_vocals(analysis, &bins, bits(confidence))
}

/// Floating point: the highest vocal risk of a region.
fn max_vocal_risk_between(
    analysis: &TrackAnalysis,
    start: Duration,
    end: Duration,
) -> Option<f32> {
    if !vocal_summary(analysis).known || end.within(start) {
        return None;
    }
    let rate = f64::from(analysis.vocal_activity_rate);
    let first = (seconds(start) * rate).floor() as usize;
    let last = (seconds(end) * rate).ceil() as usize;
    (first..last.min(analysis.vocal_activity.len()))
        .map(|index| effective_vocal_risk(analysis, span_of(index as f64 / rate)))
        .reduce(f32::max)
}

/// Floating point: how long two tracks may overlap without two vocals at once.
fn vocal_limit(
    outgoing: &TrackAnalysis,
    incoming: &TrackAnalysis,
    incoming_start: Duration,
    maximum: Duration,
    envelope: &Option<TempoEnvelope>,
) -> Duration {
    let outgoing_vocals = vocal_summary(outgoing);
    let incoming_vocals = vocal_summary(incoming);
    let head = incoming_head_source(&incoming_vocals, incoming_start);
    let head = match envelope {
        Some(envelope) => output_elapsed(envelope, head),
        None => head,
    };
    vocal_overlap_limit(
        &outgoing_vocals,
        &incoming_vocals,
        outgoing.audible_end,
        head,
        maximum,
    )
}

/// Floating point: the energy of a track at a position.
fn energy_at(analysis: &TrackAnalysis, position: Duration) -> Option<f32> {
    if !analysis.has_energy_profile() {
        return None;
    }
    let index = frame_at(position, analysis.energy_profile_rate.into());
    let value = analysis.energy_profile.get(index)?;
    let dbfs =
        MIN_ENERGY_PROFILE_DBFS + (f32::from(*value) / 255.0) * (0.0 - MIN_ENERGY_PROFILE_DBFS);
    Some(dbfs_to_linear(dbfs)).filter(|energy| energy.is_finite() && *energy >= 0.0)
}

/// Floating point: the mean energy of a region.
fn average_energy_between(
    analysis: &TrackAnalysis,
    start: Duration,
    end: Duration,
    samples: u32,
) -> Option<f32> {
    if end.within(start) || samples == 0 {
        return None;
    }
    let span = end.saturating_sub(start);
    let mut total = 0.0;
    let mut checked = 0;
    for index in 0..samples {
        let position =
            start.saturating_add(scaled(span, (f64::from(index) + 0.5) / f64::from(samples)));
        if let Some(energy) = energy_at(analysis, position).filter(|energy| energy.is_finite()) {
            total += energy;
            checked += 1;
        }
    }
    (checked > 0).then_some(total / checked as f32)
}

/// Floating point: the mean energy of half a second around a position.
fn windowed_energy_at(analysis: &TrackAnalysis, position: Duration) -> Option<f32> {
    let Some((start, end)) = level_window(analysis, position) else {
        return energy_at(analysis, position);
    };
    let samples = ((seconds(end.saturating_sub(start)) * f64::from(analysis.energy_profile_rate))
        .ceil() as u32)
        .clamp(1, 32);
    average_energy_between(analysis, start, end, samples)
}

/// Floating point: the energy that a track has around an overlap.
fn robust_energy_reference(
    analysis: &TrackAnalysis,
    overlap_start: Duration,
    overlap_end: Duration,
) -> Option<f32> {
    let (start, end) = reference_region(analysis, overlap_start, overlap_end)?;
    let span = end.saturating_sub(start);
    let sample_count = (seconds(span) * f64::from(analysis.energy_profile_rate))
        .ceil()
        .clamp(1.0, MAX_ENERGY_REFERENCE_SAMPLES as f64) as usize;
    let energies = (0..sample_count)
        .filter_map(|index| {
            let position = start
                .saturating_add(scaled(span, (index as f64 + 0.5) / sample_count as f64));
            energy_at(analysis, position).map(bits)
        })
        .collect();
    let edges = [overlap_start, overlap_end]
        .into_iter()
        .filter_map(|position| windowed_energy_at(analysis, position).map(bits))
        .collect();
    energy_reference(&energies, &edges).map(number)
}

/// The gains that both decks apply before the mix.
#[derive(Clone, Copy)]
struct BaseGains {
    outgoing: f32,
    incoming: f32,
}

const UNITY_GAINS: BaseGains = BaseGains {
    outgoing: 1.0,
    incoming: 1.0,
};

/// Floating point: the base gains of a plan, with the gain that the plan retains.
fn deck_gains(plan: &TransitionPlan, gains: BaseGains) -> BaseGains {
    let usable = |gain: f32| number(finite_nonnegative_gain(bits(gain)));
    BaseGains {
        outgoing: usable(gains.outgoing),
        incoming: usable(usable(gains.incoming) * usable(number(plan.incoming_gain))),
    }
}

/// Floating point: how much the vocals of two tracks collide along an overlap.
fn vocal_report(
    outgoing: &TrackAnalysis,
    incoming: &TrackAnalysis,
    plan: &TransitionPlan,
    gains: BaseGains,
) -> DualVocalOverlapReport {
    let known = plan.has_overlap()
        && vocal_summary(outgoing).known
        && vocal_summary(incoming).known;
    let mut samples = Vec::new();
    if known {
        let gains = deck_gains(plan, gains);
        let guard = peak_guard_from_analyses(outgoing, incoming, gains.outgoing, gains.incoming);
        // A collision is relative: only the balance between the decks counts.
        let reference = gains.outgoing.max(gains.incoming).max(1.0e-6);
        let (outgoing_eq, incoming_eq) = deck_equalizers(plan);
        for index in 0..=SAMPLES {
            let (elapsed, outgoing_position, incoming_position) = sample_at(plan, index);
            let progress = seconds_single(elapsed) / seconds_single(plan.duration);
            let (outgoing_mix, incoming_mix) =
                automix_peak_safe_mix_gains(plan.kind, progress, guard);
            let outgoing_risk = effective_vocal_risk(outgoing, outgoing_position)
                * outgoing_mix
                * (gains.outgoing / reference)
                * vocal_band_gain(gains_at(outgoing_eq, outgoing_position));
            let incoming_risk = effective_vocal_risk(incoming, incoming_position)
                * incoming_mix
                * (gains.incoming / reference)
                * vocal_band_gain(gains_at(incoming_eq, incoming_position));
            samples.push(VocalSample {
                outgoing_position,
                incoming_position,
                outgoing_risk: bits(outgoing_risk),
                incoming_risk: bits(incoming_risk),
            });
        }
    }
    let audible = |analysis: &TrackAnalysis| Audible {
        start: analysis.audible_start,
        end: analysis.audible_end,
    };
    dual_vocal_overlap_report(&samples, audible(outgoing), audible(incoming), known)
}

/// Floating point: what the energy of an overlap amounts to.
fn energy_report(
    outgoing: &TrackAnalysis,
    incoming: &TrackAnalysis,
    plan: &TransitionPlan,
    gains: BaseGains,
) -> TransitionEnergyReport {
    if !plan.has_overlap() {
        return no_energy_report();
    }
    let gains = deck_gains(plan, gains);
    let outgoing_reference = robust_energy_reference(
        outgoing,
        plan.outgoing_start,
        plan.outgoing_start.saturating_add(plan.duration),
    )
    .map(|energy| energy * gains.outgoing);
    let incoming_reference = robust_energy_reference(
        incoming,
        plan.incoming_start,
        plan.incoming_start
            .saturating_add(incoming_mix_source(plan)),
    )
    .map(|energy| energy * gains.incoming);
    let Some((outgoing_reference, incoming_reference)) = outgoing_reference
        .zip(incoming_reference)
        .filter(|(outgoing, incoming)| references_are_usable(bits(*outgoing), bits(*incoming)))
    else {
        return no_energy_report();
    };
    let reference = outgoing_reference.max(incoming_reference).max(1.0e-6);
    let guard = peak_guard_from_analyses(outgoing, incoming, gains.outgoing, gains.incoming);
    let (outgoing_eq, incoming_eq) = deck_equalizers(plan);
    let mut samples: Vec<EnergySample> = Vec::new();
    for index in 0..=SAMPLES {
        let (elapsed, outgoing_position, incoming_position) = sample_at(plan, index);
        let (Some(outgoing_energy), Some(incoming_energy)) = (
            windowed_energy_at(outgoing, outgoing_position),
            windowed_energy_at(incoming, incoming_position),
        ) else {
            continue;
        };
        let progress = seconds_single(elapsed) / seconds_single(plan.duration);
        let (outgoing_mix, incoming_mix) = automix_peak_safe_mix_gains(plan.kind, progress, guard);
        let outgoing_level = outgoing_energy
            * outgoing_mix
            * gains.outgoing
            * full_band_gain(gains_at(outgoing_eq, outgoing_position));
        let incoming_level = incoming_energy
            * incoming_mix
            * gains.incoming
            * full_band_gain(gains_at(incoming_eq, incoming_position));
        let total_power = outgoing_level.mul_add(outgoing_level, incoming_level * incoming_level);
        let combined = total_power.sqrt() / reference;
        let step = samples
            .last()
            .map_or(0.0, |previous| (combined - number(previous.combined)).abs());
        samples.push(EnergySample {
            progress: bits(progress),
            combined: bits(combined),
            step: bits(step),
            outgoing_source_ratio: bits(outgoing_energy * gains.outgoing / outgoing_reference),
            incoming_source_ratio: bits(incoming_energy * gains.incoming / incoming_reference),
            total_power: bits(total_power),
            incoming_share: bits(
                (incoming_level * incoming_level / total_power).clamp(0.0, 1.0),
            ),
        });
    }
    let span = divided(plan.duration, f64::from(SAMPLES));
    transition_energy_report(&samples, span, plan.duration)
}

/// Floating point: how much of the span that outro and intro share an overlap uses.
fn structure_overlap_usage_ratio(
    outgoing: &TrackAnalysis,
    incoming: &TrackAnalysis,
    plan: &TransitionPlan,
) -> Option<f32> {
    if plan.kind == TransitionKind::Gapless {
        return None;
    }
    let span = trusted_structure_span(outgoing, incoming, plan.incoming_start)?;
    if span.is_zero() {
        return None;
    }
    Some((seconds_single(plan.duration) / seconds_single(span)).clamp(0.0, 1.0))
}

/// Floating point: the strides at which the beats of two tracks meet.
fn strides_for_speed(
    outgoing: &TrackAnalysis,
    incoming: &TrackAnalysis,
    incoming_speed: u32,
) -> (usize, usize) {
    let ratio = match (outgoing.bpm, incoming.bpm) {
        (Some(outgoing), Some(incoming)) => {
            number(incoming) * number(incoming_speed) / number(outgoing)
        }
        _ => 0.0,
    };
    beat_family_strides(outgoing.bpm, incoming.bpm, bits(ratio))
}

/// Floating point: the share of the expected beat pairs that was observed.
fn beat_phase_coverage(
    outgoing: &TrackAnalysis,
    duration: Duration,
    outgoing_stride: usize,
    observed_pairs: usize,
) -> Option<f32> {
    let pair_interval = scaled(beat_interval(outgoing)?, outgoing_stride as f64);
    let expected_pairs = (seconds(duration) / seconds(pair_interval)).ceil().max(1.0);
    let coverage = observed_pairs as f64 / expected_pairs;
    coverage.is_finite().then_some((coverage as f32).min(1.0))
}

/// Floating point: the overlap of a plan, with what its tempo map gives.
fn overlap_of(
    outgoing: &TrackAnalysis,
    incoming: &TrackAnalysis,
    plan: &TransitionPlan,
) -> (Overlap, Vec<ObservedMarkerPair>) {
    let (outgoing_stride, incoming_stride) =
        strides_for_speed(outgoing, incoming, plan.incoming_tempo_ratio);
    let overlap = Overlap {
        outgoing_start: plan.outgoing_start,
        incoming_start: plan.incoming_start,
        duration: plan.duration,
        incoming_source: incoming_mix_source(plan),
        outgoing_stride,
        incoming_stride,
        outgoing_tolerance: marker_snap_tolerance(outgoing),
        incoming_tolerance: marker_snap_tolerance(incoming),
    };
    let elapsed = marker_outputs(outgoing, plan.outgoing_start, plan.duration)
        .into_iter()
        .map(|output| mapped_source(&plan.tempo_envelope, output))
        .collect();
    let pairs = observed_marker_pairs(outgoing, incoming, &overlap, &elapsed);
    (overlap, pairs)
}

/// Floating point: what phrases of one length measure on two tracks.
fn phrase_measure(
    outgoing: &TrackAnalysis,
    incoming: &TrackAnalysis,
    length: PhraseLength,
) -> PhraseMeasure {
    let phrase = |analysis: &TrackAnalysis| {
        beat_grid(analysis).map_or(Duration::zero(), |grid| phrase_interval(grid, length))
    };
    let (outgoing_phrase, incoming_phrase) = (phrase(outgoing), phrase(incoming));
    PhraseMeasure {
        outgoing_interval: beat_interval(outgoing),
        incoming_interval: beat_interval(incoming),
        outgoing_phrase,
        incoming_phrase,
        minimum_overlap: divided(outgoing_phrase.min(incoming_phrase), 2.0),
    }
}

/// Measures a plan and judges it.
fn evaluate(
    outgoing: &TrackAnalysis,
    incoming: &TrackAnalysis,
    plan: &TransitionPlan,
    gains: BaseGains,
) -> AutoMixQualityReport {
    let (low_handoff_min, low_handoff_max) = low_handoff_range(plan);
    let measured = TransitionMeasurements {
        incoming_source: incoming_mix_source(plan),
        low_handoff_min: low_handoff_min.map(bits),
        low_handoff_max: low_handoff_max.map(bits),
        vocals: vocal_report(outgoing, incoming, plan, gains),
        energy: energy_report(outgoing, incoming, plan, gains),
        structure_overlap_ratio: structure_overlap_usage_ratio(outgoing, incoming, plan).map(bits),
        max_tempo_speed_step: tempo_speed_step(&plan.tempo_envelope).map(bits),
        phases: if plan.kind == TransitionKind::BeatMatched {
            measure_phases(outgoing, incoming, plan)
        } else {
            PhaseMeasurements::unmeasured()
        },
    };
    evaluate_transition_quality(outgoing, incoming, plan, &measured)
}

/// Measures the phases of beats, bars and phrases of a beat-matched plan.
fn measure_phases(
    outgoing: &TrackAnalysis,
    incoming: &TrackAnalysis,
    plan: &TransitionPlan,
) -> PhaseMeasurements {
    let (overlap, pairs) = overlap_of(outgoing, incoming, plan);
    let measure = |length: PhraseLength| phrase_measure(outgoing, incoming, length);
    let terms = PhaseTerms {
        coverage: beat_phase_coverage(
            outgoing,
            plan.duration,
            overlap.outgoing_stride,
            pairs.len(),
        )
        .map(bits),
        outgoing_half: half_beat(outgoing),
        incoming_half: half_beat(incoming),
        harmonic: plan.harmonic_compatibility,
        phrases: PhraseMeasures {
            four: measure(PhraseLength::FourBars),
            eight: measure(PhraseLength::EightBars),
            sixteen: measure(PhraseLength::SixteenBars),
        },
    };
    PhaseMeasurements::measure(outgoing, incoming, &overlap, &pairs, &terms)
}

/// What the parts of a score cost.
#[derive(Clone, Copy, Debug, PartialEq)]
struct AutoMixScoreBreakdown {
    total: f32,
    energy_balance_penalty: f32,
    vocal_penalty: f32,
    short_mix_penalty: f32,
    energy_step_penalty: f32,
    handoff_energy_penalty: f32,
    handoff_ownership_penalty: f32,
    tempo_smoothness_penalty: f32,
    phrase_strength_penalty: f32,
    structure_usage_penalty: f32,
    harmonic_overlap_penalty: f32,
}

/// Floating point: what an uneven level costs.
fn energy_balance_score(quality: &AutoMixQualityReport) -> Option<f32> {
    if quality.energy_samples_checked == 0 {
        return None;
    }
    let min_ratio = number(quality.min_mix_energy_ratio?).max(1.0e-6);
    let max_ratio = number(quality.max_mix_energy_ratio?).max(1.0e-6);
    if !min_ratio.is_finite() || !max_ratio.is_finite() {
        return None;
    }
    let dip_penalty = (0.9 - min_ratio).max(0.0) * 4.0;
    let buildup_penalty = (max_ratio - 1.15).max(0.0) * 2.0;
    let movement_penalty = min_ratio.ln().abs() * 0.15 + max_ratio.ln().abs() * 0.05;
    Some(dip_penalty + buildup_penalty + movement_penalty)
}

/// Floating point: what a transition costs, part by part.
fn transition_score_breakdown(quality: &AutoMixQualityReport) -> Option<AutoMixScoreBreakdown> {
    let finite = |value: Option<u32>| value.map(number).filter(|value| value.is_finite());
    let energy_balance_penalty = energy_balance_score(quality)?;
    let clash = harmonic_clash_amount(quality.harmonic_compatibility);
    let natural = Duration {
        nanos: MIN_NATURAL_MIX_OVERLAP_NANOS,
    };
    let vocal_penalty = finite(quality.max_dual_vocal_risk).map_or(0.0, |risk| {
        (risk / number(MAX_DUAL_VOCAL_RISK)).clamp(0.0, 1.0).powi(2) * (1.1 + clash * 0.7)
    });
    let minimum_overlap = if clash > 0.0 {
        from_std(std::time::Duration::from_secs_f32(
            (seconds_single(natural) * (1.0 - clash * 0.5)).max(2.0),
        ))
    } else {
        natural
    };
    let short_mix_penalty = seconds_single(minimum_overlap.saturating_sub(quality.overlap)) * 0.12;
    let energy_step_penalty =
        finite(quality.max_mix_energy_step).map_or(0.0, |step| (step - 0.12).max(0.0) * 2.0);
    let handoff_energy_penalty = finite(quality.handoff_mix_energy_ratio).map_or(0.0, |ratio| {
        (0.85 - ratio).max(0.0) * 3.0 + (ratio - 1.15).max(0.0) * 2.0
    });
    let handoff_ownership_penalty =
        finite(quality.handoff_incoming_mix_share).map_or(0.0, |share| {
            ((0.7 + clash * 0.1) - share).max(0.0) * (1.5 + clash)
        });
    let tempo_smoothness_penalty =
        finite(quality.max_tempo_speed_step).map_or(0.0, |step| (step - 0.015).max(0.0) * 8.0);
    let phrase_strength_penalty = number(phrase_strength_penalty(quality.phrase_boundary_bars));
    let structure_usage_penalty = finite(quality.structure_overlap_ratio)
        .map_or(0.0, |ratio| (0.7 - ratio).max(0.0) * 0.12);
    let harmonic_overlap_penalty = if clash > 0.0 {
        (seconds_single(quality.overlap) - 4.0).max(0.0) * 0.04 * clash
    } else {
        0.0
    };
    let total = energy_balance_penalty
        + vocal_penalty
        + short_mix_penalty
        + energy_step_penalty
        + handoff_energy_penalty
        + handoff_ownership_penalty
        + tempo_smoothness_penalty
        + phrase_strength_penalty
        + structure_usage_penalty
        + harmonic_overlap_penalty;
    Some(AutoMixScoreBreakdown {
        total,
        energy_balance_penalty,
        vocal_penalty,
        short_mix_penalty,
        energy_step_penalty,
        handoff_energy_penalty,
        handoff_ownership_penalty,
        tempo_smoothness_penalty,
        phrase_strength_penalty,
        structure_usage_penalty,
        harmonic_overlap_penalty,
    })
}

fn transition_start_score(quality: &AutoMixQualityReport) -> Option<f32> {
    transition_score_breakdown(quality).map(|breakdown| breakdown.total)
}

/// Floating point: the score of a whole plan.
fn transition_plan_score(
    outgoing: &TrackAnalysis,
    incoming: &TrackAnalysis,
    plan: &TransitionPlan,
) -> Option<f32> {
    let quality = evaluate(outgoing, incoming, plan, UNITY_GAINS);
    let blocking_penalty = if quality.has_blocking_issue() {
        1_000.0 + quality.issues.len() as f32
    } else {
        0.0
    };
    let score = transition_start_score(&quality).or(quality.is_ok().then_some(0.0))?;
    let marker_penalty = if plan.kind == TransitionKind::BeatMatched {
        let missing = MIN_MARKER_BACKED_KICK_MARKERS.saturating_sub(quality.beat_pairs_checked);
        let coverage = kick_coverage(outgoing).min(kick_coverage(incoming));
        missing as f32 * 0.25 + (number(MIN_MARKER_BACKED_KICK_COVERAGE) - coverage).max(0.0)
    } else {
        0.0
    };
    Some(score + blocking_penalty + marker_penalty)
}

/// Floating point: where in a cycle a position lies.
fn cycle_phase_fraction(position: Duration, first: Duration, interval: Duration) -> Option<f64> {
    let interval = seconds(interval);
    if interval <= 0.0 || !interval.is_finite() {
        return None;
    }
    let delta = seconds(position) - seconds(first);
    Some(delta.rem_euclid(interval) / interval)
}

/// Floating point: the moment next to a target at which a cycle has a phase.
fn align_to_matching_cycle_phase(
    first: Duration,
    interval: Duration,
    phase: f64,
    target: Duration,
    bias: BarPhaseBias,
) -> Option<Duration> {
    let interval = seconds(interval);
    let base = seconds(first) + interval * phase;
    let target = seconds(target);
    if interval <= 0.0 || !interval.is_finite() || !base.is_finite() || !target.is_finite() {
        return None;
    }
    let cycles = match bias {
        BarPhaseBias::AtOrBefore => ((target - base) / interval).floor(),
        BarPhaseBias::AtOrAfter => ((target - base) / interval).ceil(),
    };
    let candidate = base + cycles * interval;
    (candidate.is_finite() && candidate >= 0.0).then(|| span_of(candidate))
}

/// Floating point: all moments of a region at which a cycle has a phase.
fn matching_cycle_phase_candidates(
    first: Duration,
    interval: Duration,
    phase: f64,
    earliest: Duration,
    latest: Duration,
) -> Vec<Duration> {
    let interval = seconds(interval);
    let base = seconds(first) + interval * phase;
    let earliest = seconds(earliest);
    let latest = seconds(latest);
    if interval <= 0.0 || !interval.is_finite() || !base.is_finite() || earliest > latest {
        return Vec::new();
    }
    let mut candidates = Vec::new();
    let mut cycle = ((earliest - base) / interval).ceil();
    while candidates.len() < MAX_ENERGY_START_CANDIDATES {
        let position = base + cycle * interval;
        if position > latest + 1.0e-6 {
            break;
        }
        if position >= earliest - 1.0e-6 && position.is_finite() && position >= 0.0 {
            candidates.push(span_of(position));
        }
        cycle += 1.0;
    }
    candidates
}

/// The bar or phrase of the outgoing track, and the phase of the incoming start in
/// its own.
fn matching_cycle(
    outgoing: &TrackAnalysis,
    incoming: &TrackAnalysis,
    incoming_start: Duration,
    beats: f64,
) -> Option<(Duration, Duration, f64)> {
    let (outgoing_grid, incoming_grid) = actionable_grids(
        outgoing,
        incoming,
        beat_interval(outgoing),
        beat_interval(incoming),
    )?;
    let outgoing_cycle = scaled(outgoing_grid.beat_interval, beats);
    let incoming_cycle = scaled(incoming_grid.beat_interval, beats);
    if outgoing_cycle.is_zero() || incoming_cycle.is_zero() {
        return None;
    }
    let phase =
        cycle_phase_fraction(incoming_start, incoming_grid.first_downbeat, incoming_cycle)?;
    Some((outgoing_grid.first_downbeat, outgoing_cycle, phase))
}

/// The starts in the phase of the incoming phrases.
fn phrase_starts(
    outgoing: &TrackAnalysis,
    incoming: &TrackAnalysis,
    incoming_start: Duration,
    target: Duration,
    search_window: Duration,
    bias: BarPhaseBias,
) -> PhraseStarts {
    let start = |length: PhraseLength| {
        let beats = f64::from(4 * length.bars());
        let (first, cycle, phase) = matching_cycle(outgoing, incoming, incoming_start, beats)?;
        let candidate = align_to_matching_cycle_phase(first, cycle, phase, target, bias)?;
        accept_phrase_start(outgoing, candidate, target, search_window, bias)
    };
    PhraseStarts {
        sixteen: start(PhraseLength::SixteenBars),
        eight: start(PhraseLength::EightBars),
        four: start(PhraseLength::FourBars),
    }
}

/// The start in the phase of the incoming bars.
fn bar_start(
    outgoing: &TrackAnalysis,
    incoming: &TrackAnalysis,
    incoming_start: Duration,
    target: Duration,
    bias: BarPhaseBias,
) -> Option<Duration> {
    let (first, cycle, phase) = matching_cycle(outgoing, incoming, incoming_start, 4.0)?;
    let candidate = align_to_matching_cycle_phase(first, cycle, phase, target, bias)?;
    accept_bar_start(outgoing, candidate)
}

/// Floating point: the beat of a grid at a place of it.
fn beat_of(place: GridPlace, whole: fn(f64) -> f64) -> Duration {
    match place {
        GridPlace::Fixed(position) => position,
        GridPlace::Counted {
            first,
            elapsed,
            interval,
        } => {
            let beats = seconds(elapsed) / seconds(interval);
            first.saturating_add(scaled(interval, whole(beats)))
        }
    }
}

/// The beat of the global grid up to a position.
fn align_to_global_beat(position: Duration, analysis: &TrackAnalysis) -> Duration {
    let place = analysis.grid_place_before(position, beat_interval(analysis));
    beat_of(place, f64::floor)
}

/// The beat of the global grid from a position on.
fn align_to_global_beat_at_or_after(position: Duration, analysis: &TrackAnalysis) -> Duration {
    let place = analysis.grid_place_after(position, beat_interval(analysis));
    beat_of(place, f64::ceil)
}

fn align_to_beat(position: Duration, analysis: &TrackAnalysis) -> Duration {
    analysis.align_to_beat(position, align_to_global_beat(position, analysis))
}

fn align_to_beat_at_or_after(position: Duration, analysis: &TrackAnalysis) -> Duration {
    analysis
        .align_to_beat_at_or_after(position, align_to_global_beat_at_or_after(position, analysis))
}

fn snap_to_nearest_beat(analysis: &TrackAnalysis, position: Duration) -> Option<Duration> {
    analysis.snap_to_nearest_beat(position, marker_snap_tolerance(analysis))
}

/// The strongest phrase boundary of a track in a window up to a target.
fn align_to_phrase(
    analysis: &TrackAnalysis,
    target: Duration,
    search_window: Duration,
) -> Option<Duration> {
    strongest_phrase_cue(&phrase_cues(analysis), target, search_window).map(|cue| {
        snap_to_nearest_beat(analysis, cue.position).unwrap_or(cue.position)
    })
}

/// Floating point: the stretches in which the incoming track follows the tempo of
/// the outgoing one.
fn phase_follow_segments(
    outgoing: &TrackAnalysis,
    incoming: &TrackAnalysis,
    outgoing_start: Duration,
    incoming_start: Duration,
    duration: Duration,
    global_speed: u32,
    max_tempo_adjustment: u32,
) -> Option<Vec<TempoSegment>> {
    let speed = number(global_speed);
    if !speed.is_finite() || speed <= 0.0 {
        return None;
    }
    let outgoing_beats = confident_beats_between(
        outgoing,
        outgoing_start,
        outgoing_start.saturating_add(duration),
    );
    let incoming_beats =
        confident_beats_between(incoming, incoming_start, Duration::max_value());
    let targets = outgoing_beats
        .iter()
        .map(|beat| {
            let elapsed = seconds(beat.position.saturating_sub(outgoing_start));
            incoming_start.saturating_add(span_of(elapsed * f64::from(speed)))
        })
        .collect();
    let tolerance = marker_snap_tolerance(incoming).max(Duration::from_millis(35));
    let pairs = pair_phase_follow_beats(
        &outgoing_beats,
        &incoming_beats,
        &targets,
        outgoing_start,
        incoming_start,
        tolerance,
        strides_for_speed(outgoing, incoming, global_speed),
    );
    let blocks = correction_blocks(
        &pairs,
        outgoing_beats.first().map(|beat| beat.position),
        outgoing_start,
        incoming_start,
        MAX_TEMPO_SEGMENTS,
    )?;
    let mut mapped_source = 0.0_f32;
    let mut segments = Vec::new();
    for block in blocks {
        let output_delta = seconds_single(block.output_delta);
        let corrected = (seconds_single(block.desired_source) - mapped_source) / output_delta;
        let speed = block_speed(
            block.trusted,
            bits(corrected),
            bits((corrected - 1.0).abs()),
            max_tempo_adjustment,
            global_speed,
        );
        segments.push(TempoSegment {
            output_end: block.output_end,
            speed,
        });
        mapped_source += output_delta * number(speed);
    }
    (!segments.is_empty()).then_some(segments)
}

/// Floating point: the speed at which the incoming track starts, and its tempo map.
fn build_tempo_envelope(
    outgoing: &TrackAnalysis,
    incoming: &TrackAnalysis,
    outgoing_start: Duration,
    incoming_start: Duration,
    duration: Duration,
    terms: PlanTerms,
) -> (u32, Option<TempoEnvelope>) {
    let Some(tempo) = terms.tempo_curve else {
        return (bits(1.0), None);
    };
    let segments = phase_follow_segments(
        outgoing,
        incoming,
        outgoing_start,
        incoming_start,
        duration,
        tempo,
        terms.max_tempo_adjustment,
    )
    .unwrap_or_default();
    let (start, end) = follow_speeds(tempo, &segments);
    let deviation = |speed: u32| bits((number(speed) - 1.0).abs());
    let mut deviations = segments
        .iter()
        .map(|segment| deviation(segment.speed))
        .collect::<Vec<_>>();
    deviations.push(deviation(start));
    deviations.push(deviation(end));
    deviations.push(bits((number(end) - number(start)).abs()));
    let ramp = beat_interval(outgoing)
        .map_or(Duration::from_secs(2), |interval| scaled(interval, 4.0));
    follow_envelope(tempo, &segments, &deviations, duration, ramp)
}

/// What a plan goes by besides the two tracks.
#[derive(Clone, Copy)]
struct PlanTerms {
    harmonic: Option<u32>,
    tempo_curve: Option<u32>,
    max_tempo_adjustment: u32,
}

/// Floating point: the score of a start, lower is better.
fn candidate_score(
    outgoing: &TrackAnalysis,
    incoming: &TrackAnalysis,
    aim: &Aim,
    terms: PlanTerms,
    outgoing_start: Duration,
) -> Option<CandidateScore> {
    let tolerance = marker_snap_tolerance(outgoing);
    let duration = candidate_overlap(outgoing, outgoing_start, aim.beat_aligned, tolerance)?;
    let tempo = build_tempo_envelope(
        outgoing,
        incoming,
        outgoing_start,
        aim.incoming_start,
        duration,
        terms,
    );
    let source = mapped_source(&tempo.1, duration);
    let limit = vocal_limit(outgoing, incoming, aim.incoming_start, duration, &tempo.1);
    let plan = aim.candidate_plan(
        incoming,
        terms.harmonic,
        outgoing_start,
        duration,
        tempo,
        source,
        limit,
    )?;
    let quality = evaluate(outgoing, incoming, &plan, UNITY_GAINS);
    let energy_penalty = match candidate_penalty(&quality)? {
        EnergyPenalty::Unsafe => 1_000.0,
        EnergyPenalty::Shortfall(ratio) => {
            (number(MIN_SAFE_MIX_ENERGY_RATIO) - number(ratio)) * 100.0
        }
        EnergyPenalty::Free => 0.0,
    };
    let phrase_penalty = if lacks_phrase_evidence(&quality, aim.beat_aligned) {
        1.0
    } else {
        0.0
    };
    let score = transition_start_score(&quality)? + energy_penalty + phrase_penalty;
    Some(CandidateScore {
        score: bits(score),
        with_margin: bits(score + SELECTION_MARGIN),
    })
}

/// The starts in the phase of the incoming bars or phrases that a marker backs.
fn phase_candidates(
    outgoing: &TrackAnalysis,
    incoming: &TrackAnalysis,
    incoming_start: Duration,
    target: Duration,
    search_window: Duration,
    beats: f64,
    bias: BarPhaseBias,
) -> Vec<Duration> {
    let Some((first, cycle, phase)) = matching_cycle(outgoing, incoming, incoming_start, beats)
    else {
        return Vec::new();
    };
    let (earliest, latest) = candidate_bounds(target, search_window, bias);
    let raw = matching_cycle_phase_candidates(first, cycle, phase, earliest, latest);
    marker_backed_candidates(outgoing, &raw)
}

/// The beats at which an overlap may start.
fn beat_candidates(
    analysis: &TrackAnalysis,
    target: Duration,
    search_window: Duration,
    bias: BarPhaseBias,
) -> Vec<Duration> {
    let (earliest, latest) = candidate_bounds(target, search_window, bias);
    let grid = analysis.first_beat.zip(beat_interval(analysis)).map(|(first, interval)| {
        let position = if earliest.within(first) {
            first
        } else {
            align_to_global_beat_at_or_after(earliest, analysis)
        };
        assert!(
            !analysis.beat_markers.is_empty()
                || to_std(latest).checked_add(to_std(interval)).is_some(),
            "overflow when adding durations"
        );
        (position, interval)
    });
    beat_start_candidates(analysis, target, search_window, bias, grid)
}

/// The starts of a crossfade that are tried.
fn grid_candidates(
    analysis: &TrackAnalysis,
    target: Duration,
    search_window: Duration,
    bias: BarPhaseBias,
) -> Vec<Duration> {
    let (_, latest) = candidate_bounds(target, search_window, bias);
    assert!(
        to_std(latest)
            .checked_add(std::time::Duration::from_millis(500))
            .is_some(),
        "overflow when adding durations"
    );
    energy_grid_start_candidates(analysis, target, search_window, bias)
}

/// Selects the start of an overlap by the energy of the mix.
fn select_energy_balanced_start(
    outgoing: &TrackAnalysis,
    incoming: &TrackAnalysis,
    aim: &Aim,
    terms: PlanTerms,
    default_start: Duration,
) -> (Duration, Option<AutoMixEnergySelection>) {
    if !outgoing.has_energy_profile() || !incoming.has_energy_profile() {
        return (default_start, None);
    }
    let mut candidates = Vec::new();
    for search in aim.start_searches(incoming, terms.harmonic) {
        candidates.extend(match search {
            StartSearch::Phase {
                beats,
                window,
                bias,
            } => phase_candidates(
                outgoing,
                incoming,
                aim.incoming_start,
                aim.target,
                window,
                f64::from(beats),
                bias,
            ),
            StartSearch::Beats { window, bias } => {
                beat_candidates(outgoing, aim.target, window, bias)
            }
            StartSearch::Grid { window, bias } => {
                grid_candidates(outgoing, aim.target, window, bias)
            }
        });
    }
    let ordered = ordered_candidates(default_start, &candidates);
    let scores = ordered
        .iter()
        .take(MAX_ENERGY_START_CANDIDATES)
        .map(|candidate| candidate_score(outgoing, incoming, aim, terms, *candidate))
        .collect();
    choose_energy_balanced_start(outgoing, default_start, &ordered, &scores, aim.beat_aligned)
}

/// Plans a transition from one cue of the incoming track.
fn plan_from_cue(
    outgoing: &TrackAnalysis,
    incoming: &TrackAnalysis,
    config: &AutoMixConfig,
    terms: PlanTerms,
    cue: Duration,
) -> TransitionPlan {
    let Some(opening) = open_plan(
        outgoing,
        incoming,
        config.crossfade,
        terms.harmonic,
        cue,
        terms.tempo_curve.is_some(),
    ) else {
        return gapless_plan(outgoing, incoming);
    };
    let preliminary = terms
        .tempo_curve
        .map(|speed| TempoEnvelope::new(speed, speed, opening.overlap, Duration::zero()));
    let limit = vocal_limit(
        outgoing,
        incoming,
        opening.incoming_start,
        opening.overlap,
        &preliminary,
    );
    let aim = match opening.on_vocal_limit(outgoing, incoming, limit) {
        Ok(aim) => aim,
        Err(plan) => return plan,
    };
    let start = aim.incoming_start;
    let phrases = |target: Duration, window: Duration, bias: BarPhaseBias| {
        phrase_starts(outgoing, incoming, start, target, window, bias)
    };
    let bar = |target: Duration, bias: BarPhaseBias| {
        bar_start(outgoing, incoming, start, target, bias)
    };
    let default_start = aim.default_start(
        incoming,
        terms.harmonic,
        &Alignments {
            phrases: phrases(aim.target, aim.overlap, aim.bias),
            own_phrase: align_to_phrase(outgoing, aim.target, aim.overlap),
            bar: bar(aim.target, aim.bias),
            beat_before: align_to_beat(aim.target, outgoing),
            beat_after: align_to_beat_at_or_after(aim.target, outgoing),
            nearest_beat: snap_to_nearest_beat(outgoing, aim.target),
        },
    );
    let (start, selection) =
        select_energy_balanced_start(outgoing, incoming, &aim, terms, default_start);
    let mut draft = aim.on_selected(outgoing, start, selection);
    let envelope_of = |outgoing_start: Duration, duration: Duration| {
        build_tempo_envelope(
            outgoing,
            incoming,
            outgoing_start,
            aim.incoming_start,
            duration,
            terms,
        )
    };
    let limit_of = |duration: Duration, envelope: &Option<TempoEnvelope>| {
        vocal_limit(outgoing, incoming, aim.incoming_start, duration, envelope)
    };
    let (mut ratio, mut envelope) = envelope_of(draft.outgoing_start, draft.duration);
    match draft.on_vocal_limit(outgoing, incoming, limit_of(draft.duration, &envelope)) {
        DraftStep::Finished(plan) => return plan,
        DraftStep::Kept => {}
        DraftStep::Tighten(target) => {
            let window = outgoing.audible_end.saturating_sub(target);
            draft = aim.on_tightened(
                outgoing,
                target,
                phrases(target, window, BarPhaseBias::AtOrAfter),
                bar(target, BarPhaseBias::AtOrAfter),
                align_to_beat_at_or_after(target, outgoing),
            );
            (ratio, envelope) = envelope_of(draft.outgoing_start, draft.duration);
        }
    }
    let limit = limit_of(draft.duration, &envelope);
    match draft.on_final_limit(outgoing, incoming, terms.harmonic, ratio, envelope, limit) {
        FinalStep::Finished(plan) => plan,
        FinalStep::MeasureNativeLimit => draft.on_native_limit(
            outgoing,
            incoming,
            terms.harmonic,
            limit_of(draft.duration, &None),
        ),
    }
}

/// Floating point: the downbeats of a grid in a region.
fn downbeats_between(
    analysis: &TrackAnalysis,
    start: Duration,
    end: Duration,
    limit: usize,
) -> Vec<Duration> {
    let Some(grid) = beat_grid(analysis) else {
        return Vec::new();
    };
    let interval = seconds(scaled(grid.beat_interval, f64::from(grid.beats_per_bar)));
    let first = seconds(grid.first_downbeat);
    let from = seconds(start);
    if end.within(start)
        || analysis.downbeat_is_unsure()
        || interval <= 0.0
        || !interval.is_finite()
    {
        return Vec::new();
    }
    let cycles = ((from - first) / interval).ceil();
    let mut position = first + cycles * interval;
    if position < 0.0 {
        position = first;
        while position < from {
            position += interval;
        }
    }
    let mut positions = Vec::new();
    while position <= seconds(end) && positions.len() < limit {
        positions.push(span_of(position));
        let next = position + interval;
        if !next.is_finite() || next <= position {
            break;
        }
        position = next;
    }
    positions
}

/// The cues of a track in a region.
fn cues_between(analysis: &TrackAnalysis, region: (Duration, Duration)) -> Vec<Duration> {
    let (start, end) = region;
    let downbeats = downbeats_between(analysis, start, end, analysis.cue_slots_left(start, end));
    analysis.incoming_cue_positions_between(start, end, &downbeats)
}

/// Floating point: what is known of the opening that a cue would skip.
fn skip_evidence(
    incoming: &TrackAnalysis,
    candidate: Duration,
    max_before_ratio: f32,
) -> SkipEvidence {
    let end = incoming
        .audible_end
        .min(candidate.saturating_add(Duration::from_secs(2)));
    let before = average_energy_between(incoming, incoming.audible_start, candidate, 12);
    let after = average_energy_between(incoming, candidate, end, 8);
    SkipEvidence {
        vocals_known: vocal_summary(incoming).known,
        max_vocal_risk: max_vocal_risk_between(incoming, incoming.audible_start, candidate)
            .map(bits),
        before: before.map(bits),
        after: after.map(bits),
        allowed: bits(after.unwrap_or(0.0) * max_before_ratio),
    }
}

/// The cues at which the incoming track may start.
fn incoming_starts(incoming: &TrackAnalysis) -> Vec<Duration> {
    let limit = pickup_limit(
        beat_interval(incoming).map(|interval| scaled(interval, MAX_INCOMING_PICKUP_BEATS)),
    );
    let pickup = cues_between(incoming, opening_region(incoming, limit))
        .first()
        .map(|cue| JudgedCue {
            position: *cue,
            safe: safe_to_skip_initial_pickup(
                incoming,
                *cue,
                limit,
                beat_interval(incoming),
                skip_evidence(incoming, *cue, 0.55),
            ),
        });
    let structured = Duration {
        nanos: MAX_STRUCTURED_INTRO_SKIP_NANOS,
    };
    let intro = intro_end_region(incoming, marker_snap_tolerance(incoming))
        .map_or(Vec::new(), |region| cues_between(incoming, region))
        .into_iter()
        .map(|cue| JudgedCue {
            position: cue,
            safe: safe_to_skip_intro_until(
                incoming,
                cue,
                structured,
                skip_evidence(incoming, cue, 0.55),
            ),
        })
        .collect();
    let opening = Duration {
        nanos: MAX_LOW_ENERGY_INTRO_SKIP_NANOS,
    };
    let quiet = cues_between(incoming, opening_region(incoming, opening))
        .into_iter()
        .map(|cue| JudgedCue {
            position: cue,
            safe: safe_to_skip_intro_until(
                incoming,
                cue,
                opening,
                skip_evidence(incoming, cue, 0.45),
            ),
        })
        .collect();
    safe_incoming_beat_starts(pickup, &intro, &quiet)
}

/// Floating point: the ratio of the tempos of two tracks that is nearest to one.
fn closest_ratio(outgoing: &TrackAnalysis, incoming: &TrackAnalysis) -> Option<TempoRatio> {
    let (outgoing, incoming) = (outgoing.bpm?, incoming.bpm?);
    let raw = number(outgoing) / number(incoming);
    let ratio = |ratio: f32| TempoRatio {
        ratio: bits(ratio),
        distance: bits((ratio - 1.0).abs()),
    };
    closest_tempo_family_ratio(
        outgoing,
        incoming,
        ratio(raw),
        ratio(raw * 2.0),
        ratio(raw * 0.5),
    )
}

/// Plans a transition between two tracks.
fn plan_transition(
    outgoing: &TrackAnalysis,
    incoming: &TrackAnalysis,
    config: &AutoMixConfig,
) -> TransitionPlan {
    if !config.enabled {
        return gapless_plan(outgoing, incoming);
    }
    let harmonic = harmonic_compatibility(outgoing, incoming);
    let both_confident = tempo_alignment_confident(outgoing, config.min_beat_confidence)
        && tempo_alignment_confident(incoming, config.min_beat_confidence);
    let closest = closest_ratio(outgoing, incoming);
    let tempo_curve = compatible_tempo_curve(outgoing, incoming, config, both_confident, closest);
    let terms = PlanTerms {
        harmonic,
        tempo_curve: None,
        max_tempo_adjustment: config.max_tempo_adjustment,
    };
    let mut search = CueSearch::new(&Vec::new());
    if may_beatmatch(outgoing, incoming, tempo_curve) {
        let cues = incoming_starts(incoming);
        search = CueSearch::new(&cues);
        for cue in cues {
            let aligned = PlanTerms {
                tempo_curve,
                ..terms
            };
            let plan = plan_from_cue(outgoing, incoming, config, aligned, cue);
            let score = transition_plan_score(outgoing, incoming, &plan);
            let with_margin = score.unwrap_or(0.0) + SELECTION_MARGIN;
            search.offer(plan, cue, score.map(bits), bits(with_margin));
        }
    }
    let crossfade = plan_from_cue(outgoing, incoming, config, terms, incoming.audible_start);
    search.conclude(crossfade)
}

/// Guards the conservative crossfade.
fn guarded_crossfade(
    outgoing: &TrackAnalysis,
    incoming: &TrackAnalysis,
    config: &AutoMixConfig,
    gains: BaseGains,
) -> GuardedTransitionPlan {
    // An overlap is no longer than the fade, so its vocal limit decides it.
    let limit = vocal_limit(
        outgoing,
        incoming,
        incoming.audible_start,
        Duration::max_value(),
        &None,
    );
    let fallback = conservative_crossfade_plan(outgoing, incoming, config, limit);
    let fallback_quality = evaluate(outgoing, incoming, &fallback, gains);
    let gapless = gapless_plan(outgoing, incoming);
    let gapless_quality = evaluate(outgoing, incoming, &gapless, gains);
    conservative_guarded_transition(fallback, fallback_quality, gapless, gapless_quality)
}

/// Plans and guards a transition with the gains that playback applies.
fn plan_guarded(
    outgoing: &TrackAnalysis,
    incoming: &TrackAnalysis,
    config: &AutoMixConfig,
    gains: BaseGains,
) -> GuardedTransitionPlan {
    let plan = plan_transition(outgoing, incoming, config);
    let quality = evaluate(outgoing, incoming, &plan, gains);
    let conservative = guarded_crossfade(outgoing, incoming, config, gains);
    plan_guarded_transition(plan, quality, conservative)
}

/// Why a transition is beat-matched or not.
fn explain(
    outgoing: &TrackAnalysis,
    incoming: &TrackAnalysis,
    config: &AutoMixConfig,
    guarded: &GuardedTransitionPlan,
) -> AutoMixBeatMatchDecision {
    let closest = closest_ratio(outgoing, incoming);
    let evidence = BeatMatchEvidence {
        outgoing_confident: tempo_alignment_confident(outgoing, config.min_beat_confidence),
        incoming_confident: tempo_alignment_confident(incoming, config.min_beat_confidence),
        incoming_start_is_trusted: !incoming_starts(incoming).is_empty(),
        ratio: closest.map(|closest| closest.ratio),
        difference: closest.map_or(0, |closest| closest.distance),
    };
    explain_beatmatch_decision(outgoing, incoming, config, guarded, &evidence)
}

fn span_single(seconds: f32) -> Duration {
    from_std(std::time::Duration::from_secs_f32(seconds))
}

fn base_gains(outgoing: f32, incoming: f32) -> BaseGains {
    BaseGains { outgoing, incoming }
}

fn mix_energy_dip_is_blocking_number(min_ratio: f32) -> bool {
    mix_energy_dip_is_blocking(bits(min_ratio))
}

fn crossfade_fallback(
    outgoing: &TrackAnalysis,
    incoming: &TrackAnalysis,
    config: &AutoMixConfig,
) -> TransitionPlan {
    let start = incoming.audible_start;
    let limit = vocal_limit(outgoing, incoming, start, config.crossfade, &None);
    conservative_crossfade_plan(outgoing, incoming, config, limit)
}

fn config() -> AutoMixConfig {
    AutoMixConfig {
        enabled: true,
        crossfade: Duration::from_secs(8),
        max_tempo_adjustment: bits(0.06),
        min_beat_confidence: bits(0.7),
    }
}

#[test]
fn equalizer_transition_hands_bass_to_incoming_deck_by_midpoint() {
    let start = Duration::from_secs(10);
    let duration = Duration::from_secs(8);
    let outgoing = EqTransition {
        id: 1,
        source_start: start,
        duration,
        role: EqTransitionRole::Outgoing,
        harmonic_compatibility: None,
    };
    let incoming = EqTransition {
        role: EqTransitionRole::Incoming,
        ..outgoing
    };

    assert_eq!(
        gains_at(outgoing, start),
        BandGains {
            low: 1.0,
            mid: 1.0,
            high: 1.0,
        }
    );
    assert_eq!(gains_at(incoming, start).low, 0.0);
    assert_eq!(gains_at(incoming, start).mid, 0.7);
    assert_eq!(gains_at(incoming, start).high, 0.82);

    let quarter = start.saturating_add(duration.divide(4));
    assert!((gains_at(outgoing, quarter).low - 0.5).abs() < f32::EPSILON);
    assert!((gains_at(incoming, quarter).low - 0.5).abs() < f32::EPSILON);

    let midpoint = start.saturating_add(duration.divide(2));
    let outgoing_midpoint = gains_at(outgoing, midpoint);
    assert_eq!(outgoing_midpoint.low, 0.0);
    assert!((outgoing_midpoint.mid - 0.875).abs() < 0.0001);
    assert!((outgoing_midpoint.high - 0.91).abs() < 0.0001);
    let incoming_midpoint = gains_at(incoming, midpoint);
    assert_eq!(incoming_midpoint.low, 1.0);
    assert!((incoming_midpoint.mid - 0.85).abs() < 0.0001);
    assert!((incoming_midpoint.high - 0.91).abs() < 0.0001);
    assert_eq!(
        gains_at(outgoing, start.saturating_add(duration)),
        BandGains {
            low: 0.0,
            mid: 0.75,
            high: 0.82,
        }
    );
    assert_eq!(
        gains_at(incoming, start.saturating_add(duration)),
        BandGains {
            low: 1.0,
            mid: 1.0,
            high: 1.0,
        }
    );
}

#[test]
fn equalizer_transition_ducks_vocal_band_overlap_at_midpoint() {
    let start = Duration::from_secs(10);
    let duration = Duration::from_secs(8);
    let outgoing = EqTransition {
        id: 1,
        source_start: start,
        duration,
        role: EqTransitionRole::Outgoing,
        harmonic_compatibility: None,
    };
    let incoming = EqTransition {
        role: EqTransitionRole::Incoming,
        ..outgoing
    };
    let midpoint = start.saturating_add(duration.divide(2));

    let outgoing_vocal = vocal_band_gain(gains_at(outgoing, midpoint));
    let incoming_vocal = vocal_band_gain(gains_at(incoming, midpoint));

    assert!(outgoing_vocal < 0.9, "outgoing_vocal={outgoing_vocal}");
    assert!(incoming_vocal < 0.9, "incoming_vocal={incoming_vocal}");
    assert!(
        outgoing_vocal + incoming_vocal < 1.8,
        "outgoing_vocal={outgoing_vocal} incoming_vocal={incoming_vocal}"
    );
}

#[test]
fn equalizer_transition_ducks_presence_more_for_incompatible_keys() {
    let start = Duration::from_secs(10);
    let duration = Duration::from_secs(8);
    let neutral = EqTransition {
        id: 1,
        source_start: start,
        duration,
        role: EqTransitionRole::Outgoing,
        harmonic_compatibility: None,
    };
    let clashing = EqTransition {
        harmonic_compatibility: Some(bits(0.2)),
        ..neutral
    };
    let midpoint = start.saturating_add(duration.divide(2));

    assert!(
        vocal_band_gain(gains_at(clashing, midpoint))
            < vocal_band_gain(gains_at(neutral, midpoint)),
        "neutral={:?} clashing={:?}",
        gains_at(neutral, midpoint),
        gains_at(clashing, midpoint)
    );
}

#[test]
fn equalizer_transition_is_clamped_and_zero_duration_is_safe() {
    for role in [EqTransitionRole::Outgoing, EqTransitionRole::Incoming] {
        let transition = EqTransition {
            id: 7,
            source_start: Duration::from_secs(5),
            duration: Duration::from_secs(4),
            role,
            harmonic_compatibility: None,
        };
        for position in [
            Duration::zero(),
            Duration::from_secs(5),
            Duration::from_secs(6),
            Duration::from_secs(7),
            Duration::from_secs(9),
            Duration::max_value(),
        ] {
            let gains = gains_at(transition, position);
            assert!((0.0..=1.0).contains(&gains.low));
            assert!((0.0..=1.0).contains(&gains.mid));
            assert!((0.0..=1.0).contains(&gains.high));
            assert!(gains.low.is_finite());
        }

        let zero_duration = EqTransition {
            duration: Duration::zero(),
            ..transition
        };
        let before = gains_at(zero_duration, Duration::from_secs(4));
        let gains = gains_at(zero_duration, zero_duration.source_start);
        assert_eq!(
            before.low,
            match role {
                EqTransitionRole::Outgoing => 1.0,
                EqTransitionRole::Incoming => 0.0,
            }
        );
        assert_eq!(
            gains.low,
            match role {
                EqTransitionRole::Outgoing => 0.0,
                EqTransitionRole::Incoming => 1.0,
            }
        );
    }
}

#[test]
fn beatmatched_mix_curve_moves_the_incoming_deck_forward() {
    assert_eq!(
        automix_mix_gains(TransitionKind::BeatMatched, 0.0),
        (1.0, 0.0)
    );
    let (_, crossfade_incoming) = automix_mix_gains(TransitionKind::Crossfade, 0.5);
    let (_, beatmatched_incoming) = automix_mix_gains(TransitionKind::BeatMatched, 0.5);
    assert!(beatmatched_incoming > crossfade_incoming);

    for step in 0..=4096 {
        let progress = step as f32 / 4096.0;
        let (outgoing, incoming) = automix_mix_gains(TransitionKind::BeatMatched, progress);
        assert!(outgoing.is_finite() && incoming.is_finite());
        assert!((0.0..=1.0).contains(&outgoing));
        assert!((0.0..=1.0).contains(&incoming));
        assert!(
            outgoing.hypot(incoming) <= 1.0801,
            "progress={progress} outgoing={outgoing} incoming={incoming}"
        );
    }
    let (outgoing, incoming) = automix_mix_gains(TransitionKind::BeatMatched, 1.0);
    assert!(outgoing.abs() < 0.0001);
    assert_eq!(incoming, 1.0);
}

#[test]
fn peak_guard_only_ducks_hot_overlaps_and_preserves_normal_curves() {
    let normal = peak_guard_from_sample_peaks(Some(bits(-4.0)), Some(bits(-4.0)), 1.0, 1.0);
    let near_hot = peak_guard_from_sample_peaks(Some(bits(-3.0)), Some(bits(-3.0)), 1.0, 1.0);
    let hot = AutoMixPeakGuard::new(bits(1.0), bits(1.0));
    let asymmetric = AutoMixPeakGuard::new(bits(0.65), bits(1.0));
    for kind in [
        TransitionKind::Gapless,
        TransitionKind::Crossfade,
        TransitionKind::BeatMatched,
    ] {
        for step in 0..=4096 {
            let progress = step as f32 / 4096.0;
            let raw = automix_mix_gains(kind, progress);
            let safe_normal = automix_peak_safe_mix_gains(kind, progress, normal);
            let safe_near_hot = automix_peak_safe_mix_gains(kind, progress, near_hot);
            let safe_hot = automix_peak_safe_mix_gains(kind, progress, hot);
            assert!((safe_normal.0 - raw.0).abs() < 0.00001);
            assert!((safe_normal.1 - raw.1).abs() < 0.00001);
            assert!(safe_near_hot.0.is_finite() && safe_near_hot.1.is_finite());
            assert!(safe_hot.0.is_finite() && safe_hot.1.is_finite());
            assert!(safe_hot.0 >= 0.0 && safe_hot.1 >= 0.0);
            let hot_peak = number(hot.outgoing_peak) * safe_hot.0
                + number(hot.incoming_peak) * safe_hot.1;
            assert!(
                hot_peak <= 1.0,
                "hot same-phase peak exceeded unity: kind={kind:?} progress={progress} safe={safe_hot:?} peak={hot_peak}"
            );
            let raw_asymmetric_peak =
                number(asymmetric.outgoing_peak) * raw.0
                    + number(asymmetric.incoming_peak) * raw.1;
            let safe_asymmetric = automix_peak_safe_mix_gains(kind, progress, asymmetric);
            let safe_asymmetric_peak = number(asymmetric.outgoing_peak) * safe_asymmetric.0
                + number(asymmetric.incoming_peak) * safe_asymmetric.1;
            assert!(
                safe_asymmetric_peak <= 1.0,
                "asymmetric same-phase peak exceeded unity: kind={kind:?} progress={progress} safe={safe_asymmetric:?} peak={safe_asymmetric_peak}"
            );
            if raw_asymmetric_peak > 1.0 {
                let outgoing_scale = safe_asymmetric.0 / raw.0;
                let incoming_scale = safe_asymmetric.1 / raw.1;
                assert!(
                    (outgoing_scale - incoming_scale).abs() < 0.00001,
                    "asymmetric guard changed curve shape: kind={kind:?} progress={progress} raw={raw:?} safe={safe_asymmetric:?}"
                );
            }
            if progress > 0.0 && progress < 1.0 {
                let raw_peak = raw.0 + raw.1;
                if raw_peak > 1.000001 {
                    assert!(
                        safe_hot.0 < raw.0 || safe_hot.1 < raw.1,
                        "hot overlap was not attenuated: kind={kind:?} progress={progress} raw={raw:?} safe={safe_hot:?}"
                    );
                }
            }
        }
        assert_eq!(automix_peak_safe_mix_gains(kind, 0.0, hot), (1.0, 0.0));
        assert_eq!(automix_peak_safe_mix_gains(kind, 1.0, hot), (0.0, 1.0));
    }
    let raw_midpoint = automix_mix_gains(TransitionKind::Crossfade, 0.5);
    let guarded_midpoint =
        automix_peak_safe_mix_gains(TransitionKind::Crossfade, 0.5, near_hot);
    assert!(guarded_midpoint.0 < raw_midpoint.0);
    assert!(guarded_midpoint.1 < raw_midpoint.1);
}

#[test]
fn peak_guard_uses_true_peak_after_each_normalization_gain() {
    let mut outgoing = TrackAnalysis::unanalyzed(Duration::from_secs(30));
    outgoing.sample_peak_dbfs = Some(bits(-6.0));
    outgoing.true_peak_dbtp = Some(bits(-1.0));
    let mut incoming = outgoing.clone();
    incoming.true_peak_dbtp = Some(bits(-2.0));

    let guard =
        peak_guard_from_analyses(&outgoing, &incoming, 0.5, 0.25);

    assert!((number(guard.outgoing_peak) - dbfs_to_linear(-1.0) * 0.5).abs() < 0.0001);
    assert!((number(guard.incoming_peak) - dbfs_to_linear(-2.0) * 0.25).abs() < 0.0001);
}

fn analyzed(bpm: f32) -> TrackAnalysis {
    let interval = span_single(60.0 / bpm);
    let mut beat_markers = Vec::new();
    let mut beat = Duration::from_secs(1);
    while beat.within(Duration::from_secs(179)) {
        beat_markers.push(beat);
        beat = beat.saturating_add(interval);
    }
    let marker_count = beat_markers.len();
    TrackAnalysis {
        duration: Duration::from_secs(180),
        audible_start: Duration::from_secs(1),
        audible_end: Duration::from_secs(179),
        intro_end: None,
        intro_confidence: bits(0.0),
        outro_start: None,
        outro_confidence: bits(0.0),
        vocal_activity: vec![0; 180 * 4],
        vocal_activity_confidences: vec![255; 180 * 4],
        vocal_activity_rate: 4,
        energy_profile: vec![192; 180 * 4],
        energy_profile_rate: 4,
        bpm: Some(bits(bpm)),
        beat_confidence: bits(0.9),
        first_beat: Some(Duration::from_secs(1)),
        beat_markers,
        beat_marker_confidences: vec![bits(0.9); marker_count],
        first_downbeat: Some(Duration::from_secs(1)),
        downbeat_confidence: bits(0.9),
        musical_key: None,
        rms_dbfs: None,
        sample_peak_dbfs: Some(bits(-4.0)),
        integrated_lufs: None,
        true_peak_dbtp: None,
    }
}

fn keyed(tonic: u8, mode: KeyMode) -> TrackAnalysis {
    let mut analysis = analyzed(120.0);
    analysis.musical_key = Some(MusicalKey {
        tonic,
        mode,
        confidence: bits(0.9),
    });
    analysis
}

#[test]
fn exposes_four_four_grid_and_hierarchical_phrase_cues() {
    let analysis = analyzed(120.0);
    let grid = beat_grid(&analysis).unwrap();
    assert_eq!(grid.first_downbeat, Duration::from_secs(1));
    assert_eq!(grid.beat_interval, Duration::from_millis(500));
    assert_eq!(grid.beats_per_bar, 4);
    assert_eq!(grid.downbeat_confidence, bits(0.9));

    let cues = phrase_cues(&analysis);
    assert!(cues.contains(&PhraseCue {
        position: Duration::from_secs(9),
        length: PhraseLength::FourBars,
    }));
    assert!(cues.contains(&PhraseCue {
        position: Duration::from_secs(17),
        length: PhraseLength::EightBars,
    }));
    assert!(cues.contains(&PhraseCue {
        position: Duration::from_secs(33),
        length: PhraseLength::SixteenBars,
    }));
}

#[test]
fn beatmatch_prefers_phrase_boundary_near_the_fade_target() {
    let plan = plan_transition(&analyzed(120.0), &analyzed(120.0), &config());
    // Fade target is 171s. The inferred 4-bar boundary at 169s is the
    // strongest boundary within the eight-second look-behind window.
    assert_eq!(plan.outgoing_start, Duration::from_secs(169));
    assert_eq!(
        plan.outgoing_start.saturating_add(plan.duration),
        Duration::from_secs(179)
    );
}

#[test]
fn beatmatch_prefers_larger_phrase_boundary_when_search_window_allows() {
    let mut outgoing = analyzed(120.0);
    outgoing.duration = Duration::from_secs(188);
    outgoing.audible_end = Duration::from_secs(187);
    let mut beat = *outgoing.beat_markers.last().unwrap();
    while beat.shorter(outgoing.audible_end) {
        beat = beat.saturating_add(Duration::from_millis(500));
        outgoing.beat_markers.push(beat);
    }
    let incoming = analyzed(120.0);
    let mut config = config();
    config.crossfade = Duration::from_secs(16);

    let plan = plan_transition(&outgoing, &incoming, &config);
    let quality = evaluate(&outgoing, &incoming, &plan, UNITY_GAINS);

    assert_eq!(plan.kind, TransitionKind::BeatMatched);
    assert_eq!(plan.outgoing_start, Duration::from_secs(161));
    assert_eq!(plan.outgoing_start.saturating_add(plan.duration), outgoing.audible_end);
    assert_eq!(quality.phrase_boundary_bars, Some(16));

    let mut four_bar_quality = quality.clone();
    four_bar_quality.phrase_boundary_bars = Some(4);
    assert!(
        transition_start_score(&quality).unwrap()
            < transition_start_score(&four_bar_quality).unwrap(),
        "quality={quality:?} four_bar_quality={four_bar_quality:?}"
    );
}

#[test]
fn chooses_beatmatch_for_compatible_confident_tempos() {
    let plan = plan_transition(&analyzed(120.0), &analyzed(124.0), &config());
    assert_eq!(plan.kind, TransitionKind::BeatMatched);
    assert!((number(plan.incoming_tempo_ratio) - 120.0 / 124.0).abs() < 0.0001);
    assert_eq!(plan.duration, Duration::from_secs(10), "plan={plan:?}");
}

#[test]
fn beatmatch_accepts_double_time_bpm_family() {
    let outgoing = analyzed(70.0);
    let incoming = analyzed(140.0);
    let plan = plan_transition(&outgoing, &incoming, &config());
    let report = evaluate(&outgoing, &incoming, &plan, UNITY_GAINS);

    assert_eq!(plan.kind, TransitionKind::BeatMatched);
    assert!((number(plan.incoming_tempo_ratio) - 1.0).abs() < 0.0001);
    assert!(report.is_ok(), "plan={plan:?} report={report:?}");
}

#[test]
fn kick_marker_coverage_allows_beatmatch_below_global_confidence_threshold() {
    let outgoing = marker_backed_low_confidence(126.0);
    let incoming = marker_backed_low_confidence(126.0);

    let plan = plan_transition(&outgoing, &incoming, &config());
    let report = evaluate(&outgoing, &incoming, &plan, UNITY_GAINS);
    let guarded = plan_guarded(&outgoing, &incoming, &config(), UNITY_GAINS);

    assert_eq!(plan.kind, TransitionKind::BeatMatched);
    assert_eq!(
        explain(&outgoing, &incoming, &config(), &guarded),
        AutoMixBeatMatchDecision::Selected
    );
    assert!(
        report.max_beat_phase_error.unwrap().within(Duration::from_millis(1)),
        "plan={plan:?} report={report:?}"
    );
    assert!(!report.has_blocking_issue(), "report={report:?}");
}

#[test]
fn weak_kick_marker_coverage_still_falls_back_to_crossfade() {
    let mut outgoing = marker_backed_low_confidence(126.0);
    let mut incoming = marker_backed_low_confidence(126.0);
    outgoing.beat_marker_confidences.fill(bits(0.1));
    incoming.beat_marker_confidences.fill(bits(0.1));

    let plan = plan_transition(&outgoing, &incoming, &config());
    let guarded = plan_guarded(&outgoing, &incoming, &config(), UNITY_GAINS);

    assert_eq!(plan.kind, TransitionKind::Crossfade);
    assert_eq!(
        explain(&outgoing, &incoming, &config(), &guarded),
        AutoMixBeatMatchDecision::OutgoingTempoConfidenceTooLow
    );
}

#[test]
fn transition_quality_accepts_a_continuous_beatmatched_mix() {
    let outgoing = analyzed(120.0);
    let incoming = analyzed(120.0);
    let plan = plan_transition(&outgoing, &incoming, &config());

    let report = evaluate(&outgoing, &incoming, &plan, UNITY_GAINS);

    assert!(report.is_ok(), "report={report:?} plan={plan:?}");
    assert!(report.beat_pairs_checked >= 8, "report={report:?}");
    assert!(
        report.max_beat_phase_error.unwrap().within(Duration::from_millis(1)),
        "report={report:?}"
    );
    assert!(
        report.handoff_beat_phase_error.unwrap().within(Duration::from_millis(1)),
        "report={report:?}"
    );
    assert!(report.downbeat_pairs_checked >= 2, "report={report:?}");
    assert!(
        report.max_downbeat_phase_error.unwrap().within(Duration::from_millis(1)),
        "report={report:?}"
    );
    assert!(
        report.handoff_downbeat_phase_error.unwrap().within(Duration::from_millis(1)),
        "report={report:?}"
    );
    assert!(report.phrase_pairs_checked >= 2, "report={report:?}");
    assert!(
        report.max_phrase_phase_error.unwrap().within(Duration::from_millis(1)),
        "report={report:?}"
    );
    // The fade endpoint is not itself an observed phrase marker; a
    // synthetic global-phase handoff must not be reported as verified.
    assert_eq!(report.handoff_phrase_phase_error, None, "report={report:?}");
    assert!(
        number(report.low_handoff_min.unwrap()) >= 0.99 && number(report.low_handoff_max.unwrap()) <= 1.01,
        "report={report:?}"
    );
    assert!(report.energy_samples_checked > 0, "report={report:?}");
    assert!(
        number(report.min_mix_energy_ratio.unwrap()) >= 0.7,
        "report={report:?}"
    );
    assert!(
        number(report.max_mix_energy_ratio.unwrap()) <= 1.05,
        "report={report:?}"
    );
}

#[test]
fn beat_phase_requires_eight_pairs_and_sufficient_overlap_coverage() {
    let outgoing = analyzed(120.0);
    let incoming = analyzed(120.0);
    let short_plan = TransitionPlan {
        kind: TransitionKind::BeatMatched,
        outgoing_start: Duration::from_secs(1),
        incoming_start: Duration::from_secs(1),
        incoming_cue_selection: None,
        duration: Duration::from_secs(1),
        incoming_tempo_ratio: bits(1.0),
        harmonic_compatibility: None,
        incoming_gain: bits(1.0),
        tempo_envelope: None,
        energy_selection: None,
    };
    let short_quality = evaluate(&outgoing, &incoming, &short_plan, UNITY_GAINS);
    assert_eq!(short_quality.beat_pairs_checked, 3);
    assert_eq!(short_quality.beat_phase_coverage, Some(bits(1.0)));
    assert_eq!(short_quality.max_beat_phase_error, None);
    assert!(
        short_quality
            .issues
            .contains(&AutoMixQualityIssue::BeatPhaseUnverified)
    );

    let full_plan = TransitionPlan {
        duration: Duration::from_secs(4),
        ..short_plan
    };
    let full_quality = evaluate(&outgoing, &incoming, &full_plan, UNITY_GAINS);
    assert!(full_quality.beat_pairs_checked >= MIN_BEAT_PHASE_PAIRS);
    assert!(
        full_quality
            .beat_phase_coverage
            .is_some_and(|coverage| number(coverage) >= number(MIN_BEAT_PHASE_COVERAGE))
    );
    assert!(full_quality.max_beat_phase_error.is_some());
    assert!(
        !full_quality
            .issues
            .contains(&AutoMixQualityIssue::BeatPhaseUnverified)
    );

    let mut sparse_outgoing = outgoing.clone();
    let mut sparse_incoming = incoming.clone();
    for index in [2, 4, 6, 8] {
        sparse_outgoing.beat_marker_confidences[index] = bits(0.0);
        sparse_incoming.beat_marker_confidences[index] = bits(0.0);
    }
    let sparse_quality =
        evaluate(&sparse_outgoing, &sparse_incoming, &full_plan, UNITY_GAINS);
    assert_eq!(sparse_quality.beat_phase_coverage, Some(bits(0.625)));
    assert_eq!(sparse_quality.max_beat_phase_error, None);
    assert!(
        sparse_quality
            .issues
            .contains(&AutoMixQualityIssue::BeatPhaseUnverified)
    );
}

#[test]
fn marker_shifted_outro_uses_local_markers_instead_of_a_synthetic_grid() {
    let mut track = analyzed(131.875);
    track.duration = Duration::from_millis(204_382);
    track.audible_start = Duration::from_millis(236);
    track.audible_end = Duration::from_millis(203_780);
    track.first_beat = Some(Duration::from_millis(250));
    track.first_downbeat = Some(Duration::from_millis(250));
    track.downbeat_confidence = bits(0.017);
    track.beat_confidence = bits(0.56);
    track.vocal_activity = vec![0; 205 * 4];
    track.vocal_activity_confidences = vec![255; 205 * 4];
    track.energy_profile = vec![192; 205 * 4];

    let mut markers = Vec::new();
    let mut marker = Duration::from_millis(250);
    while marker.within(Duration::from_secs(16)) {
        markers.push(marker);
        marker = marker.saturating_add(Duration::from_millis(455));
    }
    marker = Duration::from_millis(194_760);
    while marker.within(Duration::from_millis(201_605)) {
        markers.push(marker);
        // Keep the local tail's observed phase shift, while retaining
        // the intermediate trusted beat markers needed to measure the
        // full overlap's evidence coverage.
        marker = marker.saturating_add(Duration::from_millis(455));
    }
    track.beat_markers = markers;
    track.beat_marker_confidences = vec![bits(0.75); track.beat_markers.len()];

    let mut config = config();
    config.crossfade = Duration::from_millis(8_345);
    let synthetic_start =
        align_to_global_beat(track.audible_end.saturating_sub(config.crossfade), &track);
    let plan = plan_transition(&track, &track, &config);
    let quality = evaluate(&track, &track, &plan, UNITY_GAINS);
    let guarded = plan_guarded(&track, &track, &config, UNITY_GAINS);

    assert_eq!(plan.kind, TransitionKind::BeatMatched, "plan={plan:?}");
    assert!(track.beat_markers.contains(&plan.outgoing_start));
    assert_ne!(plan.outgoing_start, synthetic_start);
    assert_eq!(plan.incoming_start, Duration::from_millis(250));
    assert!(quality.beat_pairs_checked >= 5, "quality={quality:?}");
    assert!(
        quality
            .max_beat_phase_error
            .is_some_and(|error| error.within(Duration::from_millis(1))),
        "plan={plan:?} quality={quality:?}"
    );
    assert_eq!(quality.handoff_beat_phase_error, None);
    assert!(!quality.has_blocking_issue(), "quality={quality:?}");
    assert_eq!(
        guarded.plan.kind,
        TransitionKind::BeatMatched,
        "{guarded:?}"
    );
}

#[test]
fn low_confidence_downbeats_do_not_override_trusted_beat_alignment() {
    let outgoing = analyzed(120.0);
    let mut incoming = analyzed(120.0);
    incoming.first_downbeat = Some(Duration::from_millis(1_750));
    incoming.downbeat_confidence = bits(0.4);
    let mut outgoing = outgoing;
    outgoing.downbeat_confidence = bits(0.4);

    let plan = plan_transition(&outgoing, &incoming, &config());
    let quality = evaluate(&outgoing, &incoming, &plan, UNITY_GAINS);

    assert_eq!(plan.kind, TransitionKind::BeatMatched, "plan={plan:?}");
    assert!(quality.beat_pairs_checked > 0, "quality={quality:?}");
    assert_eq!(quality.downbeat_pairs_checked, 0);
    assert_eq!(quality.max_downbeat_phase_error, None);
    assert!(!quality.has_blocking_issue(), "quality={quality:?}");
}

#[test]
fn transition_quality_detects_late_incoming_kicks() {
    let outgoing = analyzed(120.0);
    let incoming = analyzed(120.0);
    let mut plan = plan_transition(&outgoing, &incoming, &config());
    plan.incoming_start = plan.incoming_start.saturating_add(Duration::from_millis(75));

    let report = evaluate(&outgoing, &incoming, &plan, UNITY_GAINS);

    assert!(
        report.issues.iter().any(|issue| matches!(
            issue,
            AutoMixQualityIssue::BeatPhaseDriftTooLarge { max_error }
                if Duration::from_millis(35).shorter(*max_error)
        )),
        "report={report:?}"
    );
}

#[test]
fn transition_quality_detects_handoff_phase_drift() {
    let outgoing = analyzed(120.0);
    let incoming = analyzed(120.0);
    let mut plan = plan_transition(&outgoing, &incoming, &config());
    plan.incoming_tempo_ratio = bits(1.02);
    plan.tempo_envelope = Some(TempoEnvelope::new(
        bits(1.02),
        bits(1.02),
        plan.duration,
        Duration::zero(),
    ));

    let report = evaluate(&outgoing, &incoming, &plan, UNITY_GAINS);

    assert!(
        Duration::from_millis(35).shorter(report.handoff_beat_phase_error.unwrap()),
        "report={report:?}"
    );
    assert!(
        report.issues.iter().any(|issue| matches!(
            issue,
            AutoMixQualityIssue::BeatHandoffPhaseDriftTooLarge { error }
                if Duration::from_millis(35).shorter(*error)
        )),
        "report={report:?}"
    );
    assert!(report.has_blocking_issue(), "report={report:?}");
}

#[test]
fn transition_quality_detects_downbeat_phase_drift() {
    let outgoing = analyzed(120.0);
    let mut incoming = analyzed(120.0);
    let plan = plan_transition(&outgoing, &incoming, &config());
    incoming.first_downbeat = Some(Duration::from_millis(1_500));
    incoming.downbeat_confidence = bits(0.9);

    let report = evaluate(&outgoing, &incoming, &plan, UNITY_GAINS);

    assert_eq!(plan.kind, TransitionKind::BeatMatched);
    assert!(
        report.max_beat_phase_error.unwrap().within(Duration::from_millis(1)),
        "report={report:?}"
    );
    assert!(
        report
            .issues
            .contains(&AutoMixQualityIssue::DownbeatPhaseUnverified),
        "report={report:?}"
    );
    assert!(report.has_blocking_issue(), "report={report:?}");
}

#[test]
fn marker_ordinal_phase_survives_long_local_tempo_drift() {
    let mut outgoing = analyzed(120.0);
    let mut incoming = analyzed(120.0);
    // Keep the two observed marker streams aligned while allowing their
    // local clock to drift well beyond the global first_downbeat+BPM
    // extrapolation by the end of the track.
    for (index, marker) in outgoing.beat_markers.iter_mut().enumerate() {
        let drift = Duration::from_millis((index as u64 * 180) / 358);
        *marker = marker.saturating_add(drift);
    }
    incoming.beat_markers.clone_from(&outgoing.beat_markers);

    let plan = plan_transition(&outgoing, &incoming, &config());
    let report = evaluate(&outgoing, &incoming, &plan, UNITY_GAINS);

    assert_eq!(plan.kind, TransitionKind::BeatMatched, "plan={plan:?}");
    assert!(report.beat_pairs_checked >= 8, "report={report:?}");
    assert!(report.downbeat_pairs_checked >= 2, "report={report:?}");
    assert!(!report.has_blocking_issue(), "report={report:?}");
}

#[test]
fn actionable_phase_metadata_without_observed_phase_pair_fails_closed() {
    let outgoing = analyzed(120.0);
    let mut incoming = analyzed(120.0);
    incoming.first_downbeat = Some(Duration::from_millis(1_250));
    incoming.downbeat_confidence = bits(0.9);

    let plan = plan_transition(&outgoing, &incoming, &config());
    let report = evaluate(&outgoing, &incoming, &plan, UNITY_GAINS);

    assert_eq!(plan.kind, TransitionKind::BeatMatched);
    assert_eq!(report.max_downbeat_phase_error, None);
    assert!(
        report
            .issues
            .contains(&AutoMixQualityIssue::DownbeatPhaseUnverified),
        "report={report:?}"
    );
    assert!(report.has_blocking_issue(), "report={report:?}");
}

#[test]
fn one_sided_marker_confidence_cannot_anchor_a_beatmatch() {
    let mut outgoing = analyzed(120.0);
    outgoing.beat_marker_confidences.clear();
    let incoming = analyzed(120.0);

    let plan = plan_transition(&outgoing, &incoming, &config());

    assert_ne!(plan.kind, TransitionKind::BeatMatched, "plan={plan:?}");
}

#[test]
fn transition_quality_leaves_unobserved_phrase_phase_optional() {
    let outgoing = analyzed(120.0);
    let mut incoming = analyzed(120.0);
    let plan = plan_transition(&outgoing, &incoming, &config());
    incoming.first_downbeat = Some(Duration::from_secs(3));
    incoming.downbeat_confidence = bits(0.9);

    let report = evaluate(&outgoing, &incoming, &plan, UNITY_GAINS);

    assert_eq!(plan.kind, TransitionKind::BeatMatched);
    assert!(
        report.max_downbeat_phase_error.unwrap().within(Duration::from_millis(1)),
        "report={report:?}"
    );
    assert!(report.max_phrase_phase_error.is_none(), "report={report:?}");
    assert!(!report.has_blocking_issue(), "report={report:?}");
}

#[test]
fn beatmatch_aligns_outgoing_start_to_incoming_phrase_phase() {
    let outgoing = analyzed(120.0);
    let mut incoming = analyzed(120.0);
    incoming.first_downbeat = Some(Duration::from_millis(1_500));
    incoming.downbeat_confidence = bits(0.9);

    let plan = plan_transition(&outgoing, &incoming, &config());
    let quality = evaluate(&outgoing, &incoming, &plan, UNITY_GAINS);

    assert_eq!(plan.kind, TransitionKind::BeatMatched);
    assert_eq!(plan.incoming_start, Duration::from_secs(1));
    assert_eq!(plan.outgoing_start, Duration::from_millis(168_500));
    assert!(
        quality.max_downbeat_phase_error.unwrap().within(Duration::from_millis(1)),
        "plan={plan:?} report={quality:?}"
    );
    assert!(
        quality.max_phrase_phase_error.unwrap().within(Duration::from_millis(1)),
        "plan={plan:?} report={quality:?}"
    );
    assert!(!quality.has_blocking_issue(), "report={quality:?}");
}

#[test]
fn beatmatch_aligns_longer_pickup_to_incoming_phrase_phase() {
    let outgoing = analyzed(120.0);
    let mut incoming = analyzed(120.0);
    incoming.first_downbeat = Some(Duration::from_secs(3));
    incoming.downbeat_confidence = bits(0.9);

    let plan = plan_transition(&outgoing, &incoming, &config());
    let quality = evaluate(&outgoing, &incoming, &plan, UNITY_GAINS);

    assert_eq!(plan.kind, TransitionKind::BeatMatched);
    assert_eq!(plan.incoming_start, Duration::from_secs(1));
    assert_eq!(plan.outgoing_start, Duration::from_secs(167));
    assert!(
        quality.max_downbeat_phase_error.unwrap().within(Duration::from_millis(1)),
        "plan={plan:?} report={quality:?}"
    );
    assert!(
        quality.max_phrase_phase_error.unwrap().within(Duration::from_millis(1)),
        "plan={plan:?} report={quality:?}"
    );
    assert!(!quality.has_blocking_issue(), "report={quality:?}");
}

#[test]
fn transition_quality_detects_a_stopped_flow_transition() {
    let outgoing = analyzed(120.0);
    let incoming = analyzed(120.0);
    let mut plan = plan_transition(&outgoing, &incoming, &config());
    plan.duration = Duration::zero();
    plan.outgoing_start = outgoing.audible_end;

    let report = evaluate(&outgoing, &incoming, &plan, UNITY_GAINS);

    assert!(
        report
            .issues
            .contains(&AutoMixQualityIssue::MixOverlapTooShort {
                overlap: Duration::zero()
            }),
        "report={report:?}"
    );
    assert!(
        report
            .issues
            .contains(&AutoMixQualityIssue::BeatPhaseUnverified),
        "report={report:?}"
    );
}

#[test]
fn incoming_start_uses_trusted_kick_marker_after_the_audible_boundary() {
    let outgoing = analyzed(120.0);
    let mut incoming = analyzed(120.0);
    incoming.first_beat = Some(Duration::from_secs(1));
    incoming.first_downbeat = Some(Duration::from_millis(1_050));
    incoming.beat_markers = std::iter::once(Duration::from_millis(980))
        .chain((0..350).map(|index| Duration::from_millis(1_050 + index * 500)))
        .collect();
    incoming.beat_marker_confidences = vec![bits(1.0); incoming.beat_markers.len()];

    let plan = plan_transition(&outgoing, &incoming, &config());
    let quality = evaluate(&outgoing, &incoming, &plan, UNITY_GAINS);
    let guarded = plan_guarded(&outgoing, &incoming, &config(), UNITY_GAINS);

    assert_eq!(plan.kind, TransitionKind::BeatMatched);
    assert_eq!(plan.incoming_start, Duration::from_millis(1_050));
    assert!(!quality.has_blocking_issue(), "report={quality:?}");
    assert!(guarded.rejected_plan.is_none(), "guarded={guarded:?}");
}

#[test]
fn beatmatch_skips_safe_low_energy_intro_to_a_later_safe_downbeat() {
    let outgoing = analyzed(120.0);
    let mut incoming = analyzed(120.0);
    incoming.first_beat = Some(Duration::from_secs(5));
    incoming.first_downbeat = Some(Duration::from_secs(5));
    incoming.beat_markers = (0..350)
        .map(|index| span_single(5.0 + index as f32 * 0.5))
        .collect();
    incoming.beat_marker_confidences = vec![bits(1.0); incoming.beat_markers.len()];
    set_energy_ranges(&mut incoming, -14.0, &[(1.0, 5.0, -50.0)]);

    let plan = plan_transition(&outgoing, &incoming, &config());
    let quality = evaluate(&outgoing, &incoming, &plan, UNITY_GAINS);

    assert_eq!(plan.kind, TransitionKind::BeatMatched);
    assert!(
        Duration::from_secs(5).within(plan.incoming_start),
        "plan={plan:?}"
    );
    assert!(
        plan.incoming_cue_selection
            .is_some_and(|selection| selection.candidates_checked > 1),
        "plan={plan:?}"
    );
    assert!(
        !quality.has_blocking_issue(),
        "plan={plan:?} quality={quality:?}"
    );
}

fn safe_to_skip_low_energy_intro(incoming: &TrackAnalysis, candidate: Duration) -> bool {
    safe_to_skip_intro_until(
        incoming,
        candidate,
        Duration {
            nanos: MAX_LOW_ENERGY_INTRO_SKIP_NANOS,
        },
        skip_evidence(incoming, candidate, 0.45),
    )
}

#[test]
fn safe_incoming_cues_include_later_low_energy_candidates() {
    let mut incoming = analyzed(120.0);
    incoming.first_beat = Some(Duration::from_secs(1));
    incoming.first_downbeat = Some(Duration::from_secs(1));
    incoming.beat_markers = (0..350)
        .map(|index| span_single(1.0 + index as f32 * 0.5))
        .collect();
    incoming.beat_marker_confidences = vec![bits(1.0); incoming.beat_markers.len()];
    set_energy_ranges(&mut incoming, -14.0, &[(1.0, 3.0, -50.0)]);

    let candidates = incoming_starts(&incoming);

    assert!(!safe_to_skip_low_energy_intro(
        &incoming,
        Duration::from_secs(1)
    ));
    assert!(safe_to_skip_low_energy_intro(
        &incoming,
        Duration::from_secs(3)
    ));
    assert!(candidates.contains(&Duration::from_secs(1)));
    assert!(candidates.contains(&Duration::from_secs(3)));
    assert!(candidates.len() <= MAX_INCOMING_CUE_CANDIDATES);
}

#[test]
fn beatmatch_skips_safe_low_energy_intro_to_trusted_intro_boundary() {
    let outgoing = analyzed(120.0);
    let mut incoming = analyzed(120.0);
    incoming.intro_end = Some(Duration::from_secs(13));
    incoming.intro_confidence = bits(0.9);
    incoming.first_beat = Some(Duration::from_secs(1));
    incoming.first_downbeat = Some(Duration::from_secs(1));
    incoming.beat_markers = (0..350)
        .map(|index| span_single(1.0 + index as f32 * 0.5))
        .collect();
    incoming.beat_marker_confidences = vec![bits(1.0); incoming.beat_markers.len()];
    set_energy_ranges(&mut incoming, -14.0, &[(1.0, 13.0, -50.0)]);

    let plan = plan_transition(&outgoing, &incoming, &config());
    let quality = evaluate(&outgoing, &incoming, &plan, UNITY_GAINS);

    assert_eq!(plan.kind, TransitionKind::BeatMatched);
    assert_eq!(plan.incoming_start, Duration::from_secs(13));
    let selection = plan.incoming_cue_selection.expect("incoming cue selection");
    assert_eq!(selection.default_start, Duration::from_secs(1));
    assert_eq!(selection.selected_start, Duration::from_secs(13));
    assert!(selection.candidates_checked > 1);
    assert!(
        !quality.has_blocking_issue(),
        "plan={plan:?} quality={quality:?}"
    );
}

#[test]
fn structured_intro_skip_keeps_vocal_pickup_intact() {
    let outgoing = analyzed(120.0);
    let mut incoming = analyzed(120.0);
    incoming.intro_end = Some(Duration::from_secs(13));
    incoming.intro_confidence = bits(0.9);
    incoming.first_beat = Some(Duration::from_secs(13));
    incoming.first_downbeat = Some(Duration::from_secs(13));
    incoming.beat_markers = (0..350)
        .map(|index| span_single(13.0 + index as f32 * 0.5))
        .collect();
    incoming.beat_marker_confidences = vec![bits(1.0); incoming.beat_markers.len()];
    set_energy_ranges(&mut incoming, -14.0, &[(1.0, 13.0, -50.0)]);
    set_soft_vocal_ranges(&mut incoming, &[(2.0, 12.0)], 0.3);

    let plan = plan_transition(&outgoing, &incoming, &config());

    assert_eq!(plan.kind, TransitionKind::Crossfade);
    assert_eq!(plan.incoming_start, incoming.audible_start);
}

#[test]
fn low_energy_intro_skip_keeps_vocal_pickup_intact() {
    let outgoing = analyzed(120.0);
    let mut incoming = analyzed(120.0);
    incoming.first_beat = Some(Duration::from_secs(5));
    incoming.first_downbeat = Some(Duration::from_secs(5));
    incoming.beat_markers = (0..350)
        .map(|index| span_single(5.0 + index as f32 * 0.5))
        .collect();
    incoming.beat_marker_confidences = vec![bits(1.0); incoming.beat_markers.len()];
    set_energy_ranges(&mut incoming, -14.0, &[(1.0, 5.0, -50.0)]);
    set_soft_vocal_ranges(&mut incoming, &[(1.0, 5.0)], 0.3);

    let plan = plan_transition(&outgoing, &incoming, &config());

    assert_eq!(plan.kind, TransitionKind::Crossfade);
    assert_eq!(plan.incoming_start, incoming.audible_start);
}

#[test]
fn structured_overlap_stays_inside_outro_while_preserving_phrase_phase() {
    let mut outgoing = analyzed(120.0);
    outgoing.audible_end = Duration::from_secs(61);
    outgoing.outro_start = Some(Duration::from_secs(50));
    outgoing.outro_confidence = bits(0.9);
    let mut incoming = analyzed(120.0);
    incoming.audible_end = Duration::from_secs(61);
    incoming.intro_end = Some(Duration::from_secs(13));
    incoming.intro_confidence = bits(0.9);
    let mut config = config();
    config.crossfade = Duration::from_secs(16);

    let plan = plan_transition(&outgoing, &incoming, &config);
    let quality = evaluate(&outgoing, &incoming, &plan, UNITY_GAINS);

    assert_eq!(plan.kind, TransitionKind::BeatMatched);
    assert_eq!(plan.outgoing_start, Duration::from_secs(57));
    assert!(outgoing.outro_start.unwrap().within(plan.outgoing_start));
    assert_eq!(plan.outgoing_start.saturating_add(plan.duration), outgoing.audible_end);
    assert!(
        quality.max_downbeat_phase_error.unwrap().within(Duration::from_millis(1)),
        "plan={plan:?} report={quality:?}"
    );
    assert!(
        quality.max_phrase_phase_error.unwrap().within(Duration::from_millis(1)),
        "plan={plan:?} report={quality:?}"
    );
    assert!(!quality.has_blocking_issue(), "report={quality:?}");
}

#[test]
fn guarded_transition_replaces_a_drifted_beatmatch_with_conservative_crossfade() {
    let outgoing = analyzed(120.0);
    let mut incoming = analyzed(120.0);
    for marker in &mut incoming.beat_markers {
        *marker = marker.saturating_add(Duration::from_millis(250));
    }

    let raw_plan = plan_transition(&outgoing, &incoming, &config());
    let raw_quality = evaluate(&outgoing, &incoming, &raw_plan, UNITY_GAINS);

    assert_eq!(raw_plan.kind, TransitionKind::BeatMatched);
    assert!(raw_quality.has_blocking_issue(), "report={raw_quality:?}");

    let guarded = plan_guarded(&outgoing, &incoming, &config(), UNITY_GAINS);

    assert_eq!(
        guarded.rejected_plan.as_ref().map(|plan| plan.kind),
        Some(TransitionKind::BeatMatched)
    );
    assert!(
        guarded
            .rejected_quality
            .as_ref()
            .is_some_and(AutoMixQualityReport::has_blocking_issue),
        "guarded={guarded:?}"
    );
    assert_eq!(guarded.plan.kind, TransitionKind::Crossfade);
    assert_eq!(guarded.plan.incoming_start, incoming.audible_start);
    assert_eq!(
        guarded.plan.outgoing_start.saturating_add(guarded.plan.duration),
        outgoing.audible_end
    );
    assert_eq!(guarded.plan.incoming_tempo_ratio, bits(1.0));
    assert!(guarded.plan.tempo_envelope.is_none());
    assert!(!guarded.quality.has_blocking_issue(), "guarded={guarded:?}");
    assert_eq!(
        explain(&outgoing, &incoming, &config(), &guarded),
        AutoMixBeatMatchDecision::QualityGuarded
    );
}

#[test]
fn guarded_transition_rechecks_an_unsafe_crossfade_fallback_before_using_gapless() {
    let mut outgoing = analyzed(120.0);
    let mut incoming = analyzed(120.0);
    for marker in &mut incoming.beat_markers {
        *marker = marker.saturating_add(Duration::from_millis(250));
    }
    set_energy_ranges(&mut outgoing, -18.0, &[(175.0, 177.0, -42.0)]);
    set_energy_ranges(&mut incoming, -18.0, &[(5.0, 7.0, -42.0)]);
    let config = config();
    let fallback = crossfade_fallback(&outgoing, &incoming, &config);
    let fallback_quality = evaluate(&outgoing, &incoming, &fallback, UNITY_GAINS);

    assert_eq!(fallback.kind, TransitionKind::Crossfade);
    assert!(
        fallback_quality.issues.iter().any(|issue| matches!(
            issue,
            AutoMixQualityIssue::MixEnergyDipTooDeep { min_ratio }
                if number(*min_ratio) < number(MIN_SAFE_MIX_ENERGY_RATIO)
        )),
        "fallback={fallback:?} quality={fallback_quality:?}"
    );

    let guarded = plan_guarded(&outgoing, &incoming, &config, UNITY_GAINS);

    assert_eq!(guarded.plan.kind, TransitionKind::Gapless, "{guarded:?}");
    assert!(guarded.quality.is_ok(), "{guarded:?}");
    assert_eq!(
        guarded.rejected_plan.as_ref().map(|plan| plan.kind),
        Some(TransitionKind::BeatMatched)
    );
    assert!(
        guarded
            .rejected_quality
            .as_ref()
            .is_some_and(AutoMixQualityReport::has_blocking_issue),
        "{guarded:?}"
    );
}

#[test]
fn non_beatmatched_guard_skips_beatmatch_and_keeps_a_safe_crossfade() {
    let outgoing = analyzed(120.0);
    let incoming = analyzed(120.0);

    let guarded = guarded_crossfade(&outgoing, &incoming, &config(), base_gains(1.0, 1.0));

    assert_eq!(guarded.plan.kind, TransitionKind::Crossfade);
    assert!(!guarded.quality.has_blocking_issue(), "{guarded:?}");
    assert!(guarded.rejected_plan.is_none());
}

#[test]
fn non_beatmatched_guard_uses_gapless_for_an_unsafe_crossfade() {
    let mut outgoing = analyzed(120.0);
    let mut incoming = analyzed(120.0);
    set_energy_ranges(&mut outgoing, -18.0, &[(175.0, 177.0, -42.0)]);
    set_energy_ranges(&mut incoming, -18.0, &[(5.0, 7.0, -42.0)]);

    let guarded = guarded_crossfade(&outgoing, &incoming, &config(), base_gains(1.0, 1.0));

    assert_eq!(guarded.plan.kind, TransitionKind::Gapless, "{guarded:?}");
    assert!(guarded.quality.is_ok(), "{guarded:?}");
    assert_eq!(
        guarded.rejected_plan.as_ref().map(|plan| plan.kind),
        Some(TransitionKind::Crossfade)
    );
    assert!(
        guarded
            .rejected_quality
            .as_ref()
            .is_some_and(AutoMixQualityReport::has_blocking_issue),
        "{guarded:?}"
    );
}

#[test]
fn non_beatmatched_guard_is_safe_without_energy_or_finite_gains() {
    let outgoing = TrackAnalysis::unanalyzed(Duration::from_secs(30));
    let incoming = TrackAnalysis::unanalyzed(Duration::from_secs(30));

    let guarded = guarded_crossfade(&outgoing, &incoming, &config(), base_gains(f32::NAN, f32::INFINITY));

    assert_eq!(guarded.plan.kind, TransitionKind::Crossfade);
    assert!(!guarded.quality.has_blocking_issue(), "{guarded:?}");
}

#[test]
fn corrects_small_tempo_differences_that_would_drift_during_the_mix() {
    let plan = plan_transition(&analyzed(120.0), &analyzed(120.3), &config());
    let envelope = plan.tempo_envelope.clone().expect("small drift should be corrected");
    assert!((number(envelope.initial_speed) - 120.0 / 120.3).abs() < 0.0001);
    assert_eq!(envelope.hold, plan.duration);
}

#[test]
fn falls_back_to_crossfade_for_incompatible_tempos() {
    let outgoing = analyzed(90.0);
    let incoming = analyzed(140.0);
    let plan = plan_transition(&outgoing, &incoming, &config());
    let guarded = plan_guarded(&outgoing, &incoming, &config(), UNITY_GAINS);
    assert_eq!(plan.kind, TransitionKind::Crossfade);
    assert_eq!(plan.incoming_tempo_ratio, bits(1.0));
    assert_eq!(
        explain(&outgoing, &incoming, &config(), &guarded),
        AutoMixBeatMatchDecision::TempoDifferenceTooLarge
    );
}

#[test]
fn recognizes_relative_keys_as_harmonically_compatible() {
    let plan = plan_transition(
        &keyed(0, KeyMode::Major),
        &keyed(9, KeyMode::Minor),
        &config(),
    );
    assert_eq!(plan.harmonic_compatibility, Some(bits(0.95)));
    assert_eq!(plan.duration, Duration::from_secs(10));
}

#[test]
fn shortens_overlap_for_confident_incompatible_keys() {
    let plan = plan_transition(
        &keyed(0, KeyMode::Major),
        &keyed(6, KeyMode::Major),
        &config(),
    );
    assert_eq!(plan.harmonic_compatibility, Some(bits(0.2)));
    assert_eq!(plan.duration, Duration::from_secs(4), "plan={plan:?}");
}

#[test]
fn planner_does_not_apply_pairwise_level_or_peak_normalization() {
    let mut outgoing = analyzed(120.0);
    outgoing.rms_dbfs = Some(bits(-18.0));
    let mut incoming = analyzed(120.0);
    incoming.rms_dbfs = Some(bits(-12.0));
    incoming.sample_peak_dbfs = Some(bits(-0.5));
    let plan = plan_transition(&outgoing, &incoming, &config());
    assert_eq!(plan.incoming_gain, bits(1.0));

    std::mem::swap(&mut outgoing, &mut incoming);
    let plan = plan_transition(&outgoing, &incoming, &config());
    assert_eq!(plan.incoming_gain, bits(1.0));
}

#[test]
fn normal_peak_measurements_do_not_change_planner_gain() {
    let mut outgoing = analyzed(120.0);
    outgoing.rms_dbfs = Some(bits(-12.0));
    outgoing.sample_peak_dbfs = Some(bits(-2.0));
    let mut incoming = analyzed(120.0);
    incoming.rms_dbfs = Some(bits(-12.0));
    incoming.sample_peak_dbfs = Some(bits(-2.0));

    let plan = plan_transition(&outgoing, &incoming, &config());

    assert_eq!(plan.kind, TransitionKind::BeatMatched);
    assert_eq!(plan.incoming_gain, bits(1.0), "plan={plan:?}");
}

#[test]
fn hot_peak_measurements_do_not_change_planner_gain() {
    let mut outgoing = analyzed(120.0);
    outgoing.rms_dbfs = Some(bits(-12.0));
    outgoing.sample_peak_dbfs = Some(bits(0.0));
    let mut incoming = analyzed(120.0);
    incoming.rms_dbfs = Some(bits(-12.0));
    incoming.sample_peak_dbfs = Some(bits(0.0));

    let plan = plan_transition(&outgoing, &incoming, &config());

    assert_eq!(plan.kind, TransitionKind::BeatMatched);
    assert_eq!(plan.incoming_gain, bits(1.0), "plan={plan:?}");
}

#[test]
fn nonfinite_peak_measurements_do_not_poison_transition_gain() {
    let mut outgoing = analyzed(120.0);
    outgoing.rms_dbfs = Some(bits(-12.0));
    outgoing.sample_peak_dbfs = Some(bits(f32::NAN));
    let mut incoming = analyzed(120.0);
    incoming.rms_dbfs = Some(bits(-12.0));
    incoming.sample_peak_dbfs = Some(bits(-2.0));

    let plan = plan_transition(&outgoing, &incoming, &config());

    assert!(number(plan.incoming_gain).is_finite(), "plan={plan:?}");
    assert!(number(plan.incoming_gain) > 0.0, "plan={plan:?}");
}

#[test]
fn pathological_bpm_does_not_expand_incoming_cue_generation() {
    let mut incoming = analyzed(120.0);
    incoming.bpm = Some(bits(f32::MAX));
    incoming.beat_markers.clear();
    incoming.beat_marker_confidences.clear();
    incoming.first_beat = Some(Duration::from_secs(1));
    incoming.first_downbeat = Some(Duration::from_secs(1));

    let candidates = incoming_starts(&incoming);

    assert!(candidates.is_empty());
    assert!(beat_grid(&incoming).is_none());
}

#[test]
fn missing_marker_confidence_does_not_fallback_to_global_beat_confidence() {
    let mut incoming = analyzed(120.0);
    incoming.beat_confidence = bits(0.8);
    incoming.beat_marker_confidences.clear();

    assert!(incoming_starts(&incoming).is_empty());
    let outgoing = analyzed(120.0);
    let plan = plan_transition(&outgoing, &incoming, &config());
    assert_eq!(plan.kind, TransitionKind::Crossfade, "plan={plan:?}");
    assert_eq!(kick_coverage(&incoming), 0.0);
}

#[test]
fn markerless_safe_intro_does_not_synthesize_a_beatmatch_cue() {
    let outgoing = analyzed(120.0);
    let mut incoming = analyzed(120.0);
    incoming.first_beat = Some(Duration::from_millis(1_500));
    incoming.first_downbeat = Some(Duration::from_millis(1_500));
    incoming.beat_markers.clear();
    incoming.beat_marker_confidences.clear();
    set_energy_ranges(&mut incoming, -14.0, &[(1.0, 1.5, -50.0)]);

    assert!(incoming_starts(&incoming).is_empty());
    let plan = plan_transition(&outgoing, &incoming, &config());
    assert_eq!(plan.kind, TransitionKind::Crossfade, "plan={plan:?}");
    assert_eq!(plan.incoming_start, incoming.audible_start);
}

#[test]
fn incoming_cue_generation_stops_at_the_candidate_limit() {
    let mut incoming = analyzed(120.0);
    incoming.beat_markers = (0..500)
        .map(|index| Duration::from_millis(1_000 + index))
        .collect();
    incoming.beat_marker_confidences = vec![bits(1.0); incoming.beat_markers.len()];
    set_energy_ranges(&mut incoming, -14.0, &[(1.0, 1.25, -50.0)]);

    let candidates = incoming_starts(&incoming);

    assert_eq!(candidates.len(), MAX_INCOMING_CUE_CANDIDATES);
}

#[test]
fn initial_pickup_search_selects_only_the_first_trusted_marker() {
    let mut incoming = analyzed(120.0);
    incoming.beat_markers = (0..500)
        .map(|index| Duration::from_millis(1_000 + index))
        .collect();
    incoming.beat_marker_confidences = vec![bits(1.0); incoming.beat_markers.len()];

    let candidates = incoming_starts(&incoming);

    assert_eq!(candidates, vec![Duration::from_secs(1)]);
}

#[test]
fn initial_pickup_requires_known_vocals_beyond_the_audible_boundary() {
    let mut incoming = analyzed(120.0);
    let pickup = Duration::from_millis(1_250);
    incoming.first_beat = Some(pickup);
    incoming.first_downbeat = Some(pickup);
    incoming.beat_markers = vec![pickup];
    incoming.beat_marker_confidences = vec![bits(1.0)];

    incoming.vocal_activity.clear();
    incoming.vocal_activity_confidences.clear();
    assert!(incoming_starts(&incoming).is_empty());
    assert_eq!(
        explain(
            &analyzed(120.0),
            &incoming,
            &config(),
            &plan_guarded(&analyzed(120.0), &incoming, &config(), UNITY_GAINS),
        ),
        AutoMixBeatMatchDecision::NoTrustedIncomingBeatStart
    );

    incoming.vocal_activity = vec![0; 180 * 4];
    incoming.vocal_activity_confidences = vec![0; 180 * 4];
    incoming.vocal_activity_rate = 4;
    assert!(incoming_starts(&incoming).is_empty());

    incoming.vocal_activity_confidences.fill(255);
    assert_eq!(incoming_starts(&incoming), vec![pickup]);
}

#[test]
fn initial_pickup_at_audible_boundary_needs_no_vocal_metadata() {
    let mut incoming = analyzed(120.0);
    incoming.beat_markers = vec![incoming.audible_start];
    incoming.beat_marker_confidences = vec![bits(1.0)];
    incoming.first_beat = Some(incoming.audible_start);
    incoming.first_downbeat = Some(incoming.audible_start);
    incoming.vocal_activity.clear();
    incoming.vocal_activity_confidences.clear();
    incoming.vocal_activity_rate = 0;

    assert_eq!(
        incoming_starts(&incoming),
        vec![incoming.audible_start]
    );
}

#[test]
fn tempo_envelope_holds_then_returns_to_native_speed() {
    let envelope =
        TempoEnvelope::new(bits(0.95), bits(0.95), Duration::from_secs(8), Duration::from_secs(2));
    assert_eq!(speed_at(&envelope, Duration::from_secs(4)), 0.95);
    assert!((speed_at(&envelope, Duration::from_secs(9)) - 0.975).abs() < 0.0001);
    assert_eq!(speed_at(&envelope, Duration::from_secs(11)), 1.0);
    assert!(
        (seconds_single(source_elapsed(&envelope, Duration::from_secs(10))) - 9.55)
            .abs()
            < 0.001
    );
}

#[test]
fn tempo_envelope_time_mapping_round_trips() {
    let envelope =
        TempoEnvelope::new(bits(1.04), bits(1.04), Duration::from_secs(8), Duration::from_secs(2));
    for output in [0.0, 4.0, 8.0, 9.0, 12.0, 60.0] {
        let output = span_of(output);
        let source = source_elapsed(&envelope, output);
        assert!(output_elapsed(&envelope, source)
            .abs_diff(output)
            .shorter(Duration::from_nanos(2_000)));
    }
}

#[test]
fn transition_score_penalizes_abrupt_tempo_speed_steps() {
    let outgoing = analyzed(120.0);
    let incoming = analyzed(120.0);
    let mut smooth_plan = TransitionPlan {
        kind: TransitionKind::Crossfade,
        outgoing_start: Duration::from_secs(171),
        incoming_start: Duration::from_secs(1),
        incoming_cue_selection: None,
        duration: Duration::from_secs(8),
        incoming_tempo_ratio: bits(1.0),
        harmonic_compatibility: None,
        incoming_gain: bits(1.0),
        tempo_envelope: Some(TempoEnvelope::new(
            bits(1.0),
            bits(1.0),
            Duration::from_secs(8),
            Duration::zero(),
        )),
        energy_selection: None,
    };
    let smooth_quality = evaluate(&outgoing, &incoming, &smooth_plan, UNITY_GAINS);
    smooth_plan.tempo_envelope = Some(
        TempoEnvelope::new(bits(1.0), bits(1.04), Duration::from_secs(8), Duration::zero())
            .with_phase_segments(&vec![
                TempoSegment {
                    output_end: Duration::from_secs(4),
                    speed: bits(0.96),
                },
                TempoSegment {
                    output_end: Duration::from_secs(8),
                    speed: bits(1.04),
                },
            ]),
    );
    let abrupt_quality = evaluate(&outgoing, &incoming, &smooth_plan, UNITY_GAINS);

    assert_eq!(smooth_quality.max_tempo_speed_step, Some(bits(0.0)));
    assert!(
        number(abrupt_quality.max_tempo_speed_step.unwrap())
            > number(smooth_quality.max_tempo_speed_step.unwrap()),
        "smooth={smooth_quality:?} abrupt={abrupt_quality:?}"
    );
    assert!(
        transition_start_score(&abrupt_quality).unwrap()
            > transition_start_score(&smooth_quality).unwrap(),
        "smooth={smooth_quality:?} abrupt={abrupt_quality:?}"
    );
}

#[test]
fn transition_score_breakdown_matches_total_score() {
    let outgoing = analyzed(120.0);
    let incoming = analyzed(120.0);
    let plan = TransitionPlan {
        kind: TransitionKind::Crossfade,
        outgoing_start: Duration::from_secs(171),
        incoming_start: Duration::from_secs(1),
        incoming_cue_selection: None,
        duration: Duration::from_secs(8),
        incoming_tempo_ratio: bits(1.0),
        harmonic_compatibility: None,
        incoming_gain: bits(1.0),
        tempo_envelope: None,
        energy_selection: None,
    };
    let quality = evaluate(&outgoing, &incoming, &plan, UNITY_GAINS);
    let breakdown = transition_score_breakdown(&quality).unwrap();
    let component_sum = [
        breakdown.energy_balance_penalty,
        breakdown.vocal_penalty,
        breakdown.short_mix_penalty,
        breakdown.energy_step_penalty,
        breakdown.handoff_energy_penalty,
        breakdown.handoff_ownership_penalty,
        breakdown.tempo_smoothness_penalty,
        breakdown.phrase_strength_penalty,
        breakdown.structure_usage_penalty,
        breakdown.harmonic_overlap_penalty,
    ]
    .into_iter()
    .sum::<f32>();

    assert!((breakdown.total - component_sum).abs() < f32::EPSILON);
    assert_eq!(
        transition_start_score(&quality).unwrap(),
        breakdown.total,
        "quality={quality:?} breakdown={breakdown:?}"
    );
}

#[test]
fn tempo_envelope_follows_local_tempo_during_overlap() {
    let envelope =
        TempoEnvelope::new(bits(0.98), bits(1.02), Duration::from_secs(8), Duration::from_secs(2));

    assert!((speed_at(&envelope, Duration::zero()) - 0.98).abs() < 0.0001);
    assert!((speed_at(&envelope, Duration::from_secs(4)) - 1.0).abs() < 0.0001);
    assert!((speed_at(&envelope, Duration::from_secs(8)) - 1.02).abs() < 0.0001);
}

#[test]
fn transition_tracks_tempo_drift_across_the_overlap() {
    let mut outgoing = analyzed(120.0);
    outgoing
        .beat_markers
        .retain(|beat| beat.within(Duration::from_secs(170)));
    let mut beat = *outgoing.beat_markers.last().unwrap();
    for index in 0..16 {
        let bpm = if index < 8 { 120.0 } else { 123.0 };
        beat = beat.saturating_add(span_single(60.0 / bpm));
        outgoing.beat_markers.push(beat);
    }
    let incoming = analyzed(120.0);

    let plan = plan_transition(&outgoing, &incoming, &config());
    let envelope = plan.tempo_envelope.clone().expect("tempo drift should be followed");

    assert!((number(envelope.initial_speed) - 1.0).abs() < 0.001);
    assert!((number(envelope.mix_end_speed) - (123.0 / 120.0)).abs() < 0.001);
    assert!(speed_at(&envelope, plan.duration) > speed_at(&envelope, Duration::zero()));

    let outgoing_beats = outgoing
        .beat_markers
        .iter()
        .copied()
        .filter(|beat| plan.outgoing_start.within(*beat))
        .collect::<Vec<_>>();
    let incoming_beats = incoming
        .beat_markers
        .iter()
        .copied()
        .filter(|beat| plan.incoming_start.within(*beat))
        .collect::<Vec<_>>();
    for segment in &envelope.phase_segments {
        let outgoing_beat = plan.outgoing_start.saturating_add(segment.output_end);
        let index = outgoing_beats
            .iter()
            .position(|beat| beat.abs_diff(outgoing_beat).shorter(Duration::from_millis(1)))
            .unwrap();
        let expected_source = incoming_beats[index].saturating_sub(plan.incoming_start);
        assert!(
            source_elapsed(&envelope, segment.output_end)
                .abs_diff(expected_source)
                .shorter(Duration::from_millis(1))
        );
    }
}

#[test]
fn phase_follow_uses_global_tempo_for_low_confidence_block() {
    let mut outgoing = analyzed(120.0);
    let mut incoming = analyzed(120.0);
    outgoing.beat_markers = (0..=16)
        .map(|index| span_single(1.0 + index as f32 * 0.5))
        .collect();
    incoming.beat_markers.clear();
    let mut beat = Duration::from_secs(1);
    incoming.beat_markers.push(beat);
    for index in 0..16 {
        let step = span_single(if (4..8).contains(&index) { 0.48 } else { 0.5 });
        beat = beat.saturating_add(step);
        incoming.beat_markers.push(beat);
    }
    outgoing.beat_marker_confidences = vec![bits(1.0); outgoing.beat_markers.len()];
    incoming.beat_marker_confidences = vec![bits(1.0); incoming.beat_markers.len()];
    incoming.beat_marker_confidences[4] = bits(0.0);
    incoming.beat_marker_confidences[8] = bits(0.0);

    let segments = phase_follow_segments(
        &outgoing,
        &incoming,
        Duration::from_secs(1),
        Duration::from_secs(1),
        Duration::from_secs(8),
        bits(1.0),
        bits(0.06),
    )
    .unwrap();

    assert!((number(segments[0].speed) - 1.0).abs() < 0.0001);
    assert!((number(segments[1].speed) - 1.0).abs() < 0.0001);
    assert!((number(segments[2].speed) - 1.0).abs() < 0.0001);
    assert!(number(segments[3].speed) < 0.98);
}

#[test]
fn distant_trusted_marker_does_not_override_global_grid() {
    let mut analysis = analyzed(120.0);
    analysis.beat_marker_confidences = vec![bits(0.0); analysis.beat_markers.len()];
    let distant = analysis
        .beat_markers
        .iter()
        .position(|beat| *beat == Duration::from_secs(150))
        .unwrap();
    analysis.beat_marker_confidences[distant] = bits(1.0);

    assert_eq!(
        align_to_beat(Duration::from_secs(171), &analysis),
        Duration::from_secs(171)
    );
    assert_eq!(
        snap_to_nearest_beat(&analysis, Duration::from_secs(1)),
        None
    );
}

#[test]
fn trusted_intro_and_outro_choose_track_specific_overlap() {
    let mut outgoing = analyzed(120.0);
    outgoing.audible_end = Duration::from_secs(61);
    outgoing.outro_start = Some(Duration::from_secs(49));
    outgoing.outro_confidence = bits(0.9);
    let mut incoming = analyzed(120.0);
    incoming.audible_end = Duration::from_secs(61);
    incoming.intro_end = Some(Duration::from_secs(13));
    incoming.intro_confidence = bits(0.9);
    let mut config = config();
    config.crossfade = Duration::from_secs(16);

    let plan = plan_transition(&outgoing, &incoming, &config);

    assert_eq!(plan.kind, TransitionKind::BeatMatched);
    assert_eq!(plan.outgoing_start, Duration::from_secs(49));
    assert_eq!(plan.duration, Duration::from_secs(12));
    assert_eq!(plan.outgoing_start.saturating_add(plan.duration), outgoing.audible_end);
    assert_eq!(plan.incoming_start, incoming.audible_start);

    let quality = evaluate(&outgoing, &incoming, &plan, UNITY_GAINS);
    let structure_overlap_ratio = quality
        .structure_overlap_ratio
        .expect("trusted structure overlap should be measured");
    assert!((number(structure_overlap_ratio) - 1.0).abs() < 0.0001);

    let mut low_structure_quality = quality.clone();
    low_structure_quality.structure_overlap_ratio = Some(bits(0.2));
    assert!(
        transition_start_score(&low_structure_quality).unwrap()
            > transition_start_score(&quality).unwrap(),
        "quality={quality:?} low_structure_quality={low_structure_quality:?}"
    );
}

#[test]
fn trusted_first_beat_beyond_the_old_pickup_limit_can_start_a_beatmatch() {
    let outgoing = analyzed(120.0);
    let mut incoming = analyzed(120.0);
    incoming.first_beat = Some(Duration::from_millis(1_250));
    incoming.first_downbeat = Some(Duration::from_millis(1_250));
    incoming.beat_markers = (0..350)
        .map(|index| span_single(1.25 + index as f32 * 0.5))
        .collect();

    let plan = plan_transition(&outgoing, &incoming, &config());
    let quality = evaluate(&outgoing, &incoming, &plan, UNITY_GAINS);

    assert_eq!(plan.kind, TransitionKind::BeatMatched);
    assert_eq!(plan.incoming_start, Duration::from_millis(1_250));
    assert_eq!(plan.outgoing_start.saturating_add(plan.duration), outgoing.audible_end);
    assert!(
        !quality.has_blocking_issue(),
        "plan={plan:?} quality={quality:?}"
    );
}

#[test]
fn vocal_edges_shorten_overlap_to_avoid_dual_vocals() {
    let mut outgoing = analyzed(120.0);
    outgoing.audible_end = Duration::from_secs(61);
    outgoing.outro_start = Some(Duration::from_secs(49));
    outgoing.outro_confidence = bits(0.9);
    set_vocal_ranges(&mut outgoing, &[(1.0, 57.0)]);
    let mut incoming = analyzed(120.0);
    incoming.audible_end = Duration::from_secs(61);
    incoming.intro_end = Some(Duration::from_secs(13));
    incoming.intro_confidence = bits(0.9);
    set_vocal_ranges(&mut incoming, &[(3.0, 50.0)]);
    let mut config = config();
    config.crossfade = Duration::from_secs(16);

    let plan = plan_transition(&outgoing, &incoming, &config);
    let quality = evaluate(&outgoing, &incoming, &plan, UNITY_GAINS);

    assert_eq!(plan.duration, Duration::from_secs(4), "plan={plan:?}");
    assert_eq!(plan.outgoing_start, Duration::from_secs(57));
    assert_eq!(plan.outgoing_start.saturating_add(plan.duration), outgoing.audible_end);
    assert!(
        quality.max_phrase_phase_error.unwrap().within(Duration::from_millis(1)),
        "plan={plan:?} report={quality:?}"
    );
    assert!(quality.vocal_overlap_samples_checked > 0);
    assert!(
        number(quality.structure_overlap_ratio.unwrap()) < 0.5,
        "plan={plan:?} report={quality:?}"
    );
    assert!(
        number(quality.max_dual_vocal_risk.unwrap()) <= number(MAX_DUAL_VOCAL_RISK),
        "plan={plan:?} report={quality:?}"
    );
    assert!(!quality.has_blocking_issue(), "report={quality:?}");
}

#[test]
fn transition_quality_detects_dual_vocal_overlap() {
    let mut outgoing = analyzed(120.0);
    outgoing.audible_end = Duration::from_secs(61);
    set_vocal_ranges(&mut outgoing, &[(53.0, 61.0)]);
    let mut incoming = analyzed(120.0);
    incoming.audible_end = Duration::from_secs(61);
    set_vocal_ranges(&mut incoming, &[(1.0, 9.0)]);
    let plan = TransitionPlan {
        kind: TransitionKind::Crossfade,
        outgoing_start: Duration::from_secs(53),
        incoming_start: Duration::from_secs(1),
        incoming_cue_selection: None,
        duration: Duration::from_secs(8),
        incoming_tempo_ratio: bits(1.0),
        harmonic_compatibility: None,
        incoming_gain: bits(1.0),
        tempo_envelope: None,
        energy_selection: None,
    };

    let report = evaluate(&outgoing, &incoming, &plan, UNITY_GAINS);

    assert!(report.vocal_overlap_samples_checked > 0);
    assert!(
        number(report.max_dual_vocal_risk.unwrap()) > number(MAX_DUAL_VOCAL_RISK),
        "report={report:?}"
    );
    assert!(
        report.issues.iter().any(|issue| matches!(
            issue,
            AutoMixQualityIssue::DualVocalOverlapTooHigh { max_risk }
                if number(*max_risk) > number(MAX_DUAL_VOCAL_RISK)
        )),
        "report={report:?}"
    );
    assert!(report.has_blocking_issue(), "report={report:?}");
}

#[test]
fn transition_quality_reports_a_mid_mix_energy_dip() {
    let mut outgoing = analyzed(120.0);
    let mut incoming = analyzed(120.0);
    set_energy_ranges(&mut outgoing, -18.0, &[(175.0, 177.0, -42.0)]);
    set_energy_ranges(&mut incoming, -18.0, &[(5.0, 7.0, -42.0)]);
    let plan = TransitionPlan {
        kind: TransitionKind::Crossfade,
        outgoing_start: Duration::from_secs(171),
        incoming_start: Duration::from_secs(1),
        incoming_cue_selection: None,
        duration: Duration::from_secs(8),
        incoming_tempo_ratio: bits(1.0),
        harmonic_compatibility: None,
        incoming_gain: bits(1.0),
        tempo_envelope: None,
        energy_selection: None,
    };

    let report = evaluate(&outgoing, &incoming, &plan, UNITY_GAINS);

    assert!(report.energy_samples_checked > 0, "report={report:?}");
    assert!(
        number(report.min_mix_energy_ratio.unwrap()) < 0.2,
        "report={report:?}"
    );
    assert!(
        report.issues.iter().any(|issue| matches!(
            issue,
            AutoMixQualityIssue::MixEnergyDipTooDeep { min_ratio }
                if number(*min_ratio) < number(MIN_SAFE_MIX_ENERGY_RATIO)
        )),
        "report={report:?}"
    );
    assert!(report.has_blocking_issue(), "report={report:?}");
}

#[test]
fn transition_energy_uses_nearby_normal_energy_when_edges_are_quiet() {
    let mut outgoing = analyzed(120.0);
    let mut incoming = analyzed(120.0);
    set_energy_ranges(&mut outgoing, -18.0, &[(170.5, 171.5, -42.0)]);
    set_energy_ranges(&mut incoming, -18.0, &[(8.5, 9.5, -42.0)]);
    let plan = TransitionPlan {
        kind: TransitionKind::Crossfade,
        outgoing_start: Duration::from_secs(171),
        incoming_start: Duration::from_secs(1),
        incoming_cue_selection: None,
        duration: Duration::from_secs(8),
        incoming_tempo_ratio: bits(1.0),
        harmonic_compatibility: None,
        incoming_gain: bits(1.0),
        tempo_envelope: None,
        energy_selection: None,
    };

    let report = evaluate(&outgoing, &incoming, &plan, UNITY_GAINS);

    assert!(number(report.min_mix_energy_ratio.unwrap()) < number(MIN_SAFE_MIX_ENERGY_RATIO));
    assert!(report.has_blocking_issue(), "report={report:?}");
}

#[test]
fn simultaneous_structural_break_is_score_only() {
    let mut outgoing = analyzed(120.0);
    let mut incoming = analyzed(120.0);
    set_energy_ranges(&mut outgoing, -18.0, &[(175.0, 177.0, -80.0)]);
    set_energy_ranges(&mut incoming, -18.0, &[(5.0, 7.0, -80.0)]);
    let plan = TransitionPlan {
        kind: TransitionKind::Crossfade,
        outgoing_start: Duration::from_secs(171),
        incoming_start: Duration::from_secs(1),
        incoming_cue_selection: None,
        duration: Duration::from_secs(8),
        incoming_tempo_ratio: bits(1.0),
        harmonic_compatibility: None,
        incoming_gain: bits(1.0),
        tempo_envelope: None,
        energy_selection: None,
    };

    let report = evaluate(&outgoing, &incoming, &plan, UNITY_GAINS);

    assert!(!report.has_blocking_issue(), "report={report:?}");
}

#[test]
fn a_single_windowed_energy_drop_does_not_block_the_transition() {
    let mut outgoing = analyzed(120.0);
    let mut incoming = analyzed(120.0);
    set_energy_ranges(&mut outgoing, -18.0, &[(174.875, 175.125, -80.0)]);
    set_energy_ranges(&mut incoming, -18.0, &[(4.875, 5.125, -80.0)]);
    let plan = TransitionPlan {
        kind: TransitionKind::Crossfade,
        outgoing_start: Duration::from_secs(171),
        incoming_start: Duration::from_secs(1),
        incoming_cue_selection: None,
        duration: Duration::from_secs(8),
        incoming_tempo_ratio: bits(1.0),
        harmonic_compatibility: None,
        incoming_gain: bits(1.0),
        tempo_envelope: None,
        energy_selection: None,
    };

    let report = evaluate(&outgoing, &incoming, &plan, UNITY_GAINS);

    assert!(report.energy_samples_checked > 0, "report={report:?}");
    assert!(
        !report
            .issues
            .iter()
            .any(|issue| matches!(issue, AutoMixQualityIssue::MixEnergyDipTooDeep { .. })),
        "report={report:?}"
    );
}

#[test]
fn normalization_base_gains_are_part_of_energy_quality() {
    let mut outgoing = analyzed(120.0);
    let mut incoming = analyzed(120.0);
    outgoing.duration = Duration::from_secs(10);
    outgoing.audible_end = Duration::from_secs(9);
    incoming.duration = Duration::from_secs(10);
    incoming.audible_end = Duration::from_secs(9);
    set_energy_ranges(&mut outgoing, -6.0, &[]);
    set_energy_ranges(&mut incoming, -18.0, &[]);
    let plan = TransitionPlan {
        kind: TransitionKind::Crossfade,
        outgoing_start: Duration::from_secs(1),
        incoming_start: Duration::from_secs(1),
        incoming_cue_selection: None,
        duration: Duration::from_secs(8),
        incoming_tempo_ratio: bits(1.0),
        harmonic_compatibility: None,
        incoming_gain: bits(1.0),
        tempo_envelope: None,
        energy_selection: None,
    };

    let unity = evaluate(&outgoing, &incoming, &plan, UNITY_GAINS);
    let normalized =
        evaluate(&outgoing, &incoming, &plan, base_gains(0.25, 1.0));

    assert!(
        unity
            .min_mix_energy_ratio
            .is_some_and(|ratio| (0.24..0.27).contains(&number(ratio))),
        "unity={unity:?}"
    );
    assert!(!unity.has_blocking_issue(), "unity={unity:?}");
    assert!(
        number(normalized.min_mix_energy_ratio.unwrap()) > 0.65,
        "normalized={normalized:?}"
    );
    assert!(
        !normalized.has_blocking_issue(),
        "normalized={normalized:?}"
    );
}

#[test]
fn healthy_b_like_crossfade_is_kept_above_the_analysis_drop_threshold() {
    let mut outgoing = analyzed(90.0);
    let mut incoming = analyzed(140.0);
    set_energy_ranges(&mut outgoing, -6.0, &[]);
    set_energy_ranges(&mut incoming, -16.5, &[]);

    let guarded =
        plan_guarded(&outgoing, &incoming, &config(), base_gains(0.367, 0.348));

    assert_eq!(guarded.plan.kind, TransitionKind::Crossfade, "{guarded:?}");
    assert!(guarded.rejected_plan.is_none(), "{guarded:?}");
    assert!(guarded.rejected_quality.is_none(), "{guarded:?}");
    let min_ratio = guarded
        .quality
        .min_mix_energy_ratio
        .map(number)
        .expect("energy quality ratio");
    assert!((min_ratio - 0.284_295_53).abs() < 0.01, "{guarded:?}");
    assert!(min_ratio < 0.30, "fixture must cover the old cutoff");
    assert!(!guarded.quality.has_blocking_issue(), "{guarded:?}");
}

#[test]
fn analysis_drop_threshold_blocks_only_values_strictly_below_the_boundary() {
    assert!(mix_energy_dip_is_blocking_number(0.187_062_43));
    assert!(!mix_energy_dip_is_blocking_number(0.284_295_53));
    assert!(mix_energy_dip_is_blocking_number(0.199));
    assert!(!mix_energy_dip_is_blocking_number(number(MIN_SAFE_MIX_ENERGY_RATIO)));
    assert!(!mix_energy_dip_is_blocking_number(0.201));
    assert!(!mix_energy_dip_is_blocking_number(f32::NAN));
    assert!(!mix_energy_dip_is_blocking_number(f32::INFINITY));
}

#[test]
fn planner_finds_a_safe_alternative_to_an_audible_normalized_energy_dip() {
    let mut outgoing = analyzed(120.0);
    let mut incoming = analyzed(120.0);
    outgoing.duration = Duration::from_secs(16);
    outgoing.audible_end = Duration::from_secs(15);
    incoming.duration = Duration::from_secs(16);
    incoming.audible_end = Duration::from_secs(15);
    outgoing
        .beat_markers
        .retain(|marker| marker.within(outgoing.audible_end));
    incoming
        .beat_markers
        .retain(|marker| marker.within(incoming.audible_end));
    set_energy_ranges(&mut outgoing, -12.0, &[(1.25, 8.75, -42.0)]);
    set_energy_ranges(&mut incoming, -18.0, &[(1.25, 8.75, -48.0)]);
    let mut config = config();
    config.crossfade = Duration::from_secs(8);
    let unsafe_plan = TransitionPlan {
        kind: TransitionKind::Crossfade,
        outgoing_start: Duration::from_secs(1),
        incoming_start: Duration::from_secs(1),
        incoming_cue_selection: None,
        duration: Duration::from_secs(8),
        incoming_tempo_ratio: bits(1.0),
        harmonic_compatibility: None,
        incoming_gain: bits(1.0),
        tempo_envelope: None,
        energy_selection: None,
    };
    let unsafe_quality = evaluate(&outgoing, &incoming, &unsafe_plan, base_gains(0.348, 0.611));

    let guarded =
        plan_guarded(&outgoing, &incoming, &config, base_gains(0.348, 0.611));

    assert!(
        unsafe_quality.has_blocking_issue(),
        "unsafe={unsafe_quality:?}"
    );
    assert!(guarded.plan.duration.shorter(unsafe_plan.duration), "{guarded:?}");
    assert!(!guarded.quality.has_blocking_issue(), "{guarded:?}");
    assert!(
        guarded
            .quality
            .min_mix_energy_ratio
            .is_some_and(|ratio| number(ratio) >= number(MIN_SAFE_MIX_ENERGY_RATIO)),
        "{guarded:?}"
    );
}

#[test]
fn energy_score_penalizes_abrupt_mid_mix_level_changes() {
    let smooth_outgoing = analyzed(120.0);
    let smooth_incoming = analyzed(120.0);
    let plan = TransitionPlan {
        kind: TransitionKind::Crossfade,
        outgoing_start: Duration::from_secs(171),
        incoming_start: Duration::from_secs(1),
        incoming_cue_selection: None,
        duration: Duration::from_secs(8),
        incoming_tempo_ratio: bits(1.0),
        harmonic_compatibility: None,
        incoming_gain: bits(1.0),
        tempo_envelope: None,
        energy_selection: None,
    };
    let smooth_quality = evaluate(&smooth_outgoing, &smooth_incoming, &plan, UNITY_GAINS);

    let mut abrupt_outgoing = analyzed(120.0);
    let abrupt_incoming = analyzed(120.0);
    set_energy_ranges(&mut abrupt_outgoing, -18.0, &[(174.0, 175.0, -3.0)]);
    let abrupt_quality = evaluate(&abrupt_outgoing, &abrupt_incoming, &plan, UNITY_GAINS);

    assert!(
        number(abrupt_quality.max_mix_energy_step.unwrap())
            > number(smooth_quality.max_mix_energy_step.unwrap()),
        "smooth={smooth_quality:?} abrupt={abrupt_quality:?}"
    );
    assert!(
        transition_start_score(&abrupt_quality).unwrap()
            > transition_start_score(&smooth_quality).unwrap(),
        "smooth={smooth_quality:?} abrupt={abrupt_quality:?}"
    );
}

#[test]
fn energy_score_penalizes_weak_handoff_energy() {
    let mut outgoing = analyzed(120.0);
    let mut matched_incoming = analyzed(120.0);
    let mut weak_incoming = analyzed(120.0);
    set_energy_ranges(&mut outgoing, -18.0, &[]);
    set_energy_ranges(&mut matched_incoming, -18.0, &[]);
    set_energy_ranges(&mut weak_incoming, -30.0, &[]);
    let plan = TransitionPlan {
        kind: TransitionKind::Crossfade,
        outgoing_start: Duration::from_secs(171),
        incoming_start: Duration::from_secs(1),
        incoming_cue_selection: None,
        duration: Duration::from_secs(8),
        incoming_tempo_ratio: bits(1.0),
        harmonic_compatibility: None,
        incoming_gain: bits(1.0),
        tempo_envelope: None,
        energy_selection: None,
    };

    let matched_quality = evaluate(&outgoing, &matched_incoming, &plan, UNITY_GAINS);
    let weak_quality = evaluate(&outgoing, &weak_incoming, &plan, UNITY_GAINS);

    assert!(
        number(weak_quality.handoff_mix_energy_ratio.unwrap())
            < number(matched_quality.handoff_mix_energy_ratio.unwrap()),
        "matched={matched_quality:?} weak={weak_quality:?}"
    );
    assert!(
        transition_start_score(&weak_quality).unwrap()
            > transition_start_score(&matched_quality).unwrap(),
        "matched={matched_quality:?} weak={weak_quality:?}"
    );
}

#[test]
fn energy_score_penalizes_outgoing_owned_handoff() {
    let outgoing = analyzed(120.0);
    let incoming = analyzed(120.0);
    let plan = TransitionPlan {
        kind: TransitionKind::Crossfade,
        outgoing_start: Duration::from_secs(171),
        incoming_start: Duration::from_secs(1),
        incoming_cue_selection: None,
        duration: Duration::from_secs(8),
        incoming_tempo_ratio: bits(1.0),
        harmonic_compatibility: None,
        incoming_gain: bits(1.0),
        tempo_envelope: None,
        energy_selection: None,
    };
    let quality = evaluate(&outgoing, &incoming, &plan, UNITY_GAINS);
    let mut outgoing_owned = quality.clone();
    outgoing_owned.handoff_incoming_mix_share = Some(bits(0.4));

    assert!(
        number(quality.handoff_incoming_mix_share.unwrap()) > 0.7,
        "quality={quality:?}"
    );
    assert!(
        transition_start_score(&outgoing_owned).unwrap()
            > transition_start_score(&quality).unwrap(),
        "quality={quality:?} outgoing_owned={outgoing_owned:?}"
    );
}

#[test]
fn transition_score_weights_vocal_risk_more_when_keys_clash() {
    let outgoing = keyed(0, KeyMode::Major);
    let incoming = keyed(6, KeyMode::Major);
    let plan = TransitionPlan {
        kind: TransitionKind::Crossfade,
        outgoing_start: Duration::from_secs(171),
        incoming_start: Duration::from_secs(1),
        incoming_cue_selection: None,
        duration: Duration::from_secs(4),
        incoming_tempo_ratio: bits(1.0),
        harmonic_compatibility: Some(bits(1.0)),
        incoming_gain: bits(1.0),
        tempo_envelope: None,
        energy_selection: None,
    };
    let mut compatible_quality = evaluate(&outgoing, &incoming, &plan, UNITY_GAINS);
    compatible_quality.max_dual_vocal_risk = Some(bits(0.35));
    let mut clashing_quality = compatible_quality.clone();
    clashing_quality.harmonic_compatibility = Some(bits(0.2));

    assert!(
        transition_start_score(&clashing_quality).unwrap()
            > transition_start_score(&compatible_quality).unwrap(),
        "compatible={compatible_quality:?} clashing={clashing_quality:?}"
    );
}

#[test]
fn transition_score_allows_shorter_overlap_for_key_clashes() {
    let outgoing = keyed(0, KeyMode::Major);
    let incoming = keyed(6, KeyMode::Major);
    let plan = TransitionPlan {
        kind: TransitionKind::Crossfade,
        outgoing_start: Duration::from_secs(176),
        incoming_start: Duration::from_secs(1),
        incoming_cue_selection: None,
        duration: Duration::from_secs(3),
        incoming_tempo_ratio: bits(1.0),
        harmonic_compatibility: Some(bits(1.0)),
        incoming_gain: bits(1.0),
        tempo_envelope: None,
        energy_selection: None,
    };
    let compatible_quality = evaluate(&outgoing, &incoming, &plan, UNITY_GAINS);
    let mut clashing_quality = compatible_quality.clone();
    clashing_quality.harmonic_compatibility = Some(bits(0.2));

    assert!(
        transition_start_score(&clashing_quality).unwrap()
            < transition_start_score(&compatible_quality).unwrap(),
        "compatible={compatible_quality:?} clashing={clashing_quality:?}"
    );
}

#[test]
fn energy_balancing_prefers_clean_phrase_boundary_over_default_dip() {
    let mut config = config();
    config.crossfade = Duration::from_secs(16);
    let mut outgoing = analyzed(120.0);
    let mut incoming = analyzed(120.0);
    set_energy_ranges(&mut outgoing, -18.0, &[(168.0, 170.0, -42.0)]);
    set_energy_ranges(&mut incoming, -18.0, &[(8.0, 10.0, -42.0)]);

    let plan = plan_transition(&outgoing, &incoming, &config);
    let report = evaluate(&outgoing, &incoming, &plan, UNITY_GAINS);

    assert_eq!(plan.kind, TransitionKind::BeatMatched);
    assert_eq!(plan.incoming_start, Duration::from_secs(1));
    assert_eq!(plan.outgoing_start, Duration::from_secs(153));
    let energy_selection = plan.energy_selection.expect("energy selection");
    assert_eq!(energy_selection.default_start, Duration::from_secs(161));
    assert_eq!(energy_selection.selected_start, plan.outgoing_start);
    assert!(energy_selection.candidates_checked > 1);
    assert!(
        number(report.min_mix_energy_ratio.unwrap()) > 0.55,
        "plan={plan:?} report={report:?}"
    );
    assert!(!report.has_blocking_issue(), "report={report:?}");
}

#[test]
fn energy_start_search_continues_after_an_unverifiable_default() {
    let outgoing = analyzed(120.0);
    let incoming = analyzed(120.0);
    let unverifiable_default = Duration::from_millis(168_750);

    let aim = Aim {
        beat_aligned: true,
        incoming_start: Duration::from_secs(1),
        overlap: Duration::from_secs(10),
        structure_adaptive: false,
        vocal_constrained: false,
        target: Duration::from_secs(169),
        bias: BarPhaseBias::AtOrBefore,
    };
    let terms = PlanTerms {
        harmonic: None,
        tempo_curve: Some(bits(1.0)),
        max_tempo_adjustment: config().max_tempo_adjustment,
    };
    let (selected, selection) =
        select_energy_balanced_start(&outgoing, &incoming, &aim, terms, unverifiable_default);

    let selection = selection.expect("a later marker-backed candidate must be evaluated");
    assert_ne!(selected, unverifiable_default);
    assert!(outgoing.beat_markers.contains(&selected));
    assert!(selection.candidates_checked > 0);
}

#[test]
fn rejected_marker_candidates_do_not_restore_a_synthetic_beatmatch_start() {
    let mut no_valid_outgoing = analyzed(120.0);
    let mut no_valid_incoming = analyzed(120.0);
    // Force every full-length energy candidate through the vocal safety
    // gate while leaving the observed marker stream available for the
    // diagnostic raw plan.  No valid marker candidate means a safe
    // non-beatmatched fallback is correct.
    set_vocal_ranges(&mut no_valid_outgoing, &[(178.0, 179.0)]);
    set_vocal_ranges(&mut no_valid_incoming, &[(1.0, 2.0)]);
    let no_valid_plan = plan_transition(&no_valid_outgoing, &no_valid_incoming, &config());
    assert_ne!(no_valid_plan.kind, TransitionKind::BeatMatched);

    // When the vocal limit leaves one valid marker-backed overlap, that
    // later observed candidate is retained instead of restoring a
    // synthetic default start.
    let mut outgoing = analyzed(120.0);
    let mut incoming = analyzed(120.0);
    set_vocal_ranges(&mut outgoing, &[(176.0, 177.0)]);
    set_vocal_ranges(&mut incoming, &[(1.0, 2.0)]);

    let plan = plan_transition(&outgoing, &incoming, &config());

    assert_eq!(plan.kind, TransitionKind::BeatMatched);
    assert!(outgoing.trusted_marker_position(plan.outgoing_start));
}

#[test]
fn energy_balancing_improves_crossfade_when_beatmatch_is_unavailable() {
    let mut outgoing = analyzed(90.0);
    let mut incoming = analyzed(140.0);
    set_energy_ranges(&mut outgoing, -18.0, &[(175.0, 177.0, -42.0)]);
    set_energy_ranges(&mut incoming, -18.0, &[(5.0, 7.0, -42.0)]);

    let plan = plan_transition(&outgoing, &incoming, &config());
    let report = evaluate(&outgoing, &incoming, &plan, UNITY_GAINS);

    assert_eq!(plan.kind, TransitionKind::Crossfade);
    assert!(
        plan.outgoing_start.shorter(Duration::from_secs(171)),
        "plan={plan:?}"
    );
    let energy_selection = plan.energy_selection.expect("energy selection");
    assert_eq!(energy_selection.default_start, Duration::from_secs(171));
    assert_eq!(energy_selection.selected_start, plan.outgoing_start);
    assert!(energy_selection.candidates_checked > 1);
    assert!(
        number(report.min_mix_energy_ratio.unwrap()) > 0.55,
        "plan={plan:?} report={report:?}"
    );
    assert!(!report.has_blocking_issue(), "report={report:?}");
}

#[test]
fn start_selection_avoids_non_blocking_dual_vocal_risk() {
    let mut config = config();
    config.crossfade = Duration::from_secs(16);
    let mut outgoing = analyzed(120.0);
    let mut incoming = analyzed(120.0);
    set_soft_vocal_ranges(&mut outgoing, &[(165.0, 167.0)], 0.5);
    set_soft_vocal_ranges(&mut incoming, &[(5.0, 7.0)], 0.5);

    let default_plan = TransitionPlan {
        kind: TransitionKind::BeatMatched,
        outgoing_start: Duration::from_secs(161),
        incoming_start: incoming.audible_start,
        incoming_cue_selection: None,
        duration: outgoing
            .audible_end
            .saturating_sub(Duration::from_secs(161)),
        incoming_tempo_ratio: bits(1.0),
        harmonic_compatibility: harmonic_compatibility(&outgoing, &incoming),
        incoming_gain: bits(1.0),
        tempo_envelope: None,
        energy_selection: None,
    };
    let default_quality = evaluate(&outgoing, &incoming, &default_plan, UNITY_GAINS);

    let plan = plan_transition(&outgoing, &incoming, &config);
    let quality = evaluate(&outgoing, &incoming, &plan, UNITY_GAINS);

    assert_eq!(plan.kind, TransitionKind::BeatMatched);
    assert!(
        number(default_quality.max_dual_vocal_risk.unwrap()) > number(quality.max_dual_vocal_risk.unwrap()),
        "default={default_plan:?} default_quality={default_quality:?} plan={plan:?} quality={quality:?}"
    );
    assert!(
        plan.outgoing_start.shorter(default_plan.outgoing_start),
        "default={default_plan:?} plan={plan:?}"
    );
    assert!(!quality.has_blocking_issue(), "quality={quality:?}");
}

#[test]
fn start_selection_can_shorten_transition_to_avoid_energy_buildup() {
    let mut outgoing = analyzed(120.0);
    let mut incoming = analyzed(120.0);
    // The early, longer candidates cross a sustained buildup; the later
    // marker-backed candidates have normal energy and can safely shorten
    // the overlap without changing any quality thresholds.
    set_energy_ranges(&mut outgoing, -18.0, &[(169.0, 171.0, -6.0)]);
    set_energy_ranges(&mut incoming, -18.0, &[]);
    let default_start = Duration::from_secs(169);
    let default_plan = TransitionPlan {
        kind: TransitionKind::BeatMatched,
        outgoing_start: default_start,
        incoming_start: incoming.audible_start,
        incoming_cue_selection: None,
        duration: outgoing.audible_end.saturating_sub(default_start),
        incoming_tempo_ratio: bits(1.0),
        harmonic_compatibility: harmonic_compatibility(&outgoing, &incoming),
        incoming_gain: bits(1.0),
        tempo_envelope: None,
        energy_selection: None,
    };
    let default_quality = evaluate(&outgoing, &incoming, &default_plan, UNITY_GAINS);

    let plan = plan_transition(&outgoing, &incoming, &config());
    let quality = evaluate(&outgoing, &incoming, &plan, UNITY_GAINS);

    assert_eq!(plan.kind, TransitionKind::BeatMatched);
    assert!(
        default_start.shorter(plan.outgoing_start),
        "default={default_plan:?} plan={plan:?}"
    );
    assert!(
        plan.duration.shorter(default_plan.duration),
        "default={default_plan:?} plan={plan:?}"
    );
    assert!(
        number(quality.max_mix_energy_ratio.unwrap()) < number(default_quality.max_mix_energy_ratio.unwrap()),
        "default_quality={default_quality:?} quality={quality:?}"
    );
    assert!(!quality.has_blocking_issue(), "quality={quality:?}");
}

#[test]
fn dual_vocal_quality_is_weighted_by_the_actual_fade_gain() {
    let mut outgoing = analyzed(120.0);
    outgoing.audible_end = Duration::from_secs(61);
    set_vocal_ranges(&mut outgoing, &[(53.0, 55.0)]);
    let mut incoming = analyzed(120.0);
    incoming.audible_end = Duration::from_secs(61);
    set_vocal_ranges(&mut incoming, &[(1.0, 3.0)]);
    let plan = TransitionPlan {
        kind: TransitionKind::Crossfade,
        outgoing_start: Duration::from_secs(53),
        incoming_start: Duration::from_secs(1),
        incoming_cue_selection: None,
        duration: Duration::from_secs(8),
        incoming_tempo_ratio: bits(1.0),
        harmonic_compatibility: None,
        incoming_gain: bits(1.0),
        tempo_envelope: None,
        energy_selection: None,
    };

    let report = evaluate(&outgoing, &incoming, &plan, UNITY_GAINS);

    assert!(report.vocal_overlap_samples_checked > 0);
    assert!(
        number(report.max_dual_vocal_risk.unwrap()) < number(MAX_DUAL_VOCAL_RISK),
        "report={report:?}"
    );
    assert!(
        !report
            .issues
            .iter()
            .any(|issue| matches!(issue, AutoMixQualityIssue::DualVocalOverlapTooHigh { .. })),
        "report={report:?}"
    );
}

#[test]
fn vocals_at_both_transition_edges_fall_back_to_gapless() {
    let mut outgoing = analyzed(120.0);
    set_vocal_ranges(&mut outgoing, &[(1.0, 179.0)]);
    let mut incoming = analyzed(120.0);
    set_vocal_ranges(&mut incoming, &[(1.0, 179.0)]);

    let plan = plan_transition(&outgoing, &incoming, &config());

    assert_eq!(plan.kind, TransitionKind::Gapless);
    assert_eq!(plan.duration, Duration::zero());
}

#[test]
fn vocal_limit_uses_tempo_mapped_incoming_time() {
    let mut outgoing = analyzed(120.0);
    outgoing.audible_end = Duration::from_secs(61);
    set_vocal_ranges(&mut outgoing, &[(1.0, 57.0)]);
    let mut incoming = analyzed(124.0);
    incoming.audible_end = Duration::from_secs(61);
    set_vocal_ranges(&mut incoming, &[(4.0, 50.0)]);
    let mut config = config();
    config.crossfade = Duration::from_secs(16);

    let plan = plan_transition(&outgoing, &incoming, &config);
    let envelope = plan.tempo_envelope.clone().expect("tempo mapping should be active");
    let safe = Duration::from_secs(4)
        .saturating_add(output_elapsed(&envelope, Duration::from_secs(3)));

    assert!(plan.duration.within(safe), "plan={plan:?} safe={safe:?}");
    assert_eq!(plan.outgoing_start.saturating_add(plan.duration), outgoing.audible_end);
}

#[test]
fn vocal_pickup_inside_trim_window_disables_beatmatch() {
    let outgoing = analyzed(120.0);
    let mut incoming = analyzed(120.0);
    incoming.first_beat = Some(Duration::from_millis(1_050));
    incoming.beat_markers[0] = Duration::from_millis(1_050);
    set_vocal_ranges(&mut incoming, &[(1.0, 2.0)]);

    let plan = plan_transition(&outgoing, &incoming, &config());

    assert_eq!(plan.kind, TransitionKind::Crossfade);
    assert_eq!(plan.incoming_start, incoming.audible_start);
}

#[test]
fn vocal_summary_keeps_a_bin_crossing_the_audible_boundary() {
    let mut analysis = analyzed(120.0);
    analysis.audible_start = Duration::from_millis(1_125);
    set_vocal_ranges(&mut analysis, &[(1.0, 2.0)]);

    let summary = vocal_summary(&analysis);

    assert!(summary.known);
    assert_eq!(summary.first, Some(analysis.audible_start));
    assert_eq!(summary.last_end, Some(Duration::from_secs(2)));
}

#[test]
fn every_planned_overlap_respects_its_final_vocal_time_map() {
    for bpm in [116.0, 120.0, 124.0] {
        for incoming_vocal in [2.0, 3.0, 4.0] {
            let mut outgoing = analyzed(120.0);
            outgoing.audible_end = Duration::from_secs(61);
            set_vocal_ranges(&mut outgoing, &[(1.0, 57.0)]);
            let mut incoming = analyzed(bpm);
            incoming.audible_end = Duration::from_secs(61);
            set_vocal_ranges(&mut incoming, &[(incoming_vocal, 50.0)]);
            let mut config = config();
            config.crossfade = Duration::from_secs(16);

            let plan = plan_transition(&outgoing, &incoming, &config);
            let safe = vocal_limit(
                &outgoing,
                &incoming,
                plan.incoming_start,
                plan.duration,
                &plan.tempo_envelope,
            );

            assert!(
                plan.duration.within(safe),
                "bpm={bpm} plan={plan:?} safe={safe:?}"
            );
        }
    }
}

#[test]
fn disabled_automix_preserves_trimmed_gapless_boundary() {
    let mut config = config();
    config.enabled = false;
    let outgoing = analyzed(120.0);
    let incoming = analyzed(120.0);
    let plan = plan_transition(&outgoing, &incoming, &config);
    assert_eq!(plan.kind, TransitionKind::Gapless);
    assert_eq!(plan.outgoing_start, outgoing.audible_end);
    assert_eq!(plan.incoming_start, incoming.audible_start);
}

fn set_vocal_ranges(analysis: &mut TrackAnalysis, ranges: &[(f32, f32)]) {
    let rate = 4_usize;
    let length = (seconds_single(analysis.duration) * rate as f32).ceil() as usize;
    analysis.vocal_activity = vec![0; length];
    analysis.vocal_activity_confidences = vec![255; length];
    analysis.vocal_activity_rate = rate as u8;
    for (start, end) in ranges {
        let from = (*start * rate as f32).floor() as usize;
        let to = (*end * rate as f32).ceil() as usize;
        analysis.vocal_activity[from..to.min(length)].fill(255);
    }
}

fn set_soft_vocal_ranges(analysis: &mut TrackAnalysis, ranges: &[(f32, f32)], risk: f32) {
    let rate = 4_usize;
    let length = (seconds_single(analysis.duration) * rate as f32).ceil() as usize;
    analysis.vocal_activity = vec![0; length];
    analysis.vocal_activity_confidences = vec![255; length];
    analysis.vocal_activity_rate = rate as u8;
    let code = (risk.clamp(0.0, 1.0) * 255.0).round() as u8;
    for (start, end) in ranges {
        let from = (*start * rate as f32).floor() as usize;
        let to = (*end * rate as f32).ceil() as usize;
        analysis.vocal_activity[from..to.min(length)].fill(code);
    }
}

fn marker_backed_low_confidence(bpm: f32) -> TrackAnalysis {
    let mut analysis = analyzed(bpm);
    analysis.beat_confidence = bits(0.56);
    analysis.beat_marker_confidences = vec![bits(0.75); analysis.beat_markers.len()];
    analysis
}

fn set_energy_ranges(analysis: &mut TrackAnalysis, base_dbfs: f32, ranges: &[(f32, f32, f32)]) {
    let rate = 4_usize;
    let length = (seconds_single(analysis.duration) * rate as f32).ceil() as usize;
    analysis.energy_profile = vec![energy_code(base_dbfs); length];
    analysis.energy_profile_rate = rate as u8;
    for (start, end, dbfs) in ranges {
        let from = (*start * rate as f32).floor() as usize;
        let to = (*end * rate as f32).ceil() as usize;
        analysis.energy_profile[from..to.min(length)].fill(energy_code(*dbfs));
    }
}

fn energy_code(dbfs: f32) -> u8 {
    (((dbfs.clamp(MIN_ENERGY_PROFILE_DBFS, 0.0) - MIN_ENERGY_PROFILE_DBFS)
        / -MIN_ENERGY_PROFILE_DBFS)
        * 255.0)
        .round() as u8
}

#[test]
fn adaptive_timing_uses_preferred_fade_for_long_tracks() {
    let timing = plan_transition_timing(
        Duration::from_secs(180),
        Duration::from_secs(240),
        Duration::from_secs(8),
    )
    .unwrap();

    assert_eq!(timing.fade_duration, Duration::from_secs(8));
    assert_eq!(timing.transition_after, Duration::from_secs(172));
    assert_eq!(timing.prefetch_after, Duration::from_secs(164));
}

#[test]
fn adaptive_timing_is_bounded_by_the_shorter_track() {
    let timing = plan_transition_timing(
        Duration::from_secs(12),
        Duration::from_secs(6),
        Duration::from_secs(8),
    )
    .unwrap();

    assert_eq!(timing.fade_duration, Duration::from_secs(3));
    assert_eq!(timing.transition_after, Duration::from_secs(9));
    assert_eq!(timing.prefetch_after, Duration::from_secs(6));
}

#[test]
fn adaptive_timing_rejects_zero_length_boundaries() {
    assert_eq!(
        plan_transition_timing(
            Duration::zero(),
            Duration::from_secs(60),
            Duration::from_secs(8)
        ),
        None
    );
    assert_eq!(
        plan_transition_timing(
            Duration::from_secs(60),
            Duration::from_secs(60),
            Duration::zero()
        ),
        None
    );
}

#[test]
fn starts_are_searched_by_phase_beat_and_grid() {
    let incoming = analyzed(120.0);
    let aim = Aim {
        beat_aligned: true,
        incoming_start: Duration::from_secs(1),
        overlap: Duration::from_secs(6),
        structure_adaptive: false,
        vocal_constrained: false,
        target: Duration::from_secs(173),
        bias: BarPhaseBias::AtOrBefore,
    };
    let window = Duration::from_secs(6);
    let near = BarPhaseBias::AtOrBefore;
    let past = BarPhaseBias::AtOrAfter;
    assert_eq!(
        aim.start_searches(&incoming, None),
        vec![
            StartSearch::Phase { beats: 16, window, bias: near },
            StartSearch::Phase { beats: 4, window, bias: near },
            StartSearch::Beats { window, bias: near },
            StartSearch::Phase { beats: 16, window, bias: past },
            StartSearch::Phase { beats: 4, window, bias: past },
            StartSearch::Beats { window, bias: past },
        ]
    );
    // Clashing keys align no phrases and search no shorter overlap.
    assert_eq!(
        aim.start_searches(&incoming, Some(bits(0.2))),
        vec![
            StartSearch::Phase { beats: 4, window, bias: near },
            StartSearch::Beats { window, bias: near },
        ]
    );
    let short = Aim { overlap: Duration::from_secs(2), bias: past, ..aim };
    let window = Duration::from_secs(8);
    assert_eq!(short.start_searches(&incoming, None)[2], StartSearch::Beats { window, bias: past });
    assert_eq!(short.start_searches(&incoming, None).len(), 3);
    let free = Aim { beat_aligned: false, ..aim };
    assert_eq!(
        free.start_searches(&incoming, None),
        vec![StartSearch::Grid { window: Duration::from_secs(6), bias: near }]
    );
}

#[test]
fn a_candidate_is_planned_where_the_incoming_track_and_vocals_allow_it() {
    let incoming = analyzed(120.0);
    let aim = Aim {
        beat_aligned: false,
        incoming_start: Duration::from_secs(171),
        overlap: Duration::from_secs(8),
        structure_adaptive: false,
        vocal_constrained: false,
        target: Duration::from_secs(171),
        bias: BarPhaseBias::AtOrBefore,
    };
    let start = Duration::from_secs(171);
    let duration = Duration::from_secs(8);
    let plan = |source: Duration, limit: Duration| {
        aim.candidate_plan(&incoming, None, start, duration, (bits(1.0), None), source, limit)
    };
    let planned = plan(Duration::from_millis(8_020), duration).unwrap();
    assert_eq!(planned.kind, TransitionKind::Crossfade);
    assert_eq!(planned.outgoing_start, start);
    assert_eq!(planned.incoming_start, start);
    assert_eq!(planned.duration, duration);
    assert!(planned.has_overlap());
    assert!(plan(Duration::from_millis(8_021), duration).is_none());
    assert!(plan(duration, Duration::from_millis(7_999)).is_none());
    let (outgoing_deck, incoming_deck) = planned.deck_equalizers(Duration::from_secs(9));
    assert_eq!(outgoing_deck.role, EqTransitionRole::Outgoing);
    assert_eq!(outgoing_deck.duration, duration);
    assert_eq!(incoming_deck.role, EqTransitionRole::Incoming);
    assert_eq!(incoming_deck.source_start, start);
    assert_eq!(incoming_deck.duration, Duration::from_secs(9));
    assert!(!gapless_plan(&incoming, &incoming).has_overlap());
}

#[test]
fn beats_are_followed_where_their_confidence_is_known() {
    let mut track = analyzed(60.0);
    track.beat_marker_confidences[2] = bits(1.5);
    track.beat_marker_confidences.truncate(4);
    let beats =
        confident_beats_between(&track, Duration::from_secs(2), Duration::from_secs(20));
    assert_eq!(
        beats.iter().map(|beat| beat.position).collect::<Vec<_>>(),
        vec![Duration::from_secs(2), Duration::from_secs(4)]
    );
    assert_eq!(beats[0].confidence, bits(0.9));

    let segments = vec![
        TempoSegment { output_end: Duration::from_secs(2), speed: bits(1.01) },
        TempoSegment { output_end: Duration::from_secs(4), speed: bits(1.03) },
    ];
    assert_eq!(follow_speeds(bits(1.02), &segments), (bits(1.01), bits(1.03)));
    assert_eq!(follow_speeds(bits(1.02), &Vec::new()), (bits(1.02), bits(1.02)));
    let overlap = Duration::from_secs(4);
    let ramp = Duration::from_secs(2);
    let (start, envelope) =
        follow_envelope(bits(1.02), &segments, &vec![bits(0.01)], overlap, ramp);
    let envelope = envelope.unwrap();
    assert_eq!(start, bits(1.01));
    assert_eq!(envelope.mix_end_speed, bits(1.03));
    assert_eq!((envelope.hold, envelope.ramp), (overlap, ramp));
    assert_eq!(envelope.phase_segments, segments);
    let (start, envelope) =
        follow_envelope(bits(1.0), &Vec::new(), &vec![bits(0.0005)], overlap, ramp);
    assert_eq!(start, bits(1.0));
    assert!(envelope.is_none());
}

#[test]
fn levels_are_measured_where_a_track_is_audible() {
    let mut track = analyzed(120.0);
    let second = Duration::from_secs;
    assert_eq!(
        reference_region(&track, second(170), second(178)),
        Some((second(168), second(179)))
    );
    assert_eq!(reference_region(&track, second(170), second(170)), None);
    assert_eq!(
        level_window(&track, second(1)),
        Some((second(1), Duration::from_millis(1_250)))
    );
    assert_eq!(level_window(&track, second(180)), None);
    track.energy_profile_rate = 0;
    assert_eq!(reference_region(&track, second(170), second(178)), None);

    let energies = [0.5, 0.1, 0.4, 0.2, 0.3].map(bits).to_vec();
    assert_eq!(energy_reference(&energies, &Vec::new()), Some(bits(0.4)));
    let edges = vec![bits(f32::NAN), bits(-1.0), bits(0.45)];
    assert_eq!(energy_reference(&energies, &edges), Some(bits(0.45)));
    assert_eq!(energy_reference(&Vec::new(), &edges), None);
    assert_eq!(energy_reference(&vec![bits(1.0e-9)], &Vec::new()), None);
    assert!(references_are_usable(bits(0.0), bits(0.2)));
    assert!(!references_are_usable(bits(0.0), bits(0.0)));
    assert!(!references_are_usable(bits(f32::NAN), bits(0.2)));
    assert!(!references_are_usable(bits(-0.1), bits(0.2)));
}

#[test]
fn markers_and_grids_of_an_overlap() {
    let mut track = analyzed(60.0);
    let second = Duration::from_secs;
    let outputs = marker_outputs(&track, second(3), second(2));
    assert_eq!(outputs.len(), track.beat_markers.len());
    assert_eq!(outputs[..6], [0, 0, 0, 1, 2, 2].map(second));
    assert_eq!(
        track.cue_slots_left(second(1), second(10)),
        MAX_INCOMING_CUE_CANDIDATES - 10
    );
    assert_eq!(
        track.grid_place_before(second(4), Some(second(1))),
        GridPlace::Counted { first: second(1), elapsed: second(3), interval: second(1) }
    );
    assert_eq!(track.grid_place_before(second(4), None), GridPlace::Fixed(second(4)));
    assert_eq!(track.grid_place_before(second(0), None), GridPlace::Fixed(second(0)));
    assert_eq!(track.grid_place_after(second(0), None), GridPlace::Fixed(second(1)));
    let interval = Some(second(1));
    let (first, _) = actionable_grids(&track, &track, interval, interval).unwrap();
    assert_eq!((first.first_downbeat, first.beat_interval), (second(1), second(1)));
    assert!(actionable_grids(&track, &track, interval, None).is_none());
    let sure = track.clone();
    track.downbeat_confidence = bits(0.1);
    assert!(actionable_grids(&sure, &track, interval, interval).is_none());
    for confidence in [0.6, f32::INFINITY, f32::NAN] {
        track.downbeat_confidence = bits(confidence);
        assert!(!track.downbeat_is_unsure());
        assert!(actionable_grids(&sure, &track, interval, interval).is_some());
    }
    track.first_beat = None;
    assert_eq!(track.grid_place_after(second(7), interval), GridPlace::Fixed(second(7)));
}

#[test]
fn the_spans_of_an_overlap_follow_its_segments() {
    let second = Duration::from_secs;
    let envelope = TempoEnvelope::new(bits(1.0), bits(1.1), second(10), second(2))
        .with_phase_segments(&vec![
            TempoSegment { output_end: second(2), speed: bits(1.01) },
            TempoSegment { output_end: second(2), speed: bits(1.02) },
            TempoSegment { output_end: second(6), speed: bits(1.03) },
        ]);
    let spans = |moment: u64| {
        envelope
            .hold_spans(second(moment))
            .into_iter()
            .map(|span| (span.length, span.speed))
            .collect::<Vec<_>>()
    };
    assert_eq!(spans(0), vec![]);
    assert_eq!(spans(2), vec![(second(2), bits(1.01))]);
    assert_eq!(spans(5), vec![(second(2), bits(1.01)), (second(3), bits(1.03))]);
    let whole = vec![
        (second(2), bits(1.01)),
        (second(4), bits(1.03)),
        (second(4), bits(1.1)),
    ];
    assert_eq!(spans(10), whole);
    assert_eq!(spans(11), whole);
}
