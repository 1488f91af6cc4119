//! Tests of the analysis of recordings: the signal processing stands here, the
//! decisions are those of the library.

use wotoha::audio::{
    accents_are_comparable, apply_energy_structure, assemble_analysis, audible_region,
    beat_accents, count_strong, count_weak, first_boundary, kick_reliable, longest_run,
    rank_phases, select_markers, select_tempo, settle_downbeat_phase, settle_structure,
    strongest_onset, structure_search, BeatFindings, BoundaryEvidence, EnergyStructure,
    MarkerCandidate, MarkerGate, StructureSearch, TempoEstimate, MIN_KICK_TRACK_CONFIDENCE,
};
use wotoha::automix::track::TrackAnalysis;
use wotoha::ordering::{at_rank, last_greatest};
use wotoha::time::Duration;

fn bits(value: f32) -> u32 {
    value.to_bits()
}

fn number(bits: u32) -> f32 {
    f32::from_bits(bits)
}

/// Floating point: a span in seconds.
fn seconds(span: Duration) -> f64 {
    std::time::Duration::new(
        (span.nanos / 1_000_000_000) as u64,
        (span.nanos % 1_000_000_000) as u32,
    )
    .as_secs_f64()
}

/// Floating point: the span of some seconds.
fn span_of(seconds: f64) -> Duration {
    let span = std::time::Duration::from_secs_f64(seconds);
    Duration::from_parts(span.as_secs(), span.subsec_nanos()).expect("a valid span")
}

/// The tempos that are looked for, in beats per minute.
const MIN_BPM: f32 = 70.0;
const MAX_BPM: f32 = 180.0;
/// How many blocks of a second onsets are looked for in.
const ONSET_BLOCKS_PER_SECOND: usize = 200;
/// How many bins of a second the structure is looked for in.
const STRUCTURE_BINS_PER_SECOND: u32 = 4;
/// How many phases are tried within one block.
const PHASE_STEPS_PER_BLOCK: f32 = 4.0;
/// The level of the lowest code of an energy profile.
const MIN_PROFILE_DBFS: f32 = -80.0;

/// Floating point: the time of a sample.
fn sample_time(samples: usize, sample_rate: u32) -> Duration {
    span_of(samples as f64 / f64::from(sample_rate))
}

/// A filter that lets 40 to 180 Hz through, used before downsampling.
struct LowBandFilter {
    high_pass_alpha: f32,
    low_pass_alpha: f32,
    previous_input: f32,
    previous_high_pass_1: f32,
    high_pass_1: f32,
    high_pass_2: f32,
    low_pass_1: f32,
    low_pass_2: f32,
}

impl LowBandFilter {
    /// Floating point: a filter for a sample rate.
    fn new(sample_rate: u32) -> Option<Self> {
        if sample_rate == 0 {
            return None;
        }
        let rate = sample_rate as f32;
        Some(Self {
            high_pass_alpha: (-std::f32::consts::TAU * 40.0 / rate).exp(),
            low_pass_alpha: (-std::f32::consts::TAU * 180.0 / rate).exp(),
            previous_input: 0.0,
            previous_high_pass_1: 0.0,
            high_pass_1: 0.0,
            high_pass_2: 0.0,
            low_pass_1: 0.0,
            low_pass_2: 0.0,
        })
    }

    /// Floating point: the next sample of the low band.
    fn process(&mut self, sample: f32) -> f32 {
        self.high_pass_1 = self.high_pass_alpha * (self.high_pass_1 + sample - self.previous_input);
        self.previous_input = sample;
        self.high_pass_2 = self.high_pass_alpha
            * (self.high_pass_2 + self.high_pass_1 - self.previous_high_pass_1);
        self.previous_high_pass_1 = self.high_pass_1;
        self.low_pass_1 =
            (1.0 - self.low_pass_alpha) * self.high_pass_2 + self.low_pass_alpha * self.low_pass_1;
        self.low_pass_2 =
            (1.0 - self.low_pass_alpha) * self.low_pass_1 + self.low_pass_alpha * self.low_pass_2;
        self.low_pass_2
    }
}

/// Analyzes mono PCM that is normalized to between minus one and one.
fn analyze_mono_pcm(samples: &[f32], sample_rate: u32) -> Option<TrackAnalysis> {
    let mut filter = LowBandFilter::new(sample_rate)?;
    let low_band = samples
        .iter()
        .map(|sample| filter.process(*sample))
        .collect::<Vec<_>>();
    analyze_mono_pcm_with_low_band(samples, &low_band, sample_rate)
}

/// Floating point: analyzes PCM with its low band at the same rate.
fn analyze_mono_pcm_with_low_band(
    samples: &[f32],
    low_band: &[f32],
    sample_rate: u32,
) -> Option<TrackAnalysis> {
    if samples.is_empty() || samples.len() != low_band.len() || sample_rate == 0 {
        return None;
    }
    let duration = sample_time(samples.len(), sample_rate);
    let peak = samples
        .iter()
        .fold(0.0_f32, |peak, sample| peak.max(sample.abs()));
    if peak <= f32::EPSILON {
        return Some(TrackAnalysis::unanalyzed(duration));
    }
    let magnitudes = samples.iter().map(|sample| bits(sample.abs())).collect();
    let (first, last) = audible_region(&magnitudes, bits((peak * 0.02).max(0.0005)));
    let audible_start = sample_time(first, sample_rate);
    let audible_end = sample_time(last.saturating_add(1), sample_rate);
    let rms = rms_envelope(samples, sample_rate, STRUCTURE_BINS_PER_SECOND);
    let structure = estimate_energy_structure(
        &rms,
        STRUCTURE_BINS_PER_SECOND,
        audible_start,
        audible_end,
    );
    let block = (sample_rate as usize / ONSET_BLOCKS_PER_SECOND).max(1);
    Some(assemble_analysis(
        duration,
        audible_start,
        audible_end,
        structure,
        quantize_energy_profile(&rms),
        STRUCTURE_BINS_PER_SECOND as u8,
        find_beats(samples, low_band, sample_rate, block, first, last),
    ))
}

/// Floating point: the beats of a recording.
fn find_beats(
    samples: &[f32],
    low_band: &[f32],
    sample_rate: u32,
    block: usize,
    first: usize,
    last: usize,
) -> Option<BeatFindings> {
    let onset_rate = sample_rate as f32 / block as f32;
    let energy = block_energy(samples, block);
    let onset = rises(&energy);
    let low_energy = block_energy(low_band, block);
    let low_smoothed = low_energy
        .windows(4)
        .map(|window| window.iter().sum::<f32>() / window.len() as f32)
        .collect::<Vec<_>>();
    let mut kick_onset = vec![0.0; 3];
    kick_onset.extend(rises(&low_smoothed));
    kick_onset.resize(onset.len(), 0.0);

    let full_tempo = estimate_tempo(&onset, onset_rate);
    let low_tempo = estimate_tempo(&kick_onset, onset_rate);
    let low_energy_ratio =
        low_energy.iter().sum::<f32>() / energy.iter().sum::<f32>().max(f32::EPSILON);
    let reliable = kick_reliable(low_tempo, bits(low_energy_ratio));
    let difference = match (low_tempo, full_tempo) {
        (Some(low), Some(full)) => (number(low.bpm) / number(full.bpm) - 1.0).abs(),
        _ => f32::INFINITY,
    };
    let tempo = select_tempo(low_tempo, full_tempo, reliable, bits(difference))?;
    let beat_lag = number(tempo.beat_lag);
    let (markers, marker_confidences) = estimate_beat_markers(
        if reliable { &kick_onset } else { &onset },
        reliable,
        number(tempo.confidence),
        beat_lag,
        first / block,
        last / block,
    );
    let first_marker = *markers.first()?;
    let lag_blocks = beat_lag.round().max(1.0) as usize;
    let (offset, downbeat_confidence) = estimate_downbeat_phase(&onset, first_marker, lag_blocks);
    let first_downbeat = first_marker + 1 + offset * lag_blocks;
    Some(BeatFindings {
        tempo,
        markers: markers
            .iter()
            .map(|index| sample_time((index + 1) * block, sample_rate))
            .collect(),
        marker_confidences,
        first_downbeat: sample_time(first_downbeat * block, sample_rate),
        downbeat_confidence: bits(downbeat_confidence),
    })
}

/// Floating point: the mean energy of each block.
fn block_energy(samples: &[f32], block: usize) -> Vec<f32> {
    samples
        .chunks(block)
        .map(|chunk| chunk.iter().map(|sample| sample * sample).sum::<f32>() / chunk.len() as f32)
        .collect()
}

/// Floating point: how much the level rises from each block to the next.
fn rises(energy: &[f32]) -> Vec<f32> {
    energy
        .windows(2)
        .map(|pair| (pair[1].sqrt() - pair[0].sqrt()).max(0.0))
        .collect()
}

/// Floating point: the level of each bin.
fn rms_envelope(samples: &[f32], sample_rate: u32, bins_per_second: u32) -> Vec<f32> {
    let block = (sample_rate as usize / bins_per_second.max(1) as usize).max(1);
    block_energy(samples, block)
        .into_iter()
        .map(f32::sqrt)
        .collect()
}

/// Floating point: an energy profile as codes.
fn quantize_energy_profile(rms: &[f32]) -> Vec<u8> {
    rms.iter()
        .map(|value| {
            let dbfs = if *value > f32::EPSILON {
                20.0 * value.log10()
            } else {
                MIN_PROFILE_DBFS
            };
            (((dbfs.clamp(MIN_PROFILE_DBFS, 0.0) - MIN_PROFILE_DBFS) / -MIN_PROFILE_DBFS) * 255.0)
                .round() as u8
        })
        .collect()
}

/// Floating point: where intro and outro lie.
fn estimate_energy_structure(
    rms: &[f32],
    bins_per_second: u32,
    audible_start: Duration,
    audible_end: Duration,
) -> EnergyStructure {
    if rms.is_empty() || bins_per_second == 0 || audible_end.within(audible_start) {
        return settle_structure(None, None);
    }
    let rate = bins_per_second as usize;
    let start = (seconds(audible_start) * f64::from(bins_per_second)).floor() as usize;
    let end = (seconds(audible_end) * f64::from(bins_per_second)).ceil() as usize;
    let values = &rms[start.min(rms.len())..end.min(rms.len())];
    assert!(
        values.len().checked_mul(35).is_some() && rate.checked_mul(30).is_some(),
        "attempt to multiply with overflow"
    );
    let Some(search) = structure_search(values.len(), rate) else {
        return settle_structure(None, None);
    };
    let smoothed = median_smooth(values, rate.max(1));
    let reference = percentile(&smoothed, 0.9);
    if reference <= f32::EPSILON {
        return settle_structure(None, None);
    }
    // The values begin at a whole bin, which may precede the audible start.
    let to_span = |index: usize| span_of((start + index) as f64 / f64::from(bins_per_second));
    let found = |boundary: Option<(usize, u32)>| {
        boundary.map(|(index, confidence)| (to_span(index), confidence))
    };
    let intro = (search.intro_from..search.intro_to)
        .map(|boundary| intro_evidence(&smoothed, boundary, reference, &search))
        .collect();
    let outro = (search.outro_from..search.outro_to)
        .map(|boundary| outro_evidence(&smoothed, boundary, reference, &search))
        .collect();
    settle_structure(
        found(first_boundary(&intro, search.intro_from, usize::MAX)),
        found(first_boundary(&outro, search.outro_from, rate * 2)),
    )
}

/// Floating point: what a boundary between an edge and the core looks like.
fn boundary_evidence(
    edge: &[f32],
    next_to_core: &[f32],
    core: &[f32],
    reference: f32,
) -> BoundaryEvidence {
    let levels = |values: &[f32]| values.iter().map(|value| bits(*value)).collect::<Vec<_>>();
    let share = |values: &[f32], count: usize| {
        if values.is_empty() {
            0.0
        } else {
            count as f32 / values.len() as f32
        }
    };
    let weak_share =
        |values: &[f32]| share(values, count_weak(&levels(values), bits(reference * 0.35)));
    let weak_ratio = weak_share(edge);
    let immediate_weak = weak_share(next_to_core);
    let core_ratio = share(core, count_strong(&levels(core), bits(reference * 0.55)));
    let contrast = ((mean(core) - mean(edge)) / reference).clamp(0.0, 1.0);
    let confidence = (0.45 * contrast + 0.3 * weak_ratio + 0.25 * core_ratio).clamp(0.0, 1.0);
    BoundaryEvidence {
        weak_ratio: bits(weak_ratio),
        immediate_weak: bits(immediate_weak),
        core_ratio: bits(core_ratio),
        longest_recovery: longest_run(&levels(edge), bits(reference * 0.55)),
        confidence: bits(confidence),
    }
}

fn intro_evidence(
    smoothed: &[f32],
    boundary: usize,
    reference: f32,
    search: &StructureSearch,
) -> BoundaryEvidence {
    boundary_evidence(
        &smoothed[..boundary],
        &smoothed[boundary - search.minimum_edge..boundary],
        &smoothed[boundary..boundary + search.core_run],
        reference,
    )
}

fn outro_evidence(
    smoothed: &[f32],
    boundary: usize,
    reference: f32,
    search: &StructureSearch,
) -> BoundaryEvidence {
    boundary_evidence(
        &smoothed[boundary..],
        &smoothed[boundary..boundary + search.minimum_edge],
        &smoothed[boundary - search.core_run..boundary],
        reference,
    )
}

/// Floating point: the median around each value.
fn median_smooth(values: &[f32], width: usize) -> Vec<f32> {
    let radius = width / 2;
    (0..values.len())
        .map(|index| {
            let from = index.saturating_sub(radius);
            let to = (index + radius + 1).min(values.len());
            percentile(&values[from..to], 0.5)
        })
        .collect()
}

/// Floating point: the value at a share of the ordered values.
fn percentile(values: &[f32], share: f32) -> f32 {
    let rank = (values.len().saturating_sub(1) as f32 * share.clamp(0.0, 1.0)).round() as usize;
    let values = values.iter().map(|value| bits(*value)).collect();
    number(at_rank(&values, rank))
}

/// Floating point: the mean of some values.
fn mean(values: &[f32]) -> f32 {
    values.iter().sum::<f32>() / values.len().max(1) as f32
}

/// Floating point: the beat of the bar at which the accents lie.
fn estimate_downbeat_phase(onset: &[f32], first_beat: usize, beat_lag: usize) -> (usize, f32) {
    if beat_lag == 0 {
        return (0, 0.0);
    }
    let mut sums = [0.0_f32; 4];
    let mut counts = [0_u32; 4];
    let strengths = onset.iter().map(|value| bits(*value)).collect();
    let accents = beat_accents(&strengths, first_beat, beat_lag);
    for (beat, accent) in accents.iter().enumerate() {
        sums[beat % 4] += number(*accent);
        counts[beat % 4] += 1;
    }
    let means = (0..4)
        .map(|phase| {
            if counts[phase] > 0 {
                bits(sums[phase] / counts[phase] as f32)
            } else {
                bits(0.0)
            }
        })
        .collect::<Vec<_>>();
    let (phase, second) = rank_phases(&means);
    let best = number(means[phase]);
    let confidence = if accents_are_comparable(bits(best), accents.len()) {
        ((best - number(second)) / best).clamp(0.0, 1.0)
    } else {
        0.0
    };
    (settle_downbeat_phase(phase, bits(confidence)), confidence)
}

/// Floating point: the tempo of some onsets.
fn estimate_tempo(onset: &[f32], onset_rate: f32) -> Option<TempoEstimate> {
    if onset.len() < onset_rate as usize || onset_rate <= 0.0 {
        return None;
    }
    let energy = onset.iter().map(|value| value * value).sum::<f32>();
    if energy <= f32::EPSILON {
        return None;
    }
    let minimum_lag = ((onset_rate * 60.0 / MAX_BPM).floor() as usize).max(1);
    let maximum_lag = ((onset_rate * 60.0 / MIN_BPM).ceil() as usize).min(onset.len() - 1);
    let scores = (minimum_lag..=maximum_lag)
        .map(|lag| bits(autocorrelation(onset, lag)))
        .collect::<Vec<_>>();
    let best = last_greatest(&scores)?;
    let best_score = number(scores[best]);
    let offset = if best > 0 && best + 1 < scores.len() {
        parabolic_peak_offset(
            number(scores[best - 1]),
            best_score,
            number(scores[best + 1]),
        )
    } else {
        0.0
    };
    let lag = (minimum_lag + best) as f32 + offset;
    (lag > 0.0).then(|| TempoEstimate {
        bpm: bits(onset_rate * 60.0 / lag),
        confidence: bits((best_score / energy).clamp(0.0, 1.0)),
        beat_lag: bits(lag),
    })
}

/// Floating point: how much onsets resemble themselves some blocks later.
fn autocorrelation(onset: &[f32], lag: usize) -> f32 {
    onset
        .iter()
        .zip(onset.iter().skip(lag))
        .map(|(left, right)| left * right)
        .sum()
}

/// Floating point: where between three scores the peak lies.
fn parabolic_peak_offset(left: f32, center: f32, right: f32) -> f32 {
    let denominator = left - 2.0 * center + right;
    if denominator.abs() <= f32::EPSILON {
        0.0
    } else {
        (0.5 * (left - right) / denominator).clamp(-0.5, 0.5)
    }
}

/// Floating point: the phase at which onsets repeat most strongly.
fn best_phase(onset: &[f32], beat_lag: f32) -> Option<f32> {
    let steps = (beat_lag * PHASE_STEPS_PER_BLOCK).ceil() as usize;
    let scores = (0..steps)
        .map(|step| {
            let mut score = 0.0;
            let mut count = 0_u32;
            let mut position = step as f32 / PHASE_STEPS_PER_BLOCK;
            while position < onset.len() as f32 {
                score += interpolated(onset, position);
                count += 1;
                position += beat_lag;
            }
            bits(score / count.max(1) as f32)
        })
        .collect();
    last_greatest(&scores).map(|step| step as f32 / PHASE_STEPS_PER_BLOCK)
}

/// Floating point: the beat markers of a recording, by block, with their
/// confidences.
fn estimate_beat_markers(
    onset: &[f32],
    kick_reliable: bool,
    track_confidence: f32,
    beat_lag: f32,
    audible_start: usize,
    audible_end: usize,
) -> (Vec<usize>, Vec<u32>) {
    if onset.is_empty() || beat_lag <= 1.0 || !beat_lag.is_finite() {
        return (Vec::new(), Vec::new());
    }
    let Some(phase) = best_phase(onset, beat_lag) else {
        return (Vec::new(), Vec::new());
    };
    let reference = onset_reference(onset);
    let gate = MarkerGate {
        kick_reliable,
        quarter_reference: bits(reference * 0.25),
        tenth_reference: bits(reference * 0.1),
    };
    let strengths = onset.iter().map(|value| bits(*value)).collect();
    let radius = (beat_lag * 0.2).round().clamp(5.0, 20.0) as usize;
    let mut candidates = Vec::new();
    let mut position = phase;
    while position + (radius as f32) < audible_start as f32 {
        position += beat_lag;
    }
    while position < onset.len() as f32 && position <= audible_end as f32 + radius as f32 {
        let center = position.round() as usize;
        if let Some(detected) = strongest_onset(&strengths, center, radius) {
            let strength = onset[detected];
            let proximity = 1.0 - detected.abs_diff(center) as f32 / radius.max(1) as f32;
            let confidence = if kick_reliable {
                (strength / reference.max(f32::EPSILON)).clamp(0.0, 1.0)
                    * proximity.clamp(0.0, 1.0)
                    * (track_confidence / number(MIN_KICK_TRACK_CONFIDENCE)).clamp(0.0, 1.0)
            } else {
                0.0
            };
            let candidate = MarkerCandidate {
                predicted: center,
                detected,
                strength: bits(strength),
                confidence: bits(confidence),
            };
            candidates.push(candidate);
            if gate.should_snap(&candidate, false) {
                position = detected as f32 + beat_lag;
                continue;
            }
        }
        position += beat_lag;
    }
    select_markers(&candidates, &gate, audible_start, audible_end)
}

/// Floating point: the strength of a strong onset.
fn onset_reference(onset: &[f32]) -> f32 {
    let positive = onset
        .iter()
        .filter(|value| **value > f32::EPSILON)
        .map(|value| bits(*value))
        .collect::<Vec<_>>();
    if positive.is_empty() {
        return f32::EPSILON;
    }
    let rank = ((positive.len() - 1) as f32 * 0.9).round() as usize;
    number(at_rank(&positive, rank))
}

/// Floating point: a value between two others.
fn interpolated(values: &[f32], position: f32) -> f32 {
    let left = position.floor().max(0.0) as usize;
    let right = (left + 1).min(values.len().saturating_sub(1));
    let fraction = position - left as f32;
    values[left] * (1.0 - fraction) + values[right] * fraction
}

#[test]
fn a_filter_needs_a_sample_rate() {
    assert!(LowBandFilter::new(0).is_none());
    assert!(analyze_mono_pcm(&[], 1_000).is_none());
    assert!(analyze_mono_pcm_with_low_band(&[0.5], &[], 1_000).is_none());
}

#[test]
fn structure_and_profile_can_be_replaced() {
    let mut analysis = TrackAnalysis::unanalyzed(Duration::from_secs(10));
    let structure = settle_structure(
        Some((Duration::from_secs(6), bits(0.7))),
        Some((Duration::from_secs(5), bits(0.9))),
    );
    assert_eq!(structure.intro_end, None);
    assert_eq!(structure.outro_start, Some(Duration::from_secs(5)));
    apply_energy_structure(&mut analysis, structure, vec![1, 2, 3], 300);
    assert_eq!(analysis.energy_profile, vec![1, 2, 3]);
    assert_eq!(analysis.energy_profile_rate, 255);
    assert_eq!(analysis.outro_start, Some(Duration::from_secs(5)));
    assert_eq!(analysis.audible_end, Duration::from_secs(10));
}

#[test]
fn markers_ascend_inside_the_audible_part() {
    let candidate = |predicted: usize, detected: usize, confidence: f32| MarkerCandidate {
        predicted,
        detected,
        strength: bits(1.0),
        confidence: bits(confidence),
    };
    let gate = MarkerGate {
        kick_reliable: true,
        quarter_reference: bits(0.25),
        tenth_reference: bits(0.1),
    };
    let candidates = vec![
        candidate(10, 11, 0.05),
        candidate(20, 22, 0.12),
        candidate(30, 29, 0.2),
        candidate(40, 43, 0.9),
        candidate(42, 41, 0.9),
        candidate(60, 61, 0.9),
    ];
    assert_eq!(
        select_markers(&candidates, &gate, 0, 50),
        (vec![22, 30, 43], vec![bits(0.12), bits(0.2), bits(0.9)])
    );
}

#[test]
fn detects_tempo_phase_and_silence_from_click_track() {
    let sample_rate = 1_000;
    let mut samples = vec![0.0; 12_000];
    for beat in (1_000..11_000).step_by(500) {
        for sample in &mut samples[beat..beat + 20] {
            *sample = 1.0;
        }
    }
    let analysis = analyze_mono_pcm(&samples, sample_rate).unwrap();
    assert!((number(analysis.bpm.unwrap()) - 120.0).abs() < 1.0);
    assert!(number(analysis.beat_confidence) > 0.7);
    assert_eq!(analysis.audible_start, Duration::from_secs(1));
    assert_eq!(analysis.first_beat, Some(Duration::from_secs(1)));
    assert_eq!(analysis.first_downbeat, Some(Duration::from_secs(1)));
}

#[test]
fn silent_pcm_falls_back_to_unanalyzed() {
    let analysis = analyze_mono_pcm(&vec![0.0; 1_000], 1_000).unwrap();
    assert_eq!(analysis.bpm, None);
    assert_eq!(number(analysis.beat_confidence), 0.0);
    assert_eq!(analysis.first_downbeat, None);
}

#[test]
fn detects_downbeat_phase_from_four_beat_accents() {
    let sample_rate = 1_000;
    let mut samples = vec![0.0; 18_000];
    for (beat_index, beat) in (1_000..17_000).step_by(500).enumerate() {
        let level = if beat_index % 4 == 2 { 1.0 } else { 0.55 };
        for sample in &mut samples[beat..beat + 20] {
            *sample = level;
        }
    }

    let analysis = analyze_mono_pcm(&samples, sample_rate).unwrap();
    assert_eq!(analysis.first_beat, Some(Duration::from_secs(1)));
    assert_eq!(analysis.first_downbeat, Some(Duration::from_secs(2)));
    assert!(number(analysis.downbeat_confidence) > 0.35);
}

#[test]
fn estimates_fractional_tempo_without_accumulating_beat_drift() {
    let sample_rate = 1_000;
    let bpm = 123.0_f32;
    let interval = 60.0 / bpm;
    let mut samples = vec![0.0; 62_000];
    let mut beat = 1.0_f32;
    while beat < 61.0 {
        let position = (beat * sample_rate as f32).round() as usize;
        samples[position..position + 8].fill(1.0);
        beat += interval;
    }

    let analysis = analyze_mono_pcm(&samples, sample_rate).unwrap();
    assert!((number(analysis.bpm.unwrap()) - bpm).abs() < 0.15, "{analysis:?}");
    assert!(
        analysis
            .first_beat
            .unwrap()
            .abs_diff(Duration::from_secs(1)).shorter(Duration::from_millis(8)),
        "{analysis:?}"
    );
}

#[test]
fn locks_phase_to_the_repeating_kick_grid_instead_of_a_loud_pickup() {
    let sample_rate = 1_000;
    let mut samples = vec![0.0; 20_000];
    samples[1_250..1_270].fill(1.0);
    for beat in (2_000..19_000).step_by(500) {
        samples[beat..beat + 12].fill(0.7);
    }

    let analysis = analyze_mono_pcm(&samples, sample_rate).unwrap();
    assert!((number(analysis.bpm.unwrap()) - 120.0).abs() < 0.2);
    assert!(
        analysis
            .first_beat
            .unwrap()
            .abs_diff(Duration::from_secs(2)).shorter(Duration::from_millis(8)),
        "{analysis:?}"
    );
}

#[test]
fn beat_markers_follow_gradual_tempo_drift() {
    let sample_rate = 1_000;
    let mut samples = vec![0.0; 62_000];
    let mut beat = 1.0_f32;
    let mut beats = Vec::new();
    while beat < 61.0 {
        beats.push(beat);
        let progress = ((beat - 1.0) / 60.0).clamp(0.0, 1.0);
        let bpm = 120.0 + 3.0 * progress;
        beat += 60.0 / bpm;
    }
    for beat in &beats {
        let position = (*beat * sample_rate as f32).round() as usize;
        samples[position..position + 8].fill(1.0);
    }

    let analysis = analyze_mono_pcm(&samples, sample_rate).unwrap();
    let expected_last = span_of(f64::from(*beats.last().unwrap()));
    let detected_last = *analysis.beat_markers.last().unwrap();
    assert!(
        detected_last.abs_diff(expected_last).shorter(Duration::from_millis(15)),
        "expected={expected_last:?} detected={detected_last:?} analysis={analysis:?}"
    );
    let trailing_intervals = analysis
        .beat_markers
        .windows(2)
        .rev()
        .take(8)
        .map(|pair| seconds(pair[1].saturating_sub(pair[0])) as f32)
        .collect::<Vec<_>>();
    let local_bpm = 60.0 / (trailing_intervals.iter().sum::<f32>() / 8.0);
    assert!(local_bpm > 122.0, "local_bpm={local_bpm}");
}

#[test]
fn low_band_kicks_define_phase_despite_louder_offbeat_hats() {
    let sample_rate = 16_000;
    let mut samples = vec![0.0; sample_rate as usize * 20];
    for beat in 0..36 {
        add_burst(
            &mut samples,
            sample_rate,
            1.0 + beat as f32 * 0.5,
            80.0,
            0.07,
            0.3,
        );
        add_burst(
            &mut samples,
            sample_rate,
            1.25 + beat as f32 * 0.5,
            3_200.0,
            0.015,
            0.8,
        );
    }

    let analysis = analyze_mono_pcm(&samples, sample_rate).unwrap();
    assert!((number(analysis.bpm.unwrap()) - 120.0).abs() < 0.5, "{analysis:?}");
    assert!(
        analysis
            .first_beat
            .unwrap()
            .abs_diff(Duration::from_secs(1)).shorter(Duration::from_millis(30)),
        "{analysis:?}"
    );
    assert_eq!(
        analysis.beat_marker_confidences.len(),
        analysis.beat_markers.len()
    );
    assert!(
        analysis
            .beat_marker_confidences
            .iter()
            .skip(2)
            .take(16)
            .filter(|confidence| number(**confidence) >= MIN_PHASE_MARKER_CONFIDENCE_FOR_TEST)
            .count()
            >= 12,
        "{analysis:?}"
    );
}

#[test]
fn low_band_tempo_wins_over_conflicting_high_band_rhythm() {
    let sample_rate = 16_000;
    let mut samples = vec![0.0; sample_rate as usize * 24];
    for beat in 0..44 {
        add_burst(
            &mut samples,
            sample_rate,
            1.0 + beat as f32 * 0.5,
            80.0,
            0.07,
            0.28,
        );
    }
    for beat in 0..55 {
        add_burst(
            &mut samples,
            sample_rate,
            1.1 + beat as f32 * 0.4,
            3_200.0,
            0.015,
            0.85,
        );
    }

    let analysis = analyze_mono_pcm(&samples, sample_rate).unwrap();
    assert!((number(analysis.bpm.unwrap()) - 120.0).abs() < 0.7, "{analysis:?}");
    assert!(
        analysis
            .first_beat
            .unwrap()
            .abs_diff(Duration::from_secs(1)).shorter(Duration::from_millis(30)),
        "{analysis:?}"
    );
}

#[test]
fn missing_kick_keeps_grid_marker_with_lower_confidence() {
    let sample_rate = 16_000;
    let mut samples = vec![0.0; sample_rate as usize * 20];
    for beat in 0..36 {
        if beat != 12 {
            add_burst(
                &mut samples,
                sample_rate,
                1.0 + beat as f32 * 0.5,
                80.0,
                0.07,
                0.3,
            );
        }
    }

    let analysis = analyze_mono_pcm(&samples, sample_rate).unwrap();
    let missing = Duration::from_secs(7);
    let index = analysis
        .beat_markers
        .iter()
        .position(|marker| marker.abs_diff(missing).shorter(Duration::from_millis(30)))
        .expect("missing kick should retain a predicted grid marker");
    let confidence = number(analysis.beat_marker_confidences[index]);
    let neighbors = (number(analysis.beat_marker_confidences[index - 1])
        + number(analysis.beat_marker_confidences[index + 1]))
        * 0.5;
    assert!(confidence < neighbors * 0.4, "{analysis:?}");
}

#[test]
fn high_band_only_falls_back_to_global_beat_grid() {
    let sample_rate = 16_000;
    let mut samples = vec![0.0; sample_rate as usize * 14];
    for beat in 0..24 {
        add_burst(
            &mut samples,
            sample_rate,
            1.0 + beat as f32 * 0.5,
            3_200.0,
            0.015,
            0.8,
        );
    }

    let analysis = analyze_mono_pcm(&samples, sample_rate).unwrap();
    assert!((number(analysis.bpm.unwrap()) - 120.0).abs() < 1.0, "{analysis:?}");
    assert!(
        analysis
            .beat_marker_confidences
            .iter()
            .all(|value| number(*value) < 0.2)
    );
}

#[test]
fn detects_quiet_intro_body_and_quiet_outro() {
    let sample_rate = 1_000;
    let mut samples = vec![0.0; sample_rate as usize * 54];
    fill_carrier(&mut samples, sample_rate, 1.0, 9.0, 0.08);
    fill_carrier(&mut samples, sample_rate, 9.0, 41.0, 0.6);
    fill_carrier(&mut samples, sample_rate, 41.0, 53.0, 0.08);

    let analysis = analyze_mono_pcm(&samples, sample_rate).unwrap();

    assert!(
        analysis.intro_end.unwrap().abs_diff(Duration::from_secs(9)).within(Duration::from_secs(1)),
        "{analysis:?}"
    );
    assert!(number(analysis.intro_confidence) >= 0.65, "{analysis:?}");
    assert!(
        analysis
            .outro_start
            .unwrap()
            .abs_diff(Duration::from_secs(41)).within(Duration::from_secs(1)),
        "{analysis:?}"
    );
    assert!(number(analysis.outro_confidence) >= 0.65, "{analysis:?}");
}

#[test]
fn flat_track_does_not_invent_structure() {
    let sample_rate = 1_000;
    let mut samples = vec![0.0; sample_rate as usize * 50];
    fill_carrier(&mut samples, sample_rate, 1.0, 49.0, 0.4);

    let analysis = analyze_mono_pcm(&samples, sample_rate).unwrap();

    assert_eq!(analysis.intro_end, None, "{analysis:?}");
    assert_eq!(analysis.outro_start, None, "{analysis:?}");
}

#[test]
fn trailing_silence_is_not_mistaken_for_an_outro() {
    let sample_rate = 1_000;
    let mut samples = vec![0.0; sample_rate as usize * 57];
    fill_carrier(&mut samples, sample_rate, 1.0, 49.0, 0.5);

    let analysis = analyze_mono_pcm(&samples, sample_rate).unwrap();

    assert!(analysis.audible_end.abs_diff(Duration::from_secs(49)).shorter(Duration::from_millis(5)));
    assert_eq!(analysis.outro_start, None, "{analysis:?}");
}

const MIN_PHASE_MARKER_CONFIDENCE_FOR_TEST: f32 = 0.35;

fn add_burst(
    samples: &mut [f32],
    sample_rate: u32,
    start_seconds: f32,
    frequency: f32,
    duration_seconds: f32,
    gain: f32,
) {
    let start = (start_seconds * sample_rate as f32).round() as usize;
    let length = (duration_seconds * sample_rate as f32).round() as usize;
    for offset in 0..length.min(samples.len().saturating_sub(start)) {
        let time = offset as f32 / sample_rate as f32;
        let envelope = 1.0 - offset as f32 / length.max(1) as f32;
        samples[start + offset] +=
            gain * (std::f32::consts::TAU * frequency * time).sin() * envelope;
    }
}

fn fill_carrier(
    samples: &mut [f32],
    sample_rate: u32,
    start_seconds: f32,
    end_seconds: f32,
    gain: f32,
) {
    let start = (start_seconds * sample_rate as f32) as usize;
    let end = ((end_seconds * sample_rate as f32) as usize).min(samples.len());
    for (index, sample) in samples[start..end].iter_mut().enumerate() {
        *sample = if (index / 5).is_multiple_of(2) {
            gain
        } else {
            -gain
        };
    }
}

#[test]
fn boundaries_and_accents_are_counted() {
    let found = |confidence: f32, recovery: usize| BoundaryEvidence {
        weak_ratio: bits(0.8),
        immediate_weak: bits(0.8),
        core_ratio: bits(0.8),
        longest_recovery: recovery,
        confidence: bits(confidence),
    };
    let evidence = vec![found(0.2, 0), found(0.8, 9), found(0.9, 1)];
    assert_eq!(first_boundary(&evidence, 10, usize::MAX), Some((11, bits(0.8))));
    assert_eq!(first_boundary(&evidence, 10, 8), Some((12, bits(0.9))));
    assert_eq!(first_boundary(&evidence, 10, 1), None);

    let values = [0.1, 0.5, f32::NAN, 0.3].map(bits).to_vec();
    assert_eq!(count_weak(&values, bits(0.3)), 2);
    assert_eq!(count_strong(&values, bits(0.3)), 2);

    let onsets = [0.1, 0.9, 0.2, 0.0, 0.3, 0.4, 0.0].map(bits).to_vec();
    assert_eq!(beat_accents(&onsets, 0, 3), [0.9, 0.3, 0.4].map(bits).to_vec());
    assert_eq!(beat_accents(&onsets, 5, usize::MAX), vec![bits(0.4)]);
    assert!(beat_accents(&onsets, 7, 1).is_empty());
    assert!(beat_accents(&onsets, 0, 0).is_empty());
}
