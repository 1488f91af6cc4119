//! Tests of the measurements on rendered overlaps: the signal processing stands
//! here, the decisions are those of the library.

use ebur128::{EbuR128, Mode};
use wotoha::corpus::acquisition::sha256_hex;
use wotoha::corpus::gate::{
    apply_pcm_thresholds, KickPhaseReport, PcmReport, RmsReport, Thresholds,
};
use wotoha::corpus::measure::{
    error_percentile, keep_strongest, kick_phase_report, kick_shortfall, match_beats,
    maximum_peaks, pick_peaks, quietest_window, rms_report, GridPeak, KickFinding, KickOutcome,
    KickPeak,
};
use wotoha::corpus::wav::{
    count_and_longest_run, decode_pcm16_wav, frames_for_ms, silence_report, window_starts, SilenceReport, WavPcm,
    RMS_HOP_MS, RMS_WINDOW_MS, SILENCE_HOP_MS,
};
use wotoha::ordering::{at_rank, last_greatest};

fn bits(value: f32) -> u32 {
    value.to_bits()
}

fn number(bits: u32) -> f32 {
    f32::from_bits(bits)
}

/// A filter that lets 40 to 180 Hz through, used before downsampling.
struct LowBandFilter {
    high_pass_alpha: f32,
    low_pass_alpha: f32,
    previous_input: f32,
    previous_high_pass_1: f32,
    high_pass_1: f32,
    high_pass_2: f32,
    low_pass_1: f32,
    low_pass_2: f32,
}

impl LowBandFilter {
    /// Floating point: a filter for a sample rate.
    fn new(sample_rate: u32) -> Option<Self> {
        if sample_rate == 0 {
            return None;
        }
        let rate = sample_rate as f32;
        Some(Self {
            high_pass_alpha: (-std::f32::consts::TAU * 40.0 / rate).exp(),
            low_pass_alpha: (-std::f32::consts::TAU * 180.0 / rate).exp(),
            previous_input: 0.0,
            previous_high_pass_1: 0.0,
            high_pass_1: 0.0,
            high_pass_2: 0.0,
            low_pass_1: 0.0,
            low_pass_2: 0.0,
        })
    }

    /// Floating point: the next sample of the low band.
    fn process(&mut self, sample: f32) -> f32 {
        self.high_pass_1 = self.high_pass_alpha * (self.high_pass_1 + sample - self.previous_input);
        self.previous_input = sample;
        self.high_pass_2 = self.high_pass_alpha
            * (self.high_pass_2 + self.high_pass_1 - self.previous_high_pass_1);
        self.previous_high_pass_1 = self.high_pass_1;
        self.low_pass_1 =
            (1.0 - self.low_pass_alpha) * self.high_pass_2 + self.low_pass_alpha * self.low_pass_1;
        self.low_pass_2 =
            (1.0 - self.low_pass_alpha) * self.low_pass_1 + self.low_pass_alpha * self.low_pass_2;
        self.low_pass_2
    }
}

/// A recording as numbers between minus one and one.
struct FloatPcm {
    sample_rate: u32,
    channels: u16,
    samples: Vec<f32>,
}

impl FloatPcm {
    /// Floating point: a decoded recording as numbers.
    fn new(pcm: &WavPcm) -> Self {
        Self {
            sample_rate: pcm.sample_rate,
            channels: pcm.channels,
            samples: pcm
                .samples
                .iter()
                .map(|sample| f32::from(*sample) / 32768.0)
                .collect(),
        }
    }

    fn frames(&self) -> usize {
        self.samples.len() / usize::from(self.channels)
    }

    /// Floating point: the level of some frames.
    fn rms(&self, first: usize, end: usize) -> f32 {
        let channels = usize::from(self.channels);
        let samples = &self.samples[first * channels..end * channels];
        (samples
            .iter()
            .map(|sample| f64::from(*sample) * f64::from(*sample))
            .sum::<f64>()
            / samples.len() as f64)
            .sqrt() as f32
    }

    /// Floating point: how long the recording lasts, in seconds.
    fn seconds(&self) -> f32 {
        self.frames() as f32 / self.sample_rate as f32
    }
}

/// Floating point: an amplitude in decibels.
fn amplitude_dbfs(amplitude: f32) -> f32 {
    if amplitude <= f32::EPSILON {
        -120.0
    } else {
        20.0 * amplitude.log10()
    }
}

/// Floating point: the highest peak between the samples.
fn true_peak(pcm: &FloatPcm) -> Result<f32, String> {
    let message = |error: ebur128::Error| error.to_string();
    let mut analyzer = EbuR128::new(u32::from(pcm.channels), pcm.sample_rate, Mode::TRUE_PEAK)
        .map_err(message)?;
    analyzer.add_frames_f32(&pcm.samples).map_err(message)?;
    let mut peak = 0.0_f64;
    for channel in 0..u32::from(pcm.channels) {
        peak = peak.max(analyzer.true_peak(channel).map_err(message)?);
    }
    Ok(peak as f32)
}

/// Measures a rendered overlap. Without an expected number of beats the coverage of
/// the kicks fails.
fn measure_wav_with_overlap(
    wav: &[u8],
    expected_bpm: Option<f32>,
    expected_beats: Option<usize>,
    thresholds: &Thresholds,
) -> Result<PcmReport, String> {
    let decoded = decode_pcm16_wav(wav).map_err(|error| error.message().to_owned())?;
    let pcm = FloatPcm::new(&decoded);
    let sample_peak = pcm
        .samples
        .iter()
        .fold(0.0_f32, |peak, sample| peak.max(sample.abs()));
    Ok(PcmReport {
        wav_sha256: sha256_hex(wav),
        sample_rate: pcm.sample_rate,
        channels: pcm.channels,
        duration_ms: (pcm.frames() as f64 / f64::from(pcm.sample_rate) * 1000.0).to_bits(),
        sample_peak_dbfs: bits(amplitude_dbfs(sample_peak)),
        true_peak_dbtp: bits(amplitude_dbfs(true_peak(&pcm)?)),
        rms_500ms: measure_rms(&pcm, thresholds.minimum_rms_gap_ratio)?,
        silence: measure_silence(
            &pcm,
            thresholds.silence_window_ms,
            thresholds.silence_threshold_dbfs,
        )?,
        kick_phase: expected_bpm
            .and_then(|bpm| measure_kick_phase(&pcm, bpm, expected_beats.unwrap_or(0))),
    })
}

/// Floating point: how even the loudness of a recording is.
fn measure_rms(pcm: &FloatPcm, threshold_ratio: u32) -> Result<RmsReport, String> {
    let window = frames_for_ms(pcm.sample_rate, RMS_WINDOW_MS).max(1);
    let hop = frames_for_ms(pcm.sample_rate, RMS_HOP_MS).max(1);
    if pcm.frames() < window {
        return Err("preview is shorter than the RMS window".to_owned());
    }
    let values = window_starts(pcm.frames(), window, hop)
        .into_iter()
        .map(|start| pcm.rms(start, start + window))
        .collect::<Vec<_>>();
    let (Some(first), Some(last)) = (values.first(), values.last()) else {
        return Err("no RMS windows were measured".to_owned());
    };
    let edge = ((first.powi(2) + last.powi(2)) * 0.5).sqrt();
    let levels = values.iter().map(|value| bits(*value)).collect();
    let quietest = number(quietest_window(&levels));
    let ratios = values
        .iter()
        .map(|value| bits(*value / edge.max(f32::EPSILON)))
        .collect();
    rms_report(
        &ratios,
        threshold_ratio,
        bits(amplitude_dbfs(quietest)),
        bits(amplitude_dbfs(edge)),
        bits(quietest / edge.max(f32::EPSILON)),
    )
    .ok_or_else(|| "no RMS windows were measured".to_owned())
}

/// Floating point: the silences of a recording.
fn measure_silence(
    pcm: &FloatPcm,
    window_ms: u32,
    threshold_dbfs: u32,
) -> Result<SilenceReport, String> {
    let window = frames_for_ms(pcm.sample_rate, window_ms).max(1);
    let hop = frames_for_ms(pcm.sample_rate, SILENCE_HOP_MS).max(1);
    if pcm.frames() < window {
        return Err("preview is shorter than the silence window".to_owned());
    }
    let threshold = 10.0_f32.powf(number(threshold_dbfs) / 20.0);
    let silent = window_starts(pcm.frames(), window, hop)
        .into_iter()
        .map(|start| pcm.rms(start, start + window) < threshold)
        .collect::<Vec<_>>();
    let (_, longest) = count_and_longest_run(&silent);
    assert!(
        u64::from(window_ms) + longest.saturating_sub(1) as u64 * u64::from(SILENCE_HOP_MS)
            <= u64::from(u32::MAX),
        "attempt to add with overflow"
    );
    Ok(silence_report(&silent, window_ms, threshold_dbfs))
}

/// Floating point: how well the kicks of a recording keep their phase.
fn measure_kick_phase(pcm: &FloatPcm, bpm: f32, expected_beats: usize) -> Option<KickPhaseReport> {
    if !bpm.is_finite() || bpm <= 0.0 {
        return None;
    }
    let outcome = find_kicks(pcm, 60.0 / bpm, expected_beats)?;
    Some(kick_phase_report(bits(bpm), expected_beats, outcome))
}

/// Floating point: the level of the low band in blocks of five milliseconds.
fn low_band_levels(pcm: &FloatPcm, block_frames: usize) -> Option<Vec<f32>> {
    let mut filter = LowBandFilter::new(pcm.sample_rate)?;
    let channels = usize::from(pcm.channels);
    let low = pcm
        .samples
        .chunks_exact(channels)
        .map(|frame| filter.process(frame.iter().sum::<f32>() / channels as f32))
        .collect::<Vec<_>>();
    Some(
        low.chunks(block_frames)
            .map(|block| {
                let power = block
                    .iter()
                    .map(|value| f64::from(*value) * f64::from(*value))
                    .sum::<f64>();
                (power / block.len() as f64).sqrt() as f32
            })
            .collect(),
    )
}

/// Floating point: the onsets of the low band that stand out, at most so many as
/// the expected beats allow.
fn kick_peaks(onsets: &[f32], maximum: f32, block_seconds: f32) -> Vec<KickPeak> {
    let levels = onsets
        .iter()
        .map(|value| bits(*value))
        .collect::<Vec<_>>();
    let median = number(at_rank(&levels, levels.len() / 2));
    let deviations = onsets
        .iter()
        .map(|value| bits((*value - median).abs()))
        .collect::<Vec<_>>();
    let mad = number(at_rank(&deviations, deviations.len() / 2));
    let threshold = (median + 4.0 * mad).max(maximum * 0.035);
    let minimum_blocks = (0.060 / block_seconds).ceil() as usize;
    let places = (0..onsets.len())
        .map(|index| (index as f32 * block_seconds / block_seconds).round() as usize)
        .collect();
    pick_peaks(&levels, &places, bits(threshold), minimum_blocks)
}

/// Floating point: the kicks of a recording, held against the grid of its tempo.
fn find_kicks(pcm: &FloatPcm, interval: f32, expected_beats: usize) -> Option<KickOutcome> {
    let block_frames = frames_for_ms(pcm.sample_rate, 5).max(1);
    let energies = low_band_levels(pcm, block_frames)?;
    let mut onsets = vec![0.0_f32];
    onsets.extend(energies.windows(2).map(|pair| (pair[1] - pair[0]).max(0.0)));
    let maximum = onsets.iter().copied().fold(0.0_f32, f32::max);
    let blocks = energies.len();
    let found = KickFinding::Onsets { blocks, maximum: bits(maximum) };
    let end = kick_shortfall(found);
    if end.is_some() {
        return end;
    }
    let block_seconds = block_frames as f32 / pcm.sample_rate as f32;
    let peaks = kick_peaks(&onsets, maximum, block_seconds);
    let end = kick_shortfall(KickFinding::Peaks(peaks.len()));
    if end.is_some() {
        return end;
    }
    let duration = pcm.seconds();
    let peaks = keep_strongest(&peaks, maximum_peaks((duration / interval).ceil() as usize));
    let peaks = peaks
        .iter()
        .map(|peak| (peak.index as f32 * block_seconds, number(peak.strength)))
        .collect::<Vec<_>>();
    let anchor_end = (interval * 4.0).min(duration * 0.4).max(interval * 2.0);
    let anchors = peaks
        .iter()
        .copied()
        .filter(|peak| peak.0 <= anchor_end)
        .collect::<Vec<_>>();
    let found = KickFinding::Anchors { peaks: peaks.len(), anchors: anchors.len() };
    let end = kick_shortfall(found);
    if end.is_some() {
        return end;
    }
    let phases = anchors
        .iter()
        .map(|candidate| candidate.0.rem_euclid(interval))
        .collect::<Vec<_>>();
    let scores = phases
        .iter()
        .map(|phase| bits(phase_score(*phase, &anchors, interval)))
        .collect();
    let phase = phases[last_greatest(&scores)?];
    let first = ((0.0 - phase) / interval).ceil() as i32;
    let last = ((duration - phase) / interval).floor() as i32;
    let found = KickFinding::Grid { peaks: peaks.len(), first, last };
    let end = kick_shortfall(found);
    if end.is_some() {
        return end;
    }
    let on_grid = peaks
        .iter()
        .map(|peak| {
            let grid_index = ((peak.0 - phase) / interval).round() as i32;
            GridPeak {
                grid_index,
                error: bits((peak.0 - (phase + grid_index as f32 * interval)).abs()),
                limit: bits(interval * 0.45),
                strength: bits(peak.1),
            }
        })
        .collect();
    let matched = match_beats(&on_grid, first, last);
    let end = kick_shortfall(KickFinding::Matches(matched.len()));
    if end.is_some() {
        return end;
    }
    let errors = matched
        .iter()
        .map(|beat| bits(number(beat.error) * 1000.0))
        .collect::<Vec<_>>();
    let rank = ((errors.len() as f32 * 0.95).ceil() as usize)
        .saturating_sub(1)
        .min(errors.len() - 1);
    let (p95_ms, max_ms) = error_percentile(&errors, rank);
    Some(KickOutcome::Measured {
        candidate_onsets: peaks.len(),
        matched: matched.len(),
        beat_coverage: bits(matched.len().min(expected_beats) as f32 / expected_beats as f32),
        p95_ms,
        max_ms,
        handoff_ms: *errors.last()?,
    })
}

/// Floating point: how well a phase explains the peaks.
fn phase_score(phase: f32, peaks: &[(f32, f32)], interval: f32) -> f32 {
    peaks
        .iter()
        .map(|peak| {
            let difference = (peak.0 - phase).rem_euclid(interval);
            let error = difference.min(interval - difference);
            peak.1 * (-0.5 * (error / 0.025).powi(2)).exp()
        })
        .sum()
}

fn test_thresholds() -> Thresholds {
    Thresholds {
        min_kick_coverage: bits(0.65),
        min_matched_kicks: 8,
        kick_phase_p95_ms: bits(25.0),
        kick_phase_max_ms: bits(35.0),
        kick_handoff_ms: bits(25.0),
        minimum_rms_gap_ratio: bits(0.35),
        silence_window_ms: 250,
        silence_threshold_dbfs: bits(-45.0),
        maximum_sample_peak_dbfs: bits(-1.0),
        maximum_true_peak_dbtp: bits(-1.0),
    }
}

/// Measures kicks against as many beats as a recording has room for.
fn measure_kicks(pcm: &FloatPcm, bpm: f32) -> Option<KickPhaseReport> {
    let expected_beats = (pcm.seconds() / (60.0 / bpm)).ceil() as usize;
    measure_kick_phase(pcm, bpm, expected_beats)
}

#[test]
fn aligned_generated_kicks_have_tight_phase() {
    let pcm = generated_kicks(48_000, 8.0, 120.0, &[0.1]);
    let report = measure_kicks(&pcm, 120.0).expect("kick phase should be measurable");
    assert!(number(report.p95_ms) <= 10.0, "{report:?}");
    assert!(number(report.max_ms) <= 15.0, "{report:?}");
    assert!(number(report.handoff_ms) <= 10.0, "{report:?}");
}

#[test]
fn generated_phase_change_exposes_kick_offset() {
    let mut pcm = generated_kicks(48_000, 8.0, 120.0, &[0.1]);
    let shifted = generated_kicks(48_000, 8.0, 120.0, &[0.18]);
    let midpoint = pcm.samples.len() / 2;
    pcm.samples[midpoint..].copy_from_slice(&shifted.samples[midpoint..]);
    let report = measure_kicks(&pcm, 120.0).expect("kick phase should be measurable");
    assert!(number(report.p95_ms) >= 60.0, "{report:?}");
    assert!(number(report.max_ms) >= 60.0, "{report:?}");
    assert!(number(report.handoff_ms) >= 60.0, "{report:?}");
}

#[test]
fn generated_long_overlap_with_only_three_kicks_fails_count_and_coverage() {
    let mut pcm = generated_kicks(48_000, 12.0, 120.0, &[0.1]);
    let first_unverified_frame = (1.6 * pcm.sample_rate as f32) as usize;
    pcm.samples[first_unverified_frame..].fill(0.0);
    let kick = measure_kicks(&pcm, 120.0).expect("kick phase should be measurable");
    assert!(kick.matched_beats <= 3, "{kick:?}");
    let mut pcm_report = pcm_report_with_kick(kick);
    let mut failures = Vec::new();
    apply_pcm_thresholds(&mut pcm_report, &test_thresholds(), &mut failures);
    assert!(
        failures.contains(&"kick_matched_beats".to_owned()),
        "{failures:?}"
    );
    assert!(
        failures.contains(&"kick_coverage".to_owned()),
        "{failures:?}"
    );
}

#[test]
fn generated_overlap_with_eight_good_kicks_passes_count_and_coverage() {
    let pcm = generated_kicks(48_000, 8.0, 120.0, &[0.1]);
    let kick = measure_kicks(&pcm, 120.0).expect("kick phase should be measurable");
    assert!(kick.matched_beats >= 8, "{kick:?}");
    assert!(number(kick.beat_coverage) >= 0.65, "{kick:?}");
    let mut pcm_report = pcm_report_with_kick(kick);
    let mut failures = Vec::new();
    apply_pcm_thresholds(&mut pcm_report, &test_thresholds(), &mut failures);
    assert!(
        !failures.contains(&"kick_matched_beats".to_owned()),
        "{failures:?}"
    );
    assert!(
        !failures.contains(&"kick_coverage".to_owned()),
        "{failures:?}"
    );
}

#[test]
fn missing_overlap_grid_fails_closed_instead_of_dividing_by_zero() {
    let pcm = generated_kicks(48_000, 8.0, 120.0, &[0.1]);
    let wav = encode_pcm16_wav(pcm.sample_rate, pcm.channels, &pcm.samples);
    let report = measure_wav_with_overlap(&wav, Some(120.0), None, &test_thresholds()).unwrap();
    let kick = report
        .kick_phase
        .as_ref()
        .expect("valid BPM should produce a report");
    assert_eq!(kick.expected_beats, 0);
    assert_eq!(number(kick.beat_coverage), 0.0);
    assert!(
        kick.issues
            .contains(&"kick_expected_beats_unavailable".to_owned())
    );
    let mut failures = Vec::new();
    let mut report = report;
    apply_pcm_thresholds(&mut report, &test_thresholds(), &mut failures);
    assert!(
        failures.contains(&"kick_expected_beats_unavailable".to_owned()),
        "{failures:?}"
    );
    assert!(
        failures.contains(&"kick_coverage".to_owned()),
        "{failures:?}"
    );
}

#[test]
fn pcm_remeasurement_detects_a_quiet_gap() {
    let sample_rate = 48_000;
    let mut samples = vec![0.12_f32; sample_rate as usize * 3 * 2];
    for frame in sample_rate as usize..sample_rate as usize + 36_000 {
        samples[frame * 2] = 0.0;
        samples[frame * 2 + 1] = 0.0;
    }
    let wav = encode_pcm16_wav(sample_rate, 2, &samples);
    let report = measure_wav_with_overlap(&wav, None, None, &test_thresholds()).unwrap();
    assert!(number(report.rms_500ms.quietest_to_edge_ratio) < 0.35);
    assert!(report.silence.windows_detected > 0);
    assert!(report.silence.longest_run_ms >= 250);
}

fn generated_kicks(sample_rate: u32, seconds: f32, bpm: f32, phases: &[f32]) -> FloatPcm {
    let frames = (sample_rate as f32 * seconds) as usize;
    let mut samples = vec![0.0_f32; frames];
    let interval = 60.0 / bpm;
    for phase in phases {
        let mut position = *phase;
        while position < seconds {
            let start = (position * sample_rate as f32) as usize;
            let length = (sample_rate as f32 * 0.09) as usize;
            for offset in 0..length.min(frames.saturating_sub(start)) {
                let time = offset as f32 / sample_rate as f32;
                samples[start + offset] +=
                    0.35 * (-time * 35.0).exp() * (std::f32::consts::TAU * 85.0 * time).sin();
            }
            position += interval;
        }
    }
    FloatPcm {
        sample_rate,
        channels: 1,
        samples,
    }
}

fn pcm_report_with_kick(kick_phase: KickPhaseReport) -> PcmReport {
    PcmReport {
        wav_sha256: String::new(),
        sample_rate: 48_000,
        channels: 1,
        duration_ms: 8_000.0_f64.to_bits(),
        sample_peak_dbfs: bits(-10.0),
        true_peak_dbtp: bits(-10.0),
        kick_phase: Some(kick_phase),
        rms_500ms: RmsReport {
            window_ms: 500,
            hop_ms: 250,
            windows: 1,
            quietest_dbfs: bits(-10.0),
            edge_reference_dbfs: bits(-10.0),
            quietest_to_edge_ratio: bits(1.0),
            consecutive_below_ratio_windows: 0,
        },
        silence: SilenceReport {
            window_ms: 250,
            threshold_dbfs: bits(-45.0),
            windows_detected: 0,
            longest_run_ms: 0,
        },
    }
}

fn encode_pcm16_wav(sample_rate: u32, channels: u16, samples: &[f32]) -> Vec<u8> {
    let data_bytes = samples.len() as u32 * 2;
    let mut wav = Vec::with_capacity(data_bytes as usize + 44);
    wav.extend_from_slice(b"RIFF");
    wav.extend_from_slice(&(36 + data_bytes).to_le_bytes());
    wav.extend_from_slice(b"WAVEfmt ");
    wav.extend_from_slice(&16_u32.to_le_bytes());
    wav.extend_from_slice(&1_u16.to_le_bytes());
    wav.extend_from_slice(&channels.to_le_bytes());
    wav.extend_from_slice(&sample_rate.to_le_bytes());
    wav.extend_from_slice(&(sample_rate * u32::from(channels) * 2).to_le_bytes());
    wav.extend_from_slice(&(channels * 2).to_le_bytes());
    wav.extend_from_slice(&16_u16.to_le_bytes());
    wav.extend_from_slice(b"data");
    wav.extend_from_slice(&data_bytes.to_le_bytes());
    for sample in samples {
        let value = (sample.clamp(-1.0, 1.0) * f32::from(i16::MAX)).round() as i16;
        wav.extend_from_slice(&value.to_le_bytes());
    }
    wav
}
