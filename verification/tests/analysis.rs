use wotoha::analysis::{
    adapt_periodic_phrase_prior, bound_cue_candidates, bound_cue_candidates_with_limit,
    dj_cue_from_human_cue, generate_heuristic_cues, is_periodic_prior_only, merge_cue_candidates,
    periodic_phrase_prior, periodic_phrase_prior_with_lengths, phrase_mismatch_is_hard_block,
    phrase_mismatch_requires_observed_evidence, top_mix_in_cues, top_mix_out_cues, AnalysisMethod,
    AnalysisProvenance, BeatEvent, ComponentProvenance, Confidence, CueGenerationInput,
    CueProvenance, CueRole, CueValidationError, DjCue, EnergyAnalysis, HumanCue, HumanCueKind,
    HumanCueSource, KeyMode, LocalTonalWindow, MeterHypothesis, ModelIdentity, ModelScore,
    MusicalKey, PeriodicPriorCue, PhraseBoundary, PhraseBoundarySource, RhythmAnalysis, Section,
    SectionLabel, StructureAnalysis, StructureValidationError, Support, TempoHypothesis,
    TempoRelation, TonalAnalysis, TrackAnalysisV2, UnitInterval, VocalAnalysis,
    MAX_CUE_CANDIDATES, MAX_ROLE_CUES, MAX_TEMPO_BPM, MIN_TEMPO_BPM,
};
use wotoha::frames::frame_at;
use wotoha::time::Duration;

fn bits(value: f32) -> u32 {
    value.to_bits()
}

fn unit(value: f32) -> UnitInterval {
    UnitInterval::clamped(bits(value))
}

fn beat(time: u64) -> BeatEvent {
    BeatEvent::at(Duration::from_millis(time), Confidence::one())
}

/// Floating point: the vocal risk at a position; what is not sure counts as likely.
fn risk_at(vocal: &VocalAnalysis, position: Duration) -> Option<UnitInterval> {
    let (risk, confidence) = vocal.risk_at(position)?;
    let confidence = f32::from_bits(confidence.get());
    let risk = confidence * f32::from_bits(risk.get()) + (1.0 - confidence) * 0.65;
    Some(UnitInterval::clamped(bits(risk)))
}

/// Floating point: the level at a position, as far as it is sure.
fn level_at(energy: &EnergyAnalysis, position: Duration) -> Option<UnitInterval> {
    let (level, confidence) = energy.level_at(position)?;
    Some(UnitInterval::clamped(bits(
        f32::from_bits(level.get()) * f32::from_bits(confidence.get()),
    )))
}

/// Floating point: a span in seconds.
fn seconds(span: Duration) -> f64 {
    std::time::Duration::new(
        (span.nanos / 1_000_000_000) as u64,
        (span.nanos % 1_000_000_000) as u32,
    )
    .as_secs_f64()
}

/// Floating point: the tempo of a beat clock, from the intervals that agree.
fn robust_tempo(beats: &[BeatEvent]) -> Option<f32> {
    let intervals = beats
        .windows(2)
        .map(|pair| seconds(pair[1].time) - seconds(pair[0].time))
        .filter(|interval| interval.is_finite() && *interval > 0.0)
        .collect::<Vec<_>>();
    let center = median(&intervals)?;
    let deviations = intervals
        .iter()
        .map(|interval| (interval - center).abs())
        .collect::<Vec<_>>();
    let mad = median(&deviations)?;
    let tolerance = if mad <= f64::EPSILON {
        center * 0.08
    } else {
        (3.0 * mad).max(center * 0.02)
    };
    let inliers = intervals
        .iter()
        .copied()
        .filter(|interval| (interval - center).abs() <= tolerance)
        .collect::<Vec<_>>();
    if inliers.len() * 2 < intervals.len() {
        return None;
    }
    let bpm = (60.0 / median(&inliers)?) as f32;
    (bpm.is_finite()
        && (f32::from_bits(MIN_TEMPO_BPM)..=f32::from_bits(MAX_TEMPO_BPM)).contains(&bpm))
    .then_some(bpm)
}

/// Floating point: the median of some values.
fn median(values: &[f64]) -> Option<f64> {
    if values.is_empty() {
        return None;
    }
    let mut sorted = values.to_vec();
    sorted.sort_by(f64::total_cmp);
    let middle = sorted.len() / 2;
    Some(if sorted.len() % 2 == 0 {
        (sorted[middle - 1] + sorted[middle]) / 2.0
    } else {
        sorted[middle]
    })
}

/// The analysis of a beat clock with the tempo that is estimated from it.
fn from_beats(beats: Vec<BeatEvent>) -> RhythmAnalysis {
    let estimated = robust_tempo(&beats).map(bits);
    RhythmAnalysis::from_beats(beats, estimated).unwrap()
}

/// The tempo around a beat.
fn local_tempo_at_index(analysis: &RhythmAnalysis, index: usize) -> Option<f32> {
    let (from, to) = analysis.local_tempo_window(index)?;
    let window = robust_tempo(&analysis.beats[from..to]).map(bits);
    let estimated = robust_tempo(&analysis.beats).map(bits);
    analysis
        .local_tempo_at_index(index, window, estimated)
        .map(f32::from_bits)
}

#[test]
fn generated_cues_are_deduplicated_bounded_and_in_range() {
    let structure = StructureAnalysis::new(
        vec![Section::new(0, 4, bits(0.8), vec![SectionLabel::Intro])],
        vec![PhraseBoundary::periodic_prior(0, unit(0.25))],
    );
    let input = CueGenerationInput::new(4, 0, 4)
        .with_intro_end(Some(2))
        .with_structure(&structure);
    let cues = generate_heuristic_cues(&input);
    assert!(cues.len() <= MAX_CUE_CANDIDATES);
    assert!(cues.iter().all(|cue| cue.beat_index < 4));
    assert!(cues.iter().enumerate().all(|(index, cue)| {
        cues[..index]
            .iter()
            .all(|previous| previous.beat_index != cue.beat_index)
    }));
}

#[test]
fn human_cue_roundtrip_uses_nearest_beat_and_source() {
    let beat_times = [Duration::from_secs(1), Duration::from_secs(2)];
    let human = HumanCue::new(
        Duration::from_millis(1_950),
        HumanCueSource::RekordboxHotCue,
        HumanCueKind::MixIn,
    );
    let dj = human.to_dj_cue(&beat_times).expect("beat grid");
    assert_eq!(dj.beat_index, 1);
    let roundtrip = HumanCue::from_dj_cue(&dj, &beat_times).expect("source time");
    assert_eq!(
        roundtrip,
        HumanCue::new(
            Duration::from_secs(2),
            HumanCueSource::RekordboxHotCue,
            HumanCueKind::MixIn,
        )
    );
}

#[test]
fn human_cue_sources_keep_primary_and_legacy_names_distinct() {
    assert_eq!(
        HumanCueSource::RekordboxHotCue.as_str(),
        "rekordbox_hot_cue"
    );
    assert_eq!(HumanCueSource::HotCue.as_str(), "hot_cue");
    assert!(HumanCueSource::RekordboxHotCue.is_imported());
    assert!(HumanCueSource::HotCue.is_imported());
    assert!(!HumanCueSource::ManualWotoha.is_imported());
}

#[test]
fn invalid_indexes_are_dropped_and_role_limit_is_eight() {
    let mut candidates = Vec::new();
    for beat_index in 0..12 {
        let mut cue = DjCue::new(beat_index, unit(beat_index as f32 / 12.0));
        cue.mix_in = UnitInterval::one();
        candidates.push(cue);
    }
    candidates.push(DjCue::new(99, UnitInterval::one()));
    let bounded = bound_cue_candidates(candidates, 12);
    assert!(bounded.iter().all(|cue| cue.beat_index < 12));
    assert_eq!(top_mix_in_cues(&bounded).len(), MAX_ROLE_CUES);
}

#[test]
fn legacy_energy_profile_can_be_adapted() {
    let energy = EnergyAnalysis::from_quantized(&[0, 255], 4).unwrap();
    assert_eq!(
        level_at(&energy, Duration::from_millis(250)),
        Some(UnitInterval::one())
    );
    let energy = energy
        .with_loudness(
            Some(bits(-18.0)),
            Some(bits(-1.0)),
            Some(bits(-14.0)),
            Some(bits(-0.5)),
        )
        .unwrap();
    assert!(energy.validate());
}

#[test]
fn energy_mismatched_profile_indexes_are_rejected() {
    assert!(EnergyAnalysis::new(vec![UnitInterval::one()], Vec::new(), 4).is_none());
}

#[test]
fn non_finite_loudness_is_rejected() {
    let mut energy = EnergyAnalysis::from_quantized(&[128], 4).unwrap();
    energy.rms_dbfs = Some(bits(f32::NAN));
    assert!(!energy.validate());
}

#[test]
fn provenance_rejects_empty_identity_and_duplicate_components() {
    assert!(ModelIdentity::named(String::new()).is_none());
    let component =
        ComponentProvenance::new("rhythm".to_owned(), AnalysisMethod::Neural).unwrap();
    let mut provenance = AnalysisProvenance::new("test-analyzer".to_owned()).unwrap();
    provenance.components = vec![component.clone(), component];
    assert!(!provenance.validate());
}

#[test]
fn mixed_neural_and_classical_components_are_valid_provenance() {
    let mut rhythm =
        ComponentProvenance::new("rhythm".to_owned(), AnalysisMethod::Neural).unwrap();
    rhythm.model = ModelIdentity::new("beat-this".to_owned(), "1.0".to_owned());
    rhythm.confidence = Some(Confidence::new(bits(0.91)).unwrap());

    let mut loudness =
        ComponentProvenance::new("loudness".to_owned(), AnalysisMethod::Classical).unwrap();
    loudness.model = ModelIdentity::named("ebu-r128".to_owned());
    loudness.confidence = Some(Confidence::new(bits(0.99)).unwrap());

    let mut provenance = AnalysisProvenance::new("automix-v2".to_owned()).unwrap();
    provenance.schema_version = Some("2".to_owned());
    provenance.components = vec![rhythm, loudness];
    provenance.overall_confidence = Some(UnitInterval::new(bits(0.94)).unwrap());

    assert!(provenance.validate());
    assert!(matches!(
        provenance.components[0].method,
        AnalysisMethod::Neural
    ));
    assert!(matches!(
        provenance.components[1].method,
        AnalysisMethod::Classical
    ));
}

#[test]
fn rejects_non_monotonic_beat_clock_and_stores_no_bpm_on_events() {
    let beats = vec![beat(0), beat(500), beat(500)];
    assert!(RhythmAnalysis::new(beats, Vec::new(), Vec::new()).is_none());
    assert!(beat(0).beat_model_score.is_none());
}

#[test]
fn meter_requires_confidence_and_margin() {
    let weak = MeterHypothesis::new(4, 0, unit(0.7)).unwrap();
    let ambiguous = MeterHypothesis::new(3, 0, unit(0.64)).unwrap();
    let analysis = RhythmAnalysis::new(Vec::new(), Vec::new(), vec![weak, ambiguous]).unwrap();
    assert!(analysis.resolved_meter().is_none());
    let clear = MeterHypothesis::new(3, 0, unit(0.8)).unwrap();
    let analysis = RhythmAnalysis::new(
        Vec::new(),
        Vec::new(),
        vec![clear, MeterHypothesis::new(4, 0, unit(0.5)).unwrap()],
    )
    .unwrap();
    assert_eq!(analysis.resolved_meter(), Some(3));
}

#[test]
fn kick_score_support_and_timing_confidence_are_independent() {
    let event = BeatEvent::new(
        Duration::from_millis(500),
        Some(ModelScore::new(bits(0.15)).unwrap()),
        None,
        Confidence::new(bits(0.92)).unwrap(),
        Some(Support::new(bits(0.20)).unwrap()),
        Some(Support::new(bits(0.25)).unwrap()),
    );

    assert!(event.validate());
    assert_eq!(event.beat_model_score.unwrap().get(), bits(0.15));
    assert_eq!(event.onset_support.unwrap().get(), bits(0.20));
    assert_eq!(event.timing_confidence.get(), bits(0.92));
}

#[test]
fn tempo_domain_accepts_positive_finite_values() {
    for bpm in [
        0.001, 59.99, 60.0, 85.0, 120.0, 170.0, 220.0, 220.01, 10_000.0,
    ] {
        assert!(
            TempoHypothesis::new(bits(bpm), UnitInterval::one(), TempoRelation::Primary).is_some(),
            "{bpm} BPM should be a valid positive finite domain value"
        );
    }
    for bpm in [0.0, -0.001, f32::NAN, f32::INFINITY, f32::NEG_INFINITY] {
        assert!(
            TempoHypothesis::new(bits(bpm), UnitInterval::one(), TempoRelation::Primary).is_none(),
            "{bpm} BPM should be rejected"
        );
    }
}

#[test]
fn robust_tempo_ignores_one_interval_outlier() {
    let beats = [0, 500, 1_000, 1_500, 2_000, 3_250]
        .into_iter()
        .map(beat)
        .collect();
    let analysis = from_beats(beats);
    let primary = f32::from_bits(analysis.primary_tempo(None).unwrap());
    assert!((primary - 120.0).abs() < 0.1);
    assert!((local_tempo_at_index(&analysis, 2).unwrap() - 120.0).abs() < 0.1);
    assert!(local_tempo_at_index(&analysis, 99).is_none());
}

#[test]
fn robust_tempo_tolerates_small_clock_drift_without_regenerating_beats() {
    let beats = [750, 1_250, 1_752, 2_254, 2_756, 3_258]
        .into_iter()
        .map(beat)
        .collect::<Vec<_>>();
    let analysis = from_beats(beats.clone());

    let primary = f32::from_bits(analysis.primary_tempo(None).unwrap());
    assert!((primary - 119.5).abs() < 1.0);
    assert_eq!(analysis.beats, beats);
}

#[test]
fn missing_and_pickup_events_are_explicit_and_safe() {
    let missing = from_beats(Vec::new());
    assert_eq!(missing.primary_tempo(None), None);
    assert!(missing
        .beats_between(Duration::from_secs(2), Duration::from_secs(1))
        .is_empty());

    // A pickup is a real first event at a non-zero source time.  It must
    // remain the first event instead of being normalized to t=0.
    let pickup = from_beats([750, 1_250, 1_750, 2_250].into_iter().map(beat).collect());
    assert_eq!(
        pickup.beats.first().map(|event| event.time),
        Some(Duration::from_millis(750))
    );
    let tempo = f32::from_bits(pickup.primary_tempo(None).unwrap());
    assert!((tempo - 120.0).abs() < 0.1);
}

#[test]
fn malformed_rhythm_is_rejected_without_panicking() {
    let malformed_tempo = TempoHypothesis {
        bpm: bits(f32::NAN),
        relative_weight: UnitInterval::one(),
        relation: TempoRelation::Primary,
    };
    let result = RhythmAnalysis::new(
        vec![beat(1_000), beat(500)],
        vec![malformed_tempo],
        Vec::new(),
    );
    assert!(result.is_none());
    assert!(TempoHypothesis::new(
        bits(f32::INFINITY),
        UnitInterval::one(),
        TempoRelation::Primary
    )
    .is_none());
}

#[test]
fn resolved_meter_supports_4_4_and_3_4_but_rejects_ambiguous_candidates() {
    let beats = || (0..8).map(|index| beat(index * 500)).collect::<Vec<_>>();
    let four_four = RhythmAnalysis::new(
        beats(),
        Vec::new(),
        vec![MeterHypothesis::new(4, 0, unit(0.85)).unwrap()],
    )
    .unwrap();
    assert_eq!(four_four.resolved_meter(), Some(4));
    assert_eq!(
        four_four.bar_position(Duration::from_millis(2_000)),
        Some(0)
    );
    assert_eq!(four_four.bar_position_at_index(4), Some(0));
    assert_eq!(four_four.bar_position_at_index(99), None);

    let three_four = RhythmAnalysis::new(
        beats(),
        Vec::new(),
        vec![MeterHypothesis::new(3, 0, unit(0.85)).unwrap()],
    )
    .unwrap();
    assert_eq!(three_four.resolved_meter(), Some(3));

    let ambiguous = RhythmAnalysis::new(
        beats(),
        Vec::new(),
        vec![
            MeterHypothesis::new(4, 0, unit(0.71)).unwrap(),
            MeterHypothesis::new(3, 0, unit(0.70)).unwrap(),
        ],
    )
    .unwrap();
    assert_eq!(ambiguous.resolved_meter(), None);
}

#[test]
fn periodic_prior_keeps_source_distinct_from_detected() {
    let prior = periodic_phrase_prior(128, 0, 4);
    assert!(!prior.is_empty());
    assert!(prior
        .iter()
        .all(|boundary| boundary.source == PhraseBoundarySource::PeriodicPrior));
    assert!(!prior[0].is_real_detection());
    assert!(PhraseBoundary::detected(0, unit(0.8)).is_real_detection());
    assert!(!phrase_mismatch_is_hard_block(&prior));
}

#[test]
fn invalid_sections_and_indexes_are_rejected() {
    let invalid = Section::new(8, 8, bits(0.5), vec![SectionLabel::Verse]);
    assert_eq!(
        invalid.validate(),
        Err(StructureValidationError::InvalidSectionRange)
    );

    let analysis = StructureAnalysis::new(
        vec![Section::new(0, 10, bits(0.5), vec![SectionLabel::Verse])],
        vec![PhraseBoundary::detected(9, unit(0.5))],
    );
    assert!(matches!(
        analysis.validate_for_beat_count(9),
        Err(StructureValidationError::SectionOutOfBounds { .. })
    ));
}

#[test]
fn periodic_prior_mismatch_is_non_blocking_without_observed_evidence() {
    let prior = periodic_phrase_prior(64, 0, 4);
    assert!(!phrase_mismatch_requires_observed_evidence(16, 20, &prior));
    assert!(!phrase_mismatch_is_hard_block(&prior));

    let detected = vec![PhraseBoundary::detected(20, unit(0.8))];
    assert!(phrase_mismatch_requires_observed_evidence(
        16, 20, &detected
    ));
    assert!(phrase_mismatch_is_hard_block(&detected));
}

#[test]
fn global_key_is_reusable_and_bounded() {
    assert!(MusicalKey::new(12, KeyMode::Major, Confidence::one()).is_none());
    let key = MusicalKey::new(0, KeyMode::Major, Confidence::one()).unwrap();
    let tonal = TonalAnalysis::new(Some(key)).unwrap();
    assert_eq!(tonal.key(), Some(key));
}

#[test]
fn local_tonal_windows_are_ordered_and_reusable() {
    let key = MusicalKey::new(7, KeyMode::Minor, Confidence::one()).unwrap();
    let window = LocalTonalWindow::new(
        Duration::from_secs(1),
        Duration::from_secs(3),
        Some(key),
        Some(Confidence::clamped(bits(0.8))),
    )
    .unwrap();
    let mut tonal = TonalAnalysis::new(None).unwrap();
    tonal.local_windows.push(window);
    assert_eq!(tonal.local_key_at(Duration::from_secs(2)), Some(key));
    assert!(tonal.validate());
}

#[test]
fn audible_bounds_must_fit_duration() {
    let mut analysis = TrackAnalysisV2::unanalyzed(Duration::from_secs(10));
    assert!(analysis.validate());
    analysis.audible_end = Duration::from_secs(11);
    assert!(!analysis.validate());
    analysis.audible_end = Duration::from_secs(5);
    analysis.audible_start = Duration::from_secs(6);
    assert!(!analysis.validate());
}

#[test]
fn zero_duration_is_not_a_track_analysis() {
    assert!(!TrackAnalysisV2::unanalyzed(Duration::zero()).validate());
}

#[test]
fn nested_rhythm_structure_and_provenance_are_validated_together() {
    let mut analysis = TrackAnalysisV2::unanalyzed(Duration::from_secs(10));
    analysis.rhythm.beats = vec![
        BeatEvent::at(Duration::from_secs(1), Confidence::one()),
        BeatEvent::at(Duration::from_secs(1), Confidence::one()),
    ];
    assert!(
        !analysis.validate(),
        "duplicate beat events must fail V2 validation"
    );

    analysis.rhythm.beats = vec![
        BeatEvent::at(Duration::from_secs(1), Confidence::one()),
        BeatEvent::at(Duration::from_secs(2), Confidence::one()),
    ];
    analysis.structure = StructureAnalysis::new(
        vec![Section::new(0, 3, bits(0.8), vec![SectionLabel::Verse])],
        Vec::new(),
    );
    assert!(
        !analysis.validate(),
        "section indexes must fit the beat grid"
    );

    analysis.structure = StructureAnalysis::default();
    analysis.provenance.rhythm = Some(ComponentProvenance::default());
    assert!(
        !analysis.validate(),
        "named provenance slots must use their slot name"
    );
}

#[test]
fn rejects_non_finite_and_out_of_range_values() {
    for value in [f32::NAN, f32::INFINITY, f32::NEG_INFINITY, -0.01, 1.01] {
        assert!(UnitInterval::new(bits(value)).is_none());
        assert!(ModelScore::new(bits(value)).is_none());
        assert!(Confidence::new(bits(value)).is_none());
        assert!(Support::new(bits(value)).is_none());
    }
    assert_eq!(
        UnitInterval::new(bits(0.0)).unwrap(),
        UnitInterval::zero()
    );
    assert_eq!(ModelScore::new(bits(1.0)).unwrap(), ModelScore::one());
    assert_eq!(Confidence::new(bits(0.0)).unwrap(), Confidence::zero());
    assert_eq!(Support::new(bits(1.0)).unwrap(), Support::one());
    assert_eq!(UnitInterval::new(bits(0.25)).unwrap().get(), bits(0.25));
}

#[test]
fn clamp_is_explicit_and_non_finite_safe() {
    assert_eq!(Confidence::clamped(bits(-1.0)), Confidence::zero());
    assert_eq!(Confidence::clamped(bits(4.0)), Confidence::one());
    assert_eq!(Confidence::clamped(bits(f32::NAN)), Confidence::zero());
    assert_eq!(Support::clamp(bits(f32::INFINITY)), Support::one());
}

#[test]
fn legacy_quantized_profile_can_be_adapted() {
    let vocal = VocalAnalysis::from_quantized(&[0, 255], &[255, 128], 4).unwrap();
    assert!(vocal.validate());
    assert!(risk_at(&vocal, Duration::from_millis(250)).is_some());
}

#[test]
fn profiles_are_read_at_positions_of_the_clock() {
    let at = Duration::from_millis;
    let vocal = VocalAnalysis::from_quantized(&[0, 255], &[255, 128], 4).unwrap();
    assert_eq!(
        vocal.risk_at(at(0)),
        Some((UnitInterval::zero(), Confidence::one()))
    );
    assert_eq!(vocal.risk_at(at(249)), vocal.risk_at(at(0)));
    let (risk, confidence) = vocal.risk_at(at(250)).unwrap();
    assert_eq!(risk, UnitInterval::one());
    assert_eq!(confidence.get(), bits(128.0 / 255.0));
    assert_eq!(vocal.risk_at(at(499)), vocal.risk_at(at(250)));
    assert_eq!(vocal.risk_at(at(500)), None);
    assert_eq!(risk_at(&vocal, at(0)), Some(UnitInterval::zero()));
    let sure = 128.0_f32 / 255.0;
    assert_eq!(
        risk_at(&vocal, at(250)).unwrap().get(),
        bits(sure + (1.0 - sure) * 0.65)
    );
    assert_eq!(risk_at(&vocal, at(500)), None);

    let energy = EnergyAnalysis::new(
        vec![unit(0.5), unit(0.75)],
        vec![Confidence::one(), Confidence::clamped(bits(0.5))],
        4,
    )
    .unwrap();
    assert_eq!(level_at(&energy, at(0)), Some(unit(0.5)));
    assert_eq!(level_at(&energy, at(250)), Some(unit(0.375)));
    assert_eq!(level_at(&energy, at(500)), None);
    assert_eq!(energy.level_at(Duration::max_value()), None);
    let broken = EnergyAnalysis { rate_hz: 0, ..energy };
    assert_eq!(broken.level_at(at(0)), None);
}

/// Floating point: the frame of a position, by the double-precision product.
fn frame_by_product(position: Duration, rate_hz: u16) -> usize {
    (seconds(position) * f64::from(rate_hz)).floor() as usize
}

#[test]
fn frames_are_those_of_the_double_precision_product() {
    let at = Duration::from_millis;
    for (millis, frame) in [(0, 0), (250, 1), (500, 2), (999, 3), (1_000, 4)] {
        assert_eq!(frame_at(at(millis), 4), frame);
    }
    // 0.29 is held by a number below it, and so is a hundred times as much.
    assert_eq!(frame_at(at(290), 100), 28);
    assert_eq!(frame_at(at(291), 100), 29);
    assert_eq!(frame_at(Duration::from_secs(60), 50), 3_000);
    assert_eq!(frame_at(Duration::from_secs(60), 0), 0);
    assert_eq!(frame_at(Duration { nanos: u128::MAX }, u16::MAX), usize::MAX);
    for rate in [1, 3, 4, 10, 50, 60, 100, 441, 1_000, 48_000, u16::MAX] {
        for millis in 0..2_000 {
            assert_eq!(frame_at(at(millis), rate), frame_by_product(at(millis), rate));
        }
        let mut nanos: u128 = 1;
        while nanos <= Duration::max_value().nanos {
            for near in [nanos - 1, nanos, nanos + 1, nanos + 999_999_999] {
                if near <= Duration::max_value().nanos {
                    let position = Duration { nanos: near };
                    assert_eq!(frame_at(position, rate), frame_by_product(position, rate));
                }
            }
            nanos = nanos * 17 / 16 + 1;
        }
        for power in 0..64 {
            for secs in [(1_u64 << power) - 1, 1 << power, (1 << power) + 1] {
                for rest in [0, 1, 499_999_999, 500_000_000, 500_000_001, 999_999_999] {
                    let position = Duration::from_parts(secs, rest).unwrap();
                    assert_eq!(frame_at(position, rate), frame_by_product(position, rate));
                }
            }
        }
        let longest = Duration::max_value();
        assert_eq!(frame_at(longest, rate), frame_by_product(longest, rate));
    }
}

#[test]
fn vocal_mismatched_profile_indexes_are_rejected() {
    assert!(VocalAnalysis::from_quantized(&[1], &[], 4).is_none());
}

#[test]
fn negative_infinity_clamps_to_zero_and_clamping_twice_changes_nothing() {
    assert_eq!(
        UnitInterval::clamped(bits(f32::NEG_INFINITY)),
        UnitInterval::zero()
    );
    for value in [-3.0, -0.0, 0.0, 0.3, 1.0, 7.5, f32::INFINITY] {
        let once = UnitInterval::clamped(bits(value));
        assert_eq!(UnitInterval::clamped(once.get()), once);
    }
}

#[test]
fn merging_keeps_one_cue_for_each_beat_with_the_strongest_scores() {
    let mut weak = DjCue::new(3, unit(0.2));
    weak.mix_in = unit(0.9);
    let mut strong = DjCue::new(3, unit(0.7));
    strong.mix_out = unit(0.4);
    let merged = merge_cue_candidates(vec![weak, DjCue::new(1, unit(0.1)), strong]);
    assert_eq!(merged.len(), 2);
    let cue = merged.iter().find(|cue| cue.beat_index == 3).unwrap();
    assert_eq!(cue.importance, unit(0.7));
    assert_eq!(cue.mix_in, unit(0.9));
    assert_eq!(cue.mix_out, unit(0.4));
}

#[test]
fn cue_limits_and_roles_are_respected() {
    let cues: Vec<DjCue> = (0..20)
        .map(|beat_index| {
            let mut cue = DjCue::new(beat_index, unit(beat_index as f32 / 20.0));
            cue.mix_out = unit(0.5);
            cue
        })
        .collect();
    assert_eq!(bound_cue_candidates_with_limit(cues.clone(), 20, 5).len(), 5);
    assert_eq!(top_mix_out_cues(&cues).len(), MAX_ROLE_CUES);
    assert!(top_mix_in_cues(&cues).is_empty());
    assert!(cues[19].has_role(CueRole::MixOut));
    assert!(!cues[19].has_role(CueRole::MixIn));
}

#[test]
fn cues_outside_the_grid_are_reported() {
    assert_eq!(
        DjCue::new(4, UnitInterval::one()).validate_for_beat_count(5),
        Ok(())
    );
    assert!(matches!(
        DjCue::new(5, UnitInterval::one()).validate_for_beat_count(5),
        Err(CueValidationError::BeatIndexOutOfBounds { .. })
    ));
}

#[test]
fn human_cues_need_a_beat_grid() {
    let human = HumanCue::new(
        Duration::from_secs(1),
        HumanCueSource::HotCue,
        HumanCueKind::MixOut,
    );
    assert!(dj_cue_from_human_cue(&human, &[]).is_none());
    let dj = dj_cue_from_human_cue(&human, &[Duration::from_secs(3)]).unwrap();
    assert!(dj.mix_out_enabled());
    assert!(!dj.mix_in_enabled());
    assert!(dj.provenance.is_human());
    assert!(!CueProvenance::default().is_human());
}

#[test]
fn observed_boundaries_win_over_the_prior_where_both_stand() {
    let structure = StructureAnalysis::new(
        Vec::new(),
        vec![
            PhraseBoundary::periodic_prior(8, unit(0.9)),
            PhraseBoundary::heuristic(8, unit(0.3)),
            PhraseBoundary::detected(8, unit(0.6)),
            PhraseBoundary::periodic_prior(16, unit(0.5)),
        ],
    );
    let merged = structure.deduplicated_phrase_boundaries();
    assert_eq!(merged.len(), 2);
    assert_eq!(merged[0].beat_index, 8);
    assert_eq!(merged[0].source, PhraseBoundarySource::Detected);
    assert_eq!(merged[0].strength, unit(0.9));
    assert_eq!(merged[1].source, PhraseBoundarySource::PeriodicPrior);
    assert!(structure.has_real_phrase_detection());
    assert!(!structure.is_periodic_prior_only());
    let prior = adapt_periodic_phrase_prior(&[PeriodicPriorCue::new(4, 16)]);
    assert!(is_periodic_prior_only(&prior));
}

#[test]
fn periodic_priors_stand_on_the_grid() {
    let prior = periodic_phrase_prior_with_lengths(40, 2, 4, &[4]);
    let positions: Vec<usize> = prior.iter().map(|boundary| boundary.beat_index).collect();
    assert_eq!(positions, vec![2, 18, 34]);
}

#[test]
fn overlapping_sections_are_rejected() {
    let overlapping = StructureAnalysis::new(
        vec![
            Section::new(0, 8, bits(0.5), vec![SectionLabel::Verse]),
            Section::new(7, 12, bits(0.5), vec![SectionLabel::Chorus]),
        ],
        Vec::new(),
    );
    assert!(overlapping.validate().is_err());
    let adjoining = StructureAnalysis::new(
        vec![
            Section::new(0, 8, bits(0.5), vec![SectionLabel::Verse]),
            Section::new(8, 12, bits(0.5), vec![SectionLabel::Chorus]),
        ],
        Vec::new(),
    );
    assert_eq!(adjoining.validate(), Ok(()));
    assert_eq!(adjoining.validate_for_beat_count(12), Ok(()));
}

#[test]
fn bars_are_counted_from_the_downbeat() {
    let rhythm = RhythmAnalysis::new(
        (0..8).map(|index| beat(index * 500)).collect(),
        Vec::new(),
        vec![MeterHypothesis::new(4, 1, unit(0.9)).unwrap()],
    )
    .unwrap();
    let positions: Vec<Option<u8>> = (0..8)
        .map(|index| rhythm.bar_position_at_index(index))
        .collect();
    assert_eq!(
        positions,
        vec![
            Some(3),
            Some(0),
            Some(1),
            Some(2),
            Some(3),
            Some(0),
            Some(1),
            Some(2)
        ]
    );
    assert_eq!(rhythm.nearest_beat_index(Duration::from_millis(740)), Some(1));
    assert_eq!(
        rhythm
            .beats_between(Duration::from_millis(500), Duration::from_millis(1_500))
            .len(),
        3
    );
}
