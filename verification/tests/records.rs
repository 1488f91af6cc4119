use wotoha::analysis::{
    generate_heuristic_cues, human_cue_from_dj_cue, human_cue_to_dj_cue,
    periodic_phrase_boundaries, periodic_phrase_prior, top_role_cues, top_role_cues_with_limit,
    AnalysisMethod, AnalysisProvenance, BeatEvent, Confidence, CueGenerationInput, CueProvenance,
    CueRole, DjCue, EnergyAnalysis, HumanCue, HumanCueKind, HumanCueSource, MeterHypothesis,
    ModelIdentity, ModelScore, PhraseBoundary, PhraseBoundarySource, RhythmAnalysis, Section,
    SectionLabel, SectionLabelScore, StructureAnalysis, StructureValidationError, Support,
    TempoHypothesis, TempoRelation, TonalAnalysis, TrackAnalysisV2, UnitInterval, VocalAnalysis,
};
use wotoha::time::Duration;

fn bits(value: f32) -> u32 {
    value.to_bits()
}

fn unit(value: f32) -> UnitInterval {
    UnitInterval::clamped(bits(value))
}

fn grid(count: u64) -> Vec<BeatEvent> {
    (0..count)
        .map(|index| BeatEvent::at(Duration::from_millis(500 * index), Confidence::one()))
        .collect()
}

fn record(cues: Vec<DjCue>, sections: Vec<Section>) -> Option<TrackAnalysisV2> {
    TrackAnalysisV2::from_components(
        Duration::from_secs(10),
        Duration::from_secs(1),
        Duration::from_secs(9),
        RhythmAnalysis::new(grid(16), Vec::new(), Vec::new()).unwrap(),
        StructureAnalysis::new(sections, Vec::new()),
        TonalAnalysis::default(),
        VocalAnalysis::default(),
        EnergyAnalysis::default(),
        cues,
        AnalysisProvenance::new("analyzer".to_owned()).unwrap(),
    )
}

#[test]
fn scalars_clamp_under_every_name() {
    for (value, expected) in [(-0.5, 0.0), (0.25, 0.25), (7.0, 1.0), (f32::NAN, 0.0)] {
        assert_eq!(UnitInterval::new_clamped(bits(value)).get(), bits(expected));
        assert_eq!(UnitInterval::from_clamped(bits(value)).get(), bits(expected));
        assert_eq!(Confidence::new_clamped(bits(value)).get(), bits(expected));
        assert_eq!(Confidence::from_clamped(bits(value)).get(), bits(expected));
        assert_eq!(ModelScore::new_clamped(bits(value)).get(), bits(expected));
        assert_eq!(Support::from_clamped(bits(value)).get(), bits(expected));
    }
    assert!(UnitInterval::one().is_one());
    assert!(!UnitInterval::zero().is_one());
    assert!(Confidence::from_clamped(bits(3.0)).is_one());
    assert!(ModelScore::try_new(bits(1.5)).is_none());
    assert_eq!(Support::try_new(bits(0.5)).unwrap().get(), bits(0.5));
}

#[test]
fn flags_become_full_scores() {
    let cue = DjCue::from_legacy_flags(7, bits(2.0), true, false, true, false, true, false);
    assert_eq!(cue.beat_index, 7);
    assert!(cue.importance.is_one());
    assert!(cue.mix_in_enabled() && !cue.mix_out_enabled());
    assert!(cue.cut_safe_enabled() && !cue.phrase_boundary_enabled());
    assert!(cue.drop_enabled() && !cue.build_enabled());
    assert_eq!(cue.provenance, CueProvenance::Heuristic);

    let plain = DjCue::new_legacy(3, bits(0.5));
    assert_eq!(plain.importance.get(), bits(0.5));
    assert!(!plain.mix_in_enabled() && !plain.build_enabled());
    let mixing = DjCue::from_bool(3, bits(0.5), false, true);
    assert!(!mixing.mix_in_enabled() && mixing.mix_out_enabled());
}

#[test]
fn boundaries_become_cues_of_their_source() {
    let cases = [
        (PhraseBoundary::detected_legacy(8, bits(0.7)), CueProvenance::Detected),
        (PhraseBoundary::heuristic_legacy(8, bits(0.7)), CueProvenance::Heuristic),
        (PhraseBoundary::periodic_prior_legacy(8, bits(0.7)), CueProvenance::PeriodicPrior),
        (PhraseBoundary::imported(8, unit(0.7)), CueProvenance::Heuristic),
    ];
    for (boundary, provenance) in cases {
        let cue = DjCue::from_phrase_boundary(boundary);
        assert_eq!(cue.beat_index, 8);
        assert_eq!(cue.importance.get(), bits(0.7));
        assert!(cue.phrase_boundary.is_one());
        assert_eq!(cue.provenance, provenance);
    }
    assert!(PhraseBoundarySource::Imported.is_actionable());
    assert!(!PhraseBoundarySource::PeriodicPrior.is_actionable());
    assert!(PhraseBoundarySource::PeriodicPrior.is_periodic_prior());
}

#[test]
fn human_cues_are_written_at_the_time_of_their_beat() {
    let times = [0, 500, 1_000, 1_500].map(Duration::from_millis);
    let source = HumanCueSource::RekordboxMemory;
    let human = HumanCue::new(Duration::from_millis(1_000), source, HumanCueKind::MixOut);
    let cue = human_cue_to_dj_cue(&human, &times).unwrap();
    assert_eq!(cue.beat_index, 2);
    assert_eq!(cue.to_human_cue(&times, source), Some(human));
    let late = DjCue::new_legacy(4, bits(0.5));
    assert_eq!(late.to_human_cue(&times, source), None);
    let build = DjCue { build: UnitInterval::one(), ..DjCue::new_legacy(1, bits(0.5)) };
    assert_eq!(
        human_cue_from_dj_cue(&build, &times, source).unwrap().kind,
        HumanCueKind::Break
    );
}

#[test]
fn role_cues_are_the_strongest_of_the_role() {
    let candidates = [
        DjCue::from_bool(4, bits(0.4), true, false),
        DjCue::from_bool(8, bits(0.9), false, true),
        DjCue::from_bool(12, bits(0.8), true, false),
        DjCue::from_bool(16, bits(0.6), true, false),
    ];
    let beats = |cues: Vec<DjCue>| cues.iter().map(|cue| cue.beat_index).collect::<Vec<_>>();
    assert_eq!(beats(top_role_cues(&candidates, CueRole::MixIn)), vec![12, 16, 4]);
    assert_eq!(beats(top_role_cues_with_limit(&candidates, CueRole::MixIn, 2)), vec![12, 16]);
    assert_eq!(beats(top_role_cues(&candidates, CueRole::MixOut)), vec![8]);
}

#[test]
fn the_outro_starts_where_it_is_told_to() {
    let input = CueGenerationInput::new(32, 0, 32).with_outro_start(Some(24));
    assert_eq!(input.outro_start_beat, Some(24));
    let cues = generate_heuristic_cues(&input);
    assert!(cues.iter().any(|cue| cue.beat_index == 24 && cue.mix_out_enabled()));
}

#[test]
fn prior_boundaries_have_one_definition() {
    let boundaries = periodic_phrase_boundaries(40, 2, 4);
    assert_eq!(boundaries, periodic_phrase_prior(40, 2, 4));
    let structure = StructureAnalysis::from_periodic_prior(40, 2, 4);
    assert_eq!(structure.phrase_boundaries, boundaries);
    assert!(structure.sections.is_empty());
    let beats = boundaries.iter().map(|boundary| boundary.beat_index).collect::<Vec<_>>();
    assert_eq!(beats, vec![2, 18, 34]);
}

#[test]
fn sections_and_cues_are_found_by_their_beat() {
    let cues = vec![
        DjCue::new_legacy(2, bits(0.5)),
        DjCue::new_legacy(5, bits(0.6)),
        DjCue::new_legacy(5, bits(0.9)),
    ];
    let sections = vec![
        Section::new(0, 4, bits(0.8), vec![SectionLabel::Intro]),
        Section::new(4, 12, bits(0.8), vec![SectionLabel::Verse]),
    ];
    let analysis = record(cues, sections).unwrap();
    assert_eq!(analysis.cue_at(5).unwrap().importance.get(), bits(0.6));
    assert!(analysis.cue_at(6).is_none());
    assert_eq!(analysis.section_index_at(3), Some(0));
    assert_eq!(analysis.section_index_at(4), Some(1));
    assert_eq!(analysis.section_index_at(12), None);
    assert!(analysis.structure.sections[1].has_label(SectionLabel::Verse));
    assert!(!analysis.structure.sections[1].has_label(SectionLabel::Intro));
}

#[test]
fn records_beyond_their_beat_grid_are_refused() {
    assert!(record(vec![DjCue::new_legacy(15, bits(0.5))], Vec::new()).is_some());
    assert!(record(vec![DjCue::new_legacy(16, bits(0.5))], Vec::new()).is_none());
    let section = |end| vec![Section::new(0, end, bits(0.8), vec![SectionLabel::Intro])];
    assert!(record(Vec::new(), section(16)).is_some());
    assert!(record(Vec::new(), section(17)).is_none());
}

#[test]
fn section_labels_carry_their_scores() {
    assert!(SectionLabelScore::legacy(SectionLabel::Drop).score.is_one());
    assert_eq!(
        SectionLabelScore::from_score(SectionLabel::Drop, bits(0.3)).score.get(),
        bits(0.3)
    );
    let empty = StructureAnalysis::try_new(
        vec![Section::new(4, 4, bits(0.5), vec![SectionLabel::Verse])],
        Vec::new(),
    );
    assert_eq!(empty, Err(StructureValidationError::InvalidSectionRange));
}

#[test]
fn hypotheses_are_ranked_by_their_scores() {
    let tempo = |bpm: f32, weight: f32| {
        TempoHypothesis::with_relation(bits(bpm), unit(weight), TempoRelation::Primary)
    };
    let rhythm = RhythmAnalysis::new(
        grid(8),
        vec![tempo(120.0, 0.4).unwrap(), tempo(60.0, 0.6).unwrap()],
        vec![
            MeterHypothesis::new(4, 1, unit(0.9)).unwrap(),
            MeterHypothesis::new(3, 0, unit(0.2)).unwrap(),
        ],
    )
    .unwrap();
    assert_eq!(rhythm.primary_tempo_hypothesis().unwrap().bpm, bits(60.0));
    assert_eq!(rhythm.resolved_meter_hypothesis().unwrap().meter(), 4);
    assert_eq!(rhythm.downbeat_phase(), None);
    assert!(tempo(0.0, 0.5).is_none());
}

#[test]
fn beats_carry_their_evidence() {
    let beat = BeatEvent::new(
        Duration::from_millis(250),
        Some(ModelScore::clamped(bits(0.75))),
        Some(ModelScore::clamped(bits(0.5))),
        Confidence::clamped(bits(0.25)),
        None,
        None,
    );
    assert_eq!(beat.score().unwrap().get(), bits(0.75));
    assert_eq!(beat.downbeat().unwrap().get(), bits(0.5));
    assert_eq!(beat.confidence().get(), bits(0.25));
    let mut beats = grid(4);
    for (index, score) in [(0, 0.2), (1, 0.8), (3, 0.8)] {
        beats[index].downbeat_model_score = Some(ModelScore::clamped(bits(score)));
    }
    let rhythm = RhythmAnalysis::new(beats, Vec::new(), Vec::new()).unwrap();
    assert_eq!(rhythm.downbeat_phase(), Some(3));
}

#[test]
fn models_have_names() {
    assert!(ModelIdentity::named(String::new()).is_none());
    assert!(ModelIdentity::named("beats".to_owned()).unwrap().validate());
    assert!(AnalysisMethod::Imported.validate());
}
