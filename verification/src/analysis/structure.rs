//! Lightweight structure and phrase evidence used by AutoMix.
//!
//! This module is a data and validation layer. A periodic phrase grid is useful
//! as a search prior, but is kept distinct from an observed boundary, so that
//! disagreement with that prior cannot by itself make a transition unsafe.

use vstd::prelude::*;

use super::value::{clamped_bits, Confidence, UnitInterval};

verus! {

/// Labels that can be attached to a section of a track.
#[derive(Clone, Copy, Debug, PartialEq, Eq, Hash, PartialOrd, Ord, Structural)]
pub enum SectionLabel {
    Intro,
    Verse,
    PreChorus,
    Chorus,
    Build,
    Drop,
    Breakdown,
    Bridge,
    Outro,
    Instrumental,
    Unknown,
}

pub type SectionKind = SectionLabel;

pub type StructureLabel = SectionLabel;

impl Default for SectionLabel {
    fn default() -> (r: Self)
        ensures
            r == SectionLabel::Unknown,
    {
        SectionLabel::Unknown
    }
}

/// A section label with an explicit bounded score.
#[derive(Clone, Copy, Debug, PartialEq)]
pub struct SectionLabelScore {
    pub label: SectionLabel,
    pub score: UnitInterval,
}

impl SectionLabelScore {
    pub fn new(label: SectionLabel, score: UnitInterval) -> (r: Self)
        ensures
            r == (SectionLabelScore { label, score }),
    {
        SectionLabelScore { label, score }
    }

    /// A label that came without a score counts as certain.
    pub fn legacy(label: SectionLabel) -> (r: Self)
        ensures
            r == (SectionLabelScore { label, score: UnitInterval::one() }),
    {
        SectionLabelScore { label, score: UnitInterval::one() }
    }

    pub fn from_score(label: SectionLabel, score: u32) -> (r: Self)
        ensures
            r.label == label,
            r.score.bits() == clamped_bits(score),
    {
        SectionLabelScore::new(label, UnitInterval::clamped(score))
    }

    pub fn validate(&self) -> (r: bool)
        ensures
            r == self.score.wf(),
            r,
    {
        self.score.validate()
    }
}

/// Validation failures for structure and phrase evidence.
#[derive(Clone, Copy, Debug, PartialEq, Eq, Structural)]
pub enum StructureValidationError {
    EmptyBeatGrid,
    InvalidSectionRange,
    NonFiniteBoundaryConfidence,
    BoundaryConfidenceOutOfRange,
    EmptySectionLabels,
    InvalidSectionLabelScore,
    SectionsNotOrdered,
    OverlappingSections,
    SectionOutOfBounds { start_beat: usize, end_beat: usize, beat_count: usize },
    NonFinitePhraseStrength,
    PhraseStrengthOutOfRange,
    PhraseBoundaryOutOfBounds { beat_index: usize, beat_count: usize },
}

/// A section in beat-grid coordinates.
///
/// `end_beat` is exclusive. The confidence is an importance and ranking signal,
/// not a probability.
#[derive(Clone, Debug, PartialEq)]
pub struct Section {
    pub start_beat: usize,
    pub end_beat: usize,
    pub boundary_confidence: Confidence,
    pub labels: Vec<SectionLabelScore>,
}

impl Section {
    /// The first rule that the section breaks by itself.
    pub open spec fn error(&self) -> Option<StructureValidationError> {
        if self.start_beat >= self.end_beat {
            Some(StructureValidationError::InvalidSectionRange)
        } else if !self.boundary_confidence.wf() {
            Some(StructureValidationError::BoundaryConfidenceOutOfRange)
        } else if self.labels@.len() == 0 {
            Some(StructureValidationError::EmptySectionLabels)
        } else if exists|i: int| 0 <= i < self.labels@.len() && !#[trigger] self.labels@[i].score.wf() {
            Some(StructureValidationError::InvalidSectionLabelScore)
        } else {
            None
        }
    }

    /// The first rule that the section breaks on a grid of `beat_count` beats.
    pub open spec fn error_for_beat_count(&self, beat_count: usize) -> Option<
        StructureValidationError,
    > {
        if self.error() is Some {
            self.error()
        } else if self.end_beat > beat_count {
            Some(
                StructureValidationError::SectionOutOfBounds {
                    start_beat: self.start_beat,
                    end_beat: self.end_beat,
                    beat_count,
                },
            )
        } else {
            None
        }
    }

    /// Whether some label of the section is `label`.
    pub open spec fn labelled(&self, label: SectionLabel) -> bool {
        exists|i: int| 0 <= i < self.labels@.len() && #[trigger] self.labels@[i].label == label
    }

    /// Whether this is the section that plain labels describe.
    pub open spec fn is_from_labels(
        &self,
        start_beat: usize,
        end_beat: usize,
        boundary_confidence: u32,
        labels: Seq<SectionLabel>,
    ) -> bool {
        &&& self.start_beat == start_beat
        &&& self.end_beat == end_beat
        &&& self.boundary_confidence.bits() == clamped_bits(boundary_confidence)
        &&& self.labels@ == labels.map_values(
            |label: SectionLabel| SectionLabelScore { label, score: UnitInterval::one() },
        )
    }

    /// Constructs a section from plain labels, each with a score of one.
    ///
    /// The confidence is clamped into the unit interval.
    pub fn new(
        start_beat: usize,
        end_beat: usize,
        boundary_confidence: u32,
        labels: Vec<SectionLabel>,
    ) -> (r: Self)
        ensures
            r.is_from_labels(start_beat, end_beat, boundary_confidence, labels@),
    {
        let mut scored: Vec<SectionLabelScore> = Vec::new();
        let mut i: usize = 0;
        while i < labels.len()
            invariant
                i <= labels.len(),
                scored@ == labels@.take(i as int).map_values(
                    |label: SectionLabel| SectionLabelScore { label, score: UnitInterval::one() },
                ),
            decreases labels.len() - i,
        {
            scored.push(SectionLabelScore::legacy(labels[i]));
            proof {
                assert(labels@.take(i + 1) =~= labels@.take(i as int).push(labels@[i as int]));
            }
            i += 1;
        }
        proof {
            assert(labels@.take(i as int) =~= labels@);
        }
        Section {
            start_beat,
            end_beat,
            boundary_confidence: Confidence::clamped(boundary_confidence),
            labels: scored,
        }
    }

    /// Constructs a section with typed scores for both boundaries and labels.
    pub fn scored(
        start_beat: usize,
        end_beat: usize,
        boundary_confidence: Confidence,
        labels: Vec<SectionLabelScore>,
    ) -> (r: Self)
        ensures
            r == (Section { start_beat, end_beat, boundary_confidence, labels }),
    {
        Section { start_beat, end_beat, boundary_confidence, labels }
    }

    /// Constructs a section from plain labels and validates it.
    pub fn try_new(
        start_beat: usize,
        end_beat: usize,
        boundary_confidence: u32,
        labels: Vec<SectionLabel>,
    ) -> (r: Result<Self, StructureValidationError>)
        ensures
            match r {
                Ok(section) => section.is_from_labels(
                    start_beat,
                    end_beat,
                    boundary_confidence,
                    labels@,
                ) && start_beat < end_beat && labels@.len() > 0,
                Err(error) => if start_beat >= end_beat {
                    error == StructureValidationError::InvalidSectionRange
                } else {
                    labels@.len() == 0 && error == StructureValidationError::EmptySectionLabels
                },
            },
    {
        let section = Section::new(start_beat, end_beat, boundary_confidence, labels);
        assert(section.labels@.len() == labels@.len());
        match section.validate() {
            Ok(()) => Ok(section),
            Err(error) => Err(error),
        }
    }

    /// Like [`Section::try_new`], without the reason of a failure.
    pub fn checked(
        start_beat: usize,
        end_beat: usize,
        boundary_confidence: u32,
        labels: Vec<SectionLabel>,
    ) -> (r: Option<Self>)
        ensures
            r is Some <==> start_beat < end_beat && labels@.len() > 0,
            r matches Some(section) ==> section.is_from_labels(
                start_beat,
                end_beat,
                boundary_confidence,
                labels@,
            ),
    {
        match Section::try_new(start_beat, end_beat, boundary_confidence, labels) {
            Ok(section) => Some(section),
            Err(_) => None,
        }
    }

    /// Validates the section independently of a particular track length.
    pub fn validate(&self) -> (r: Result<(), StructureValidationError>)
        ensures
            r == match self.error() {
                Some(error) => Err(error),
                None => Ok::<(), StructureValidationError>(()),
            },
            r == if self.start_beat >= self.end_beat {
                Err(StructureValidationError::InvalidSectionRange)
            } else if self.labels@.len() == 0 {
                Err(StructureValidationError::EmptySectionLabels)
            } else {
                Ok::<(), StructureValidationError>(())
            },
    {
        if self.start_beat >= self.end_beat {
            return Err(StructureValidationError::InvalidSectionRange);
        }
        if !self.boundary_confidence.validate() {
            return Err(StructureValidationError::BoundaryConfidenceOutOfRange);
        }
        if self.labels.len() == 0 {
            return Err(StructureValidationError::EmptySectionLabels);
        }
        let mut i: usize = 0;
        while i < self.labels.len()
            invariant
                i <= self.labels.len(),
                forall|j: int| 0 <= j < i ==> #[trigger] self.labels@[j].score.wf(),
            decreases self.labels.len() - i,
        {
            if !self.labels[i].validate() {
                return Err(StructureValidationError::InvalidSectionLabelScore);
            }
            i += 1;
        }
        Ok(())
    }

    /// Validates this section against a concrete beat-grid length.
    pub fn validate_for_beat_count(&self, beat_count: usize) -> (r: Result<
        (),
        StructureValidationError,
    >)
        ensures
            r == match self.error_for_beat_count(beat_count) {
                Some(error) => Err(error),
                None => Ok::<(), StructureValidationError>(()),
            },
    {
        match self.validate() {
            Ok(()) => {},
            Err(error) => {
                return Err(error);
            },
        }
        if self.end_beat > beat_count {
            return Err(
                StructureValidationError::SectionOutOfBounds {
                    start_beat: self.start_beat,
                    end_beat: self.end_beat,
                    beat_count,
                },
            );
        }
        Ok(())
    }

    /// Whether this section has the supplied label.
    pub fn has_label(&self, label: SectionLabel) -> (r: bool)
        ensures
            r == self.labelled(label),
    {
        let mut i: usize = 0;
        while i < self.labels.len()
            invariant
                i <= self.labels.len(),
                forall|j: int| 0 <= j < i ==> #[trigger] self.labels@[j].label != label,
            decreases self.labels.len() - i,
        {
            if self.labels[i].label == label {
                return true;
            }
            i += 1;
        }
        false
    }
}

impl Default for Section {
    fn default() -> (r: Self)
        ensures
            r.start_beat == 0,
            r.end_beat == 0,
            r.boundary_confidence == Confidence::zero(),
            r.labels@ == seq![
                SectionLabelScore { label: SectionLabel::Unknown, score: UnitInterval::one() },
            ],
    {
        let mut labels: Vec<SectionLabelScore> = Vec::new();
        labels.push(SectionLabelScore::legacy(SectionLabel::Unknown));
        Section { start_beat: 0, end_beat: 0, boundary_confidence: Confidence::zero(), labels }
    }
}

/// Provenance for a phrase boundary.
///
/// `PeriodicPrior` is its own variant: it stands for the periodic grid and is
/// never promoted to a real detection merely because no other evidence is
/// present.
#[derive(Clone, Copy, Debug, PartialEq, Eq, Hash, Structural)]
pub enum PhraseBoundarySource {
    Detected,
    Heuristic,
    PeriodicPrior,
    Imported,
}

pub type PhraseSource = PhraseBoundarySource;

impl Default for PhraseBoundarySource {
    fn default() -> (r: Self)
        ensures
            r == PhraseBoundarySource::PeriodicPrior,
    {
        PhraseBoundarySource::PeriodicPrior
    }
}

impl PhraseBoundarySource {
    /// Whether the evidence may support an observed boundary.
    pub fn is_real_detection(self) -> (r: bool)
        ensures
            r == (self != PhraseBoundarySource::PeriodicPrior),
    {
        !matches!(self, PhraseBoundarySource::PeriodicPrior)
    }

    /// Whether a mismatch may be scored as actionable.
    pub fn is_actionable(self) -> (r: bool)
        ensures
            r == (self != PhraseBoundarySource::PeriodicPrior),
    {
        self.is_real_detection()
    }

    pub fn is_periodic_prior(self) -> (r: bool)
        ensures
            r == (self == PhraseBoundarySource::PeriodicPrior),
    {
        matches!(self, PhraseBoundarySource::PeriodicPrior)
    }
}

/// A boundary in beat-grid coordinates.
#[derive(Clone, Copy, Debug, PartialEq)]
pub struct PhraseBoundary {
    pub beat_index: usize,
    /// A bounded ranking strength, not a probability.
    pub strength: UnitInterval,
    pub source: PhraseBoundarySource,
}

/// A small representation of a periodic phrase cue.
#[derive(Clone, Copy, Debug, PartialEq, Eq, Hash, Structural)]
pub struct PeriodicPriorCue {
    pub beat_index: usize,
    pub bars: usize,
}

impl PeriodicPriorCue {
    pub fn new(beat_index: usize, bars: usize) -> (r: Self)
        ensures
            r == (PeriodicPriorCue { beat_index, bars }),
    {
        PeriodicPriorCue { beat_index, bars }
    }
}

impl From<(usize, usize)> for PeriodicPriorCue {
    fn from(value: (usize, usize)) -> (r: PeriodicPriorCue) {
        PeriodicPriorCue::new(value.0, value.1)
    }
}

impl vstd::std_specs::convert::FromSpecImpl<(usize, usize)> for PeriodicPriorCue {
    open spec fn obeys_from_spec() -> bool {
        true
    }

    open spec fn from_spec(value: (usize, usize)) -> PeriodicPriorCue {
        PeriodicPriorCue { beat_index: value.0, bars: value.1 }
    }
}

impl PhraseBoundary {
    /// The first rule that the boundary breaks on a grid of `beat_count` beats.
    pub open spec fn error_for_beat_count(&self, beat_count: usize) -> Option<
        StructureValidationError,
    > {
        if !self.strength.wf() {
            Some(StructureValidationError::PhraseStrengthOutOfRange)
        } else if self.beat_index >= beat_count {
            Some(
                StructureValidationError::PhraseBoundaryOutOfBounds {
                    beat_index: self.beat_index,
                    beat_count,
                },
            )
        } else {
            None
        }
    }

    pub fn new(
        beat_index: usize,
        strength: UnitInterval,
        source: PhraseBoundarySource,
    ) -> (r: Self)
        ensures
            r == (PhraseBoundary { beat_index, strength, source }),
    {
        PhraseBoundary { beat_index, strength, source }
    }

    pub fn detected(beat_index: usize, strength: UnitInterval) -> (r: Self)
        ensures
            r == (PhraseBoundary { beat_index, strength, source: PhraseBoundarySource::Detected }),
    {
        PhraseBoundary::new(beat_index, strength, PhraseBoundarySource::Detected)
    }

    pub fn heuristic(beat_index: usize, strength: UnitInterval) -> (r: Self)
        ensures
            r == (PhraseBoundary { beat_index, strength, source: PhraseBoundarySource::Heuristic }),
    {
        PhraseBoundary::new(beat_index, strength, PhraseBoundarySource::Heuristic)
    }

    pub fn periodic_prior(beat_index: usize, strength: UnitInterval) -> (r: Self)
        ensures
            r == (PhraseBoundary {
                beat_index,
                strength,
                source: PhraseBoundarySource::PeriodicPrior,
            }),
    {
        PhraseBoundary::new(beat_index, strength, PhraseBoundarySource::PeriodicPrior)
    }

    pub fn imported(beat_index: usize, strength: UnitInterval) -> (r: Self)
        ensures
            r == (PhraseBoundary { beat_index, strength, source: PhraseBoundarySource::Imported }),
    {
        PhraseBoundary::new(beat_index, strength, PhraseBoundarySource::Imported)
    }

    pub fn detected_legacy(beat_index: usize, strength: u32) -> (r: Self)
        ensures
            r.beat_index == beat_index,
            r.strength.bits() == clamped_bits(strength),
            r.source == PhraseBoundarySource::Detected,
    {
        PhraseBoundary::detected(beat_index, UnitInterval::clamped(strength))
    }

    pub fn heuristic_legacy(beat_index: usize, strength: u32) -> (r: Self)
        ensures
            r.beat_index == beat_index,
            r.strength.bits() == clamped_bits(strength),
            r.source == PhraseBoundarySource::Heuristic,
    {
        PhraseBoundary::heuristic(beat_index, UnitInterval::clamped(strength))
    }

    pub fn periodic_prior_legacy(beat_index: usize, strength: u32) -> (r: Self)
        ensures
            r.beat_index == beat_index,
            r.strength.bits() == clamped_bits(strength),
            r.source == PhraseBoundarySource::PeriodicPrior,
    {
        PhraseBoundary::periodic_prior(beat_index, UnitInterval::clamped(strength))
    }

    pub fn validate(&self) -> (r: Result<(), StructureValidationError>)
        ensures
            r == if self.strength.wf() {
                Ok::<(), StructureValidationError>(())
            } else {
                Err(StructureValidationError::PhraseStrengthOutOfRange)
            },
            r is Ok,
    {
        if !self.strength.validate() {
            return Err(StructureValidationError::PhraseStrengthOutOfRange);
        }
        Ok(())
    }

    pub fn validate_for_beat_count(&self, beat_count: usize) -> (r: Result<
        (),
        StructureValidationError,
    >)
        ensures
            r == match self.error_for_beat_count(beat_count) {
                Some(error) => Err(error),
                None => Ok::<(), StructureValidationError>(()),
            },
    {
        match self.validate() {
            Ok(()) => {},
            Err(error) => {
                return Err(error);
            },
        }
        if self.beat_index >= beat_count {
            return Err(
                StructureValidationError::PhraseBoundaryOutOfBounds {
                    beat_index: self.beat_index,
                    beat_count,
                },
            );
        }
        Ok(())
    }

    pub fn is_real_detection(&self) -> (r: bool)
        ensures
            r == (self.source != PhraseBoundarySource::PeriodicPrior),
    {
        self.source.is_real_detection()
    }
}

/// Structure evidence for a track.
#[derive(Clone, Debug, PartialEq)]
pub struct StructureAnalysis {
    pub sections: Vec<Section>,
    pub phrase_boundaries: Vec<PhraseBoundary>,
}

impl Default for StructureAnalysis {
    fn default() -> (r: Self)
        ensures
            r.sections@.len() == 0,
            r.phrase_boundaries@.len() == 0,
    {
        StructureAnalysis { sections: Vec::new(), phrase_boundaries: Vec::new() }
    }
}

/// What is wrong with section `i`: its own first error, or else that it stands
/// before or overlaps the section in front of it.
pub open spec fn section_error(sections: Seq<Section>, i: int) -> Option<StructureValidationError> {
    if sections[i].error() is Some {
        sections[i].error()
    } else if i > 0 && sections[i].start_beat < sections[i - 1].start_beat {
        Some(StructureValidationError::SectionsNotOrdered)
    } else if i > 0 && sections[i].start_beat < sections[i - 1].end_beat {
        Some(StructureValidationError::OverlappingSections)
    } else {
        None
    }
}

/// The error of the first section, among the first `n`, that has one.
pub open spec fn first_section_error(sections: Seq<Section>, n: int) -> Option<
    StructureValidationError,
>
    decreases n,
{
    if n <= 0 {
        None
    } else if first_section_error(sections, n - 1) is Some {
        first_section_error(sections, n - 1)
    } else {
        section_error(sections, n - 1)
    }
}

/// The first section, from `i` on, that ends beyond the grid.
pub open spec fn first_long_section(
    sections: Seq<Section>,
    beat_count: usize,
    i: int,
) -> Option<StructureValidationError>
    decreases sections.len() - i,
{
    if i < 0 || i >= sections.len() {
        None
    } else if sections[i].end_beat > beat_count {
        Some(
            StructureValidationError::SectionOutOfBounds {
                start_beat: sections[i].start_beat,
                end_beat: sections[i].end_beat,
                beat_count,
            },
        )
    } else {
        first_long_section(sections, beat_count, i + 1)
    }
}

/// The first phrase boundary, from `i` on, that lies beyond the grid.
pub open spec fn first_late_boundary(
    boundaries: Seq<PhraseBoundary>,
    beat_count: usize,
    i: int,
) -> Option<StructureValidationError>
    decreases boundaries.len() - i,
{
    if i < 0 || i >= boundaries.len() {
        None
    } else if boundaries[i].beat_index >= beat_count {
        Some(
            StructureValidationError::PhraseBoundaryOutOfBounds {
                beat_index: boundaries[i].beat_index,
                beat_count,
            },
        )
    } else {
        first_late_boundary(boundaries, beat_count, i + 1)
    }
}

/// Whether some boundary comes from evidence other than the periodic grid.
pub open spec fn has_observed(boundaries: Seq<PhraseBoundary>) -> bool {
    exists|i: int|
        0 <= i < boundaries.len() && #[trigger] boundaries[i].source
            != PhraseBoundarySource::PeriodicPrior
}

impl StructureAnalysis {
    /// The first rule that the evidence breaks, without a track length.
    pub open spec fn error(&self) -> Option<StructureValidationError> {
        if first_section_error(self.sections@, self.sections@.len() as int) is Some {
            first_section_error(self.sections@, self.sections@.len() as int)
        } else if exists|i: int|
            0 <= i < self.phrase_boundaries@.len()
                && !#[trigger] self.phrase_boundaries@[i].strength.wf() {
            Some(StructureValidationError::PhraseStrengthOutOfRange)
        } else {
            None
        }
    }

    /// The first rule that the evidence breaks on a grid of `beat_count` beats.
    pub open spec fn error_for_beat_count(&self, beat_count: usize) -> Option<
        StructureValidationError,
    > {
        if self.error() is Some {
            self.error()
        } else if beat_count == 0 && (self.sections@.len() > 0 || self.phrase_boundaries@.len()
            > 0) {
            Some(StructureValidationError::EmptyBeatGrid)
        } else if first_long_section(self.sections@, beat_count, 0) is Some {
            first_long_section(self.sections@, beat_count, 0)
        } else {
            first_late_boundary(self.phrase_boundaries@, beat_count, 0)
        }
    }

    pub fn new(sections: Vec<Section>, phrase_boundaries: Vec<PhraseBoundary>) -> (r: Self)
        ensures
            r == (StructureAnalysis { sections, phrase_boundaries }),
    {
        StructureAnalysis { sections, phrase_boundaries }
    }

    pub fn try_new(sections: Vec<Section>, phrase_boundaries: Vec<PhraseBoundary>) -> (r: Result<
        Self,
        StructureValidationError,
    >)
        ensures
            r == match (StructureAnalysis { sections, phrase_boundaries }).error() {
                Some(error) => Err(error),
                None => Ok::<StructureAnalysis, StructureValidationError>(
                    StructureAnalysis { sections, phrase_boundaries },
                ),
            },
    {
        let analysis = StructureAnalysis::new(sections, phrase_boundaries);
        match analysis.validate() {
            Ok(()) => Ok(analysis),
            Err(error) => Err(error),
        }
    }

    pub fn checked(sections: Vec<Section>, phrase_boundaries: Vec<PhraseBoundary>) -> (r: Option<
        Self,
    >)
        ensures
            r == if (StructureAnalysis { sections, phrase_boundaries }).error() is Some {
                None
            } else {
                Some(StructureAnalysis { sections, phrase_boundaries })
            },
    {
        match StructureAnalysis::try_new(sections, phrase_boundaries) {
            Ok(analysis) => Some(analysis),
            Err(_) => None,
        }
    }

    /// Validates ranges, ordering and score bounds without a track length.
    pub fn validate(&self) -> (r: Result<(), StructureValidationError>)
        ensures
            r == match self.error() {
                Some(error) => Err(error),
                None => Ok::<(), StructureValidationError>(()),
            },
    {
        let ghost sections = self.sections@;
        let mut i: usize = 0;
        while i < self.sections.len()
            invariant
                sections == self.sections@,
                i <= sections.len(),
                first_section_error(sections, i as int) is None,
            decreases sections.len() - i,
        {
            proof {
                lemma_first_section_error(sections, i + 1, sections.len() as int);
            }
            let section = &self.sections[i];
            match section.validate() {
                Ok(()) => {},
                Err(error) => {
                    return Err(error);
                },
            }
            if i > 0 && section.start_beat < self.sections[i - 1].start_beat {
                return Err(StructureValidationError::SectionsNotOrdered);
            }
            if i > 0 && section.start_beat < self.sections[i - 1].end_beat {
                return Err(StructureValidationError::OverlappingSections);
            }
            i += 1;
        }
        let mut j: usize = 0;
        while j < self.phrase_boundaries.len()
            invariant
                j <= self.phrase_boundaries@.len(),
                first_section_error(self.sections@, self.sections@.len() as int) is None,
                forall|k: int| 0 <= k < j ==> #[trigger] self.phrase_boundaries@[k].strength.wf(),
            decreases self.phrase_boundaries@.len() - j,
        {
            match self.phrase_boundaries[j].validate() {
                Ok(()) => {},
                Err(error) => {
                    return Err(error);
                },
            }
            j += 1;
        }
        Ok(())
    }

    /// Validates all section and phrase indexes against `beat_count`.
    pub fn validate_for_beat_count(&self, beat_count: usize) -> (r: Result<
        (),
        StructureValidationError,
    >)
        ensures
            r == match self.error_for_beat_count(beat_count) {
                Some(error) => Err(error),
                None => Ok::<(), StructureValidationError>(()),
            },
    {
        match self.validate() {
            Ok(()) => {},
            Err(error) => {
                return Err(error);
            },
        }
        if beat_count == 0 && (self.sections.len() > 0 || self.phrase_boundaries.len() > 0) {
            return Err(StructureValidationError::EmptyBeatGrid);
        }
        let mut i: usize = 0;
        while i < self.sections.len()
            invariant
                i <= self.sections@.len(),
                self.error() is None,
                beat_count == 0 ==> self.sections@.len() == 0 && self.phrase_boundaries@.len() == 0,
                first_long_section(self.sections@, beat_count, 0) == first_long_section(
                    self.sections@,
                    beat_count,
                    i as int,
                ),
            decreases self.sections@.len() - i,
        {
            let section = &self.sections[i];
            if section.end_beat > beat_count {
                return Err(
                    StructureValidationError::SectionOutOfBounds {
                        start_beat: section.start_beat,
                        end_beat: section.end_beat,
                        beat_count,
                    },
                );
            }
            i += 1;
        }
        let mut j: usize = 0;
        while j < self.phrase_boundaries.len()
            invariant
                j <= self.phrase_boundaries@.len(),
                self.error() is None,
                beat_count == 0 ==> self.sections@.len() == 0 && self.phrase_boundaries@.len() == 0,
                first_long_section(self.sections@, beat_count, 0) is None,
                first_late_boundary(self.phrase_boundaries@, beat_count, 0) == first_late_boundary(
                    self.phrase_boundaries@,
                    beat_count,
                    j as int,
                ),
            decreases self.phrase_boundaries@.len() - j,
        {
            let boundary = &self.phrase_boundaries[j];
            if boundary.beat_index >= beat_count {
                return Err(
                    StructureValidationError::PhraseBoundaryOutOfBounds {
                        beat_index: boundary.beat_index,
                        beat_count,
                    },
                );
            }
            j += 1;
        }
        Ok(())
    }

    pub fn has_real_phrase_detection(&self) -> (r: bool)
        ensures
            r == has_observed(self.phrase_boundaries@),
    {
        phrase_mismatch_is_hard_block(self.phrase_boundaries.as_slice())
    }

    pub fn is_periodic_prior_only(&self) -> (r: bool)
        ensures
            r == (self.phrase_boundaries@.len() > 0 && !has_observed(self.phrase_boundaries@)),
    {
        is_periodic_prior_only(self.phrase_boundaries.as_slice())
    }

    /// A periodic prior by itself is not enough evidence to hard-block a phrase
    /// mismatch. Empty evidence is likewise non-blocking.
    pub fn phrase_mismatch_is_hard_block(&self) -> (r: bool)
        ensures
            r == has_observed(self.phrase_boundaries@),
    {
        self.has_real_phrase_detection()
    }

    /// The boundaries with duplicates at one beat merged by maximum strength.
    /// The source is retained whenever all duplicates agree; mixed evidence is
    /// represented by the strongest source other than the periodic grid.
    pub fn deduplicated_phrase_boundaries(&self) -> (r: Vec<PhraseBoundary>)
        ensures
            is_phrase_merge(r@, self.phrase_boundaries@),
    {
        merge_phrase_boundaries(self.phrase_boundaries.as_slice())
    }

    /// An analysis that holds only the periodic 4/8/16-bar search prior.
    pub fn from_periodic_prior(
        beat_count: usize,
        first_downbeat: usize,
        beats_per_bar: usize,
    ) -> (r: Self)
        ensures
            r.sections@.len() == 0,
            is_periodic_prior(
                r.phrase_boundaries@,
                beat_count,
                first_downbeat,
                beats_per_bar,
                seq![4usize, 8usize, 16usize],
            ),
    {
        StructureAnalysis::new(
            Vec::new(),
            periodic_phrase_prior(beat_count, first_downbeat, beats_per_bar),
        )
    }
}

proof fn lemma_first_section_error(sections: Seq<Section>, m: int, n: int)
    requires
        m <= n,
    ensures
        first_section_error(sections, m) is Some ==> first_section_error(sections, n)
            == first_section_error(sections, m),
    decreases n - m,
{
    if m < n {
        lemma_first_section_error(sections, m, n - 1);
    }
}

/// A phrase mismatch can only be hard-blocking when at least one boundary comes
/// from evidence other than the periodic grid. Missing evidence is unknown, not
/// negative, and does not block either.
pub fn phrase_mismatch_is_hard_block(boundaries: &[PhraseBoundary]) -> (r: bool)
    ensures
        r == has_observed(boundaries@),
{
    let mut i: usize = 0;
    while i < boundaries.len()
        invariant
            i <= boundaries@.len(),
            forall|j: int|
                0 <= j < i ==> #[trigger] boundaries@[j].source
                    == PhraseBoundarySource::PeriodicPrior,
        decreases boundaries@.len() - i,
    {
        if boundaries[i].is_real_detection() {
            return true;
        }
        i += 1;
    }
    false
}

pub fn is_periodic_prior_only(boundaries: &[PhraseBoundary]) -> (r: bool)
    ensures
        r == (boundaries@.len() > 0 && !has_observed(boundaries@)),
{
    boundaries.len() > 0 && !phrase_mismatch_is_hard_block(boundaries)
}

/// Whether an expected boundary and the actual one disagree on observed
/// evidence.
pub fn phrase_mismatch_requires_observed_evidence(
    expected_beat: usize,
    actual_beat: usize,
    boundaries: &[PhraseBoundary],
) -> (r: bool)
    ensures
        r == (expected_beat != actual_beat && has_observed(boundaries@)),
{
    expected_beat != actual_beat && phrase_mismatch_is_hard_block(boundaries)
}

/// Bits of the ranking strength of a periodic boundary every `bars` bars:
/// 0.25 for four, 0.35 for eight, 0.45 for sixteen and 0.20 otherwise.
pub open spec fn prior_strength_bits(bars: usize) -> u32 {
    if bars == 4 {
        0x3E80_0000
    } else if bars == 8 {
        0x3EB3_3333
    } else if bars == 16 {
        0x3EE6_6666
    } else {
        0x3E4C_CCCD
    }
}

fn prior_strength(bars: usize) -> (r: UnitInterval)
    ensures
        r.bits() == prior_strength_bits(bars),
        r.wf(),
{
    UnitInterval::clamped(
        if bars == 4 {
            0x3E80_0000
        } else if bars == 8 {
            0x3EB3_3333
        } else if bars == 16 {
            0x3EE6_6666
        } else {
            0x3E4C_CCCD
        },
    )
}

/// Whether boundary `j`, one of the first `n`, has a valid strength and lies on
/// the beat.
pub open spec fn on_beat(boundaries: Seq<PhraseBoundary>, n: int, beat: usize, j: int) -> bool {
    0 <= j < n && boundaries[j].beat_index == beat && boundaries[j].strength.wf()
}

/// Whether boundary `j` is one of those on the beat that were observed.
pub open spec fn observed_on_beat(
    boundaries: Seq<PhraseBoundary>,
    n: int,
    beat: usize,
    j: int,
) -> bool {
    on_beat(boundaries, n, beat, j) && boundaries[j].source != PhraseBoundarySource::PeriodicPrior
}

/// Whether boundary `j` is the strongest on the beat, and the first of those.
pub open spec fn strongest_on_beat(
    boundaries: Seq<PhraseBoundary>,
    n: int,
    beat: usize,
    j: int,
) -> bool {
    &&& on_beat(boundaries, n, beat, j)
    &&& forall|k: int| #[trigger]
        on_beat(boundaries, n, beat, k) ==> boundaries[k].strength.key()
            <= boundaries[j].strength.key() && (k < j ==> boundaries[k].strength.key()
            < boundaries[j].strength.key())
}

/// Whether boundary `j` is the strongest observed one on the beat, and the first
/// of those.
pub open spec fn strongest_observed(
    boundaries: Seq<PhraseBoundary>,
    n: int,
    beat: usize,
    j: int,
) -> bool {
    &&& observed_on_beat(boundaries, n, beat, j)
    &&& forall|k: int| #[trigger]
        observed_on_beat(boundaries, n, beat, k) ==> boundaries[k].strength.key()
            <= boundaries[j].strength.key() && (k < j ==> boundaries[k].strength.key()
            < boundaries[j].strength.key())
}

/// Whether `merged` stands for all of the first `n` boundaries on its beat: it
/// has their greatest strength, and the source of the strongest observed one, or
/// the periodic source where none was observed.
pub open spec fn stands_for_beat(
    merged: PhraseBoundary,
    boundaries: Seq<PhraseBoundary>,
    n: int,
) -> bool {
    let beat = merged.beat_index;
    &&& exists|j: int| #[trigger]
        strongest_on_beat(boundaries, n, beat, j) && merged.strength == boundaries[j].strength
    &&& if exists|j: int| #[trigger] observed_on_beat(boundaries, n, beat, j) {
        exists|j: int| #[trigger]
            strongest_observed(boundaries, n, beat, j) && merged.source == boundaries[j].source
    } else {
        merged.source == PhraseBoundarySource::PeriodicPrior
    }
}

/// Whether some boundary lies on the beat.
pub open spec fn has_beat(boundaries: Seq<PhraseBoundary>, beat: usize) -> bool {
    exists|i: int| 0 <= i < boundaries.len() && (#[trigger] boundaries[i]).beat_index == beat
}

/// Whether `merged` holds one boundary for each beat that has a valid one, in
/// the order of the beats.
pub open spec fn is_phrase_merge(
    merged: Seq<PhraseBoundary>,
    boundaries: Seq<PhraseBoundary>,
) -> bool {
    let n = boundaries.len() as int;
    &&& forall|i: int, j: int|
        0 <= i < j < merged.len() ==> merged[i].beat_index < merged[j].beat_index
    &&& forall|i: int|
        0 <= i < merged.len() ==> stands_for_beat(#[trigger] merged[i], boundaries, n)
    &&& forall|j: int| #![trigger boundaries[j]]
        0 <= j < n && boundaries[j].strength.wf() ==> has_beat(merged, boundaries[j].beat_index)
}

fn merge_beat(boundaries: &[PhraseBoundary], first: usize) -> (r: PhraseBoundary)
    requires
        first < boundaries@.len(),
    ensures
        r.beat_index == boundaries@[first as int].beat_index,
        stands_for_beat(r, boundaries@, boundaries@.len() as int),
{
    let beat: usize = boundaries[first].beat_index;
    let ghost all = boundaries@;
    let mut strength: Option<UnitInterval> = None;
    let mut observed: Option<PhraseBoundary> = None;
    let ghost mut best: int = 0;
    let ghost mut seen: int = 0;
    let mut i: usize = 0;
    while i < boundaries.len()
        invariant
            all == boundaries@,
            i <= all.len(),
            first < all.len(),
            beat == all[first as int].beat_index,
            i > first ==> strength is Some,
            strength matches Some(value) ==> strongest_on_beat(all, i as int, beat, best) && value
                == all[best].strength,
            strength is None ==> forall|j: int| !#[trigger] on_beat(all, i as int, beat, j),
            observed matches Some(value) ==> strongest_observed(all, i as int, beat, seen) && value
                == all[seen],
            observed is None ==> forall|j: int| !#[trigger] observed_on_beat(all, i as int, beat, j),
        decreases all.len() - i,
    {
        let boundary = boundaries[i];
        let valid: bool = boundary.strength.validate();
        proof {
            assert forall|k: int| #![trigger on_beat(all, i + 1, beat, k)]
                #![trigger on_beat(all, i as int, beat, k)] on_beat(all, i + 1, beat, k) <==> (k
                == i && on_beat(all, i + 1, beat, i as int)) || on_beat(all, i as int, beat, k) by {}
            assert forall|k: int| #![trigger observed_on_beat(all, i + 1, beat, k)]
                #![trigger observed_on_beat(all, i as int, beat, k)] observed_on_beat(
                all,
                i + 1,
                beat,
                k,
            ) <==> (k == i && observed_on_beat(all, i + 1, beat, i as int)) || observed_on_beat(
                all,
                i as int,
                beat,
                k,
            ) by {}
        }
        if valid && boundary.beat_index == beat {
            assert(on_beat(all, i + 1, beat, i as int));
            match strength {
                Some(value) => {
                    if value.less(boundary.strength) {
                        strength = Some(boundary.strength);
                        proof {
                            best = i as int;
                        }
                    }
                },
                None => {
                    strength = Some(boundary.strength);
                    proof {
                        best = i as int;
                    }
                },
            }
            if boundary.is_real_detection() {
                assert(observed_on_beat(all, i + 1, beat, i as int));
                match observed {
                    Some(value) => {
                        if value.strength.less(boundary.strength) {
                            observed = Some(boundary);
                            proof {
                                seen = i as int;
                            }
                        }
                    },
                    None => {
                        observed = Some(boundary);
                        proof {
                            seen = i as int;
                        }
                    },
                }
            }
        }
        i += 1;
    }
    let source: PhraseBoundarySource = match observed {
        Some(boundary) => boundary.source,
        None => PhraseBoundarySource::PeriodicPrior,
    };
    match strength {
        Some(strength) => PhraseBoundary { beat_index: beat, strength, source },
        None => boundaries[first],
    }
}

/// Merges the boundaries that lie on one beat; the result is in beat order.
fn merge_phrase_boundaries(boundaries: &[PhraseBoundary]) -> (r: Vec<PhraseBoundary>)
    ensures
        is_phrase_merge(r@, boundaries@),
{
    let ghost all = boundaries@;
    let mut merged: Vec<PhraseBoundary> = Vec::new();
    let mut i: usize = 0;
    while i < boundaries.len()
        invariant
            all == boundaries@,
            i <= all.len(),
            forall|a: int, b: int|
                0 <= a < b < merged@.len() ==> merged@[a].beat_index < merged@[b].beat_index,
            forall|a: int|
                0 <= a < merged@.len() ==> stands_for_beat(
                    #[trigger] merged@[a],
                    all,
                    all.len() as int,
                ),
            forall|j: int| #![trigger all[j]]
                0 <= j < i && all[j].strength.wf() ==> has_beat(merged@, all[j].beat_index),
        decreases all.len() - i,
    {
        let beat: usize = boundaries[i].beat_index;
        let mut at: usize = 0;
        while at < merged.len() && merged[at].beat_index < beat
            invariant
                at <= merged@.len(),
                forall|a: int| 0 <= a < at ==> (#[trigger] merged@[a]).beat_index < beat,
            decreases merged@.len() - at,
        {
            at += 1;
        }
        let ghost before = merged@;
        if boundaries[i].strength.validate() && !(at < merged.len() && merged[at].beat_index == beat) {
            let entry = merge_beat(boundaries, i);
            merged.insert(at, entry);
            proof {
                assert(merged@[at as int].beat_index == all[i as int].beat_index);
                assert forall|j: int| #![trigger all[j]]
                    0 <= j < i && all[j].strength.wf() implies has_beat(merged@, all[j].beat_index) by {
                    let a = choose|a: int|
                        0 <= a < before.len() && (#[trigger] before[a]).beat_index
                            == all[j].beat_index;
                    let moved = if a < at { a } else { a + 1 };
                    assert(merged@[moved] == before[a]);
                }
            }
        }
        i += 1;
    }
    merged
}

/// Whether the periodic grid of phrases of `bars` bars has a boundary at the
/// beat. Phrases of no length, and phrases too long to count, have none.
pub open spec fn on_periodic_grid(
    beat: int,
    first_downbeat: int,
    beats_per_bar: int,
    bars: int,
) -> bool {
    let period = bars * beats_per_bar;
    &&& 0 < period <= usize::MAX
    &&& beat >= first_downbeat
    &&& (beat - first_downbeat) % period == 0
}

/// Whether the boundaries are the periodic prior: one for each beat of the track
/// on the grid of some phrase length, in the order of the beats, each with the
/// greatest strength that a phrase length gives it.
pub open spec fn is_periodic_prior(
    boundaries: Seq<PhraseBoundary>,
    beat_count: usize,
    first_downbeat: usize,
    beats_per_bar: usize,
    lengths_in_bars: Seq<usize>,
) -> bool {
    &&& forall|i: int, j: int|
        0 <= i < j < boundaries.len() ==> boundaries[i].beat_index < boundaries[j].beat_index
    &&& forall|i: int|
        0 <= i < boundaries.len() ==> is_prior_boundary(
            #[trigger] boundaries[i],
            beat_count,
            first_downbeat,
            beats_per_bar,
            lengths_in_bars,
        )
    &&& forall|beat: usize, l: int|
        0 <= l < lengths_in_bars.len() && beat < beat_count && #[trigger] on_periodic_grid(
            beat as int,
            first_downbeat as int,
            beats_per_bar as int,
            lengths_in_bars[l] as int,
        ) ==> has_beat(boundaries, beat)
}

/// Whether a boundary belongs to the periodic prior.
pub open spec fn is_prior_boundary(
    boundary: PhraseBoundary,
    beat_count: usize,
    first_downbeat: usize,
    beats_per_bar: usize,
    lengths_in_bars: Seq<usize>,
) -> bool {
    &&& boundary.beat_index < beat_count
    &&& boundary.source == PhraseBoundarySource::PeriodicPrior
    &&& exists|l: int|
        0 <= l < lengths_in_bars.len() && #[trigger] on_periodic_grid(
            boundary.beat_index as int,
            first_downbeat as int,
            beats_per_bar as int,
            lengths_in_bars[l] as int,
        ) && boundary.strength.bits() == prior_strength_bits(lengths_in_bars[l])
    &&& forall|l: int|
        0 <= l < lengths_in_bars.len() && #[trigger] on_periodic_grid(
            boundary.beat_index as int,
            first_downbeat as int,
            beats_per_bar as int,
            lengths_in_bars[l] as int,
        ) ==> prior_strength_bits(lengths_in_bars[l]) <= boundary.strength.bits()
}

/// Whether the boundaries stand for periodic cues: one for each beat that has a
/// cue, in the order of the beats, each with the greatest strength that a cue on
/// its beat gives it.
pub open spec fn is_prior_of_cues(
    boundaries: Seq<PhraseBoundary>,
    cues: Seq<PeriodicPriorCue>,
) -> bool {
    &&& forall|i: int, j: int|
        0 <= i < j < boundaries.len() ==> boundaries[i].beat_index < boundaries[j].beat_index
    &&& forall|i: int|
        0 <= i < boundaries.len() ==> is_prior_of_beat(#[trigger] boundaries[i], cues)
    &&& forall|c: int| #![trigger cues[c]]
        0 <= c < cues.len() ==> has_beat(boundaries, cues[c].beat_index)
}

/// Whether a boundary stands for the periodic cues on its beat.
pub open spec fn is_prior_of_beat(
    boundary: PhraseBoundary,
    cues: Seq<PeriodicPriorCue>,
) -> bool {
    &&& boundary.source == PhraseBoundarySource::PeriodicPrior
    &&& exists|c: int|
        0 <= c < cues.len() && (#[trigger] cues[c]).beat_index == boundary.beat_index
            && boundary.strength.bits() == prior_strength_bits(cues[c].bars)
    &&& forall|c: int|
        0 <= c < cues.len() && (#[trigger] cues[c]).beat_index == boundary.beat_index
            ==> prior_strength_bits(cues[c].bars) <= boundary.strength.bits()
}

/// Adapts the cues of a periodic grid. Every boundary keeps the periodic source.
pub fn adapt_periodic_phrase_prior(cues: &[PeriodicPriorCue]) -> (r: Vec<PhraseBoundary>)
    ensures
        is_prior_of_cues(r@, cues@),
{
    let mut boundaries: Vec<PhraseBoundary> = Vec::new();
    let mut i: usize = 0;
    while i < cues.len()
        invariant
            i <= cues@.len(),
            boundaries@.len() == i,
            forall|c: int| #![trigger boundaries@[c]]
                0 <= c < i ==> boundaries@[c].beat_index == cues@[c].beat_index
                    && boundaries@[c].source == PhraseBoundarySource::PeriodicPrior
                    && boundaries@[c].strength.wf() && boundaries@[c].strength.bits()
                    == prior_strength_bits(cues@[c].bars),
        decreases cues@.len() - i,
    {
        let cue = cues[i];
        boundaries.push(PhraseBoundary::periodic_prior(cue.beat_index, prior_strength(cue.bars)));
        i += 1;
    }
    let merged = merge_phrase_boundaries(boundaries.as_slice());
    proof {
        let all = boundaries@;
        let n = all.len() as int;
        assert forall|m: int| 0 <= m < merged@.len() implies is_prior_of_beat(
            #[trigger] merged@[m],
            cues@,
        ) by {
            let beat = merged@[m].beat_index;
            assert(stands_for_beat(merged@[m], all, n));
            let j = choose|j: int| #[trigger]
                strongest_on_beat(all, n, beat, j) && merged@[m].strength == all[j].strength;
            assert(strongest_on_beat(all, n, beat, j));
            assert(all[j].beat_index == cues@[j].beat_index);
            assert(forall|k: int| !#[trigger] observed_on_beat(all, n, beat, k));
            assert forall|c: int|
                0 <= c < cues@.len() && (#[trigger] cues@[c]).beat_index == beat implies
                prior_strength_bits(cues@[c].bars) <= merged@[m].strength.bits() by {
                assert(all[c].beat_index == cues@[c].beat_index);
                assert(on_beat(all, n, beat, c));
                assert(all[c].strength.key() <= all[j].strength.key());
                assert(all[c].strength.key() == all[c].strength.bits());
                assert(all[j].strength.key() == all[j].strength.bits());
            }
        }
        assert forall|c: int| #![trigger cues@[c]] 0 <= c < cues@.len() implies has_beat(merged@, cues@[c].beat_index) by {
            assert(all[c].beat_index == cues@[c].beat_index);
        }
    }
    merged
}

proof fn lemma_next_on_grid(beat: int, other: int, first: int, period: int)
    requires
        period > 0,
        beat >= first,
        other >= first,
        (beat - first) % period == 0,
        (other - first) % period == 0,
        beat <= other < beat + period,
    ensures
        other == beat,
{
    vstd::arithmetic::div_mod::lemma_fundamental_div_mod(beat - first, period);
    vstd::arithmetic::div_mod::lemma_fundamental_div_mod(other - first, period);
    let q1 = (beat - first) / period;
    let q2 = (other - first) / period;
    assert(q1 == q2) by (nonlinear_arith)
        requires
            period > 0,
            beat - first == period * q1,
            other - first == period * q2,
            beat <= other < beat + period,
    ;
}

proof fn lemma_step_on_grid(beat: int, first: int, period: int)
    requires
        period > 0,
        (beat - first) % period == 0,
    ensures
        (beat + period - first) % period == 0,
{
    vstd::arithmetic::div_mod::lemma_mod_add_multiples_vanish(beat - first, period);
}

/// The periodic phrase prior for given phrase lengths in bars.
pub fn periodic_phrase_prior_with_lengths(
    beat_count: usize,
    first_downbeat: usize,
    beats_per_bar: usize,
    lengths_in_bars: &[usize],
) -> (r: Vec<PhraseBoundary>)
    ensures
        is_periodic_prior(r@, beat_count, first_downbeat, beats_per_bar, lengths_in_bars@),
{
    let ghost lengths = lengths_in_bars@;
    let ghost first = first_downbeat as int;
    let mut cues: Vec<PeriodicPriorCue> = Vec::new();
    let mut i: usize = 0;
    while i < lengths_in_bars.len()
        invariant
            lengths == lengths_in_bars@,
            first == first_downbeat,
            i <= lengths.len(),
            forall|c: int|
                0 <= c < cues@.len() ==> is_grid_cue(
                    #[trigger] cues@[c],
                    beat_count,
                    first,
                    beats_per_bar as int,
                    lengths,
                ),
            forall|beat: usize, l: int|
                0 <= l < i && beat < beat_count && #[trigger] on_periodic_grid(
                    beat as int,
                    first,
                    beats_per_bar as int,
                    lengths[l] as int,
                ) ==> cues@.contains(PeriodicPriorCue { beat_index: beat, bars: lengths[l] }),
        decreases lengths.len() - i,
    {
        let bars: usize = lengths_in_bars[i];
        if let Some(period) = bars.checked_mul(beats_per_bar) {
            if period > 0 {
                let ghost p = period as int;
                let mut beat: usize = first_downbeat;
                proof {
                    vstd::arithmetic::div_mod::lemma_small_mod(0nat, p as nat);
                }
                let mut open: bool = true;
                while open && beat < beat_count
                    invariant
                        lengths == lengths_in_bars@,
                        first == first_downbeat,
                        i < lengths.len(),
                        bars == lengths[i as int],
                        p == period,
                        p > 0,
                        p == bars * beats_per_bar,
                        beat >= first,
                        (beat - first) % p == 0,
                        forall|c: int|
                            0 <= c < cues@.len() ==> is_grid_cue(
                                #[trigger] cues@[c],
                                beat_count,
                                first,
                                beats_per_bar as int,
                                lengths,
                            ),
                        forall|beat: usize, l: int|
                            0 <= l < i && beat < beat_count && #[trigger] on_periodic_grid(
                                beat as int,
                                first,
                                beats_per_bar as int,
                                lengths[l] as int,
                            ) ==> cues@.contains(
                                PeriodicPriorCue { beat_index: beat, bars: lengths[l] },
                            ),
                        forall|other: usize| #[trigger]
                            on_periodic_grid(
                                other as int,
                                first,
                                beats_per_bar as int,
                                bars as int,
                            ) && other < beat_count && (other < beat || !open) ==> cues@.contains(
                                PeriodicPriorCue { beat_index: other, bars },
                            ),
                    decreases
                        crate::time::spec_max(beat_count - beat, 0),
                        (if open { 1int } else { 0int }),
                {
                    let ghost before = cues@;
                    let cue = PeriodicPriorCue::new(beat, bars);
                    cues.push(cue);
                    proof {
                        assert(on_periodic_grid(
                            beat as int,
                            first,
                            beats_per_bar as int,
                            lengths[i as int] as int,
                        ));
                        assert(cue.beat_index < beat_count);
                        assert(cue.bars == lengths[i as int]);
                        assert(on_periodic_grid(
                            cue.beat_index as int,
                            first,
                            beats_per_bar as int,
                            lengths[i as int] as int,
                        ));
                        assert(is_grid_cue(cue, beat_count, first, beats_per_bar as int, lengths));
                        assert(forall|c: PeriodicPriorCue| before.contains(c)
                            ==> #[trigger] cues@.contains(c)) by {
                            assert forall|c: PeriodicPriorCue| before.contains(c) implies #[trigger] cues@.contains(c) by {
                                let k = choose|k: int| 0 <= k < before.len() && before[k] == c;
                                assert(cues@[k] == c);
                            }
                        }
                        assert(cues@[before.len() as int] == cue);
                        assert forall|other: usize| #[trigger]
                            on_periodic_grid(
                                other as int,
                                first,
                                beats_per_bar as int,
                                bars as int,
                            ) && other < beat_count && other < beat + p implies cues@.contains(
                            PeriodicPriorCue { beat_index: other, bars },
                        ) by {
                            if other >= beat {
                                lemma_next_on_grid(beat as int, other as int, first, p);
                            }
                        }
                        lemma_step_on_grid(beat as int, first, p);
                    }
                    match beat.checked_add(period) {
                        Some(next) => {
                            beat = next;
                        },
                        None => {
                            open = false;
                        },
                    }
                }
            }
        }
        i += 1;
    }
    let boundaries = adapt_periodic_phrase_prior(cues.as_slice());
    proof {
        lemma_prior_of_grid_cues(
            boundaries@,
            cues@,
            beat_count,
            first_downbeat,
            beats_per_bar,
            lengths,
        );
    }
    boundaries
}

proof fn lemma_prior_of_grid_cues(
    boundaries: Seq<PhraseBoundary>,
    cues: Seq<PeriodicPriorCue>,
    beat_count: usize,
    first_downbeat: usize,
    beats_per_bar: usize,
    lengths: Seq<usize>,
)
    requires
        is_prior_of_cues(boundaries, cues),
        forall|c: int|
            0 <= c < cues.len() ==> is_grid_cue(
                #[trigger] cues[c],
                beat_count,
                first_downbeat as int,
                beats_per_bar as int,
                lengths,
            ),
        forall|beat: usize, l: int|
            0 <= l < lengths.len() && beat < beat_count && #[trigger] on_periodic_grid(
                beat as int,
                first_downbeat as int,
                beats_per_bar as int,
                lengths[l] as int,
            ) ==> cues.contains(PeriodicPriorCue { beat_index: beat, bars: lengths[l] }),
    ensures
        is_periodic_prior(boundaries, beat_count, first_downbeat, beats_per_bar, lengths),
{
    let first = first_downbeat as int;
    let bpb = beats_per_bar as int;
    assert forall|m: int| 0 <= m < boundaries.len() implies is_prior_boundary(
        #[trigger] boundaries[m],
        beat_count,
        first_downbeat,
        beats_per_bar,
        lengths,
    ) by {
        let boundary = boundaries[m];
        assert(is_prior_of_beat(boundary, cues));
        let c = choose|c: int|
            0 <= c < cues.len() && (#[trigger] cues[c]).beat_index == boundary.beat_index
                && boundary.strength.bits() == prior_strength_bits(cues[c].bars);
        assert(is_grid_cue(cues[c], beat_count, first, bpb, lengths));
        assert forall|l: int|
            0 <= l < lengths.len() && #[trigger] on_periodic_grid(
                boundary.beat_index as int,
                first,
                bpb,
                lengths[l] as int,
            ) implies prior_strength_bits(lengths[l]) <= boundary.strength.bits() by {
            let cue = PeriodicPriorCue { beat_index: boundary.beat_index, bars: lengths[l] };
            assert(cues.contains(cue));
            let k = choose|k: int| 0 <= k < cues.len() && cues[k] == cue;
            assert(cues[k].beat_index == boundary.beat_index);
        }
    }
    assert forall|beat: usize, l: int|
        0 <= l < lengths.len() && beat < beat_count && #[trigger] on_periodic_grid(
            beat as int,
            first,
            bpb,
            lengths[l] as int,
        ) implies has_beat(boundaries, beat) by {
        let cue = PeriodicPriorCue { beat_index: beat, bars: lengths[l] };
        assert(cues.contains(cue));
        let k = choose|k: int| 0 <= k < cues.len() && cues[k] == cue;
        assert(cues[k].beat_index == beat);
    }
}

/// Whether a cue lies on the track and on the grid of its phrase length, which is
/// one of those given.
pub open spec fn is_grid_cue(
    cue: PeriodicPriorCue,
    beat_count: usize,
    first_downbeat: int,
    beats_per_bar: int,
    lengths_in_bars: Seq<usize>,
) -> bool {
    &&& cue.beat_index < beat_count
    &&& exists|l: int|
        0 <= l < lengths_in_bars.len() && #[trigger] on_periodic_grid(
            cue.beat_index as int,
            first_downbeat,
            beats_per_bar,
            lengths_in_bars[l] as int,
        ) && lengths_in_bars[l] == cue.bars
}

/// The periodic 4/8/16-bar phrase prior in beat coordinates.
pub fn periodic_phrase_prior(
    beat_count: usize,
    first_downbeat: usize,
    beats_per_bar: usize,
) -> (r: Vec<PhraseBoundary>)
    ensures
        is_periodic_prior(
            r@,
            beat_count,
            first_downbeat,
            beats_per_bar,
            seq![4usize, 8usize, 16usize],
        ),
{
    let lengths: [usize; 3] = [4, 8, 16];
    proof {
        assert(lengths@ =~= seq![4usize, 8usize, 16usize]);
    }
    periodic_phrase_prior_with_lengths(beat_count, first_downbeat, beats_per_bar, &lengths)
}

/// Another name of [`periodic_phrase_prior`].
pub fn periodic_phrase_boundaries(
    beat_count: usize,
    first_downbeat: usize,
    beats_per_bar: usize,
) -> (r: Vec<PhraseBoundary>)
    ensures
        is_periodic_prior(
            r@,
            beat_count,
            first_downbeat,
            beats_per_bar,
            seq![4usize, 8usize, 16usize],
        ),
{
    periodic_phrase_prior(beat_count, first_downbeat, beats_per_bar)
}

/// The periodic prior holds no observed evidence, so it blocks no mismatch.
pub proof fn periodic_prior_never_blocks(
    boundaries: Seq<PhraseBoundary>,
    beat_count: usize,
    first_downbeat: usize,
    beats_per_bar: usize,
    lengths_in_bars: Seq<usize>,
)
    requires
        is_periodic_prior(
            boundaries,
            beat_count,
            first_downbeat,
            beats_per_bar,
            lengths_in_bars,
        ),
    ensures
        !has_observed(boundaries),
{
    assert forall|i: int| 0 <= i < boundaries.len() implies #[trigger] boundaries[i].source
        == PhraseBoundarySource::PeriodicPrior by {
        assert(is_prior_boundary(
            boundaries[i],
            beat_count,
            first_downbeat,
            beats_per_bar,
            lengths_in_bars,
        ));
    }
}

/// Merging neither loses nor invents observed evidence.
pub proof fn merging_keeps_observed_evidence(
    merged: Seq<PhraseBoundary>,
    boundaries: Seq<PhraseBoundary>,
)
    requires
        is_phrase_merge(merged, boundaries),
        forall|j: int| 0 <= j < boundaries.len() ==> (#[trigger] boundaries[j]).strength.wf(),
    ensures
        has_observed(merged) <==> has_observed(boundaries),
{
    let n = boundaries.len() as int;
    if has_observed(merged) {
        let i = choose|i: int|
            0 <= i < merged.len() && #[trigger] merged[i].source
                != PhraseBoundarySource::PeriodicPrior;
        let beat = merged[i].beat_index;
        assert(stands_for_beat(merged[i], boundaries, n));
        let j = choose|j: int| #[trigger] observed_on_beat(boundaries, n, beat, j);
        assert(boundaries[j].source != PhraseBoundarySource::PeriodicPrior);
    }
    if has_observed(boundaries) {
        let j = choose|j: int|
            0 <= j < boundaries.len() && #[trigger] boundaries[j].source
                != PhraseBoundarySource::PeriodicPrior;
        let beat = boundaries[j].beat_index;
        assert(boundaries[j].strength.wf());
        assert(has_beat(merged, beat));
        let i = choose|i: int| 0 <= i < merged.len() && (#[trigger] merged[i]).beat_index == beat;
        assert(stands_for_beat(merged[i], boundaries, n));
        assert(observed_on_beat(boundaries, n, beat, j));
        let k = choose|k: int| #[trigger]
            strongest_observed(boundaries, n, beat, k) && merged[i].source
                == boundaries[k].source;
        assert(merged[i].source != PhraseBoundarySource::PeriodicPrior);
    }
}

proof fn lemma_beat_unique(
    left: PhraseBoundary,
    right: PhraseBoundary,
    boundaries: Seq<PhraseBoundary>,
    n: int,
)
    requires
        stands_for_beat(left, boundaries, n),
        stands_for_beat(right, boundaries, n),
        left.beat_index == right.beat_index,
    ensures
        left == right,
{
    let beat = left.beat_index;
    let a = choose|j: int| #[trigger]
        strongest_on_beat(boundaries, n, beat, j) && left.strength == boundaries[j].strength;
    let b = choose|j: int| #[trigger]
        strongest_on_beat(boundaries, n, beat, j) && right.strength == boundaries[j].strength;
    assert(on_beat(boundaries, n, beat, a) && on_beat(boundaries, n, beat, b));
    assert(a == b);
    if exists|j: int| #[trigger] observed_on_beat(boundaries, n, beat, j) {
        let c = choose|j: int| #[trigger]
            strongest_observed(boundaries, n, beat, j) && left.source == boundaries[j].source;
        let d = choose|j: int| #[trigger]
            strongest_observed(boundaries, n, beat, j) && right.source == boundaries[j].source;
        assert(observed_on_beat(boundaries, n, beat, c) && observed_on_beat(
            boundaries,
            n,
            beat,
            d,
        ));
        assert(c == d);
    }
}

/// Merging what is already merged changes nothing.
pub proof fn merging_is_idempotent(
    merged: Seq<PhraseBoundary>,
    again: Seq<PhraseBoundary>,
    boundaries: Seq<PhraseBoundary>,
)
    requires
        is_phrase_merge(merged, boundaries),
        is_phrase_merge(again, merged),
    ensures
        again == merged,
{
    let n = merged.len() as int;
    assert forall|i: int| 0 <= i < n implies (#[trigger] merged[i]).strength.wf() by {
        assert(stands_for_beat(merged[i], boundaries, boundaries.len() as int));
        let j = choose|j: int| #[trigger]
            strongest_on_beat(boundaries, boundaries.len() as int, merged[i].beat_index, j)
                && merged[i].strength == boundaries[j].strength;
        assert(on_beat(boundaries, boundaries.len() as int, merged[i].beat_index, j));
    }
    // A beat occurs once in `merged`, so each of its entries stands for itself.
    assert forall|i: int| 0 <= i < n implies stands_for_beat(#[trigger] merged[i], merged, n) by {
        let beat = merged[i].beat_index;
        assert forall|k: int| #[trigger] on_beat(merged, n, beat, k) implies k == i by {
            if k < i {
                assert(merged[k].beat_index < merged[i].beat_index);
            } else if i < k {
                assert(merged[i].beat_index < merged[k].beat_index);
            }
        }
        assert(on_beat(merged, n, beat, i));
        assert(strongest_on_beat(merged, n, beat, i));
        if merged[i].source != PhraseBoundarySource::PeriodicPrior {
            assert(observed_on_beat(merged, n, beat, i));
            assert forall|k: int| #[trigger] observed_on_beat(merged, n, beat, k) implies k == i by {
                assert(on_beat(merged, n, beat, k));
            }
            assert(strongest_observed(merged, n, beat, i));
        } else {
            assert forall|k: int| !#[trigger] observed_on_beat(merged, n, beat, k) by {
                if observed_on_beat(merged, n, beat, k) {
                    assert(on_beat(merged, n, beat, k));
                }
            }
        }
    }
    lemma_same_beats(again, merged, n);
}

proof fn lemma_same_beats(again: Seq<PhraseBoundary>, merged: Seq<PhraseBoundary>, n: int)
    requires
        is_phrase_merge(again, merged),
        n == merged.len(),
        forall|i: int, j: int|
            0 <= i < j < merged.len() ==> merged[i].beat_index < merged[j].beat_index,
        forall|i: int| 0 <= i < n ==> (#[trigger] merged[i]).strength.wf(),
        forall|i: int| 0 <= i < n ==> stands_for_beat(#[trigger] merged[i], merged, n),
    ensures
        again == merged,
{
    assert forall|x: int| 0 <= x < again.len() implies merged.contains(#[trigger] again[x]) by {
        assert(stands_for_beat(again[x], merged, n));
        let beat = again[x].beat_index;
        let j = choose|j: int| #[trigger]
            strongest_on_beat(merged, n, beat, j) && again[x].strength == merged[j].strength;
        assert(on_beat(merged, n, beat, j));
        lemma_beat_unique(again[x], merged[j], merged, n);
    }
    assert forall|i: int| 0 <= i < n implies again.contains(#[trigger] merged[i]) by {
        assert(has_beat(again, merged[i].beat_index));
        let x = choose|x: int|
            0 <= x < again.len() && (#[trigger] again[x]).beat_index == merged[i].beat_index;
        assert(stands_for_beat(again[x], merged, n));
        lemma_beat_unique(again[x], merged[i], merged, n);
    }
    lemma_sorted_subset_prefix(again, merged, again.len() as int);
    lemma_sorted_subset_prefix(merged, again, n);
    assert(again =~= merged);
}

proof fn lemma_sorted_subset_prefix(
    left: Seq<PhraseBoundary>,
    right: Seq<PhraseBoundary>,
    n: int,
)
    requires
        0 <= n <= left.len(),
        forall|i: int, j: int| 0 <= i < j < left.len() ==> left[i].beat_index < left[j].beat_index,
        forall|i: int, j: int|
            0 <= i < j < right.len() ==> right[i].beat_index < right[j].beat_index,
        forall|x: int| 0 <= x < left.len() ==> right.contains(#[trigger] left[x]),
        forall|x: int| 0 <= x < right.len() ==> left.contains(#[trigger] right[x]),
    ensures
        n <= right.len(),
        forall|i: int| 0 <= i < n ==> left[i] == right[i],
    decreases n,
{
    if n > 0 {
        lemma_sorted_subset_prefix(left, right, n - 1);
        assert(right.contains(left[n - 1]));
        let x = choose|x: int| 0 <= x < right.len() && right[x] == left[n - 1];
        if x < n - 1 {
            assert(left[x] == right[x]);
        } else if x > n - 1 {
            assert(left.contains(right[n - 1]));
            let y = choose|y: int| 0 <= y < left.len() && left[y] == right[n - 1];
            if y < n - 1 {
                assert(left[y] == right[y]);
                assert(right[y].beat_index < right[n - 1].beat_index);
            } else if y > n - 1 {
                assert(left[n - 1].beat_index < left[y].beat_index);
                assert(right[n - 1].beat_index < right[x].beat_index);
            }
        }
    }
}

/// Sections that pass validation are in order and do not overlap.
pub proof fn valid_sections_do_not_overlap(sections: Seq<Section>, i: int, j: int)
    requires
        first_section_error(sections, sections.len() as int) is None,
        0 <= i < j < sections.len(),
    ensures
        sections[i].start_beat < sections[i].end_beat <= sections[j].start_beat
            < sections[j].end_beat,
    decreases j - i,
{
    lemma_no_section_error(sections, i);
    lemma_no_section_error(sections, j);
    if i < j - 1 {
        valid_sections_do_not_overlap(sections, i, j - 1);
    }
}

proof fn lemma_no_section_error(sections: Seq<Section>, i: int)
    requires
        first_section_error(sections, sections.len() as int) is None,
        0 <= i < sections.len(),
    ensures
        section_error(sections, i) is None,
{
    lemma_first_section_error(sections, i + 1, sections.len() as int);
}

/// Evidence that passes validation for a grid lies on that grid.
pub proof fn valid_evidence_lies_on_the_grid(analysis: StructureAnalysis, beat_count: usize)
    requires
        analysis.error_for_beat_count(beat_count) is None,
    ensures
        forall|i: int|
            0 <= i < analysis.sections@.len() ==> (#[trigger] analysis.sections@[i]).end_beat
                <= beat_count,
        forall|i: int|
            0 <= i < analysis.phrase_boundaries@.len() ==> (
            #[trigger] analysis.phrase_boundaries@[i]).beat_index < beat_count,
{
    lemma_no_long_section(analysis.sections@, beat_count, 0);
    lemma_no_late_boundary(analysis.phrase_boundaries@, beat_count, 0);
}

proof fn lemma_no_long_section(sections: Seq<Section>, beat_count: usize, i: int)
    requires
        0 <= i,
        first_long_section(sections, beat_count, i) is None,
    ensures
        forall|j: int| i <= j < sections.len() ==> (#[trigger] sections[j]).end_beat <= beat_count,
    decreases sections.len() - i,
{
    if i < sections.len() {
        lemma_no_long_section(sections, beat_count, i + 1);
    }
}

proof fn lemma_no_late_boundary(boundaries: Seq<PhraseBoundary>, beat_count: usize, i: int)
    requires
        0 <= i,
        first_late_boundary(boundaries, beat_count, i) is None,
    ensures
        forall|j: int|
            i <= j < boundaries.len() ==> (#[trigger] boundaries[j]).beat_index < beat_count,
    decreases boundaries.len() - i,
{
    if i < boundaries.len() {
        lemma_no_late_boundary(boundaries, beat_count, i + 1);
    }
}

/// A section is told the first of these that is wrong with it: no length, a confidence out
/// of range, no labels, a label whose score is out of range. One without any is valid, and
/// then fits a grid that has at least as many beats as its end.
pub proof fn sections_are_told_their_first_error(section: Section, beat_count: usize)
    ensures
        ({
            let error = section.error();
            let scores = forall|i: int|
                0 <= i < section.labels@.len() ==> (#[trigger] section.labels@[i]).score.wf();
            let long = section.start_beat < section.end_beat;
            let sure = section.boundary_confidence.wf();
            let labels = section.labels@.len() > 0;
            &&& error == Some(StructureValidationError::InvalidSectionRange) <==> !long
            &&& error == Some(StructureValidationError::BoundaryConfidenceOutOfRange) <==> long
                && !sure
            &&& error == Some(StructureValidationError::EmptySectionLabels) <==> long && sure
                && !labels
            &&& error == Some(StructureValidationError::InvalidSectionLabelScore) <==> long
                && sure && labels && !scores
            &&& error is None <==> long && sure && labels && scores
            &&& error is Some ==> section.error_for_beat_count(beat_count) == error
            &&& error is None && section.end_beat <= beat_count ==> section.error_for_beat_count(
                beat_count,
            ) is None
            &&& error is None && section.end_beat > beat_count ==> section.error_for_beat_count(
                beat_count,
            ) == Some(
                StructureValidationError::SectionOutOfBounds {
                    start_beat: section.start_beat,
                    end_beat: section.end_beat,
                    beat_count,
                },
            )
        }),
{
}

/// A phrase boundary needs a strength in range first and a beat of the grid next.
pub proof fn boundaries_are_told_their_first_error(boundary: PhraseBoundary, beat_count: usize)
    ensures
        !boundary.strength.wf() ==> boundary.error_for_beat_count(beat_count) == Some(
            StructureValidationError::PhraseStrengthOutOfRange,
        ),
        boundary.strength.wf() && boundary.beat_index < beat_count
            ==> boundary.error_for_beat_count(beat_count) is None,
        boundary.strength.wf() && boundary.beat_index >= beat_count
            ==> boundary.error_for_beat_count(beat_count) == Some(
            StructureValidationError::PhraseBoundaryOutOfBounds {
                beat_index: boundary.beat_index,
                beat_count,
            },
        ),
{
}

/// A section among others is told its own error first, then that it starts before the one
/// before it, then that it starts before that one's end.
pub proof fn neighbors_are_checked_for_order_and_overlap(sections: Seq<Section>, i: int)
    requires
        0 < i < sections.len(),
        sections[i].error() is None,
    ensures
        sections[i].start_beat < sections[i - 1].start_beat ==> section_error(sections, i) == Some(
            StructureValidationError::SectionsNotOrdered,
        ),
        sections[i - 1].start_beat <= sections[i].start_beat < sections[i - 1].end_beat
            ==> section_error(sections, i) == Some(StructureValidationError::OverlappingSections),
        sections[i - 1].start_beat <= sections[i].start_beat && sections[i - 1].end_beat
            <= sections[i].start_beat ==> section_error(sections, i) is None,
{
}

/// The error told of a list of sections is that of the first one that has one; of a list
/// against a grid that of the first section or boundary that goes beyond it.
pub proof fn first_errors_are_told(
    sections: Seq<Section>,
    boundaries: Seq<PhraseBoundary>,
    beat_count: usize,
    n: int,
)
    requires
        0 <= n <= sections.len(),
    ensures
        first_section_error(sections, n) is None ==> forall|k: int|
            0 <= k < n ==> #[trigger] section_error(sections, k) is None,
        first_section_error(sections, n) is Some ==> exists|i: int|
            {
                &&& 0 <= i < n
                &&& #[trigger] section_error(sections, i) == first_section_error(sections, n)
                &&& forall|k: int|
                    0 <= k < i ==> #[trigger] section_error(sections, k) is None
            },
        first_long_section(sections, beat_count, 0) is None <==> forall|k: int|
            0 <= k < sections.len() ==> (#[trigger] sections[k]).end_beat <= beat_count,
        first_late_boundary(boundaries, beat_count, 0) is None <==> forall|k: int|
            0 <= k < boundaries.len() ==> (#[trigger] boundaries[k]).beat_index < beat_count,
{
    lemma_first_error_of_sections(sections, n);
    lemma_nothing_beyond(sections, boundaries, beat_count, 0);
}

proof fn lemma_first_error_of_sections(sections: Seq<Section>, n: int)
    requires
        0 <= n <= sections.len(),
    ensures
        first_section_error(sections, n) is None ==> forall|k: int|
            0 <= k < n ==> #[trigger] section_error(sections, k) is None,
        first_section_error(sections, n) is Some ==> exists|i: int|
            {
                &&& 0 <= i < n
                &&& #[trigger] section_error(sections, i) == first_section_error(sections, n)
                &&& forall|k: int|
                    0 <= k < i ==> #[trigger] section_error(sections, k) is None
            },
    decreases n,
{
    if n > 0 {
        lemma_first_error_of_sections(sections, n - 1);
        if first_section_error(sections, n - 1) is None {
            assert(section_error(sections, n - 1) == first_section_error(sections, n));
        }
    }
}

proof fn lemma_nothing_beyond(
    sections: Seq<Section>,
    boundaries: Seq<PhraseBoundary>,
    beat_count: usize,
    from: int,
)
    requires
        0 <= from,
    ensures
        first_long_section(sections, beat_count, from) is None <==> forall|k: int|
            from <= k < sections.len() ==> (#[trigger] sections[k]).end_beat <= beat_count,
        first_late_boundary(boundaries, beat_count, from) is None <==> forall|k: int|
            from <= k < boundaries.len() ==> (#[trigger] boundaries[k]).beat_index < beat_count,
    decreases sections.len() + boundaries.len() - from,
{
    if from < sections.len() || from < boundaries.len() {
        lemma_nothing_beyond(sections, boundaries, beat_count, from + 1);
    }
}

/// The prior of a phrase of 4 bars has a strength of 0.25, that of 8 bars 0.35, of 16 bars
/// 0.45, and of any other length 0.2.
pub proof fn longer_priors_are_stronger(bars: usize)
    ensures
        prior_strength_bits(4) == 0x3E80_0000,
        prior_strength_bits(8) == 0x3EB3_3333,
        prior_strength_bits(16) == 0x3EE6_6666,
        bars != 4 && bars != 8 && bars != 16 ==> prior_strength_bits(bars) == 0x3E4C_CCCD,
{
}

/// A beat lies on the periodic grid where it is a whole number of periods, of so many bars
/// with so many beats, after the first downbeat.
pub proof fn grids_repeat_after_their_period(
    first_downbeat: nat,
    beats_per_bar: nat,
    bars: nat,
    periods: nat,
    offset: nat,
)
    requires
        0 < bars * beats_per_bar <= usize::MAX,
        offset < bars * beats_per_bar,
    ensures
        on_periodic_grid(
            (first_downbeat + periods * (bars * beats_per_bar) + offset) as int,
            first_downbeat as int,
            beats_per_bar as int,
            bars as int,
        ) <==> offset == 0,
        forall|beat: int|
            beat < first_downbeat ==> !#[trigger] on_periodic_grid(
                beat,
                first_downbeat as int,
                beats_per_bar as int,
                bars as int,
            ),
{
    let period = (bars * beats_per_bar) as int;
    vstd::arithmetic::div_mod::lemma_fundamental_div_mod_converse(
        periods * period + offset,
        period,
        periods as int,
        offset as int,
    );
    assert(period * periods == periods * period) by (nonlinear_arith);
}

/// A merged boundary is as strong as the strongest valid one on its beat, and says where it
/// was found by what was observed there; only where nothing was does it stay a prior.
pub proof fn merged_boundaries_stand_for_their_beat(
    merged: PhraseBoundary,
    boundaries: Seq<PhraseBoundary>,
    j: int,
)
    requires
        stands_for_beat(merged, boundaries, boundaries.len() as int),
        0 <= j < boundaries.len(),
        boundaries[j].beat_index == merged.beat_index,
        boundaries[j].strength.wf(),
    ensures
        boundaries[j].strength.key() <= merged.strength.key(),
        boundaries[j].source != PhraseBoundarySource::PeriodicPrior ==> merged.source
            != PhraseBoundarySource::PeriodicPrior,
{
    let n = boundaries.len() as int;
    let beat = merged.beat_index;
    assert(on_beat(boundaries, n, beat, j));
    if boundaries[j].source != PhraseBoundarySource::PeriodicPrior {
        assert(observed_on_beat(boundaries, n, beat, j));
        let k = choose|k: int| #[trigger]
            strongest_observed(boundaries, n, beat, k) && merged.source == boundaries[k].source;
        assert(observed_on_beat(boundaries, n, beat, k));
    }
}

/// A prior boundary lies on the grid of one of the lengths, before the last beat, and is as
/// strong as the strongest of those whose grid it lies on.
pub proof fn prior_boundaries_lie_on_their_grid(
    boundary: PhraseBoundary,
    beat_count: usize,
    first_downbeat: usize,
    beats_per_bar: usize,
    lengths_in_bars: Seq<usize>,
    l: int,
)
    requires
        is_prior_boundary(
            boundary,
            beat_count,
            first_downbeat,
            beats_per_bar,
            lengths_in_bars,
        ),
        0 <= l < lengths_in_bars.len(),
        on_periodic_grid(
            boundary.beat_index as int,
            first_downbeat as int,
            beats_per_bar as int,
            lengths_in_bars[l] as int,
        ),
    ensures
        first_downbeat <= boundary.beat_index < beat_count,
        boundary.source == PhraseBoundarySource::PeriodicPrior,
        lengths_in_bars[l] == 4 ==> boundary.strength.bits() >= 0x3E80_0000,
        lengths_in_bars[l] == 8 ==> boundary.strength.bits() >= 0x3EB3_3333,
        lengths_in_bars[l] == 16 ==> boundary.strength.bits() >= 0x3EE6_6666,
        0x3E4C_CCCD <= boundary.strength.bits() <= 0x3EE6_6666,
{
}

/// Merging keeps every beat that has a valid boundary, each once and in order, and adds
/// none.
pub proof fn merging_keeps_every_beat(
    merged: Seq<PhraseBoundary>,
    boundaries: Seq<PhraseBoundary>,
    beat: usize,
)
    requires
        is_phrase_merge(merged, boundaries),
    ensures
        (exists|i: int| 0 <= i < merged.len() && (#[trigger] merged[i]).beat_index == beat) <==> (
        exists|j: int|
            0 <= j < boundaries.len() && (#[trigger] boundaries[j]).beat_index == beat
                && boundaries[j].strength.wf()),
        forall|i: int, j: int|
            0 <= i < j < merged.len() ==> (#[trigger] merged[i]).beat_index < (
            #[trigger] merged[j]).beat_index,
{
    let n = boundaries.len() as int;
    if exists|j: int|
        0 <= j < boundaries.len() && (#[trigger] boundaries[j]).beat_index == beat
            && boundaries[j].strength.wf() {
        let j = choose|j: int|
            0 <= j < boundaries.len() && (#[trigger] boundaries[j]).beat_index == beat
                && boundaries[j].strength.wf();
        assert(has_beat(merged, boundaries[j].beat_index));
        let i = choose|i: int| 0 <= i < merged.len() && (#[trigger] merged[i]).beat_index == beat;
        assert(merged[i].beat_index == beat);
    }
    if exists|i: int| 0 <= i < merged.len() && (#[trigger] merged[i]).beat_index == beat {
        let i = choose|i: int| 0 <= i < merged.len() && (#[trigger] merged[i]).beat_index == beat;
        assert(stands_for_beat(merged[i], boundaries, n));
        let j = choose|j: int| #[trigger]
            strongest_on_beat(boundaries, n, beat, j) && merged[i].strength
                == boundaries[j].strength;
        assert(on_beat(boundaries, n, beat, j));
        assert(boundaries[j].beat_index == beat);
    }
}

/// The cues of a periodic prior give a boundary for each of their beats, as strong as the
/// strongest of them.
pub proof fn prior_cues_keep_every_beat(
    boundaries: Seq<PhraseBoundary>,
    cues: Seq<PeriodicPriorCue>,
    c: int,
)
    requires
        is_prior_of_cues(boundaries, cues),
        0 <= c < cues.len(),
    ensures
        exists|i: int|
            {
                &&& 0 <= i < boundaries.len()
                &&& (#[trigger] boundaries[i]).beat_index == cues[c].beat_index
                &&& boundaries[i].source == PhraseBoundarySource::PeriodicPrior
                &&& prior_strength_bits(cues[c].bars) <= boundaries[i].strength.bits()
            },
{
    assert(has_beat(boundaries, cues[c].beat_index));
    let i = choose|i: int|
        0 <= i < boundaries.len() && (#[trigger] boundaries[i]).beat_index == cues[c].beat_index;
    assert(is_prior_of_beat(boundaries[i], cues));
    assert(boundaries[i].beat_index == cues[c].beat_index);
}

/// A periodic prior has a boundary on every beat of a grid, on no other, each once and in
/// order.
pub proof fn periodic_priors_cover_their_grids(
    boundaries: Seq<PhraseBoundary>,
    beat_count: usize,
    first_downbeat: usize,
    beats_per_bar: usize,
    lengths_in_bars: Seq<usize>,
    beat: usize,
)
    requires
        is_periodic_prior(
            boundaries,
            beat_count,
            first_downbeat,
            beats_per_bar,
            lengths_in_bars,
        ),
    ensures
        (exists|i: int| 0 <= i < boundaries.len() && (#[trigger] boundaries[i]).beat_index == beat)
            <==> beat < beat_count && exists|l: int|
            0 <= l < lengths_in_bars.len() && #[trigger] on_periodic_grid(
                beat as int,
                first_downbeat as int,
                beats_per_bar as int,
                lengths_in_bars[l] as int,
            ),
        forall|i: int, j: int|
            0 <= i < j < boundaries.len() ==> (#[trigger] boundaries[i]).beat_index < (
            #[trigger] boundaries[j]).beat_index,
{
    if exists|i: int| 0 <= i < boundaries.len() && (#[trigger] boundaries[i]).beat_index == beat {
        let i = choose|i: int|
            0 <= i < boundaries.len() && (#[trigger] boundaries[i]).beat_index == beat;
        assert(is_prior_boundary(
            boundaries[i],
            beat_count,
            first_downbeat,
            beats_per_bar,
            lengths_in_bars,
        ));
    }
    if beat < beat_count && exists|l: int|
        0 <= l < lengths_in_bars.len() && #[trigger] on_periodic_grid(
            beat as int,
            first_downbeat as int,
            beats_per_bar as int,
            lengths_in_bars[l] as int,
        ) {
        assert(has_beat(boundaries, beat));
        let i = choose|i: int|
            0 <= i < boundaries.len() && (#[trigger] boundaries[i]).beat_index == beat;
        assert(boundaries[i].beat_index == beat);
    }
}

/// A structure is told the error of its first faulty section, then that a boundary has a
/// strength out of range; against a grid then that there are no beats for what it holds,
/// and then the first section or boundary beyond them.
pub proof fn structures_are_told_their_first_error(
    structure: StructureAnalysis,
    beat_count: usize,
)
    ensures
        ({
            let section = first_section_error(
                structure.sections@,
                structure.sections@.len() as int,
            );
            let strong = forall|i: int|
                0 <= i < structure.phrase_boundaries@.len() ==> (
                #[trigger] structure.phrase_boundaries@[i]).strength.wf();
            let error = structure.error();
            let fitted = structure.error_for_beat_count(beat_count);
            let empty = structure.sections@.len() == 0 && structure.phrase_boundaries@.len() == 0;
            let long = first_long_section(structure.sections@, beat_count, 0);
            &&& section is Some ==> error == section
            &&& section is None && !strong ==> error == Some(
                StructureValidationError::PhraseStrengthOutOfRange,
            )
            &&& section is None && strong ==> error is None
            &&& error is Some ==> fitted == error
            &&& error is None && beat_count == 0 && !empty ==> fitted == Some(
                StructureValidationError::EmptyBeatGrid,
            )
            &&& error is None && (beat_count > 0 || empty) && long is Some ==> fitted == long
            &&& error is None && (beat_count > 0 || empty) && long is None ==> fitted
                == first_late_boundary(structure.phrase_boundaries@, beat_count, 0)
        }),
{
}

/// Something was observed just where a boundary is no mere prior.
pub proof fn observed_boundaries_are_no_priors(boundaries: Seq<PhraseBoundary>, i: int)
    requires
        0 <= i < boundaries.len(),
    ensures
        boundaries[i].source != PhraseBoundarySource::PeriodicPrior ==> has_observed(boundaries),
        (forall|k: int|
            0 <= k < boundaries.len() ==> (#[trigger] boundaries[k]).source
                == PhraseBoundarySource::PeriodicPrior) ==> !has_observed(boundaries),
{
}

/// A section has the labels that were given to it, each with a full score, and no others.
pub proof fn sections_have_the_labels_given(
    section: Section,
    start_beat: usize,
    end_beat: usize,
    boundary_confidence: u32,
    labels: Seq<SectionLabel>,
    label: SectionLabel,
)
    requires
        section.is_from_labels(start_beat, end_beat, boundary_confidence, labels),
    ensures
        section.start_beat == start_beat && section.end_beat == end_beat,
        section.boundary_confidence.bits() == clamped_bits(boundary_confidence),
        section.labels@.len() == labels.len(),
        section.labelled(label) <==> labels.contains(label),
        forall|i: int|
            0 <= i < labels.len() ==> (#[trigger] section.labels@[i]).label == labels[i]
                && section.labels@[i].score == UnitInterval::one(),
{
    if labels.contains(label) {
        let i = choose|i: int| 0 <= i < labels.len() && labels[i] == label;
        assert(section.labels@[i].label == label);
    }
    if section.labelled(label) {
        let i = choose|i: int|
            0 <= i < section.labels@.len() && #[trigger] section.labels@[i].label == label;
        assert(labels[i] == label);
    }
}

} // verus!
