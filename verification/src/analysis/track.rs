//! Top-level versioned track analysis record.

use vstd::prelude::*;

use super::cue::DjCue;
use super::energy::EnergyAnalysis;
use super::provenance::AnalysisProvenance;
use super::rhythm::RhythmAnalysis;
use super::structure::{Section, StructureAnalysis};
use super::tonal::TonalAnalysis;
use super::vocal::VocalAnalysis;
use crate::time::Duration;

verus! {

#[derive(Clone, Debug, PartialEq)]
pub struct TrackAnalysisV2 {
    pub duration: Duration,
    pub audible_start: Duration,
    pub audible_end: Duration,
    pub rhythm: RhythmAnalysis,
    pub structure: StructureAnalysis,
    pub tonal: TonalAnalysis,
    pub vocal: VocalAnalysis,
    pub energy: EnergyAnalysis,
    pub cues: Vec<DjCue>,
    pub provenance: AnalysisProvenance,
}

/// The index of the first section, from `i` on, that spans the beat.
pub open spec fn first_section_at(sections: Seq<Section>, beat: usize, i: int) -> Option<usize>
    decreases sections.len() - i,
{
    if i < 0 || i >= sections.len() {
        None
    } else if sections[i].start_beat <= beat < sections[i].end_beat {
        Some(i as usize)
    } else {
        first_section_at(sections, beat, i + 1)
    }
}

/// The first cue, from `i` on, that lies on the beat.
pub open spec fn first_cue_at(cues: Seq<DjCue>, beat: usize, i: int) -> Option<DjCue>
    decreases cues.len() - i,
{
    if i < 0 || i >= cues.len() {
        None
    } else if cues[i].beat_index == beat {
        Some(cues[i])
    } else {
        first_cue_at(cues, beat, i + 1)
    }
}

impl TrackAnalysisV2 {
    /// Whether nothing but the audible bounds was analyzed.
    pub open spec fn has_no_components(&self) -> bool {
        &&& self.rhythm.beats@.len() == 0
        &&& self.rhythm.tempo_hypotheses@.len() == 0
        &&& self.rhythm.meter_hypotheses@.len() == 0
        &&& self.structure.sections@.len() == 0
        &&& self.structure.phrase_boundaries@.len() == 0
        &&& self.tonal.global_key is None
        &&& self.tonal.local_windows@.len() == 0
        &&& self.tonal.alternatives@.len() == 0
        &&& self.vocal.activity@.len() == 0
        &&& self.vocal.confidences@.len() == 0
        &&& self.vocal.rate_hz == 1
        &&& self.energy.profile@.len() == 0
        &&& self.energy.confidences@.len() == 0
        &&& self.energy.rate_hz == 1
        &&& self.energy.has_no_loudness()
        &&& self.cues@.len() == 0
        &&& self.provenance.analyzer@ == "unknown"@
        &&& self.provenance.is_bare()
    }

    /// Whether the audible span fits the track.
    pub open spec fn bounds_fit(&self) -> bool {
        &&& self.duration@ > 0
        &&& self.audible_start@ <= self.audible_end@
        &&& self.audible_end@ <= self.duration@
    }

    /// Whether the audible span fits the track, all components are valid, and
    /// sections, phrases and cues lie on the beat grid.
    pub open spec fn wf(&self) -> bool {
        &&& self.bounds_fit()
        &&& self.rhythm.wf()
        &&& self.structure.error_for_beat_count(self.rhythm.beats@.len() as usize) is None
        &&& self.tonal.wf()
        &&& self.vocal.wf()
        &&& self.energy.wf()
        &&& forall|i: int|
            0 <= i < self.cues@.len() ==> (#[trigger] self.cues@[i]).beat_index
                < self.rhythm.beats@.len()
        &&& self.provenance.wf()
    }

    pub fn new(
        duration: Duration,
        audible_start: Duration,
        audible_end: Duration,
    ) -> (r: Option<Self>)
        ensures
            r is Some <==> duration@ > 0 && audible_start@ <= audible_end@ <= duration@,
            r matches Some(analysis) ==> analysis.duration == duration && analysis.audible_start
                == audible_start && analysis.audible_end == audible_end
                && analysis.has_no_components() && analysis.wf(),
    {
        let analysis = TrackAnalysisV2::bare(duration, audible_start, audible_end);
        if analysis.validate() {
            Some(analysis)
        } else {
            None
        }
    }

    fn bare(duration: Duration, audible_start: Duration, audible_end: Duration) -> (r: Self)
        ensures
            r.duration == duration,
            r.audible_start == audible_start,
            r.audible_end == audible_end,
            r.has_no_components(),
            r.wf() <==> r.bounds_fit(),
    {
        let r = TrackAnalysisV2 {
            duration,
            audible_start,
            audible_end,
            rhythm: RhythmAnalysis::default(),
            structure: StructureAnalysis::default(),
            tonal: TonalAnalysis::default(),
            vocal: VocalAnalysis::default(),
            energy: EnergyAnalysis::default(),
            cues: Vec::new(),
            provenance: AnalysisProvenance::default(),
        };
        r
    }

    pub fn from_components(
        duration: Duration,
        audible_start: Duration,
        audible_end: Duration,
        rhythm: RhythmAnalysis,
        structure: StructureAnalysis,
        tonal: TonalAnalysis,
        vocal: VocalAnalysis,
        energy: EnergyAnalysis,
        cues: Vec<DjCue>,
        provenance: AnalysisProvenance,
    ) -> (r: Option<Self>)
        ensures
            r == ({
                let analysis = TrackAnalysisV2 {
                    duration,
                    audible_start,
                    audible_end,
                    rhythm,
                    structure,
                    tonal,
                    vocal,
                    energy,
                    cues,
                    provenance,
                };
                if analysis.wf() {
                    Some(analysis)
                } else {
                    None
                }
            }),
    {
        let analysis = TrackAnalysisV2 {
            duration,
            audible_start,
            audible_end,
            rhythm,
            structure,
            tonal,
            vocal,
            energy,
            cues,
            provenance,
        };
        if analysis.validate() {
            Some(analysis)
        } else {
            None
        }
    }

    /// A track of which only the duration is known; it is audible throughout.
    pub fn unanalyzed(duration: Duration) -> (r: Self)
        ensures
            r.duration == duration,
            r.audible_start@ == 0,
            r.audible_end == duration,
            r.has_no_components(),
            r.wf() <==> duration@ > 0,
    {
        TrackAnalysisV2::bare(duration, Duration::zero(), duration)
    }

    pub fn validate(&self) -> (r: bool)
        ensures
            r == self.wf(),
    {
        let beat_count: usize = self.rhythm.beats.len();
        if self.duration.is_zero() || !self.audible_start.within(self.audible_end)
            || !self.audible_end.within(self.duration) {
            return false;
        }
        if !self.rhythm.validate() {
            return false;
        }
        if self.structure.validate_for_beat_count(beat_count).is_err() {
            return false;
        }
        if !self.tonal.validate() || !self.vocal.validate() || !self.energy.validate() {
            return false;
        }
        let mut i: usize = 0;
        while i < self.cues.len()
            invariant
                beat_count == self.rhythm.beats@.len(),
                i <= self.cues@.len(),
                forall|j: int| 0 <= j < i ==> (#[trigger] self.cues@[j]).beat_index < beat_count,
            decreases self.cues@.len() - i,
        {
            if self.cues[i].validate_for_beat_count(beat_count).is_err() {
                return false;
            }
            i += 1;
        }
        self.provenance.validate()
    }

    /// The first cue on a beat.
    pub fn cue_at(&self, beat_index: usize) -> (r: Option<&DjCue>)
        ensures
            match r {
                Some(cue) => first_cue_at(self.cues@, beat_index, 0) == Some(*cue),
                None => first_cue_at(self.cues@, beat_index, 0) is None,
            },
    {
        let mut i: usize = 0;
        while i < self.cues.len()
            invariant
                i <= self.cues@.len(),
                first_cue_at(self.cues@, beat_index, 0) == first_cue_at(
                    self.cues@,
                    beat_index,
                    i as int,
                ),
            decreases self.cues@.len() - i,
        {
            if self.cues[i].beat_index == beat_index {
                return Some(&self.cues[i]);
            }
            i += 1;
        }
        None
    }

    /// The index of the first section that spans a beat.
    pub fn section_index_at(&self, beat_index: usize) -> (r: Option<usize>)
        ensures
            r == first_section_at(self.structure.sections@, beat_index, 0),
    {
        let mut i: usize = 0;
        while i < self.structure.sections.len()
            invariant
                i <= self.structure.sections@.len(),
                first_section_at(self.structure.sections@, beat_index, 0) == first_section_at(
                    self.structure.sections@,
                    beat_index,
                    i as int,
                ),
            decreases self.structure.sections@.len() - i,
        {
            let section = &self.structure.sections[i];
            if section.start_beat <= beat_index && beat_index < section.end_beat {
                return Some(i);
            }
            i += 1;
        }
        None
    }
}

impl Default for TrackAnalysisV2 {
    fn default() -> (r: Self)
        ensures
            r.duration@ == 0,
            r.audible_start@ == 0,
            r.audible_end@ == 0,
            r.has_no_components(),
            !r.wf(),
    {
        TrackAnalysisV2::unanalyzed(Duration::zero())
    }
}

/// In a valid record every section edge, phrase boundary and cue lies on the beat
/// grid.
pub proof fn valid_record_lies_on_its_beat_grid(analysis: TrackAnalysisV2)
    requires
        analysis.wf(),
    ensures
        forall|i: int|
            0 <= i < analysis.structure.sections@.len() ==> (
            #[trigger] analysis.structure.sections@[i]).end_beat
                <= analysis.rhythm.beats@.len() as usize,
        forall|i: int|
            0 <= i < analysis.structure.phrase_boundaries@.len() ==> (
            #[trigger] analysis.structure.phrase_boundaries@[i]).beat_index
                < analysis.rhythm.beats@.len() as usize,
        forall|i: int|
            0 <= i < analysis.cues@.len() ==> (#[trigger] analysis.cues@[i]).beat_index
                < analysis.rhythm.beats@.len(),
{
    super::structure::valid_evidence_lies_on_the_grid(
        analysis.structure,
        analysis.rhythm.beats@.len() as usize,
    );
}

/// The section at a beat is the first one that has started there and not ended, and the
/// cue at a beat the first one on it; there is none just where no section or cue is.
pub proof fn first_evidence_at_a_beat_is_found(
    sections: Seq<Section>,
    cues: Seq<DjCue>,
    beat: usize,
    from: int,
)
    requires
        0 <= from,
        sections.len() <= usize::MAX,
    ensures
        match first_section_at(sections, beat, from) {
            Some(index) => {
                &&& from <= index < sections.len()
                &&& sections[index as int].start_beat <= beat < sections[index as int].end_beat
                &&& forall|k: int|
                    from <= k < index ==> !((#[trigger] sections[k]).start_beat <= beat
                        < sections[k].end_beat)
            },
            None => forall|k: int|
                from <= k < sections.len() ==> !((#[trigger] sections[k]).start_beat <= beat
                    < sections[k].end_beat),
        },
        match first_cue_at(cues, beat, from) {
            Some(cue) => exists|i: int|
                {
                    &&& from <= i < cues.len()
                    &&& #[trigger] cues[i] == cue
                    &&& cue.beat_index == beat
                    &&& forall|k: int| from <= k < i ==> (#[trigger] cues[k]).beat_index != beat
                },
            None => forall|k: int|
                from <= k < cues.len() ==> (#[trigger] cues[k]).beat_index != beat,
        },
    decreases sections.len() + cues.len() - from,
{
    if from < sections.len() || from < cues.len() {
        first_evidence_at_a_beat_is_found(sections, cues, beat, from + 1);
        if from < cues.len() {
            if cues[from].beat_index == beat {
                assert(cues[from] == cues[from]);
            } else if let Some(cue) = first_cue_at(cues, beat, from + 1) {
                let i = choose|i: int|
                    {
                        &&& from + 1 <= i < cues.len()
                        &&& #[trigger] cues[i] == cue
                        &&& cue.beat_index == beat
                        &&& forall|k: int|
                            from + 1 <= k < i ==> (#[trigger] cues[k]).beat_index != beat
                    };
                assert(cues[i] == cue);
            }
        }
    }
}

/// A valid record has a length, is heard within it, and its cues lie on its beats.
pub proof fn valid_records_are_heard_within_their_length(analysis: TrackAnalysisV2)
    ensures
        analysis.wf() ==> {
            &&& 0 < analysis.duration@
            &&& analysis.audible_start@ <= analysis.audible_end@ <= analysis.duration@
            &&& forall|i: int|
                0 <= i < analysis.cues@.len() ==> (#[trigger] analysis.cues@[i]).beat_index
                    < analysis.rhythm.beats@.len()
            &&& analysis.rhythm.wf() && analysis.tonal.wf() && analysis.vocal.wf()
                && analysis.energy.wf() && analysis.provenance.wf()
            &&& analysis.structure.error() is None
        },
        analysis.duration@ == 0 || analysis.audible_start@ > analysis.audible_end@
            || analysis.audible_end@ > analysis.duration@ ==> !analysis.bounds_fit(),
        0 < analysis.duration@ && analysis.audible_start@ <= analysis.audible_end@
            <= analysis.duration@ ==> analysis.bounds_fit(),
{
}

} // verus!
