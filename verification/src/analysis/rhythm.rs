//! Beat, tempo and meter observations for analysis schema V2.
//!
//! Tempo in beats per minute is held as the bits of a single-precision number.
//! A tempo that is estimated from the beat clock is handed in by the caller.

use vstd::arithmetic::power2::pow2;
use vstd::prelude::*;

use super::cue::is_nearest_beat;
use super::value::{Confidence, ModelScore, Support, UnitInterval};
use crate::scalar;
use crate::time::Duration;

verus! {

/// Bits of 60, the slowest tempo that is estimated from a beat clock.
pub const MIN_TEMPO_BPM: u32 = 0x4270_0000;

/// Bits of 220, the fastest tempo that is estimated from a beat clock.
pub const MAX_TEMPO_BPM: u32 = 0x435C_0000;

/// Bits of 0.60, the score that a meter needs at least.
pub const METER_RESOLVE_MIN_SCORE: u32 = 0x3F19_999A;

/// Bits of 0.15, by which a meter must lead every other at least.
pub const METER_RESOLVE_MIN_MARGIN: u32 = 0x3E19_999A;

/// A beat observation. Tempo, bar and local tempo are not stored here: they are
/// derived from the ordered event clock.
#[derive(Clone, Copy, Debug, PartialEq)]
pub struct BeatEvent {
    pub time: Duration,
    pub beat_model_score: Option<ModelScore>,
    pub downbeat_model_score: Option<ModelScore>,
    pub timing_confidence: Confidence,
    pub onset_support: Option<Support>,
    pub low_frequency_support: Option<Support>,
}

impl BeatEvent {
    /// Whether all scores that are present are valid.
    pub open spec fn wf(&self) -> bool {
        &&& self.timing_confidence.wf()
        &&& self.beat_model_score matches Some(score) ==> score.wf()
        &&& self.downbeat_model_score matches Some(score) ==> score.wf()
        &&& self.onset_support matches Some(support) ==> support.wf()
        &&& self.low_frequency_support matches Some(support) ==> support.wf()
    }

    pub fn new(
        time: Duration,
        beat_model_score: Option<ModelScore>,
        downbeat_model_score: Option<ModelScore>,
        timing_confidence: Confidence,
        onset_support: Option<Support>,
        low_frequency_support: Option<Support>,
    ) -> (r: Self)
        ensures
            r == (BeatEvent {
                time,
                beat_model_score,
                downbeat_model_score,
                timing_confidence,
                onset_support,
                low_frequency_support,
            }),
    {
        BeatEvent {
            time,
            beat_model_score,
            downbeat_model_score,
            timing_confidence,
            onset_support,
            low_frequency_support,
        }
    }

    /// A beat of which only the time is known.
    pub fn at(time: Duration, confidence: Confidence) -> (r: Self)
        ensures
            r == (BeatEvent {
                time,
                beat_model_score: None,
                downbeat_model_score: None,
                timing_confidence: confidence,
                onset_support: None,
                low_frequency_support: None,
            }),
    {
        BeatEvent::new(time, None, None, confidence, None, None)
    }

    pub fn validate(&self) -> (r: bool)
        ensures
            r == self.wf(),
            r,
    {
        let beat: bool = match &self.beat_model_score {
            Some(score) => score.validate(),
            None => true,
        };
        let downbeat: bool = match &self.downbeat_model_score {
            Some(score) => score.validate(),
            None => true,
        };
        let onset: bool = match &self.onset_support {
            Some(support) => support.validate(),
            None => true,
        };
        let low: bool = match &self.low_frequency_support {
            Some(support) => support.validate(),
            None => true,
        };
        self.timing_confidence.validate() && beat && downbeat && onset && low
    }

    pub fn score(&self) -> (r: Option<ModelScore>)
        ensures
            r == self.beat_model_score,
    {
        self.beat_model_score
    }

    pub fn downbeat(&self) -> (r: Option<ModelScore>)
        ensures
            r == self.downbeat_model_score,
    {
        self.downbeat_model_score
    }

    pub fn confidence(&self) -> (r: Confidence)
        ensures
            r == self.timing_confidence,
    {
        self.timing_confidence
    }
}

/// How a tempo candidate relates to the primary beat interpretation.
#[derive(Clone, Copy, Debug, PartialEq, Eq, Structural)]
pub enum TempoRelation {
    Primary,
    HalfTime,
    DoubleTime,
    Alternative,
}

pub type Relation = TempoRelation;

impl Default for TempoRelation {
    fn default() -> (r: Self)
        ensures
            r == TempoRelation::Primary,
    {
        TempoRelation::Primary
    }
}

/// Whether a tempo is a finite number above zero.
pub open spec fn is_tempo(bpm: u32) -> bool {
    scalar::spec_is_finite(bpm) && scalar::key(bpm) > 0
}

/// A tempo candidate. The tempo is kept only at hypothesis level, never per beat.
#[derive(Clone, Copy, Debug, PartialEq)]
pub struct TempoHypothesis {
    pub bpm: u32,
    pub relative_weight: UnitInterval,
    pub relation: TempoRelation,
}

impl TempoHypothesis {
    /// Whether the tempo is finite and positive, and the weight valid.
    pub open spec fn wf(&self) -> bool {
        is_tempo(self.bpm) && self.relative_weight.wf()
    }

    pub fn new(bpm: u32, relative_weight: UnitInterval, relation: TempoRelation) -> (r: Option<
        Self,
    >)
        ensures
            r == if is_tempo(bpm) {
                Some(TempoHypothesis { bpm, relative_weight, relation })
            } else {
                None
            },
    {
        TempoHypothesis::with_relation(bpm, relative_weight, relation)
    }

    pub fn with_relation(
        bpm: u32,
        relative_weight: UnitInterval,
        relation: TempoRelation,
    ) -> (r: Option<Self>)
        ensures
            r == if is_tempo(bpm) {
                Some(TempoHypothesis { bpm, relative_weight, relation })
            } else {
                None
            },
    {
        if scalar::is_finite(bpm) && scalar::less(0, bpm) {
            Some(TempoHypothesis { bpm, relative_weight, relation })
        } else {
            None
        }
    }

    pub fn validate(&self) -> (r: bool)
        ensures
            r == self.wf(),
            r == is_tempo(self.bpm),
    {
        scalar::is_finite(self.bpm) && scalar::less(0, self.bpm) && self.relative_weight.validate()
    }
}

impl Default for TempoHypothesis {
    fn default() -> (r: Self)
        ensures
            r.bpm == 0x42F0_0000,
            r.relative_weight == UnitInterval::zero(),
            r.relation == TempoRelation::Primary,
    {
        TempoHypothesis {
            bpm: 0x42F0_0000,
            relative_weight: UnitInterval::zero(),
            relation: TempoRelation::Primary,
        }
    }
}

/// A meter candidate: beats per bar and the phase of its downbeat.
#[derive(Clone, Copy, Debug, PartialEq)]
pub struct MeterHypothesis {
    pub beats_per_bar: u8,
    pub downbeat_phase: u8,
    pub score: UnitInterval,
}

/// Whether bars of this many beats, and this phase, can be told.
pub open spec fn is_meter(beats_per_bar: u8, downbeat_phase: u8) -> bool {
    &&& beats_per_bar == 2 || beats_per_bar == 3 || beats_per_bar == 4 || beats_per_bar == 6
    &&& downbeat_phase < beats_per_bar
}

fn meter_is_known(beats_per_bar: u8, downbeat_phase: u8) -> (r: bool)
    ensures
        r == is_meter(beats_per_bar, downbeat_phase),
{
    matches!(beats_per_bar, 2 | 3 | 4 | 6) && downbeat_phase < beats_per_bar
}

impl MeterHypothesis {
    /// Whether the meter can be told and its score is valid.
    pub open spec fn wf(&self) -> bool {
        is_meter(self.beats_per_bar, self.downbeat_phase) && self.score.wf()
    }

    pub fn new(beats_per_bar: u8, downbeat_phase: u8, score: UnitInterval) -> (r: Option<Self>)
        ensures
            r == if is_meter(beats_per_bar, downbeat_phase) {
                Some(MeterHypothesis { beats_per_bar, downbeat_phase, score })
            } else {
                None
            },
    {
        if meter_is_known(beats_per_bar, downbeat_phase) {
            Some(MeterHypothesis { beats_per_bar, downbeat_phase, score })
        } else {
            None
        }
    }

    pub fn validate(&self) -> (r: bool)
        ensures
            r == self.wf(),
            r == is_meter(self.beats_per_bar, self.downbeat_phase),
    {
        meter_is_known(self.beats_per_bar, self.downbeat_phase) && self.score.validate()
    }

    pub fn meter(&self) -> (r: u8)
        ensures
            r == self.beats_per_bar,
    {
        self.beats_per_bar
    }
}

impl Default for MeterHypothesis {
    fn default() -> (r: Self)
        ensures
            r == (MeterHypothesis {
                beats_per_bar: 4,
                downbeat_phase: 0,
                score: UnitInterval::zero(),
            }),
    {
        MeterHypothesis { beats_per_bar: 4, downbeat_phase: 0, score: UnitInterval::zero() }
    }
}

/// Ordered rhythm observations and competing interpretations.
#[derive(Clone, Debug, PartialEq)]
pub struct RhythmAnalysis {
    pub beats: Vec<BeatEvent>,
    pub tempo_hypotheses: Vec<TempoHypothesis>,
    pub meter_hypotheses: Vec<MeterHypothesis>,
}

impl Default for RhythmAnalysis {
    fn default() -> (r: Self)
        ensures
            r.beats@.len() == 0,
            r.tempo_hypotheses@.len() == 0,
            r.meter_hypotheses@.len() == 0,
            r.wf(),
    {
        RhythmAnalysis {
            beats: Vec::new(),
            tempo_hypotheses: Vec::new(),
            meter_hypotheses: Vec::new(),
        }
    }
}

/// Whether the times of the beats rise strictly.
pub open spec fn clock_rises(beats: Seq<BeatEvent>) -> bool {
    forall|i: int, j: int| 0 <= i < j < beats.len() ==> beats[i].time@ < beats[j].time@
}

/// The times of the beats.
pub open spec fn beat_times(beats: Seq<BeatEvent>) -> Seq<Duration> {
    beats.map_values(|beat: BeatEvent| beat.time)
}

/// Whether tempo hypothesis `i` is the strongest valid one, and the last of those.
pub open spec fn is_primary_tempo(hypotheses: Seq<TempoHypothesis>, n: int, i: int) -> bool {
    &&& 0 <= i < n
    &&& hypotheses[i].wf()
    &&& forall|k: int|
        0 <= k < n && (#[trigger] hypotheses[k]).wf() ==> {
            let other = scalar::total_key(hypotheses[k].relative_weight.bits());
            let best = scalar::total_key(hypotheses[i].relative_weight.bits());
            other <= best && (k > i ==> other < best)
        }
}

/// Whether beat `i` has the strongest downbeat score, and is the last of those.
pub open spec fn is_strongest_downbeat(beats: Seq<BeatEvent>, n: int, i: int) -> bool {
    &&& 0 <= i < n
    &&& beats[i].downbeat_model_score is Some
    &&& forall|k: int|
        0 <= k < n && (#[trigger] beats[k]).downbeat_model_score is Some ==> {
            let other = scalar::total_key(beats[k].downbeat_model_score->0.bits());
            let best = scalar::total_key(beats[i].downbeat_model_score->0.bits());
            other <= best && (k > i ==> other < best)
        }
}

impl RhythmAnalysis {
    /// Whether the beat clock rises strictly and everything in the analysis is
    /// valid.
    pub open spec fn wf(&self) -> bool {
        &&& forall|i: int| 0 <= i < self.beats@.len() ==> (#[trigger] self.beats@[i]).wf()
        &&& clock_rises(self.beats@)
        &&& forall|i: int|
            0 <= i < self.tempo_hypotheses@.len() ==> (#[trigger] self.tempo_hypotheses@[i]).wf()
        &&& forall|i: int|
            0 <= i < self.meter_hypotheses@.len() ==> (#[trigger] self.meter_hypotheses@[i]).wf()
    }

    pub fn new(
        beats: Vec<BeatEvent>,
        tempo_hypotheses: Vec<TempoHypothesis>,
        meter_hypotheses: Vec<MeterHypothesis>,
    ) -> (r: Option<Self>)
        ensures
            r == if (RhythmAnalysis { beats, tempo_hypotheses, meter_hypotheses }).wf() {
                Some(RhythmAnalysis { beats, tempo_hypotheses, meter_hypotheses })
            } else {
                None
            },
    {
        let analysis = RhythmAnalysis { beats, tempo_hypotheses, meter_hypotheses };
        if analysis.validate() {
            Some(analysis)
        } else {
            None
        }
    }

    /// Builds the analysis of a beat clock. `estimated_bpm` is the tempo that was
    /// estimated from it, if any; it becomes the primary hypothesis.
    pub fn from_beats(beats: Vec<BeatEvent>, estimated_bpm: Option<u32>) -> (r: Option<Self>)
        ensures
            r is Some <==> clock_rises(beats@),
            r matches Some(rhythm) ==> rhythm.beats == beats && rhythm.meter_hypotheses@.len() == 0
                && rhythm.tempo_hypotheses@ == match estimated_bpm {
                Some(bpm) => seq![
                    TempoHypothesis {
                        bpm,
                        relative_weight: UnitInterval::one(),
                        relation: TempoRelation::Primary,
                    },
                ],
                None => Seq::empty(),
            },
    {
        let mut analysis = RhythmAnalysis {
            beats,
            tempo_hypotheses: Vec::new(),
            meter_hypotheses: Vec::new(),
        };
        if !analysis.validate() {
            return None;
        }
        if let Some(bpm) = estimated_bpm {
            analysis.tempo_hypotheses.push(
                TempoHypothesis {
                    bpm,
                    relative_weight: UnitInterval::one(),
                    relation: TempoRelation::Primary,
                },
            );
        }
        Some(analysis)
    }

    pub fn validate(&self) -> (r: bool)
        ensures
            r == self.wf(),
            self.tempo_hypotheses@.len() == 0 && self.meter_hypotheses@.len() == 0 ==> r
                == clock_rises(self.beats@),
    {
        let mut i: usize = 0;
        while i < self.beats.len()
            invariant
                i <= self.beats@.len(),
                forall|j: int| 0 <= j < i ==> (#[trigger] self.beats@[j]).wf(),
                forall|a: int, b: int|
                    0 <= a < b < i ==> self.beats@[a].time@ < self.beats@[b].time@,
            decreases self.beats@.len() - i,
        {
            if !self.beats[i].validate() {
                return false;
            }
            if i > 0 && !self.beats[i - 1].time.shorter(self.beats[i].time) {
                proof {
                    assert(self.beats@[i - 1].time@ >= self.beats@[i as int].time@);
                }
                return false;
            }
            i += 1;
        }
        let mut t: usize = 0;
        while t < self.tempo_hypotheses.len()
            invariant
                t <= self.tempo_hypotheses@.len(),
                forall|j: int| 0 <= j < t ==> (#[trigger] self.tempo_hypotheses@[j]).wf(),
            decreases self.tempo_hypotheses@.len() - t,
        {
            if !self.tempo_hypotheses[t].validate() {
                return false;
            }
            t += 1;
        }
        let mut m: usize = 0;
        while m < self.meter_hypotheses.len()
            invariant
                m <= self.meter_hypotheses@.len(),
                forall|j: int| 0 <= j < m ==> (#[trigger] self.meter_hypotheses@[j]).wf(),
            decreases self.meter_hypotheses@.len() - m,
        {
            if !self.meter_hypotheses[m].validate() {
                return false;
            }
            m += 1;
        }
        true
    }

    /// The tempo of the strongest valid hypothesis, or else the tempo that was
    /// estimated from the beat clock.
    pub fn primary_tempo(&self, estimated_bpm: Option<u32>) -> (r: Option<u32>)
        ensures
            match r {
                Some(bpm) => (exists|i: int| #[trigger]
                    is_primary_tempo(
                        self.tempo_hypotheses@,
                        self.tempo_hypotheses@.len() as int,
                        i,
                    ) && bpm == self.tempo_hypotheses@[i].bpm) || (self.has_no_valid_tempo()
                    && estimated_bpm == Some(bpm)),
                None => self.has_no_valid_tempo() && estimated_bpm is None,
            },
    {
        match self.primary_tempo_hypothesis() {
            Some(hypothesis) => Some(hypothesis.bpm),
            None => estimated_bpm,
        }
    }

    /// Whether no tempo hypothesis is valid.
    pub open spec fn has_no_valid_tempo(&self) -> bool {
        forall|k: int|
            0 <= k < self.tempo_hypotheses@.len() ==> !(#[trigger] self.tempo_hypotheses@[k]).wf()
    }

    pub fn primary_tempo_hypothesis(&self) -> (r: Option<&TempoHypothesis>)
        ensures
            match r {
                Some(hypothesis) => exists|i: int| #[trigger]
                    is_primary_tempo(
                        self.tempo_hypotheses@,
                        self.tempo_hypotheses@.len() as int,
                        i,
                    ) && *hypothesis == self.tempo_hypotheses@[i],
                None => self.has_no_valid_tempo(),
            },
    {
        let ghost all = self.tempo_hypotheses@;
        let mut best: Option<usize> = None;
        let mut i: usize = 0;
        while i < self.tempo_hypotheses.len()
            invariant
                all == self.tempo_hypotheses@,
                i <= all.len(),
                best matches Some(b) ==> is_primary_tempo(all, i as int, b as int),
                best is None ==> forall|k: int| 0 <= k < i ==> !(#[trigger] all[k]).wf(),
            decreases all.len() - i,
        {
            if self.tempo_hypotheses[i].validate() {
                let weight: u32 = self.tempo_hypotheses[i].relative_weight.get();
                match best {
                    Some(b) => {
                        if !scalar::total_less(
                            weight,
                            self.tempo_hypotheses[b].relative_weight.get(),
                        ) {
                            best = Some(i);
                        }
                    },
                    None => {
                        best = Some(i);
                    },
                }
            }
            i += 1;
        }
        match best {
            Some(b) => Some(&self.tempo_hypotheses[b]),
            None => None,
        }
    }

    /// The beats around a beat from which the tempo there is estimated: up to four
    /// before it and up to four after it. None beyond the beats.
    pub fn local_tempo_window(&self, index: usize) -> (r: Option<(usize, usize)>)
        ensures
            match r {
                Some((from, to)) => index < self.beats@.len() && from == (if index >= 4 {
                    index - 4
                } else {
                    0
                }) && to == (if index + 5 <= self.beats@.len() {
                    index + 5
                } else {
                    self.beats@.len() as int
                }),
                None => index >= self.beats@.len(),
            },
    {
        if index >= self.beats.len() {
            return None;
        }
        let from: usize = index.saturating_sub(4);
        let end: usize = index.saturating_add(5);
        let to: usize = if end < self.beats.len() {
            end
        } else {
            self.beats.len()
        };
        Some((from, to))
    }

    /// The tempo around a beat: the one estimated from its window, or else the
    /// primary tempo. None beyond the beats.
    pub fn local_tempo_at_index(
        &self,
        index: usize,
        window_bpm: Option<u32>,
        estimated_bpm: Option<u32>,
    ) -> (r: Option<u32>)
        ensures
            index >= self.beats@.len() ==> r is None,
            index < self.beats@.len() && window_bpm is Some ==> r == window_bpm,
            index < self.beats@.len() && window_bpm is None ==> match r {
                Some(bpm) => (exists|i: int| #[trigger]
                    is_primary_tempo(
                        self.tempo_hypotheses@,
                        self.tempo_hypotheses@.len() as int,
                        i,
                    ) && bpm == self.tempo_hypotheses@[i].bpm) || (self.has_no_valid_tempo()
                    && estimated_bpm == Some(bpm)),
                None => self.has_no_valid_tempo() && estimated_bpm is None,
            },
    {
        if index >= self.beats.len() {
            return None;
        }
        match window_bpm {
            Some(bpm) => Some(bpm),
            None => self.primary_tempo(estimated_bpm),
        }
    }

    pub fn nearest_beat(&self, position: Duration) -> (r: Option<&BeatEvent>)
        ensures
            r is None <==> self.beats@.len() == 0,
            r matches Some(beat) ==> exists|i: int|
                0 <= i < self.beats@.len() && *beat == #[trigger] self.beats@[i] && (clock_rises(
                    self.beats@,
                ) ==> is_nearest_beat(beat_times(self.beats@), position, i)),
    {
        match self.nearest_beat_index(position) {
            Some(index) => Some(&self.beats[index]),
            None => None,
        }
    }

    /// The beat nearest to a position; the earlier one of two that are equally
    /// near. The beats are searched by halving, so they must be in order.
    pub fn nearest_beat_index(&self, position: Duration) -> (r: Option<usize>)
        ensures
            r is None <==> self.beats@.len() == 0,
            r matches Some(index) ==> index < self.beats@.len(),
            r matches Some(index) ==> (clock_rises(self.beats@) ==> is_nearest_beat(
                beat_times(self.beats@),
                position,
                index as int,
            )),
    {
        if self.beats.len() == 0 {
            return None;
        }
        let mut low: usize = 0;
        let mut high: usize = self.beats.len();
        while low < high
            invariant
                low <= high <= self.beats@.len(),
                clock_rises(self.beats@) ==> forall|k: int|
                    0 <= k < low ==> (#[trigger] self.beats@[k]).time@ < position@,
                clock_rises(self.beats@) ==> forall|k: int|
                    high <= k < self.beats@.len() ==> position@ <= (
                    #[trigger] self.beats@[k]).time@,
            decreases high - low,
        {
            let middle: usize = low + (high - low) / 2;
            if self.beats[middle].time.shorter(position) {
                low = middle + 1;
            } else {
                high = middle;
            }
        }
        let ghost times = beat_times(self.beats@);
        proof {
            assert(forall|k: int|
                0 <= k < times.len() ==> #[trigger] times[k] == self.beats@[k].time);
        }
        if low == 0 {
            return Some(0);
        }
        if low >= self.beats.len() {
            return Some(self.beats.len() - 1);
        }
        let before = self.beats[low - 1].time.abs_diff(position);
        let after = self.beats[low].time.abs_diff(position);
        if before.within(after) {
            Some(low - 1)
        } else {
            Some(low)
        }
    }

    /// The beats in a clock interval, both ends included, in order; none where the
    /// ends are reversed.
    pub fn beats_between(&self, start: Duration, end: Duration) -> (r: Vec<&BeatEvent>)
        ensures
            r@.len() == beats_in_span(self.beats@, start, end).len(),
            forall|i: int|
                0 <= i < r@.len() ==> *(#[trigger] r@[i]) == beats_in_span(
                    self.beats@,
                    start,
                    end,
                )[i],
    {
        let mut kept: Vec<&BeatEvent> = Vec::new();
        let mut i: usize = 0;
        while i < self.beats.len()
            invariant
                i <= self.beats@.len(),
                kept@.len() == beats_in_span(self.beats@.take(i as int), start, end).len(),
                forall|k: int|
                    0 <= k < kept@.len() ==> *(#[trigger] kept@[k]) == beats_in_span(
                        self.beats@.take(i as int),
                        start,
                        end,
                    )[k],
            decreases self.beats@.len() - i,
        {
            proof {
                reveal(Seq::filter);
                assert(self.beats@.take(i + 1).drop_last() =~= self.beats@.take(i as int));
            }
            let beat = &self.beats[i];
            if start.within(beat.time) && beat.time.within(end) {
                kept.push(beat);
            }
            i += 1;
        }
        assert(self.beats@.take(i as int) =~= self.beats@);
        kept
    }

    /// Resolves the meter only when the best candidate is both confident and
    /// meaningfully separated from every other.
    pub fn resolved_meter(&self) -> (r: Option<u8>)
        ensures
            match r {
                Some(meter) => exists|i: int| #[trigger]
                    is_resolved_meter(self.meter_hypotheses@, i) && meter
                        == self.meter_hypotheses@[i].beats_per_bar,
                None => forall|i: int| !#[trigger] is_resolved_meter(self.meter_hypotheses@, i),
            },
    {
        match self.resolved_meter_hypothesis() {
            Some(hypothesis) => Some(hypothesis.meter()),
            None => None,
        }
    }

    pub fn resolved_meter_hypothesis(&self) -> (r: Option<&MeterHypothesis>)
        ensures
            match r {
                Some(hypothesis) => exists|i: int| #[trigger]
                    is_resolved_meter(self.meter_hypotheses@, i) && *hypothesis
                        == self.meter_hypotheses@[i],
                None => forall|i: int| !#[trigger] is_resolved_meter(self.meter_hypotheses@, i),
            },
    {
        let ghost all = self.meter_hypotheses@;
        let mut best: Option<usize> = None;
        let mut i: usize = 0;
        while i < self.meter_hypotheses.len()
            invariant
                all == self.meter_hypotheses@,
                i <= all.len(),
                best matches Some(b) ==> is_best_meter(all, i as int, b as int),
                best is None ==> forall|k: int| 0 <= k < i ==> !(#[trigger] all[k]).wf(),
            decreases all.len() - i,
        {
            if self.meter_hypotheses[i].validate() {
                match best {
                    Some(b) => {
                        if scalar::total_less(
                            self.meter_hypotheses[b].score.get(),
                            self.meter_hypotheses[i].score.get(),
                        ) {
                            best = Some(i);
                        }
                    },
                    None => {
                        best = Some(i);
                    },
                }
            }
            i += 1;
        }
        let b: usize = match best {
            Some(b) => b,
            None => {
                return None;
            },
        };
        proof {
            assert forall|other: int| #[trigger] is_resolved_meter(all, other) implies other
                == b by {
                assert(is_best_meter(all, all.len() as int, other));
                assert(all[other].wf() && all[b as int].wf());
            }
        }
        let score: u32 = self.meter_hypotheses[b].score.get();
        if !scalar::at_most(METER_RESOLVE_MIN_SCORE, score) {
            return None;
        }
        let mut j: usize = 0;
        while j < self.meter_hypotheses.len()
            invariant
                all == self.meter_hypotheses@,
                j <= all.len(),
                b < all.len(),
                score == all[b as int].score.bits(),
                scalar::spec_in_unit(score),
                scalar::spec_at_most(METER_RESOLVE_MIN_SCORE, score),
                is_best_meter(all, all.len() as int, b as int),
                forall|other: int| #[trigger] is_resolved_meter(all, other) ==> other == b,
                forall|k: int|
                    0 <= k < j && k != b && (#[trigger] all[k]).wf() ==> leads_by_margin(
                        score,
                        all[k].score.bits(),
                    ),
            decreases all.len() - j,
        {
            if j != b && self.meter_hypotheses[j].validate() {
                let other: u32 = self.meter_hypotheses[j].score.get();
                if !leads(score, other) {
                    return None;
                }
            }
            j += 1;
        }
        assert(is_resolved_meter(all, b as int));
        Some(&self.meter_hypotheses[b])
    }

    /// The zero-based position in the resolved bar of the beat nearest to a clock
    /// position.
    pub fn bar_position(&self, position: Duration) -> (r: Option<u8>)
        ensures
            self.beats@.len() == 0 ==> r is None,
            self.beats@.len() > 0 ==> exists|index: int|
                0 <= index < self.beats@.len() && (clock_rises(self.beats@) ==> is_nearest_beat(
                    beat_times(self.beats@),
                    position,
                    index,
                )) && #[trigger] is_bar_position(r, self.beats@, self.meter_hypotheses@, index),
    {
        match self.nearest_beat_index(position) {
            Some(index) => self.bar_position_at_index(index),
            None => None,
        }
    }

    /// The zero-based position in the resolved bar of a beat.
    pub fn bar_position_at_index(&self, index: usize) -> (r: Option<u8>)
        ensures
            is_bar_position(r, self.beats@, self.meter_hypotheses@, index as int),
    {
        if index >= self.beats.len() {
            return None;
        }
        match self.resolved_meter_hypothesis() {
            Some(hypothesis) => {
                let ghost all = self.meter_hypotheses@;
                let ghost i = choose|i: int| #[trigger]
                    is_resolved_meter(all, i) && *hypothesis == all[i];
                proof {
                    assert(is_resolved_meter(all, i) && *hypothesis == all[i]);
                    assert(all[i].wf());
                }
                let beats: usize = hypothesis.beats_per_bar as usize;
                let phase: usize = hypothesis.downbeat_phase as usize;
                let position: usize = (index % beats + beats - phase) % beats;
                proof {
                    lemma_phase(index as int, beats as int, phase as int);
                }
                Some(position as u8)
            },
            None => None,
        }
    }

    /// The beat with the strongest downbeat score; the last one of those.
    pub fn downbeat_phase(&self) -> (r: Option<usize>)
        ensures
            match r {
                Some(index) => is_strongest_downbeat(
                    self.beats@,
                    self.beats@.len() as int,
                    index as int,
                ),
                None => forall|k: int|
                    0 <= k < self.beats@.len() ==> (
                    #[trigger] self.beats@[k]).downbeat_model_score is None,
            },
    {
        let ghost all = self.beats@;
        let mut best: Option<(usize, u32)> = None;
        let mut i: usize = 0;
        while i < self.beats.len()
            invariant
                all == self.beats@,
                i <= all.len(),
                best matches Some((b, bits)) ==> is_strongest_downbeat(all, i as int, b as int)
                    && bits == all[b as int].downbeat_model_score->0.bits(),
                best is None ==> forall|k: int|
                    0 <= k < i ==> (#[trigger] all[k]).downbeat_model_score is None,
            decreases all.len() - i,
        {
            if let Some(score) = self.beats[i].downbeat_model_score {
                let bits: u32 = score.get();
                match best {
                    Some((_, strongest)) => {
                        if !scalar::total_less(bits, strongest) {
                            best = Some((i, bits));
                        }
                    },
                    None => {
                        best = Some((i, bits));
                    },
                }
            }
            i += 1;
        }
        match best {
            Some((index, _)) => Some(index),
            None => None,
        }
    }
}

/// The beats whose time lies in the span, both ends included, in their order.
pub open spec fn beats_in_span(
    beats: Seq<BeatEvent>,
    start: Duration,
    end: Duration,
) -> Seq<BeatEvent> {
    beats.filter(|beat: BeatEvent| start@ <= beat.time@ <= end@)
}

/// A score in units of two to the power of minus 149, of which every number in
/// single precision is a multiple.
pub open spec fn score_units(bits: u32) -> int {
    let magnitude = scalar::spec_magnitude(bits);
    let exponent = magnitude / 0x80_0000;
    let fraction = magnitude % 0x80_0000;
    if exponent == 0 {
        fraction
    } else {
        (0x80_0000 + fraction) * pow2((exponent - 1) as nat)
    }
}

/// Whether a score leads another by the margin. The difference is formed in
/// single precision, to the nearest number: it reaches the margin just where the
/// exact difference lies at most half a step, two to the power of minus 27, below
/// it.
pub open spec fn leads_by_margin(score: u32, other: u32) -> bool {
    score_units(score) - score_units(other) >= score_units(METER_RESOLVE_MIN_MARGIN) - pow2(122)
}

/// Whether meter `i` has the greatest score of the valid ones, and is the first of
/// those.
pub open spec fn is_best_meter(hypotheses: Seq<MeterHypothesis>, n: int, i: int) -> bool {
    &&& 0 <= i < n
    &&& hypotheses[i].wf()
    &&& forall|k: int|
        0 <= k < n && (#[trigger] hypotheses[k]).wf() ==> {
            let other = scalar::total_key(hypotheses[k].score.bits());
            let best = scalar::total_key(hypotheses[i].score.bits());
            other <= best && (k < i ==> other < best)
        }
}

/// Whether meter `i` is the resolved one: the best, with a score that is high
/// enough, ahead of every other valid one by the margin.
pub open spec fn is_resolved_meter(hypotheses: Seq<MeterHypothesis>, i: int) -> bool {
    &&& is_best_meter(hypotheses, hypotheses.len() as int, i)
    &&& scalar::spec_at_most(METER_RESOLVE_MIN_SCORE, hypotheses[i].score.bits())
    &&& forall|k: int|
        0 <= k < hypotheses.len() && k != i && (#[trigger] hypotheses[k]).wf() ==> leads_by_margin(
            hypotheses[i].score.bits(),
            hypotheses[k].score.bits(),
        )
}

/// Whether `result` is the position of a beat in its bar: none beyond the beats or
/// without a resolved meter, and otherwise the number of beats since the last
/// downbeat.
pub open spec fn is_bar_position(
    result: Option<u8>,
    beats: Seq<BeatEvent>,
    meters: Seq<MeterHypothesis>,
    index: int,
) -> bool {
    match result {
        Some(position) => index < beats.len() && exists|i: int| #[trigger]
            is_resolved_meter(meters, i) && position == (index + meters[i].beats_per_bar
                - meters[i].downbeat_phase) % (meters[i].beats_per_bar as int),
        None => index >= beats.len() || forall|i: int| !#[trigger] is_resolved_meter(meters, i),
    }
}

proof fn lemma_phase(index: int, beats: int, phase: int)
    requires
        0 <= index,
        0 <= phase < beats,
    ensures
        (index % beats + beats - phase) % beats == (index + beats - phase) % beats,
        0 <= (index + beats - phase) % beats < beats,
{
    vstd::arithmetic::div_mod::lemma_fundamental_div_mod(index, beats);
    let q = index / beats;
    vstd::arithmetic::div_mod::lemma_mod_multiples_vanish(
        q,
        index % beats + beats - phase,
        beats,
    );
    assert(beats * q + (index % beats + beats - phase) == index + beats - phase);
}

/// Whether `significand * 2^(exponent - 1) <= limit * 2^122`.
fn scaled_at_most(significand: u64, exponent: u64, limit: u64) -> (r: bool)
    requires
        significand < 0x100_0000,
        1 <= exponent <= 127,
        1 <= limit < 0x1000_0000,
    ensures
        r == (significand * pow2((exponent - 1) as nat) <= limit * pow2(122)),
{
    if exponent >= 123 {
        let mut scaled: u64 = significand;
        let mut e: u64 = exponent;
        proof {
            vstd::arithmetic::power2::lemma2_to64();
            lemma_times_one(significand as int, pow2(0) as int);
        }
        while e > 123
            invariant
                123 <= e <= exponent <= 127,
                significand < 0x100_0000,
                scaled == significand * pow2((exponent - e) as nat),
                scaled < 0x100_0000 * pow2((exponent - e) as nat),
                pow2((exponent - e) as nat) <= 16,
                pow2(0) == 1 && pow2(1) == 2 && pow2(2) == 4 && pow2(3) == 8 && pow2(4) == 16,
            decreases e,
        {
            proof {
                vstd::arithmetic::power2::lemma_pow2_unfold((exponent - e + 1) as nat);
                let p = pow2((exponent - e) as nat);
                assert(significand * (2 * p) == 2 * (significand * p)) by (nonlinear_arith);
                assert(0x100_0000 * (2 * p) == 2 * (0x100_0000 * p));
                assert(exponent - e + 1 == 1 || exponent - e + 1 == 2 || exponent - e + 1 == 3
                    || exponent - e + 1 == 4);
            }
            scaled = scaled * 2;
            e -= 1;
        }
        proof {
            let d = (exponent - 123) as nat;
            vstd::arithmetic::power2::lemma_pow2_adds(d, 122);
            vstd::arithmetic::power2::lemma_pow2_pos(122);
            let big = pow2(122) as int;
            let small = pow2(d) as int;
            assert(significand * (small * big) == (significand * small) * big) by (nonlinear_arith);
            assert((scaled as int) * big <= (limit as int) * big <==> scaled <= limit)
                by (nonlinear_arith)
                requires
                    big > 0,
            ;
        }
        scaled <= limit
    } else {
        let mut scaled: u64 = limit;
        let mut e: u64 = exponent;
        proof {
            vstd::arithmetic::power2::lemma2_to64();
            lemma_times_one(limit as int, pow2(0) as int);
        }
        while e < 123 && scaled < 0x100_0000
            invariant
                exponent <= e <= 123,
                1 <= limit < 0x1000_0000,
                scaled < 0x1000_0000,
                scaled == limit * pow2((e - exponent) as nat),
            decreases 123 - e,
        {
            proof {
                vstd::arithmetic::power2::lemma_pow2_unfold((e - exponent + 1) as nat);
                let p = pow2((e - exponent) as nat);
                assert(limit * (2 * p) == 2 * (limit * p)) by (nonlinear_arith);
            }
            scaled = scaled * 2;
            e += 1;
        }
        proof {
            let low = (exponent - 1) as nat;
            let done = (e - exponent) as nat;
            let rest = (123 - e) as nat;
            vstd::arithmetic::power2::lemma_pow2_adds(done, rest);
            vstd::arithmetic::power2::lemma_pow2_adds(done + rest, low);
            vstd::arithmetic::power2::lemma_pow2_pos(low);
            vstd::arithmetic::power2::lemma_pow2_pos(rest);
            let a = pow2(done) as int;
            let b = pow2(rest) as int;
            let c = pow2(low) as int;
            let s = significand as int;
            let l = limit as int;
            let t = scaled as int;
            assert(pow2(122) == (a * b) * c);
            assert(l * ((a * b) * c) == ((l * a) * b) * c) by (nonlinear_arith);
            assert(t == l * a);
            assert(s * c <= (t * b) * c <==> s <= t * b) by (nonlinear_arith)
                requires
                    c > 0,
            ;
            if e < 123 {
                assert(t * b >= t) by (nonlinear_arith)
                    requires
                        b >= 1,
                        t >= 0,
                ;
            } else {
                assert(b == 1);
                assert(t * b == t) by (nonlinear_arith)
                    requires
                        b == 1,
                ;
            }
        }
        significand <= scaled
    }
}

proof fn lemma_times_one(value: int, one: int)
    requires
        one == 1,
    ensures
        value * one == value,
{
}

/// Whether a score of at least 0.60 leads another by the margin.
fn leads(score: u32, other: u32) -> (r: bool)
    requires
        scalar::spec_in_unit(score),
        scalar::spec_at_most(METER_RESOLVE_MIN_SCORE, score),
        scalar::spec_in_unit(other),
    ensures
        r == leads_by_margin(score, other),
{
    // Both in units of two to the power of minus 27.
    let steps: u64 = if score == scalar::ONE_BITS {
        0x800_0000
    } else {
        (score as u64 - 126 * 0x80_0000 + 0x80_0000) * 8
    };
    let limit: u64 = steps - 0x133_3334 + 1;
    let magnitude: u64 = if other == scalar::SIGN_BIT {
        0
    } else {
        other as u64
    };
    let exponent: u64 = magnitude / 0x80_0000;
    let fraction: u64 = magnitude % 0x80_0000;
    proof {
        lemma_units_of_margin();
        lemma_units_of_score(score, steps as int);
        vstd::arithmetic::power2::lemma2_to64();
    }
    let ghost p = pow2(122) as int;
    let r: bool = if exponent == 0 {
        scaled_at_most(fraction, 1, limit)
    } else {
        scaled_at_most(0x80_0000 + fraction, exponent, limit)
    };
    proof {
        assert(score_units(score) == steps * p);
        assert(scalar::spec_magnitude(other) == magnitude);
        if exponent == 0 {
            lemma_times_one(fraction as int, pow2(0) as int);
        }
        assert(score_units(METER_RESOLVE_MIN_MARGIN) == 0x133_3334 * p);
        assert(steps * p - 0x133_3334 * p + p == (steps - 0x133_3334 + 1) * p) by (nonlinear_arith);
    }
    r
}

proof fn lemma_units_of_margin()
    ensures
        score_units(METER_RESOLVE_MIN_MARGIN) == 0x133_3334 * pow2(122),
{
    vstd::arithmetic::power2::lemma_pow2_unfold(123);
    let p = pow2(122) as int;
    assert(score_units(METER_RESOLVE_MIN_MARGIN) == 0x99_999A * pow2(123));
    assert(0x99_999A * (2 * p) == 0x133_3334 * p);
}

proof fn lemma_units_of_score(score: u32, steps: int)
    requires
        METER_RESOLVE_MIN_SCORE <= score <= scalar::ONE_BITS,
        steps == if score == scalar::ONE_BITS {
            0x800_0000
        } else {
            (score - 126 * 0x80_0000 + 0x80_0000) * 8
        },
    ensures
        score_units(score) == steps * pow2(122),
{
    vstd::arithmetic::power2::lemma_pow2_unfold(123);
    vstd::arithmetic::power2::lemma_pow2_unfold(124);
    vstd::arithmetic::power2::lemma_pow2_unfold(125);
    vstd::arithmetic::power2::lemma_pow2_unfold(126);
    let p = pow2(122) as int;
    assert(pow2(125) == 8 * p);
    assert(pow2(126) == 16 * p);
    if score == scalar::ONE_BITS {
        assert(score_units(score) == 0x80_0000 * pow2(126));
    } else {
        let fraction = score - 126 * 0x80_0000;
        assert(score as int / 0x80_0000 == 126);
        assert(score as int % 0x80_0000 == fraction);
        assert(score_units(score) == (0x80_0000 + fraction) * pow2(125));
        assert((0x80_0000 + fraction) * (8 * p) == ((0x80_0000 + fraction) * 8) * p)
            by (nonlinear_arith);
    }
}

/// At most one meter is resolved.
pub proof fn resolved_meter_is_unique(hypotheses: Seq<MeterHypothesis>, i: int, j: int)
    requires
        is_resolved_meter(hypotheses, i),
        is_resolved_meter(hypotheses, j),
    ensures
        i == j,
{
    assert(hypotheses[i].wf() && hypotheses[j].wf());
}

/// Bar positions count the beats: the beat after one is one position further on,
/// and the position after the last in a bar is the first.
pub proof fn bar_positions_count_the_beats(
    position: u8,
    next: u8,
    beats: Seq<BeatEvent>,
    meters: Seq<MeterHypothesis>,
    index: int,
    i: int,
)
    requires
        0 <= index,
        is_resolved_meter(meters, i),
        is_bar_position(Some(position), beats, meters, index),
        is_bar_position(Some(next), beats, meters, index + 1),
    ensures
        position < meters[i].beats_per_bar,
        next == if position + 1 == meters[i].beats_per_bar {
            0
        } else {
            position + 1
        },
        position == 0 <==> (index - meters[i].downbeat_phase) % (meters[i].beats_per_bar as int)
            == 0,
{
    let a = choose|a: int| #[trigger]
        is_resolved_meter(meters, a) && position == (index + meters[a].beats_per_bar
            - meters[a].downbeat_phase) % (meters[a].beats_per_bar as int);
    let b = choose|b: int| #[trigger]
        is_resolved_meter(meters, b) && next == (index + 1 + meters[b].beats_per_bar
            - meters[b].downbeat_phase) % (meters[b].beats_per_bar as int);
    resolved_meter_is_unique(meters, i, a);
    resolved_meter_is_unique(meters, i, b);
    assert(meters[i].wf());
    let n = meters[i].beats_per_bar as int;
    let x = index + n - meters[i].downbeat_phase;
    let q = x / n;
    vstd::arithmetic::div_mod::lemma_fundamental_div_mod(x, n);
    vstd::arithmetic::div_mod::lemma_mod_sub_multiples_vanish(x, n);
    vstd::arithmetic::div_mod::lemma_mod_multiples_vanish(q, x % n + 1, n);
    if x % n + 1 == n {
        vstd::arithmetic::div_mod::lemma_mod_self_0(n);
    } else {
        vstd::arithmetic::div_mod::lemma_small_mod((x % n + 1) as nat, n as nat);
    }
}

/// A meter has 2, 3, 4 or 6 beats to the bar, and its downbeat falls on one of them.
pub proof fn meters_have_two_three_four_or_six_beats(beats_per_bar: u8, downbeat_phase: u8)
    ensures
        is_meter(beats_per_bar, downbeat_phase) ==> beats_per_bar == 2 || beats_per_bar == 3
            || beats_per_bar == 4 || beats_per_bar == 6,
        downbeat_phase >= beats_per_bar ==> !is_meter(beats_per_bar, downbeat_phase),
        downbeat_phase < 2 ==> is_meter(2, downbeat_phase),
        downbeat_phase < 3 ==> is_meter(3, downbeat_phase),
        downbeat_phase < 4 ==> is_meter(4, downbeat_phase),
        downbeat_phase < 6 ==> is_meter(6, downbeat_phase),
{
}

/// A tempo is a positive finite number.
pub proof fn tempos_are_positive_numbers(bpm: u32)
    ensures
        is_tempo(bpm) <==> 0 < bpm < 0x7F80_0000,
{
}

/// A meter is resolved only where its score is the best, at least 0.6, and ahead of every
/// other valid one by the margin, 0.15 up to rounding.
pub proof fn resolved_meters_lead_by_the_margin(
    hypotheses: Seq<MeterHypothesis>,
    i: int,
    other: int,
)
    requires
        is_resolved_meter(hypotheses, i),
        0 <= other < hypotheses.len(),
        other != i,
        hypotheses[other].wf(),
    ensures
        0 <= i < hypotheses.len(),
        hypotheses[i].wf(),
        scalar::spec_at_most(0x3F19_999A, hypotheses[i].score.bits()),
        scalar::total_key(hypotheses[other].score.bits()) <= scalar::total_key(
            hypotheses[i].score.bits(),
        ),
        score_units(hypotheses[i].score.bits()) >= score_units(hypotheses[other].score.bits())
            + score_units(0x3E19_999A) - pow2(122),
{
}

/// The beats of a span are those from its start to its end, both included.
pub proof fn spans_hold_the_beats_up_to_their_end(
    beats: Seq<BeatEvent>,
    start: Duration,
    end: Duration,
    beat: BeatEvent,
)
    ensures
        beats_in_span(beats, start, end).contains(beat) <==> beats.contains(beat) && start@
            <= beat.time@ <= end@,
{
    let inside = |beat: BeatEvent| start@ <= beat.time@ <= end@;
    let found = beats.filter(inside);
    assert(found == beats_in_span(beats, start, end));
    if found.contains(beat) {
        let i = choose|i: int| 0 <= i < found.len() && found[i] == beat;
        beats.lemma_filter_pred(inside, i);
        beats.lemma_filter_contains_rev(inside, beat);
    }
    if beats.contains(beat) && inside(beat) {
        let i = choose|i: int| 0 <= i < beats.len() && beats[i] == beat;
        beats.lemma_filter_contains(inside, i);
    }
}

/// The primary tempo is valid and has the greatest weight of the valid ones, the last of
/// those as great; the strongest downbeat likewise, and of the meters the first of those
/// as good is the best.
pub proof fn primary_hypotheses_have_the_greatest_weight(
    tempos: Seq<TempoHypothesis>,
    beats: Seq<BeatEvent>,
    meters: Seq<MeterHypothesis>,
    i: int,
    other: int,
)
    requires
        0 <= other,
    ensures
        is_primary_tempo(tempos, tempos.len() as int, i) && other < tempos.len()
            && tempos[other].wf() ==> {
            let best = scalar::total_key(tempos[i].relative_weight.bits());
            let here = scalar::total_key(tempos[other].relative_weight.bits());
            tempos[i].wf() && here <= best && (here == best ==> other <= i)
        },
        is_strongest_downbeat(beats, beats.len() as int, i) && other < beats.len()
            && beats[other].downbeat_model_score is Some ==> {
            let best = scalar::total_key(beats[i].downbeat_model_score->0.bits());
            let here = scalar::total_key(beats[other].downbeat_model_score->0.bits());
            beats[i].downbeat_model_score is Some && here <= best && (here == best ==> other <= i)
        },
        is_best_meter(meters, meters.len() as int, i) && other < meters.len() && meters[other].wf()
            ==> {
            let best = scalar::total_key(meters[i].score.bits());
            let here = scalar::total_key(meters[other].score.bits());
            meters[i].wf() && here <= best && (here == best ==> i <= other)
        },
{
}

/// The beats of a valid rhythm are valid, and each comes after those before it.
pub proof fn valid_rhythms_have_a_rising_clock(rhythm: RhythmAnalysis, i: int, j: int)
    requires
        rhythm.wf(),
        0 <= i < j < rhythm.beats@.len(),
    ensures
        rhythm.beats@[i].time@ < rhythm.beats@[j].time@,
        rhythm.beats@[i].wf() && rhythm.beats@[j].wf(),
{
}

/// Tempos are searched from 60 to 220 beats per minute.
pub proof fn tempos_are_searched_in_range()
    ensures
        MIN_TEMPO_BPM == 0x4270_0000,
        MAX_TEMPO_BPM == 0x435C_0000,
{
}

/// A score counts in units of the least number: one with a clear exponent by its digits, any
/// other by its digits and the leading one, doubled for each step of the exponent.
pub proof fn scores_count_in_least_units(bits: u32)
    ensures
        bits < 0x80_0000 ==> score_units(bits) == bits,
        0x80_0000 <= bits < 0x8000_0000 ==> score_units(bits) == (0x80_0000 + bits % 0x80_0000)
            * pow2((bits / 0x80_0000 - 1) as nat),
{
}

} // verus!
