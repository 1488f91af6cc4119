//! Decisions of the beat and structure analysis.
//!
//! Onset strengths, confidences and levels are the bits of single-precision
//! numbers; the signal arithmetic that yields them stands outside.

use vstd::prelude::*;

use crate::automix::track::TrackAnalysis;
use crate::ordering::{is_last_greatest, last_greatest};
use crate::scalar;
use crate::time::{spec_max, spec_min, Duration};

verus! {

/// The least confidence of a tempo found in the kicks (0.35).
pub const MIN_KICK_TRACK_CONFIDENCE: u32 = 0x3EB3_3333;

/// The least share of low energy that makes kicks reliable (0.015).
pub const MIN_KICK_ENERGY_RATIO: u32 = 0x3C75_C28F;

/// A marker below this confidence is not snapped to its onset (0.25).
pub const MIN_KICK_MARKER_CONFIDENCE: u32 = 0x3E80_0000;

/// The first marker needs this confidence (0.1).
pub const MIN_KICK_FIRST_CONFIDENCE: u32 = 0x3DCC_CCCD;

/// How far two tempos may differ to count as one (0.03).
pub const SAME_TEMPO_DIFFERENCE: u32 = 0x3CF5_C28F;

/// The least share of bins that must agree on a boundary (0.75).
pub const MIN_BOUNDARY_RATIO: u32 = 0x3F40_0000;

/// The least confidence of a boundary (0.65).
pub const MIN_BOUNDARY_CONFIDENCE: u32 = 0x3F26_6666;

/// A downbeat below this confidence is not moved (0.05).
pub const MIN_DOWNBEAT_CONFIDENCE: u32 = 0x3D4C_CCCD;

/// The distance from one to the next greater number.
pub const EPSILON: u32 = 0x3400_0000;

/// Whether the sample at an index is loud.
pub open spec fn is_loud(magnitudes: Seq<u32>, threshold: u32, index: int) -> bool {
    0 <= index < magnitudes.len() && scalar::spec_at_most(threshold, magnitudes[index])
}

/// The first and the last loud sample; the whole recording where none is loud.
pub fn audible_region(magnitudes: &Vec<u32>, threshold: u32) -> (r: (usize, usize))
    requires
        magnitudes@.len() > 0,
    ensures
        r.0 < magnitudes@.len(),
        r.1 < magnitudes@.len(),
        (forall|k: int| !#[trigger] is_loud(magnitudes@, threshold, k)) ==> r.0 == 0 && r.1
            == magnitudes@.len() - 1,
        (exists|k: int| #[trigger] is_loud(magnitudes@, threshold, k)) ==> {
            &&& is_loud(magnitudes@, threshold, r.0 as int)
            &&& is_loud(magnitudes@, threshold, r.1 as int)
            &&& forall|k: int| #[trigger] is_loud(magnitudes@, threshold, k) ==> r.0 <= k <= r.1
        },
{
    let mut first: Option<usize> = None;
    let mut last: usize = magnitudes.len() - 1;
    let mut i: usize = 0;
    while i < magnitudes.len()
        invariant
            magnitudes@.len() > 0,
            i <= magnitudes@.len(),
            last < magnitudes@.len(),
            first is None ==> last == magnitudes@.len() - 1 && forall|k: int|
                k < i ==> !#[trigger] is_loud(magnitudes@, threshold, k),
            first matches Some(index) ==> {
                &&& is_loud(magnitudes@, threshold, index as int)
                &&& is_loud(magnitudes@, threshold, last as int)
                &&& index < i
                &&& last < i
                &&& forall|k: int|
                    k < i && #[trigger] is_loud(magnitudes@, threshold, k) ==> index <= k <= last
            },
        decreases magnitudes@.len() - i,
    {
        if scalar::at_most(threshold, magnitudes[i]) {
            assert(is_loud(magnitudes@, threshold, i as int));
            if first.is_none() {
                first = Some(i);
            }
            last = i;
        } else {
            assert(!is_loud(magnitudes@, threshold, i as int));
        }
        i += 1;
    }
    match first {
        Some(index) => (index, last),
        None => (0, last),
    }
}

/// A tempo that was estimated: beats per minute, confidence and the lag of a beat,
/// all as bits.
#[derive(Clone, Copy, Debug, PartialEq, Eq, Structural)]
pub struct TempoEstimate {
    pub bpm: u32,
    pub confidence: u32,
    pub beat_lag: u32,
}

/// Whether the kicks are reliable: a tempo was found in them with enough
/// confidence, and they carry enough of the energy.
pub open spec fn kicks_are_reliable(low_tempo: Option<TempoEstimate>, low_energy_ratio: u32) -> bool {
    low_tempo is Some && scalar::spec_at_most(
        MIN_KICK_TRACK_CONFIDENCE,
        low_tempo->0.confidence,
    ) && scalar::spec_at_most(MIN_KICK_ENERGY_RATIO, low_energy_ratio)
}

/// Whether the kicks are reliable: a tempo was found in them with enough
/// confidence, and they carry enough of the energy.
pub fn kick_reliable(low_tempo: Option<TempoEstimate>, low_energy_ratio: u32) -> (r: bool)
    ensures
        r == kicks_are_reliable(low_tempo, low_energy_ratio),
        low_tempo is None ==> !r,
        low_tempo matches Some(tempo) && scalar::spec_less(
            tempo.confidence,
            MIN_KICK_TRACK_CONFIDENCE,
        ) ==> !r,
        scalar::spec_less(low_energy_ratio, MIN_KICK_ENERGY_RATIO) ==> !r,
        r ==> scalar::spec_at_most(MIN_KICK_TRACK_CONFIDENCE, low_tempo->0.confidence),
{
    match low_tempo {
        Some(tempo) => scalar::at_most(MIN_KICK_TRACK_CONFIDENCE, tempo.confidence)
            && scalar::at_most(MIN_KICK_ENERGY_RATIO, low_energy_ratio),
        None => false,
    }
}

/// The tempo that is gone by, from those of the kicks and of the full band.
pub open spec fn selected_tempo(
    low_tempo: Option<TempoEstimate>,
    full_tempo: Option<TempoEstimate>,
    reliable: bool,
    difference: u32,
) -> Option<TempoEstimate> {
    if !reliable || low_tempo is Some && full_tempo is Some && scalar::spec_at_most(
        difference,
        SAME_TEMPO_DIFFERENCE,
    ) {
        full_tempo
    } else {
        low_tempo
    }
}

/// The tempo that is gone by: that of the kicks where they are reliable, but that
/// of the full band where it is the same within three percent. `difference` is how
/// far the quotient of both tempos is from one.
pub fn select_tempo(
    low_tempo: Option<TempoEstimate>,
    full_tempo: Option<TempoEstimate>,
    reliable: bool,
    difference: u32,
) -> (r: Option<TempoEstimate>)
    ensures
        r == if !reliable || low_tempo is Some && full_tempo is Some && scalar::spec_at_most(
            difference,
            SAME_TEMPO_DIFFERENCE,
        ) {
            full_tempo
        } else {
            low_tempo
        },
        r == selected_tempo(low_tempo, full_tempo, reliable, difference),
        !reliable ==> r == full_tempo,
        reliable && full_tempo is None ==> r == low_tempo,
{
    if !reliable {
        return full_tempo;
    }
    if low_tempo.is_some() && full_tempo.is_some() && scalar::at_most(
        difference,
        SAME_TEMPO_DIFFERENCE,
    ) {
        full_tempo
    } else {
        low_tempo
    }
}

/// The region of onsets around a center.
pub open spec fn onset_region(len: int, center: int, radius: int) -> (int, int) {
    (spec_max(center - radius, 0), spec_min(center + radius + 1, len))
}

/// The strongest onset around a center, the last on a tie; `None` where the region
/// is empty.
pub fn strongest_onset(onsets: &Vec<u32>, center: usize, radius: usize) -> (r: Option<usize>)
    requires
        radius < usize::MAX,
    ensures
        ({
            let region = onset_region(onsets@.len() as int, center as int, radius as int);
            &&& r is None <==> region.0 >= region.1
            &&& r matches Some(index) ==> {
                &&& region.0 <= index < region.1
                &&& is_last_greatest(
                    onsets@.subrange(region.0, region.1),
                    index - region.0,
                )
            }
        }),
{
    let from: usize = if center >= radius {
        center - radius
    } else {
        0
    };
    let len: usize = onsets.len();
    let to: usize = if center > usize::MAX - radius - 1 {
        len
    } else if center + radius + 1 <= len {
        center + radius + 1
    } else {
        len
    };
    if from >= to {
        return None;
    }
    let mut region: Vec<u32> = Vec::new();
    let mut i: usize = from;
    while i < to
        invariant
            from <= i <= to <= onsets@.len(),
            region@ == onsets@.subrange(from as int, i as int),
        decreases to - i,
    {
        region.push(onsets[i]);
        assert(region@ =~= onsets@.subrange(from as int, i + 1));
        i += 1;
    }
    match last_greatest(&region) {
        Some(offset) => Some(from + offset),
        None => None,
    }
}

/// A beat that was looked for: where it was predicted, where the strongest onset
/// stands, and how strong and how sure it is.
#[derive(Clone, Copy, Debug, PartialEq, Eq, Structural)]
pub struct MarkerCandidate {
    pub predicted: usize,
    pub detected: usize,
    pub strength: u32,
    pub confidence: u32,
}

/// What beats are held against: a quarter and a tenth of the reference strength,
/// and whether the kicks are reliable.
#[derive(Clone, Copy, Debug, PartialEq, Eq, Structural)]
pub struct MarkerGate {
    pub kick_reliable: bool,
    pub quarter_reference: u32,
    pub tenth_reference: u32,
}

impl MarkerGate {
    /// Whether a beat is taken where its onset is and not where it was predicted.
    pub open spec fn snaps(self, candidate: MarkerCandidate, first: bool) -> bool {
        if self.kick_reliable {
            scalar::spec_at_most(
                if first {
                    MIN_KICK_FIRST_CONFIDENCE
                } else {
                    MIN_KICK_MARKER_CONFIDENCE
                },
                candidate.confidence,
            )
        } else {
            scalar::spec_at_most(self.tenth_reference, candidate.strength)
        }
    }

    /// Whether a beat is taken where its onset is and not where it was predicted;
    /// the first beat needs less confidence for it.
    pub fn should_snap(&self, candidate: &MarkerCandidate, first: bool) -> (r: bool)
        ensures
            r == self.snaps(*candidate, first),
    {
        if self.kick_reliable {
            let least: u32 = if first {
                MIN_KICK_FIRST_CONFIDENCE
            } else {
                MIN_KICK_MARKER_CONFIDENCE
            };
            scalar::at_most(least, candidate.confidence)
        } else {
            scalar::at_most(self.tenth_reference, candidate.strength)
        }
    }

    /// Whether the grid may start with a beat: it is audible, and sure or strong
    /// enough.
    pub open spec fn opens(self, candidate: MarkerCandidate, audible_start: usize) -> bool {
        candidate.detected + 1 >= audible_start && if self.kick_reliable {
            scalar::spec_at_most(MIN_KICK_FIRST_CONFIDENCE, candidate.confidence)
        } else {
            scalar::spec_at_most(self.quarter_reference, candidate.strength)
        }
    }
}

/// The first candidate from an index on with which the grid may start.
pub open spec fn first_opening(
    candidates: Seq<MarkerCandidate>,
    gate: MarkerGate,
    audible_start: usize,
    from: int,
) -> Option<int>
    decreases candidates.len() - from,
{
    if from >= candidates.len() {
        None
    } else if gate.opens(candidates[from], audible_start) {
        Some(from)
    } else {
        first_opening(candidates, gate, audible_start, from + 1)
    }
}

/// Where a candidate's beat is taken.
pub open spec fn beat_place(candidate: MarkerCandidate, gate: MarkerGate, first: bool) -> usize {
    if gate.snaps(candidate, first) {
        candidate.detected
    } else {
        candidate.predicted
    }
}

/// The beats of the candidates from the opening one up to an index: those that are
/// audible and later than all before.
pub open spec fn kept_beats(
    candidates: Seq<MarkerCandidate>,
    gate: MarkerGate,
    audible_end: usize,
    opening: int,
    end: int,
) -> Seq<(usize, u32)>
    decreases end - opening,
{
    if end <= opening {
        Seq::empty()
    } else {
        let rest = kept_beats(candidates, gate, audible_end, opening, end - 1);
        let place = beat_place(candidates[end - 1], gate, end - 1 == opening);
        if place <= audible_end && (rest.len() == 0 || rest.last().0 < place) {
            rest.push((place, candidates[end - 1].confidence))
        } else {
            rest
        }
    }
}

/// The places and confidences of beats.
pub open spec fn places_of(beats: Seq<(usize, u32)>) -> Seq<usize> {
    beats.map_values(|beat: (usize, u32)| beat.0)
}

/// The confidences of beats.
pub open spec fn confidences_of(beats: Seq<(usize, u32)>) -> Seq<u32> {
    beats.map_values(|beat: (usize, u32)| beat.1)
}

/// The beat markers of a track, from the first candidate with which the grid may
/// start: each beat is taken at its onset where that is sure enough, else where it
/// was predicted. Markers past the audible end, and those that do not advance, are
/// left out.
pub fn select_markers(
    candidates: &Vec<MarkerCandidate>,
    gate: &MarkerGate,
    audible_start: usize,
    audible_end: usize,
) -> (r: (Vec<usize>, Vec<u32>))
    requires
        forall|i: int| 0 <= i < candidates@.len() ==> (#[trigger] candidates@[i]).detected
            < usize::MAX,
    ensures
        match first_opening(candidates@, *gate, audible_start, 0) {
            Some(opening) => {
                let beats = kept_beats(
                    candidates@,
                    *gate,
                    audible_end,
                    opening,
                    candidates@.len() as int,
                );
                r.0@ == places_of(beats) && r.1@ == confidences_of(beats)
            },
            None => r.0@.len() == 0 && r.1@.len() == 0,
        },
{
    let mut markers: Vec<usize> = Vec::new();
    let mut confidences: Vec<u32> = Vec::new();
    let mut first: usize = 0;
    let mut found: bool = false;
    while first < candidates.len() && !found
        invariant
            first <= candidates@.len(),
            forall|i: int| 0 <= i < candidates@.len() ==> (#[trigger] candidates@[i]).detected
                < usize::MAX,
            first_opening(candidates@, *gate, audible_start, 0) == first_opening(
                candidates@,
                *gate,
                audible_start,
                first as int,
            ),
            found ==> first < candidates@.len() && gate.opens(
                candidates@[first as int],
                audible_start,
            ),
        decreases
            candidates@.len() - first,
            if found {
                0int
            } else {
                1int
            },
    {
        let candidate = candidates[first];
        let sure = if gate.kick_reliable {
            scalar::at_most(MIN_KICK_FIRST_CONFIDENCE, candidate.confidence)
        } else {
            scalar::at_most(gate.quarter_reference, candidate.strength)
        };
        if candidate.detected + 1 >= audible_start && sure {
            found = true;
        } else {
            first += 1;
        }
    }
    if !found {
        return (markers, confidences);
    }
    let mut i: usize = first;
    while i < candidates.len()
        invariant
            first <= i <= candidates@.len(),
            ({
                let beats = kept_beats(
                    candidates@,
                    *gate,
                    audible_end,
                    first as int,
                    i as int,
                );
                markers@ == places_of(beats) && confidences@ == confidences_of(beats)
            }),
        decreases candidates@.len() - i,
    {
        let ghost beats = kept_beats(candidates@, *gate, audible_end, first as int, i as int);
        let candidate = candidates[i];
        let place: usize = if gate.should_snap(&candidate, i == first) {
            candidate.detected
        } else {
            candidate.predicted
        };
        let advances = markers.len() == 0 || markers[markers.len() - 1] < place;
        if place <= audible_end && advances {
            markers.push(place);
            confidences.push(candidate.confidence);
            proof {
                let longer = beats.push((place, candidate.confidence));
                assert(places_of(longer) =~= places_of(beats).push(place));
                assert(confidences_of(longer) =~= confidences_of(beats).push(
                    candidate.confidence,
                ));
            }
        }
        i += 1;
    }
    (markers, confidences)
}

/// Beat markers stand in strictly ascending order inside the audible part.
pub proof fn markers_ascend(
    candidates: Seq<MarkerCandidate>,
    gate: MarkerGate,
    audible_end: usize,
    opening: int,
    end: int,
)
    ensures
        ({
            let beats = kept_beats(candidates, gate, audible_end, opening, end);
            &&& forall|i: int, j: int|
                0 <= i < j < beats.len() ==> (#[trigger] beats[i]).0 < (#[trigger] beats[j]).0
            &&& forall|i: int| 0 <= i < beats.len() ==> (#[trigger] beats[i]).0 <= audible_end
        }),
    decreases end - opening,
{
    if end > opening {
        markers_ascend(candidates, gate, audible_end, opening, end - 1);
        let rest = kept_beats(candidates, gate, audible_end, opening, end - 1);
        let beats = kept_beats(candidates, gate, audible_end, opening, end);
        assert forall|i: int, j: int| 0 <= i < j < beats.len() implies (#[trigger] beats[i]).0 < (
        #[trigger] beats[j]).0 by {
            if j == rest.len() {
                assert(beats[i] == rest[i]);
                assert(rest[i].0 <= rest[rest.len() - 1].0);
            } else {
                assert(beats[i] == rest[i] && beats[j] == rest[j]);
            }
        }
    }
}

/// Where boundaries of intro and outro are looked for, in bins of the profile.
#[derive(Clone, Copy, Debug, PartialEq, Eq, Structural)]
pub struct StructureSearch {
    pub minimum_edge: usize,
    pub core_run: usize,
    pub intro_from: usize,
    pub intro_to: usize,
    pub outro_from: usize,
    pub outro_to: usize,
}

/// How far from either end of the profile a boundary is looked for: 35 percent of
/// it, at least an edge and a core, and no more than thirty seconds.
pub open spec fn search_length(len: int, rate: int) -> int {
    spec_min(spec_min(spec_max(len * 35 / 100, rate + 4 * rate), rate * 30), len)
}

/// Where boundaries of intro and outro are looked for in a profile of so many bins
/// at so many bins a second: an edge lasts at least a second and the core beside it
/// four. `None` for a profile too short for both edges and a core.
pub fn structure_search(len: usize, rate: usize) -> (r: Option<StructureSearch>)
    requires
        len * 35 <= usize::MAX,
        rate * 30 <= usize::MAX,
    ensures
        r is Some <==> len >= 6 * rate,
        r matches Some(search) ==> {
            &&& search.minimum_edge == rate
            &&& search.core_run == 4 * rate
            &&& search.intro_from == rate
            &&& search.intro_to == spec_max(search_length(len as int, rate as int) - 4 * rate, 0)
            &&& search.outro_from == spec_max(
                len - search_length(len as int, rate as int),
                4 * rate as int,
            )
            &&& search.outro_to == len - rate
            &&& search.intro_to + search.core_run <= len
            &&& search.outro_from >= search.core_run
        },
{
    let minimum_edge: usize = rate;
    let core_run: usize = rate * 4;
    if len < minimum_edge * 2 + core_run {
        return None;
    }
    let share: usize = (len * 35) / 100;
    let least: usize = minimum_edge + core_run;
    let mut search: usize = if share >= least {
        share
    } else {
        least
    };
    if search > rate * 30 {
        search = rate * 30;
    }
    if search > len {
        search = len;
    }
    let intro_to: usize = if search >= core_run {
        search - core_run
    } else {
        0
    };
    let outro_from: usize = if len - search >= core_run {
        len - search
    } else {
        core_run
    };
    Some(
        StructureSearch {
            minimum_edge,
            core_run,
            intro_from: minimum_edge,
            intro_to,
            outro_from,
            outro_to: len - minimum_edge,
        },
    )
}

/// What a possible boundary looks like. Ratios and the confidence are bits.
#[derive(Clone, Copy, Debug, PartialEq, Eq, Structural)]
pub struct BoundaryEvidence {
    /// Share of weak bins on the side of the edge.
    pub weak_ratio: u32,
    /// Share of weak bins right at the boundary.
    pub immediate_weak: u32,
    /// Share of strong bins on the side of the core.
    pub core_ratio: u32,
    /// How many strong bins in a row the edge holds.
    pub longest_recovery: usize,
    pub confidence: u32,
}

impl BoundaryEvidence {
    /// Whether there is a boundary whose edge recovers for less than so many bins.
    pub open spec fn holds(self, recovery_limit: int) -> bool {
        &&& !scalar::spec_less(self.weak_ratio, MIN_BOUNDARY_RATIO)
        &&& !scalar::spec_less(self.immediate_weak, MIN_BOUNDARY_RATIO)
        &&& !scalar::spec_less(self.core_ratio, MIN_BOUNDARY_RATIO)
        &&& self.longest_recovery < recovery_limit
        &&& scalar::spec_at_most(MIN_BOUNDARY_CONFIDENCE, self.confidence)
    }

    /// Whether there is a boundary whose edge recovers for less than so many bins:
    /// three quarters of the edge are weak, also right at the boundary, three
    /// quarters of the core are strong, and the whole is sure enough.
    pub fn is_boundary(&self, recovery_limit: usize) -> (r: bool)
        ensures
            r == self.holds(recovery_limit as int),
    {
        !scalar::less(self.weak_ratio, MIN_BOUNDARY_RATIO) && !scalar::less(
            self.immediate_weak,
            MIN_BOUNDARY_RATIO,
        ) && !scalar::less(self.core_ratio, MIN_BOUNDARY_RATIO) && self.longest_recovery
            < recovery_limit && scalar::at_most(MIN_BOUNDARY_CONFIDENCE, self.confidence)
    }
}

/// The first of some boundaries, from an index on, whose edge recovers for less than
/// so many bins.
pub open spec fn first_holding(
    evidence: Seq<BoundaryEvidence>,
    recovery_limit: int,
    from: int,
) -> Option<int>
    decreases evidence.len() - from,
{
    if from >= evidence.len() {
        None
    } else if evidence[from].holds(recovery_limit) {
        Some(from)
    } else {
        first_holding(evidence, recovery_limit, from + 1)
    }
}

/// The first boundary of a search, with its confidence, where the evidence is that
/// of the bins from one on.
pub fn first_boundary(
    evidence: &Vec<BoundaryEvidence>,
    first_bin: usize,
    recovery_limit: usize,
) -> (r: Option<(usize, u32)>)
    requires
        first_bin + evidence@.len() <= usize::MAX,
    ensures
        match first_holding(evidence@, recovery_limit as int, 0) {
            None => r is None,
            Some(index) => r == Some(
                ((first_bin + index) as usize, evidence@[index].confidence),
            ),
        },
{
    let mut i: usize = 0;
    while i < evidence.len()
        invariant
            i <= evidence@.len(),
            first_bin + evidence@.len() <= usize::MAX,
            first_holding(evidence@, recovery_limit as int, 0) == first_holding(
                evidence@,
                recovery_limit as int,
                i as int,
            ),
        decreases evidence@.len() - i,
    {
        if evidence[i].is_boundary(recovery_limit) {
            return Some((first_bin + i, evidence[i].confidence));
        }
        i += 1;
    }
    None
}

/// How many of the first `n` values are at most a threshold.
pub open spec fn weak_count(values: Seq<u32>, threshold: u32, n: int) -> nat
    decreases n,
{
    if n <= 0 {
        0
    } else {
        weak_count(values, threshold, n - 1) + if scalar::spec_at_most(values[n - 1], threshold) {
            1nat
        } else {
            0nat
        }
    }
}

/// How many of the first `n` values reach a threshold.
pub open spec fn strong_count(values: Seq<u32>, threshold: u32, n: int) -> nat
    decreases n,
{
    if n <= 0 {
        0
    } else {
        strong_count(values, threshold, n - 1) + if scalar::spec_at_most(threshold, values[n - 1]) {
            1nat
        } else {
            0nat
        }
    }
}

/// How many values are at most a threshold.
pub fn count_weak(values: &Vec<u32>, threshold: u32) -> (r: usize)
    ensures
        r == weak_count(values@, threshold, values@.len() as int),
{
    let mut count: usize = 0;
    let mut i: usize = 0;
    while i < values.len()
        invariant
            i <= values@.len(),
            count <= i,
            count == weak_count(values@, threshold, i as int),
        decreases values@.len() - i,
    {
        if scalar::at_most(values[i], threshold) {
            count += 1;
        }
        i += 1;
    }
    count
}

/// How many values reach a threshold.
pub fn count_strong(values: &Vec<u32>, threshold: u32) -> (r: usize)
    ensures
        r == strong_count(values@, threshold, values@.len() as int),
{
    let mut count: usize = 0;
    let mut i: usize = 0;
    while i < values.len()
        invariant
            i <= values@.len(),
            count <= i,
            count == strong_count(values@, threshold, i as int),
        decreases values@.len() - i,
    {
        if scalar::at_most(threshold, values[i]) {
            count += 1;
        }
        i += 1;
    }
    count
}

/// How many strong values in a row end at each index.
pub open spec fn run_ending_at(values: Seq<u32>, threshold: u32, index: int) -> int
    decreases index + 1,
{
    if index < 0 || !scalar::spec_at_most(threshold, values[index]) {
        0
    } else {
        run_ending_at(values, threshold, index - 1) + 1
    }
}

/// The longest run of values at or above a threshold.
pub fn longest_run(values: &Vec<u32>, threshold: u32) -> (r: usize)
    ensures
        r <= values@.len(),
        forall|i: int|
            0 <= i < values@.len() ==> #[trigger] run_ending_at(values@, threshold, i) <= r,
        r > 0 ==> exists|i: int|
            0 <= i < values@.len() && #[trigger] run_ending_at(values@, threshold, i) == r,
{
    let mut longest: usize = 0;
    let mut current: usize = 0;
    let mut i: usize = 0;
    while i < values.len()
        invariant
            i <= values@.len(),
            current == run_ending_at(values@, threshold, i - 1),
            current <= i,
            longest <= i,
            forall|k: int| 0 <= k < i ==> #[trigger] run_ending_at(values@, threshold, k) <= longest,
            longest > 0 ==> exists|k: int|
                0 <= k < i && #[trigger] run_ending_at(values@, threshold, k) == longest,
        decreases values@.len() - i,
    {
        if scalar::at_most(threshold, values[i]) {
            current += 1;
        } else {
            current = 0;
        }
        assert(current == run_ending_at(values@, threshold, i as int));
        if current > longest {
            longest = current;
        }
        i += 1;
    }
    longest
}

/// Where intro and outro lie; confidences are bits.
#[derive(Clone, Copy, Debug, PartialEq, Eq, Structural)]
pub struct EnergyStructure {
    pub intro_end: Option<Duration>,
    pub intro_confidence: u32,
    pub outro_start: Option<Duration>,
    pub outro_confidence: u32,
}

/// Settles the boundaries that were found. An intro that does not end before the
/// outro begins contradicts it: the less sure one is dropped, the intro on a tie.
pub fn settle_structure(intro: Option<(Duration, u32)>, outro: Option<(Duration, u32)>) -> (r:
    EnergyStructure)
    ensures
        ({
            let conflict = intro is Some && outro is Some && (intro->0).0@ >= (outro->0).0@;
            let keep_outro = scalar::spec_at_most((intro->0).1, (outro->0).1);
            let keeps_intro = intro is Some && !(conflict && keep_outro);
            let keeps_outro = outro is Some && !(conflict && !keep_outro);
            &&& r.intro_end == if keeps_intro {
                Some((intro->0).0)
            } else {
                None
            }
            &&& r.intro_confidence == if keeps_intro {
                (intro->0).1
            } else {
                0
            }
            &&& r.outro_start == if keeps_outro {
                Some((outro->0).0)
            } else {
                None
            }
            &&& r.outro_confidence == if keeps_outro {
                (outro->0).1
            } else {
                0
            }
        }),
        r.intro_end is Some && r.outro_start is Some ==> r.intro_end->0@ < r.outro_start->0@,
{
    let mut structure = EnergyStructure {
        intro_end: None,
        intro_confidence: 0,
        outro_start: None,
        outro_confidence: 0,
    };
    if let Some((end, confidence)) = intro {
        structure.intro_end = Some(end);
        structure.intro_confidence = confidence;
    }
    if let Some((start, confidence)) = outro {
        structure.outro_start = Some(start);
        structure.outro_confidence = confidence;
    }
    if let (Some((end, intro_confidence)), Some((start, outro_confidence))) = (intro, outro) {
        if start.within(end) {
            if scalar::at_most(intro_confidence, outro_confidence) {
                structure.intro_end = None;
                structure.intro_confidence = 0;
            } else {
                structure.outro_start = None;
                structure.outro_confidence = 0;
            }
        }
    }
    structure
}

/// The greatest of the onsets in a region, and at least zero.
pub open spec fn accent_in(onsets: Seq<u32>, from: int, to: int) -> u32
    decreases to - from,
{
    if from >= to {
        0
    } else {
        scalar::spec_greater(accent_in(onsets, from, to - 1), onsets[to - 1])
    }
}

/// The accents of the beats from a position on, a lag apart: the greatest onset next
/// to each.
pub open spec fn accents_from(onsets: Seq<u32>, position: int, lag: int) -> Seq<u32>
    decreases onsets.len() - position + lag,
{
    if lag <= 0 || position >= onsets.len() {
        Seq::empty()
    } else {
        let region = onset_region(onsets.len() as int, position, 1);
        seq![accent_in(onsets, region.0, region.1)] + accents_from(onsets, position + lag, lag)
    }
}

fn accent_between(onsets: &Vec<u32>, from: usize, to: usize) -> (r: u32)
    requires
        from <= to <= onsets@.len(),
    ensures
        r == accent_in(onsets@, from as int, to as int),
{
    let mut accent: u32 = 0;
    let mut i: usize = from;
    while i < to
        invariant
            from <= i <= to <= onsets@.len(),
            accent == accent_in(onsets@, from as int, i as int),
        decreases to - i,
    {
        accent = scalar::greater(accent, onsets[i]);
        i += 1;
    }
    accent
}

/// The accents of the beats from the first one on: the greatest onset next to each.
pub fn beat_accents(onsets: &Vec<u32>, first_beat: usize, beat_lag: usize) -> (r: Vec<u32>)
    ensures
        r@ == accents_from(onsets@, first_beat as int, beat_lag as int),
{
    let ghost all = accents_from(onsets@, first_beat as int, beat_lag as int);
    let mut accents: Vec<u32> = Vec::new();
    if beat_lag == 0 {
        return accents;
    }
    let mut position: usize = first_beat;
    assert(accents@ + all =~= all);
    while position < onsets.len()
        invariant
            beat_lag > 0,
            all == accents_from(onsets@, first_beat as int, beat_lag as int),
            accents@ + accents_from(onsets@, position as int, beat_lag as int) == all,
        decreases onsets@.len() - position,
    {
        let from: usize = if position > 0 {
            position - 1
        } else {
            0
        };
        let to: usize = if position + 1 < onsets.len() {
            position + 2
        } else {
            onsets.len()
        };
        let ghost before = accents@;
        let accent: u32 = accent_between(onsets, from, to);
        accents.push(accent);
        proof {
            let tail = accents_from(onsets@, position + beat_lag, beat_lag as int);
            assert(before + (seq![accent] + tail) =~= accents@ + tail);
        }
        if beat_lag >= onsets.len() - position {
            assert(accents_from(onsets@, position + beat_lag, beat_lag as int) =~= Seq::<
                u32,
            >::empty());
            assert(accents@ =~= all);
            return accents;
        }
        position += beat_lag;
    }
    assert(accents@ =~= all);
    accents
}

/// The phase of a bar whose beats are accented most, the earliest on a tie, with
/// the two highest mean accents.
pub open spec fn is_ranked_phase(means: Seq<u32>, phase: int, second: u32) -> bool {
    &&& 0 <= phase < means.len()
    &&& forall|k: int|
        0 <= k < means.len() ==> scalar::total_key(#[trigger] means[k]) <= scalar::total_key(
            means[phase],
        )
    &&& forall|k: int|
        0 <= k < phase ==> scalar::total_key(#[trigger] means[k]) < scalar::total_key(means[phase])
    &&& exists|k: int|
        0 <= k < means.len() && k != phase && #[trigger] means[k] == second && forall|other: int|
            0 <= other < means.len() && other != phase ==> scalar::total_key(
                #[trigger] means[other],
            ) <= scalar::total_key(second)
}

/// Ranks the mean accents of the four beats of a bar: the phase with the highest,
/// the earliest on a tie, and the highest of the others.
pub fn rank_phases(means: &Vec<u32>) -> (r: (usize, u32))
    requires
        means@.len() >= 2,
    ensures
        is_ranked_phase(means@, r.0 as int, r.1),
{
    let mut phase: usize = 0;
    let mut i: usize = 1;
    while i < means.len()
        invariant
            1 <= i <= means@.len(),
            phase < i,
            forall|k: int|
                0 <= k < i ==> scalar::total_key(#[trigger] means@[k]) <= scalar::total_key(
                    means@[phase as int],
                ),
            forall|k: int|
                0 <= k < phase ==> scalar::total_key(#[trigger] means@[k]) < scalar::total_key(
                    means@[phase as int],
                ),
        decreases means@.len() - i,
    {
        if scalar::total_less(means[phase], means[i]) {
            phase = i;
        }
        i += 1;
    }
    let mut other: usize = if phase == 0 {
        1
    } else {
        0
    };
    let mut j: usize = 0;
    while j < means.len()
        invariant
            j <= means@.len(),
            other < means@.len(),
            other != phase,
            forall|k: int|
                0 <= k < j && k != phase ==> scalar::total_key(#[trigger] means@[k])
                    <= scalar::total_key(means@[other as int]),
        decreases means@.len() - j,
    {
        if j != phase && scalar::total_less(means[other], means[j]) {
            other = j;
        }
        j += 1;
    }
    assert(means@[other as int] == means@[other as int]);
    (phase, means[other])
}

/// Whether the accents are worth comparing: the highest is audible and at least
/// eight beats were heard.
pub fn accents_are_comparable(best: u32, beats: usize) -> (r: bool)
    ensures
        r == (scalar::spec_less(EPSILON, best) && beats >= 8),
{
    scalar::less(EPSILON, best) && beats >= 8
}

/// The phase of the downbeat: the ranked one where the accents differ enough, else
/// the first beat.
pub fn settle_downbeat_phase(phase: usize, confidence: u32) -> (r: usize)
    ensures
        r == if scalar::spec_less(confidence, MIN_DOWNBEAT_CONFIDENCE) {
            0
        } else {
            phase
        },
{
    if scalar::less(confidence, MIN_DOWNBEAT_CONFIDENCE) {
        0
    } else {
        phase
    }
}

/// What was found of the beats of a track.
#[derive(Clone, Debug)]
pub struct BeatFindings {
    pub tempo: TempoEstimate,
    pub markers: Vec<Duration>,
    pub marker_confidences: Vec<u32>,
    pub first_downbeat: Duration,
    pub downbeat_confidence: u32,
}

/// The analysis of a track from what was found on it. Without a tempo or without a
/// single marker it has structure and energy but no beats.
pub fn assemble_analysis(
    duration: Duration,
    audible_start: Duration,
    audible_end: Duration,
    structure: EnergyStructure,
    energy_profile: Vec<u8>,
    energy_profile_rate: u8,
    beats: Option<BeatFindings>,
) -> (r: TrackAnalysis)
    ensures
        r.duration == duration,
        r.audible_start == audible_start,
        r.audible_end == audible_end,
        r.intro_end == structure.intro_end,
        r.intro_confidence == structure.intro_confidence,
        r.outro_start == structure.outro_start,
        r.outro_confidence == structure.outro_confidence,
        r.energy_profile == energy_profile,
        r.energy_profile_rate == energy_profile_rate,
        r.vocal_activity@.len() == 0 && r.vocal_activity_confidences@.len() == 0
            && r.vocal_activity_rate == 0,
        r.musical_key is None && r.rms_dbfs is None && r.sample_peak_dbfs is None
            && r.integrated_lufs is None && r.true_peak_dbtp is None,
        beats is None || beats->0.markers@.len() == 0 ==> r.bpm is None && r.beat_confidence == 0
            && r.first_beat is None && r.beat_markers@.len() == 0
            && r.beat_marker_confidences@.len() == 0 && r.first_downbeat is None
            && r.downbeat_confidence == 0,
        beats is Some && beats->0.markers@.len() > 0 ==> {
            &&& r.bpm == Some(beats->0.tempo.bpm)
            &&& r.beat_confidence == beats->0.tempo.confidence
            &&& r.first_beat == Some(beats->0.markers@[0])
            &&& r.beat_markers@ == beats->0.markers@
            &&& r.beat_marker_confidences@ == beats->0.marker_confidences@
            &&& r.first_downbeat == Some(beats->0.first_downbeat)
            &&& r.downbeat_confidence == beats->0.downbeat_confidence
        },
{
    let mut analysis = TrackAnalysis::unanalyzed(duration);
    analysis.audible_start = audible_start;
    analysis.audible_end = audible_end;
    analysis.intro_end = structure.intro_end;
    analysis.intro_confidence = structure.intro_confidence;
    analysis.outro_start = structure.outro_start;
    analysis.outro_confidence = structure.outro_confidence;
    analysis.energy_profile = energy_profile;
    analysis.energy_profile_rate = energy_profile_rate;
    if let Some(found) = beats {
        if found.markers.len() > 0 {
            analysis.bpm = Some(found.tempo.bpm);
            analysis.beat_confidence = found.tempo.confidence;
            analysis.first_beat = Some(found.markers[0]);
            analysis.beat_markers = found.markers;
            analysis.beat_marker_confidences = found.marker_confidences;
            analysis.first_downbeat = Some(found.first_downbeat);
            analysis.downbeat_confidence = found.downbeat_confidence;
        }
    }
    analysis
}

/// Replaces the structure and the energy profile of a track; all else stays.
pub fn apply_energy_structure(
    analysis: &mut TrackAnalysis,
    structure: EnergyStructure,
    energy_profile: Vec<u8>,
    bins_per_second: u32,
)
    ensures
        *final(analysis) == (TrackAnalysis {
            intro_end: structure.intro_end,
            intro_confidence: structure.intro_confidence,
            outro_start: structure.outro_start,
            outro_confidence: structure.outro_confidence,
            energy_profile,
            energy_profile_rate: spec_min(bins_per_second as int, 255) as u8,
            ..*old(analysis)
        }),
{
    analysis.intro_end = structure.intro_end;
    analysis.intro_confidence = structure.intro_confidence;
    analysis.outro_start = structure.outro_start;
    analysis.outro_confidence = structure.outro_confidence;
    analysis.energy_profile = energy_profile;
    analysis.energy_profile_rate = if bins_per_second <= 255 {
        bins_per_second as u8
    } else {
        255
    };
}

/// Without a tempo in the kicks that has a confidence of at least 0.35, or without
/// kicks that carry at least 0.015 of the energy, the kicks are not reliable; with
/// both they are.
pub proof fn kicks_need_confidence_and_energy(
    low_tempo: Option<TempoEstimate>,
    low_energy_ratio: u32,
)
    ensures
        low_tempo is None ==> !kicks_are_reliable(low_tempo, low_energy_ratio),
        low_tempo matches Some(tempo) ==> (kicks_are_reliable(low_tempo, low_energy_ratio) <==>
            scalar::spec_at_most(0x3EB3_3333, tempo.confidence) && scalar::spec_at_most(
            0x3C75_C28F,
            low_energy_ratio,
        )),
        low_tempo matches Some(tempo) && scalar::spec_less(
            tempo.confidence,
            MIN_KICK_TRACK_CONFIDENCE,
        ) ==> !kicks_are_reliable(low_tempo, low_energy_ratio),
        scalar::spec_less(low_energy_ratio, MIN_KICK_ENERGY_RATIO) ==> !kicks_are_reliable(
            low_tempo,
            low_energy_ratio,
        ),
{
}

/// Where the kicks have no tempo, one whose confidence is below 0.35 (the least of a tempo
/// found in kicks), or carry less than 0.015 of the energy (the least share that makes them
/// reliable), the tempo gone by is that of the full band.
pub proof fn unreliable_kicks_leave_the_full_band(
    low_tempo: Option<TempoEstimate>,
    full_tempo: Option<TempoEstimate>,
    low_energy_ratio: u32,
    difference: u32,
)
    ensures
        ({
            let reliable = kicks_are_reliable(low_tempo, low_energy_ratio);
            let selected = selected_tempo(low_tempo, full_tempo, reliable, difference);
            &&& MIN_KICK_TRACK_CONFIDENCE == 0x3EB3_3333 && MIN_KICK_ENERGY_RATIO == 0x3C75_C28F
            &&& low_tempo is None ==> !reliable && selected == full_tempo
            &&& low_tempo matches Some(tempo) ==> !scalar::spec_at_most(
                MIN_KICK_TRACK_CONFIDENCE,
                tempo.confidence,
            ) ==> !reliable && selected == full_tempo
            &&& !scalar::spec_at_most(MIN_KICK_ENERGY_RATIO, low_energy_ratio) ==> !reliable
                && selected == full_tempo
            &&& low_tempo matches Some(tempo) ==> scalar::spec_at_most(
                MIN_KICK_TRACK_CONFIDENCE,
                tempo.confidence,
            ) && scalar::spec_at_most(MIN_KICK_ENERGY_RATIO, low_energy_ratio) ==> reliable
        }),
{
}

/// Reliable kicks give the tempo, unless the full band has the same one within 0.03: then
/// its own is taken.
pub proof fn reliable_kicks_give_the_tempo(
    low_tempo: TempoEstimate,
    full_tempo: TempoEstimate,
    difference: u32,
)
    ensures
        selected_tempo(Some(low_tempo), None, true, difference) == Some(low_tempo),
        scalar::spec_at_most(difference, 0x3CF5_C28F) ==> selected_tempo(
            Some(low_tempo),
            Some(full_tempo),
            true,
            difference,
        ) == Some(full_tempo),
        !scalar::spec_at_most(difference, 0x3CF5_C28F) ==> selected_tempo(
            Some(low_tempo),
            Some(full_tempo),
            true,
            difference,
        ) == Some(low_tempo),
{
}

/// The region of onsets holds what lies within the radius of the center and has an onset.
pub proof fn regions_lie_within_the_radius(len: nat, center: nat, radius: nat, index: nat)
    ensures
        ({
            let (from, to) = onset_region(len as int, center as int, radius as int);
            from <= index < to <==> index < len && center - radius <= index <= center + radius
        }),
{
}

/// With reliable kicks a marker snaps to its onset from a confidence of 0.1 on if it is the
/// first and of 0.25 otherwise; without them from a tenth of the reference strength on.
pub proof fn markers_snap_by_their_confidence(gate: MarkerGate, candidate: MarkerCandidate)
    ensures
        gate.kick_reliable ==> (gate.snaps(candidate, true) <==> scalar::spec_at_most(
            0x3DCC_CCCD,
            candidate.confidence,
        )),
        gate.kick_reliable ==> (gate.snaps(candidate, false) <==> scalar::spec_at_most(
            0x3E80_0000,
            candidate.confidence,
        )),
        !gate.kick_reliable ==> (gate.snaps(candidate, true) <==> scalar::spec_at_most(
            gate.tenth_reference,
            candidate.strength,
        )) && (gate.snaps(candidate, false) <==> gate.snaps(candidate, true)),
        forall|first: bool| #[trigger]
            beat_place(candidate, gate, first) == (if gate.snaps(candidate, first) {
                candidate.detected
            } else {
                candidate.predicted
            }),
{
}

/// The beats open with a marker detected at most one place before the track is heard, with
/// a confidence of 0.1 where kicks are reliable and a quarter of the reference strength
/// where they are not.
pub proof fn beats_open_where_the_track_is_heard(
    gate: MarkerGate,
    candidate: MarkerCandidate,
    audible_start: usize,
)
    ensures
        candidate.detected + 1 < audible_start ==> !gate.opens(candidate, audible_start),
        candidate.detected + 1 >= audible_start && gate.kick_reliable ==> (gate.opens(
            candidate,
            audible_start,
        ) <==> scalar::spec_at_most(0x3DCC_CCCD, candidate.confidence)),
        candidate.detected + 1 >= audible_start && !gate.kick_reliable ==> (gate.opens(
            candidate,
            audible_start,
        ) <==> scalar::spec_at_most(gate.quarter_reference, candidate.strength)),
{
}

/// The opening is the earliest marker that opens the beats; there is none just where none
/// does.
pub proof fn openings_come_first(
    candidates: Seq<MarkerCandidate>,
    gate: MarkerGate,
    audible_start: usize,
    from: int,
)
    requires
        0 <= from <= candidates.len(),
    ensures
        match first_opening(candidates, gate, audible_start, from) {
            Some(index) => {
                &&& from <= index < candidates.len()
                &&& gate.opens(candidates[index], audible_start)
                &&& forall|k: int|
                    from <= k < index ==> !gate.opens(#[trigger] candidates[k], audible_start)
            },
            None => forall|k: int|
                from <= k < candidates.len() ==> !gate.opens(
                    #[trigger] candidates[k],
                    audible_start,
                ),
        },
    decreases candidates.len() - from,
{
    if from < candidates.len() {
        openings_come_first(candidates, gate, audible_start, from + 1);
    }
}

/// A beat is kept where it lies up to the end of what is heard and after the beat kept
/// before it, with the confidence of its marker; any other leaves the beats as they are.
pub proof fn beats_are_kept_in_order(
    candidates: Seq<MarkerCandidate>,
    gate: MarkerGate,
    audible_end: usize,
    opening: int,
    end: int,
)
    requires
        0 <= opening <= end < candidates.len(),
    ensures
        ({
            let before = kept_beats(candidates, gate, audible_end, opening, end);
            let after = kept_beats(candidates, gate, audible_end, opening, end + 1);
            let here = candidates[end];
            let place = if gate.snaps(here, end == opening) {
                here.detected
            } else {
                here.predicted
            };
            let kept = place <= audible_end && (before.len() > 0 ==> before[before.len() - 1].0
                < place);
            &&& kept_beats(candidates, gate, audible_end, opening, opening).len() == 0
            &&& !kept ==> after == before
            &&& kept ==> after.len() == before.len() + 1 && after.take(before.len() as int)
                == before && after[before.len() as int] == (place, here.confidence)
        }),
{
    let before = kept_beats(candidates, gate, audible_end, opening, end);
    let after = kept_beats(candidates, gate, audible_end, opening, end + 1);
    if after.len() > before.len() {
        assert(after.take(before.len() as int) =~= before);
    }
}

/// Places and confidences of beats stand in the order of the beats.
pub proof fn beats_part_into_places_and_confidences(beats: Seq<(usize, u32)>, index: int)
    requires
        0 <= index < beats.len(),
    ensures
        places_of(beats).len() == beats.len(),
        confidences_of(beats).len() == beats.len(),
        places_of(beats)[index] == beats[index].0,
        confidences_of(beats)[index] == beats[index].1,
{
}

/// The structure is searched in 35 of a hundred of the track, at least in five seconds and
/// at most in thirty, and never beyond the track.
pub proof fn structure_is_searched_near_an_end(len: nat, rate: nat)
    ensures
        ({
            let search = search_length(len as int, rate as int);
            let share = len * 35 / 100;
            &&& search <= len
            &&& search <= 30 * rate
            &&& search == len || search == 30 * rate || search == 5 * rate && share <= 5 * rate
                || search == share && 5 * rate <= share
            &&& 5 * rate <= share <= 30 * rate ==> search == share
            &&& share <= 5 * rate <= len ==> search == 5 * rate
        }),
{
}

/// A boundary holds where at least 0.75 of what lies before it is weak, right at it as
/// well, and 0.75 of what follows strong, nothing recovers for too long, and the
/// confidence is at least 0.65.
pub proof fn boundaries_hold_by_all_their_evidence(
    evidence: BoundaryEvidence,
    recovery_limit: int,
)
    ensures
        ({
            let holds = evidence.holds(recovery_limit);
            let ratios = !scalar::spec_less(evidence.weak_ratio, 0x3F40_0000)
                && !scalar::spec_less(evidence.immediate_weak, 0x3F40_0000) && !scalar::spec_less(
                evidence.core_ratio,
                0x3F40_0000,
            );
            &&& scalar::spec_less(evidence.weak_ratio, 0x3F40_0000) ==> !holds
            &&& scalar::spec_less(evidence.immediate_weak, 0x3F40_0000) ==> !holds
            &&& scalar::spec_less(evidence.core_ratio, 0x3F40_0000) ==> !holds
            &&& evidence.longest_recovery >= recovery_limit ==> !holds
            &&& !scalar::spec_at_most(0x3F26_6666, evidence.confidence) ==> !holds
            &&& ratios && evidence.longest_recovery < recovery_limit && scalar::spec_at_most(
                0x3F26_6666,
                evidence.confidence,
            ) ==> holds
        }),
{
}

/// The boundary found is the earliest that holds; there is none just where none holds.
pub proof fn first_boundaries_come_first(
    evidence: Seq<BoundaryEvidence>,
    recovery_limit: int,
    from: int,
)
    requires
        0 <= from <= evidence.len(),
    ensures
        match first_holding(evidence, recovery_limit, from) {
            Some(index) => {
                &&& from <= index < evidence.len()
                &&& evidence[index].holds(recovery_limit)
                &&& forall|k: int|
                    from <= k < index ==> !(#[trigger] evidence[k]).holds(recovery_limit)
            },
            None => forall|k: int|
                from <= k < evidence.len() ==> !(#[trigger] evidence[k]).holds(recovery_limit),
        },
    decreases evidence.len() - from,
{
    if from < evidence.len() {
        first_boundaries_come_first(evidence, recovery_limit, from + 1);
    }
}

/// Each value up to the threshold counts as weak, each from it on as strong, and so do
/// both where they are the same.
pub proof fn weak_and_strong_values_are_counted(values: Seq<u32>, threshold: u32, n: int)
    requires
        0 <= n < values.len(),
    ensures
        weak_count(values, threshold, 0) == 0,
        strong_count(values, threshold, 0) == 0,
        scalar::spec_at_most(values[n], threshold) ==> weak_count(values, threshold, n + 1)
            == weak_count(values, threshold, n) + 1,
        !scalar::spec_at_most(values[n], threshold) ==> weak_count(values, threshold, n + 1)
            == weak_count(values, threshold, n),
        scalar::spec_at_most(threshold, values[n]) ==> strong_count(values, threshold, n + 1)
            == strong_count(values, threshold, n) + 1,
        !scalar::spec_at_most(threshold, values[n]) ==> strong_count(values, threshold, n + 1)
            == strong_count(values, threshold, n),
{
}

/// A run consists of strong values only, and the value before it is not strong.
pub proof fn runs_are_strong_throughout(values: Seq<u32>, threshold: u32, index: int)
    requires
        -1 <= index < values.len(),
    ensures
        ({
            let run = run_ending_at(values, threshold, index);
            &&& 0 <= run <= index + 1
            &&& forall|k: int|
                index - run < k <= index ==> scalar::spec_at_most(threshold, #[trigger] values[k])
            &&& run <= index ==> !scalar::spec_at_most(threshold, values[index - run])
        }),
    decreases index + 1,
{
    if index >= 0 {
        runs_are_strong_throughout(values, threshold, index - 1);
    }
}

/// An accent is at or above every onset of its region, and one of them unless it is zero.
pub proof fn accents_are_the_strongest_onsets(onsets: Seq<u32>, from: int, to: int, index: int)
    requires
        0 <= from <= index < to <= onsets.len(),
        !scalar::spec_is_nan(onsets[index]),
    ensures
        scalar::spec_at_most(onsets[index], accent_in(onsets, from, to)),
        accent_in(onsets, from, to) == 0 || exists|k: int|
            from <= k < to && #[trigger] onsets[k] == accent_in(onsets, from, to),
    decreases to - from,
{
    lemma_accent_is_an_onset(onsets, from, to);
    lemma_accent_is_an_onset(onsets, from, to - 1);
    if index < to - 1 {
        accents_are_the_strongest_onsets(onsets, from, to - 1, index);
    }
}

proof fn lemma_accent_is_an_onset(onsets: Seq<u32>, from: int, to: int)
    requires
        0 <= from,
        to <= onsets.len(),
    ensures
        !scalar::spec_is_nan(accent_in(onsets, from, to)),
        accent_in(onsets, from, to) == 0 || exists|k: int|
            from <= k < to && #[trigger] onsets[k] == accent_in(onsets, from, to),
    decreases to - from,
{
    if from < to {
        lemma_accent_is_an_onset(onsets, from, to - 1);
        let before = accent_in(onsets, from, to - 1);
        if accent_in(onsets, from, to) == before && before != 0 {
            let k = choose|k: int|
                from <= k < to - 1 && #[trigger] onsets[k] == accent_in(onsets, from, to - 1);
            assert(onsets[k] == before);
        } else {
            assert(onsets[to - 1] == onsets[to - 1]);
        }
    }
}

/// Accents are taken one lag apart, each from the onsets next to its place, for as long as
/// there are onsets.
pub proof fn accents_are_a_lag_apart(onsets: Seq<u32>, position: int, lag: int)
    requires
        0 <= position,
        0 < lag,
    ensures
        ({
            let accents = accents_from(onsets, position, lag);
            &&& position >= onsets.len() ==> accents.len() == 0
            &&& position < onsets.len() ==> {
                &&& accents.len() > 0
                &&& accents[0] == accent_in(
                    onsets,
                    if position > 0 {
                        position - 1
                    } else {
                        0
                    },
                    if position + 2 <= onsets.len() {
                        position + 2
                    } else {
                        onsets.len() as int
                    },
                )
                &&& accents.skip(1) == accents_from(onsets, position + lag, lag)
            }
        }),
{
    let accents = accents_from(onsets, position, lag);
    if position < onsets.len() {
        assert(accents.skip(1) =~= accents_from(onsets, position + lag, lag));
    }
}

/// A sample is loud from the threshold on.
pub proof fn loud_samples_reach_the_threshold(
    magnitudes: Seq<u32>,
    threshold: u32,
    index: int,
)
    requires
        0 <= index < magnitudes.len(),
    ensures
        is_loud(magnitudes, threshold, index) <==> scalar::spec_at_most(
            threshold,
            magnitudes[index],
        ),
        !is_loud(magnitudes, threshold, -1),
        !is_loud(magnitudes, threshold, magnitudes.len() as int),
{
}

/// The best phase has the greatest mean, the first of those as great, and the second mean
/// is the greatest of all others.
pub proof fn best_phases_have_the_greatest_mean(
    means: Seq<u32>,
    phase: int,
    second: u32,
    other: int,
)
    requires
        is_ranked_phase(means, phase, second),
        0 <= other < means.len(),
        other != phase,
    ensures
        scalar::total_key(means[other]) <= scalar::total_key(means[phase]),
        scalar::total_key(means[other]) == scalar::total_key(means[phase]) ==> phase < other,
        scalar::total_key(means[other]) <= scalar::total_key(second),
        scalar::total_key(second) <= scalar::total_key(means[phase]),
        0 <= phase < means.len(),
{
}

/// A downbeat phase is settled from a confidence of 0.05 on, and accents are compared above
/// the least difference of numbers near one.
pub proof fn phases_have_their_least_confidence()
    ensures
        MIN_DOWNBEAT_CONFIDENCE == 0x3D4C_CCCD,
        EPSILON == 0x3400_0000,
{
}

} // verus!
