//! Pairs of observed markers in an overlap, and what they say of the phase.

use vstd::prelude::*;

use super::kinds::TransitionKind;
use super::track::{keys_clash, spec_keys_clash, BeatGrid, TrackAnalysis};
use crate::scalar;
use crate::time::{spec_distance, spec_max, spec_min, Duration, MAX_NANOS};

verus! {

/// How many marker pairs are looked at.
pub const MAX_PHASE_MARKER_PAIRS: usize = 128;

/// How many beat pairs verify the phase of an overlap.
pub const MIN_BEAT_PHASE_PAIRS: usize = 8;

/// The share of expected beat pairs that must be observed (0.65).
pub const MIN_BEAT_PHASE_COVERAGE: u32 = 0x3F26_6666;

/// How many downbeat pairs verify the phase of the bars.
pub const MIN_DOWNBEAT_PHASE_PAIRS: usize = 2;

/// How many phrase pairs verify the phase of the phrases.
pub const MIN_PHRASE_PHASE_PAIRS: usize = 1;

/// How far phrases may drift apart (150 milliseconds).
pub const MAX_PHRASE_PHASE_ERROR_NANOS: u128 = 150_000_000;

/// The number 1.5.
pub const THREE_HALVES: u32 = 0x3FC0_0000;

/// The number 2.5.
pub const FIVE_HALVES: u32 = 0x4020_0000;

/// The number 0.4.
pub const TWO_FIFTHS: u32 = 0x3ECC_CCCD;

/// The number 0.75.
pub const THREE_QUARTERS: u32 = 0x3F40_0000;

/// An overlap of two tracks, with what the tempo map of the incoming one gives.
#[derive(Clone, Copy, Debug, PartialEq, Eq, Structural)]
pub struct Overlap {
    pub outgoing_start: Duration,
    pub incoming_start: Duration,
    pub duration: Duration,
    /// How much of the incoming track the overlap consumes.
    pub incoming_source: Duration,
    /// Markers are paired every so many beats of the outgoing track.
    pub outgoing_stride: usize,
    /// Markers are paired every so many beats of the incoming track.
    pub incoming_stride: usize,
    /// How far a marker may stand from a position of the outgoing track.
    pub outgoing_tolerance: Duration,
    /// How far a marker may stand from a position of the incoming track.
    pub incoming_tolerance: Duration,
}

impl Overlap {
    /// Whether markers are paired every one or two beats.
    pub open spec fn wf(self) -> bool {
        1 <= self.outgoing_stride <= 2 && 1 <= self.incoming_stride <= 2
    }

    /// Where the overlap ends on the outgoing track.
    pub open spec fn outgoing_end(self) -> int {
        spec_min(self.outgoing_start@ + self.duration@, MAX_NANOS as int)
    }

    /// Where the overlap ends on the incoming track.
    pub open spec fn incoming_end(self) -> int {
        spec_min(self.incoming_start@ + self.incoming_source@, MAX_NANOS as int)
    }
}

/// How far into an overlap each marker of the outgoing track sounds: none before
/// its start, and those past its end with it.
pub fn marker_outputs(outgoing: &TrackAnalysis, start: Duration, duration: Duration) -> (r: Vec<
    Duration,
>)
    ensures
        r@.len() == outgoing.beat_markers@.len(),
        forall|i: int|
            0 <= i < r@.len() ==> (#[trigger] r@[i])@ == spec_max(
                spec_min(
                    outgoing.beat_markers@[i]@,
                    spec_min(start@ + duration@, MAX_NANOS as int),
                ) - start@,
                0,
            ),
{
    let end = start.saturating_add(duration);
    let mut outputs: Vec<Duration> = Vec::new();
    let mut i: usize = 0;
    while i < outgoing.beat_markers.len()
        invariant
            i <= outgoing.beat_markers@.len(),
            end@ == spec_min(start@ + duration@, MAX_NANOS as int),
            outputs@.len() == i,
            forall|k: int|
                0 <= k < i ==> (#[trigger] outputs@[k])@ == spec_max(
                    spec_min(outgoing.beat_markers@[k]@, end@) - start@,
                    0,
                ),
        decreases outgoing.beat_markers@.len() - i,
    {
        outputs.push(outgoing.beat_markers[i].min(end).saturating_sub(start));
        i += 1;
    }
    outputs
}

/// The grids of two tracks whose downbeats are both sure enough, given the
/// intervals of their tempos.
pub fn actionable_grids(
    outgoing: &TrackAnalysis,
    incoming: &TrackAnalysis,
    outgoing_interval: Option<Duration>,
    incoming_interval: Option<Duration>,
) -> (r: Option<(BeatGrid, BeatGrid)>)
    ensures
        r is Some <==> outgoing.has_grid() && outgoing_interval is Some && incoming.has_grid()
            && incoming_interval is Some && !outgoing.spec_downbeat_is_unsure()
            && !incoming.spec_downbeat_is_unsure(),
        r matches Some((first, second)) ==> first.first_downbeat == outgoing.first_downbeat->0
            && first.beat_interval == outgoing_interval->0 && second.first_downbeat
            == incoming.first_downbeat->0 && second.beat_interval == incoming_interval->0,
        r matches Some((first, second)) ==> first.beats_per_bar == 4 && second.beats_per_bar == 4
            && first.downbeat_confidence == outgoing.downbeat_confidence
            && second.downbeat_confidence == incoming.downbeat_confidence,
{
    match (outgoing.beat_grid(outgoing_interval), incoming.beat_grid(incoming_interval)) {
        (Some(first), Some(second)) => if outgoing.downbeat_is_unsure()
            || incoming.downbeat_is_unsure() {
            None
        } else {
            Some((first, second))
        },
        _ => None,
    }
}

/// The strides at which beats of two tempos meet, for the quotient of the
/// incoming tempo as played and the outgoing tempo.
pub open spec fn strides_of(outgoing_bpm: Option<u32>, incoming_bpm: Option<u32>, ratio: u32) -> (
    int,
    int,
) {
    if !(outgoing_bpm is Some && scalar::spec_is_finite(outgoing_bpm->0) && scalar::spec_less(
        0,
        outgoing_bpm->0,
    ) && incoming_bpm is Some && scalar::spec_is_finite(incoming_bpm->0) && scalar::spec_less(
        0,
        incoming_bpm->0,
    )) {
        (1, 1)
    } else if scalar::spec_at_most(THREE_HALVES, ratio) && scalar::spec_at_most(
        ratio,
        FIVE_HALVES,
    ) {
        (1, 2)
    } else if scalar::spec_at_most(TWO_FIFTHS, ratio) && scalar::spec_at_most(
        ratio,
        THREE_QUARTERS,
    ) {
        (2, 1)
    } else {
        (1, 1)
    }
}

fn tempo_is_positive(bpm: Option<u32>) -> (r: bool)
    ensures
        r == (bpm is Some && scalar::spec_is_finite(bpm->0) && scalar::spec_less(0, bpm->0)),
{
    match bpm {
        Some(value) => scalar::is_finite(value) && scalar::less(0, value),
        None => false,
    }
}

/// The strides at which beats of two tempos meet: an incoming track at about
/// twice the tempo has every second beat paired, one at about half the tempo
/// meets every second outgoing beat. `ratio` is the incoming tempo as played,
/// divided by the outgoing tempo.
pub fn beat_family_strides(
    outgoing_bpm: Option<u32>,
    incoming_bpm: Option<u32>,
    ratio: u32,
) -> (r: (usize, usize))
    ensures
        (r.0 as int, r.1 as int) == strides_of(outgoing_bpm, incoming_bpm, ratio),
{
    if !tempo_is_positive(outgoing_bpm) || !tempo_is_positive(incoming_bpm) {
        (1, 1)
    } else if scalar::at_most(THREE_HALVES, ratio) && scalar::at_most(ratio, FIVE_HALVES) {
        (1, 2)
    } else if scalar::at_most(TWO_FIFTHS, ratio) && scalar::at_most(ratio, THREE_QUARTERS) {
        (2, 1)
    } else {
        (1, 1)
    }
}

/// Two markers that ought to sound together, and how far apart they do.
#[derive(Clone, Copy, Debug, PartialEq, Eq, Structural)]
pub struct ObservedMarkerPair {
    pub outgoing_index: usize,
    pub incoming_index: usize,
    pub outgoing: Duration,
    pub incoming: Duration,
    pub error: Duration,
}

/// What pairs of markers say of one phase.
#[derive(Clone, Copy, Debug, PartialEq, Eq, Structural)]
pub struct BeatPhaseReport {
    pub pairs: usize,
    pub coverage: Option<u32>,
    pub max_error: Option<Duration>,
}

/// What pairs of markers say of the beat phase, in the overlap and at its end.
#[derive(Clone, Copy, Debug, PartialEq, Eq, Structural)]
pub struct BeatAlignmentEvidence {
    pub phase: BeatPhaseReport,
    pub handoff_error: Option<Duration>,
}

/// Where the incoming track is when the outgoing marker at the index sounds.
/// `elapsed` tells for each outgoing marker how far the incoming track has moved
/// on by then.
pub open spec fn incoming_position(overlap: Overlap, elapsed: Seq<Duration>, index: int) -> int {
    spec_min(overlap.incoming_start@ + elapsed[index]@, MAX_NANOS as int)
}

/// Whether the marker pair of a step exists inside the overlap.
pub open spec fn step_is_inside(
    outgoing: TrackAnalysis,
    incoming: TrackAnalysis,
    overlap: Overlap,
    outgoing_index: int,
    incoming_index: int,
) -> bool {
    &&& outgoing_index < outgoing.beat_markers@.len()
    &&& incoming_index < incoming.beat_markers@.len()
    &&& outgoing.beat_markers@[outgoing_index]@ <= overlap.outgoing_end()
    &&& incoming.beat_markers@[incoming_index]@ <= overlap.incoming_end()
}

/// The pairs from one pair of indexes on, stride by stride, while both markers
/// exist inside the overlap; those where either marker is not trusted are left
/// out, and at most `room` pairs are taken.
pub open spec fn pairs_from(
    outgoing: TrackAnalysis,
    incoming: TrackAnalysis,
    overlap: Overlap,
    elapsed: Seq<Duration>,
    outgoing_index: int,
    incoming_index: int,
    room: int,
) -> Seq<ObservedMarkerPair>
    decreases outgoing.beat_markers@.len() + 2 - outgoing_index,
{
    if !overlap.wf() || room <= 0 || !step_is_inside(
        outgoing,
        incoming,
        overlap,
        outgoing_index,
        incoming_index,
    ) {
        Seq::empty()
    } else if outgoing.trusted(outgoing_index) && incoming.trusted(incoming_index) {
        seq![pair_at(outgoing, incoming, overlap, elapsed, outgoing_index, incoming_index)]
            + pairs_from(
            outgoing,
            incoming,
            overlap,
            elapsed,
            outgoing_index + overlap.outgoing_stride,
            incoming_index + overlap.incoming_stride,
            room - 1,
        )
    } else {
        pairs_from(
            outgoing,
            incoming,
            overlap,
            elapsed,
            outgoing_index + overlap.outgoing_stride,
            incoming_index + overlap.incoming_stride,
            room,
        )
    }
}

/// The pair of two markers.
pub open spec fn pair_at(
    outgoing: TrackAnalysis,
    incoming: TrackAnalysis,
    overlap: Overlap,
    elapsed: Seq<Duration>,
    outgoing_index: int,
    incoming_index: int,
) -> ObservedMarkerPair {
    ObservedMarkerPair {
        outgoing_index: outgoing_index as usize,
        incoming_index: incoming_index as usize,
        outgoing: outgoing.beat_markers@[outgoing_index],
        incoming: incoming.beat_markers@[incoming_index],
        error: Duration {
            nanos: spec_distance(
                incoming.beat_markers@[incoming_index]@,
                incoming_position(overlap, elapsed, outgoing_index),
            ) as u128,
        },
    }
}

/// The pairs of trusted markers in an overlap, at most so many. They start at
/// the trusted markers nearest to the two starts; without such an anchor on both
/// sides there are none.
pub fn observed_marker_pairs(
    outgoing: &TrackAnalysis,
    incoming: &TrackAnalysis,
    overlap: &Overlap,
    elapsed: &Vec<Duration>,
) -> (r: Vec<ObservedMarkerPair>)
    requires
        overlap.wf(),
        elapsed@.len() == outgoing.beat_markers@.len(),
    ensures
        overlap.duration@ == 0 ==> r@.len() == 0,
        !outgoing.trusted_within(overlap.outgoing_start, overlap.outgoing_tolerance) ==> r@.len()
            == 0,
        !incoming.trusted_within(overlap.incoming_start, overlap.incoming_tolerance) ==> r@.len()
            == 0,
        forall|outgoing_anchor: int, incoming_anchor: int|
            overlap.duration@ > 0 && #[trigger] outgoing.is_nearest_trusted(
                outgoing_anchor,
                overlap.outgoing_start,
            ) && outgoing.marker_distance(outgoing_anchor, overlap.outgoing_start)
                <= overlap.outgoing_tolerance@ && #[trigger] incoming.is_nearest_trusted(
                incoming_anchor,
                overlap.incoming_start,
            ) && incoming.marker_distance(incoming_anchor, overlap.incoming_start)
                <= overlap.incoming_tolerance@ ==> r@ == pairs_from(
                *outgoing,
                *incoming,
                *overlap,
                elapsed@,
                outgoing_anchor,
                incoming_anchor,
                MAX_PHASE_MARKER_PAIRS as int,
            ),
        r@.len() <= MAX_PHASE_MARKER_PAIRS,
{
    let mut pairs: Vec<ObservedMarkerPair> = Vec::new();
    if overlap.duration.is_zero() {
        return pairs;
    }
    let outgoing_end = overlap.outgoing_start.saturating_add(overlap.duration);
    let incoming_end = overlap.incoming_start.saturating_add(overlap.incoming_source);
    let outgoing_anchor = match outgoing.marker_anchor_index(
        overlap.outgoing_start,
        overlap.outgoing_tolerance,
    ) {
        Some(index) => index,
        None => {
            proof {
                lemma_no_anchor(*outgoing, overlap.outgoing_start, overlap.outgoing_tolerance);
            }
            return pairs;
        },
    };
    let incoming_anchor = match incoming.marker_anchor_index(
        overlap.incoming_start,
        overlap.incoming_tolerance,
    ) {
        Some(index) => index,
        None => {
            proof {
                lemma_no_anchor(*incoming, overlap.incoming_start, overlap.incoming_tolerance);
            }
            return pairs;
        },
    };
    proof {
        lemma_nearest_is_unique(*outgoing, outgoing_anchor as int, overlap.outgoing_start);
        lemma_nearest_is_unique(*incoming, incoming_anchor as int, overlap.incoming_start);
    }
    let ghost whole = pairs_from(
        *outgoing,
        *incoming,
        *overlap,
        elapsed@,
        outgoing_anchor as int,
        incoming_anchor as int,
        MAX_PHASE_MARKER_PAIRS as int,
    );
    let mut outgoing_index: usize = outgoing_anchor;
    let mut incoming_index: usize = incoming_anchor;
    assert(pairs@ + pairs_from(
        *outgoing,
        *incoming,
        *overlap,
        elapsed@,
        outgoing_index as int,
        incoming_index as int,
        MAX_PHASE_MARKER_PAIRS - pairs@.len(),
    ) =~= whole);
    while pairs.len() < MAX_PHASE_MARKER_PAIRS && outgoing_index < outgoing.beat_markers.len()
        && incoming_index < incoming.beat_markers.len()
        && outgoing.beat_markers[outgoing_index].within(outgoing_end)
        && incoming.beat_markers[incoming_index].within(incoming_end)
        invariant
            overlap.wf(),
            elapsed@.len() == outgoing.beat_markers@.len(),
            outgoing_end@ == overlap.outgoing_end(),
            incoming_end@ == overlap.incoming_end(),
            pairs@.len() <= MAX_PHASE_MARKER_PAIRS,
            pairs@ + pairs_from(
                *outgoing,
                *incoming,
                *overlap,
                elapsed@,
                outgoing_index as int,
                incoming_index as int,
                MAX_PHASE_MARKER_PAIRS - pairs@.len(),
            ) == whole,
        decreases spec_max(outgoing.beat_markers@.len() - outgoing_index, 0),
    {
        let outgoing_beat = outgoing.beat_markers[outgoing_index];
        let incoming_beat = incoming.beat_markers[incoming_index];
        let position = overlap.incoming_start.saturating_add(elapsed[outgoing_index]);
        let error = incoming_beat.abs_diff(position);
        let ghost before = pairs@;
        let ghost rest = pairs_from(
            *outgoing,
            *incoming,
            *overlap,
            elapsed@,
            outgoing_index as int,
            incoming_index as int,
            MAX_PHASE_MARKER_PAIRS - before.len(),
        );
        if outgoing.marker_is_trusted(outgoing_index) && incoming.marker_is_trusted(
            incoming_index,
        ) {
            let pair = ObservedMarkerPair {
                outgoing_index,
                incoming_index,
                outgoing: outgoing_beat,
                incoming: incoming_beat,
                error,
            };
            pairs.push(pair);
            proof {
                let tail = pairs_from(
                    *outgoing,
                    *incoming,
                    *overlap,
                    elapsed@,
                    outgoing_index + overlap.outgoing_stride,
                    incoming_index + overlap.incoming_stride,
                    MAX_PHASE_MARKER_PAIRS - pairs@.len(),
                );
                assert(pair == pair_at(
                    *outgoing,
                    *incoming,
                    *overlap,
                    elapsed@,
                    outgoing_index as int,
                    incoming_index as int,
                ));
                assert(rest == seq![pair] + tail);
                assert(before + rest =~= pairs@ + tail);
            }
        }
        let ghost next = pairs_from(
            *outgoing,
            *incoming,
            *overlap,
            elapsed@,
            outgoing_index + overlap.outgoing_stride,
            incoming_index + overlap.incoming_stride,
            MAX_PHASE_MARKER_PAIRS - pairs@.len(),
        );
        assert(pairs@ + next == whole);
        outgoing_index = advance(outgoing_index, overlap.outgoing_stride, outgoing.beat_markers.len());
        incoming_index = advance(incoming_index, overlap.incoming_stride, incoming.beat_markers.len());
        assert(next =~= pairs_from(
            *outgoing,
            *incoming,
            *overlap,
            elapsed@,
            outgoing_index as int,
            incoming_index as int,
            MAX_PHASE_MARKER_PAIRS - pairs@.len(),
        ));
    }
    assert(pairs@ =~= whole);
    pairs
}

/// The index so many places on, or the length where that is past the end.
pub(crate) fn advance(index: usize, stride: usize, len: usize) -> (r: usize)
    requires
        index < len,
    ensures
        r == spec_min(index + stride, len as int),
{
    if stride >= len - index {
        len
    } else {
        index + stride
    }
}

proof fn lemma_nearest_is_unique(track: TrackAnalysis, index: int, position: Duration)
    requires
        track.is_nearest_trusted(index, position),
    ensures
        forall|other: int| #[trigger] track.is_nearest_trusted(other, position) ==> other == index,
{
    assert forall|other: int| #[trigger] track.is_nearest_trusted(other, position) implies other
        == index by {
        assert(track.trusted_marker(other) && track.trusted_marker(index));
    }
}

proof fn lemma_no_anchor(track: TrackAnalysis, position: Duration, tolerance: Duration)
    requires
        !track.trusted_within(position, tolerance),
    ensures
        forall|other: int| #[trigger]
            track.is_nearest_trusted(other, position) ==> track.marker_distance(other, position)
                > tolerance@,
{
    assert forall|other: int| #[trigger] track.is_nearest_trusted(other, position) implies
        track.marker_distance(other, position) > tolerance@ by {
        assert(track.trusted_marker(other));
    }
}

/// Every observed pair joins two trusted markers inside the overlap: no pair is
/// made up from an extrapolated grid.
pub proof fn pairs_are_observed(
    outgoing: TrackAnalysis,
    incoming: TrackAnalysis,
    overlap: Overlap,
    elapsed: Seq<Duration>,
    outgoing_index: int,
    incoming_index: int,
    room: int,
    at: int,
)
    requires
        0 <= outgoing_index <= usize::MAX,
        0 <= incoming_index <= usize::MAX,
        outgoing.beat_markers@.len() <= usize::MAX,
        incoming.beat_markers@.len() <= usize::MAX,
        0 <= at < pairs_from(
            outgoing,
            incoming,
            overlap,
            elapsed,
            outgoing_index,
            incoming_index,
            room,
        ).len(),
    ensures
        ({
            let pair = pairs_from(
                outgoing,
                incoming,
                overlap,
                elapsed,
                outgoing_index,
                incoming_index,
                room,
            )[at];
            &&& outgoing.trusted_marker(pair.outgoing_index as int)
            &&& incoming.trusted_marker(pair.incoming_index as int)
            &&& pair.outgoing == outgoing.beat_markers@[pair.outgoing_index as int]
            &&& pair.incoming == incoming.beat_markers@[pair.incoming_index as int]
            &&& pair.outgoing@ <= overlap.outgoing_end()
            &&& pair.incoming@ <= overlap.incoming_end()
        }),
    decreases outgoing.beat_markers@.len() + 2 - outgoing_index,
{
    let next_outgoing = outgoing_index + overlap.outgoing_stride;
    let next_incoming = incoming_index + overlap.incoming_stride;
    let all = pairs_from(
        outgoing,
        incoming,
        overlap,
        elapsed,
        outgoing_index,
        incoming_index,
        room,
    );
    assert(step_is_inside(outgoing, incoming, overlap, outgoing_index, incoming_index));
    if outgoing.trusted(outgoing_index) && incoming.trusted(incoming_index) {
        let tail = pairs_from(
            outgoing,
            incoming,
            overlap,
            elapsed,
            next_outgoing,
            next_incoming,
            room - 1,
        );
        if at > 0 {
            assert(all[at] == tail[at - 1]);
            if next_outgoing <= usize::MAX && next_incoming <= usize::MAX {
                pairs_are_observed(
                    outgoing,
                    incoming,
                    overlap,
                    elapsed,
                    next_outgoing,
                    next_incoming,
                    room - 1,
                    at - 1,
                );
            }
        }
    } else if next_outgoing <= usize::MAX && next_incoming <= usize::MAX {
        pairs_are_observed(
            outgoing,
            incoming,
            overlap,
            elapsed,
            next_outgoing,
            next_incoming,
            room,
            at,
        );
    }
}

/// The largest error of the first `count` pairs; zero when there are none.
pub open spec fn largest_error(pairs: Seq<ObservedMarkerPair>, count: int) -> int
    decreases count,
{
    if count <= 0 {
        0
    } else {
        spec_max(largest_error(pairs, count - 1), pairs[count - 1].error@)
    }
}

fn max_error_of(pairs: &Vec<ObservedMarkerPair>) -> (r: Duration)
    ensures
        r@ == largest_error(pairs@, pairs@.len() as int),
{
    let mut largest = Duration::zero();
    let mut i: usize = 0;
    while i < pairs.len()
        invariant
            i <= pairs@.len(),
            largest@ == largest_error(pairs@, i as int),
        decreases pairs@.len() - i,
    {
        largest = largest.max(pairs[i].error);
        i += 1;
    }
    largest
}

/// Whether a pair stands at the end of the overlap on both tracks, within half a
/// beat of each.
pub open spec fn is_at_handoff(
    pair: ObservedMarkerPair,
    overlap: Overlap,
    outgoing_half: Duration,
    incoming_half: Duration,
) -> bool {
    &&& spec_distance(pair.outgoing@, overlap.outgoing_end()) <= outgoing_half@
    &&& spec_distance(pair.incoming@, overlap.incoming_end()) <= incoming_half@
}

fn stands_at_handoff(
    pair: &ObservedMarkerPair,
    overlap: &Overlap,
    outgoing_half: Duration,
    incoming_half: Duration,
) -> (r: bool)
    ensures
        r == is_at_handoff(*pair, *overlap, outgoing_half, incoming_half),
{
    let outgoing_end = overlap.outgoing_start.saturating_add(overlap.duration);
    let incoming_end = overlap.incoming_start.saturating_add(overlap.incoming_source);
    pair.outgoing.abs_diff(outgoing_end).within(outgoing_half) && pair.incoming.abs_diff(
        incoming_end,
    ).within(incoming_half)
}

/// Whether enough pairs cover enough of the overlap to verify its beat phase.
pub open spec fn phase_is_verified(pairs: Seq<ObservedMarkerPair>, coverage: Option<u32>) -> bool {
    pairs.len() >= MIN_BEAT_PHASE_PAIRS && coverage is Some && scalar::spec_at_most(
        MIN_BEAT_PHASE_COVERAGE,
        coverage->0,
    )
}

/// What the pairs of an overlap say of its beats. The largest error counts only
/// where enough pairs cover enough of the overlap; the error at the handoff is
/// that of the last pair, where it stands at the end of the overlap. The two
/// halves of a beat are `None` where a track has no trusted tempo.
pub fn beat_alignment_evidence(
    pairs: &Vec<ObservedMarkerPair>,
    coverage: Option<u32>,
    overlap: &Overlap,
    outgoing_half: Option<Duration>,
    incoming_half: Option<Duration>,
) -> (r: BeatAlignmentEvidence)
    ensures
        r.phase.pairs == pairs@.len(),
        r.phase.coverage == coverage,
        r.phase.max_error is Some <==> phase_is_verified(pairs@, coverage),
        r.phase.max_error matches Some(error) ==> error@ == largest_error(
            pairs@,
            pairs@.len() as int,
        ),
        r.handoff_error == if pairs@.len() > 0 && outgoing_half is Some && incoming_half is Some
            && is_at_handoff(pairs@.last(), *overlap, outgoing_half->0, incoming_half->0) {
            Some(pairs@.last().error)
        } else {
            None
        },
{
    let covered = match coverage {
        Some(share) => scalar::at_most(MIN_BEAT_PHASE_COVERAGE, share),
        None => false,
    };
    let max_error = if pairs.len() >= MIN_BEAT_PHASE_PAIRS && covered {
        Some(max_error_of(pairs))
    } else {
        None
    };
    let mut handoff_error: Option<Duration> = None;
    if pairs.len() > 0 {
        let last = pairs[pairs.len() - 1];
        if let (Some(outgoing_half), Some(incoming_half)) = (outgoing_half, incoming_half) {
            if stands_at_handoff(&last, overlap, outgoing_half, incoming_half) {
                handoff_error = Some(last.error);
            }
        }
    }
    BeatAlignmentEvidence {
        phase: BeatPhaseReport { pairs: pairs.len(), coverage, max_error },
        handoff_error,
    }
}

/// Whether both markers of a pair open a bar or phrase of so many beats.
pub open spec fn pair_opens_cycle(
    outgoing: TrackAnalysis,
    incoming: TrackAnalysis,
    overlap: Overlap,
    pair: ObservedMarkerPair,
    cycle_beats: u32,
) -> bool {
    &&& outgoing.opens_cycle(
        pair.outgoing_index as int,
        cycle_beats,
        overlap.outgoing_tolerance,
    )
    &&& incoming.opens_cycle(
        pair.incoming_index as int,
        cycle_beats,
        overlap.incoming_tolerance,
    )
}

/// The pairs whose markers both open a bar or phrase, in their order.
pub open spec fn cycle_pairs(
    outgoing: TrackAnalysis,
    incoming: TrackAnalysis,
    overlap: Overlap,
    pairs: Seq<ObservedMarkerPair>,
    cycle_beats: u32,
) -> Seq<ObservedMarkerPair> {
    pairs.filter(
        |pair: ObservedMarkerPair|
            pair_opens_cycle(outgoing, incoming, overlap, pair, cycle_beats),
    )
}

fn cycle_pairs_of(
    outgoing: &TrackAnalysis,
    incoming: &TrackAnalysis,
    overlap: &Overlap,
    pairs: &Vec<ObservedMarkerPair>,
    cycle_beats: u32,
) -> (r: Vec<ObservedMarkerPair>)
    ensures
        r@ == cycle_pairs(*outgoing, *incoming, *overlap, pairs@, cycle_beats),
{
    let ghost opens = |pair: ObservedMarkerPair|
        pair_opens_cycle(*outgoing, *incoming, *overlap, pair, cycle_beats);
    let mut kept: Vec<ObservedMarkerPair> = Vec::new();
    let mut i: usize = 0;
    proof {
        reveal(Seq::filter);
        assert(pairs@.take(0).filter(opens) =~= Seq::<ObservedMarkerPair>::empty());
    }
    while i < pairs.len()
        invariant
            i <= pairs@.len(),
            opens == (|pair: ObservedMarkerPair|
                pair_opens_cycle(*outgoing, *incoming, *overlap, pair, cycle_beats)),
            kept@ == pairs@.take(i as int).filter(opens),
        decreases pairs@.len() - i,
    {
        let pair = pairs[i];
        let both = outgoing.marker_is_near_cycle_boundary(
            pair.outgoing_index,
            cycle_beats,
            overlap.outgoing_tolerance,
        ) && incoming.marker_is_near_cycle_boundary(
            pair.incoming_index,
            cycle_beats,
            overlap.incoming_tolerance,
        );
        proof {
            reveal(Seq::filter);
            assert(pairs@.take(i + 1).drop_last() =~= pairs@.take(i as int));
            assert(both == opens(pair));
        }
        if both {
            kept.push(pair);
        }
        i += 1;
    }
    assert(pairs@.take(pairs@.len() as int) =~= pairs@);
    kept
}

/// What the pairs of an overlap say of bars or phrases of so many beats. Both
/// downbeats must be actionable, and there must be at least so many pairs that
/// open a bar or phrase on both tracks.
pub fn observed_phase_report(
    outgoing: &TrackAnalysis,
    incoming: &TrackAnalysis,
    overlap: &Overlap,
    pairs: &Vec<ObservedMarkerPair>,
    cycle_beats: u32,
    minimum_pairs: usize,
) -> (r: BeatPhaseReport)
    requires
        minimum_pairs > 0,
    ensures
        r.coverage is None,
        cycle_beats == 0 || !outgoing.downbeat_is_actionable() || !incoming.downbeat_is_actionable()
            ==> r.pairs == 0 && r.max_error is None,
        cycle_beats > 0 && outgoing.downbeat_is_actionable() && incoming.downbeat_is_actionable()
            ==> {
            let opening = cycle_pairs(*outgoing, *incoming, *overlap, pairs@, cycle_beats);
            &&& r.pairs == opening.len()
            &&& r.max_error is Some <==> opening.len() >= minimum_pairs
            &&& r.max_error matches Some(error) ==> error@ == largest_error(
                opening,
                opening.len() as int,
            )
        },
{
    if cycle_beats == 0 || !outgoing.actionable_downbeat_confidence()
        || !incoming.actionable_downbeat_confidence() {
        return BeatPhaseReport { pairs: 0, coverage: None, max_error: None };
    }
    let opening = cycle_pairs_of(outgoing, incoming, overlap, pairs, cycle_beats);
    let max_error = if opening.len() >= minimum_pairs {
        Some(max_error_of(&opening))
    } else {
        None
    };
    BeatPhaseReport { pairs: opening.len(), coverage: None, max_error }
}

/// The error of the last pair that opens a bar or phrase and stands at the end
/// of the overlap; `None` without one, without enough such pairs, without
/// actionable downbeats or without a tempo on both tracks.
pub fn observed_phase_handoff_error(
    outgoing: &TrackAnalysis,
    incoming: &TrackAnalysis,
    overlap: &Overlap,
    pairs: &Vec<ObservedMarkerPair>,
    cycle_beats: u32,
    minimum_pairs: usize,
    outgoing_half: Option<Duration>,
    incoming_half: Option<Duration>,
) -> (r: Option<Duration>)
    ensures
        ({
            let opening = cycle_pairs(*outgoing, *incoming, *overlap, pairs@, cycle_beats);
            let asked = outgoing.downbeat_is_actionable() && incoming.downbeat_is_actionable()
                && outgoing_half is Some && incoming_half is Some && opening.len()
                >= minimum_pairs;
            &&& !asked ==> r is None
            &&& asked ==> r == last_handoff_error(
                opening,
                *overlap,
                outgoing_half->0,
                incoming_half->0,
                opening.len() as int,
            )
        }),
{
    if !outgoing.actionable_downbeat_confidence() || !incoming.actionable_downbeat_confidence() {
        return None;
    }
    if let (Some(near_out), Some(near_in)) = (outgoing_half, incoming_half) {
        let opening = cycle_pairs_of(outgoing, incoming, overlap, pairs, cycle_beats);
        if opening.len() < minimum_pairs {
            return None;
        }
        let mut i: usize = opening.len();
        while i > 0
            invariant
                i <= opening@.len(),
                outgoing_half == Some(near_out),
                incoming_half == Some(near_in),
                outgoing.downbeat_is_actionable(),
                incoming.downbeat_is_actionable(),
                opening@ == cycle_pairs(*outgoing, *incoming, *overlap, pairs@, cycle_beats),
                opening@.len() >= minimum_pairs,
                last_handoff_error(
                    opening@,
                    *overlap,
                    near_out,
                    near_in,
                    opening@.len() as int,
                ) == last_handoff_error(
                    opening@,
                    *overlap,
                    near_out,
                    near_in,
                    i as int,
                ),
            decreases i,
        {
            i -= 1;
            if stands_at_handoff(&opening[i], overlap, near_out, near_in) {
                return Some(opening[i].error);
            }
        }
        return None;
    }
    None
}

/// The error of the last of the first `count` pairs that stands at the end of
/// the overlap.
pub open spec fn last_handoff_error(
    pairs: Seq<ObservedMarkerPair>,
    overlap: Overlap,
    outgoing_half: Duration,
    incoming_half: Duration,
    count: int,
) -> Option<Duration>
    decreases count,
{
    if count <= 0 {
        None
    } else if is_at_handoff(pairs[count - 1], overlap, outgoing_half, incoming_half) {
        Some(pairs[count - 1].error)
    } else {
        last_handoff_error(pairs, overlap, outgoing_half, incoming_half, count - 1)
    }
}

/// What phrases of one length measure on two tracks.
#[derive(Clone, Copy, Debug, PartialEq, Eq, Structural)]
pub struct PhraseMeasure {
    /// Beat intervals, `None` where a track has no trusted tempo.
    pub outgoing_interval: Option<Duration>,
    pub incoming_interval: Option<Duration>,
    pub outgoing_phrase: Duration,
    pub incoming_phrase: Duration,
    /// Half of the shorter phrase.
    pub minimum_overlap: Duration,
}

/// Whether the phase of phrases of one length can be acted upon in an overlap.
pub open spec fn phrase_phase_actionable(
    outgoing: TrackAnalysis,
    incoming: TrackAnalysis,
    harmonic: Option<u32>,
    duration: Duration,
    measure: PhraseMeasure,
) -> bool {
    &&& !spec_keys_clash(harmonic)
    &&& outgoing.has_grid() && measure.outgoing_interval is Some
    &&& incoming.has_grid() && measure.incoming_interval is Some
    &&& outgoing.downbeat_is_actionable()
    &&& incoming.downbeat_is_actionable()
    &&& measure.outgoing_phrase@ > 0
    &&& measure.incoming_phrase@ > 0
    &&& duration@ >= measure.minimum_overlap@
}

/// Whether the phase of phrases of one length can be acted upon in an overlap:
/// keys that do not clash, a grid and an actionable downbeat on both tracks, and
/// at least half a phrase of overlap.
pub fn phrase_phase_is_actionable(
    outgoing: &TrackAnalysis,
    incoming: &TrackAnalysis,
    harmonic: Option<u32>,
    duration: Duration,
    measure: PhraseMeasure,
) -> (r: bool)
    ensures
        r == phrase_phase_actionable(*outgoing, *incoming, harmonic, duration, measure),
{
    if keys_clash(harmonic) || outgoing.beat_grid(measure.outgoing_interval).is_none()
        || incoming.beat_grid(measure.incoming_interval).is_none() {
        return false;
    }
    outgoing.actionable_downbeat_confidence() && incoming.actionable_downbeat_confidence()
        && !measure.outgoing_phrase.is_zero() && !measure.incoming_phrase.is_zero()
        && measure.minimum_overlap.within(duration)
}

/// What was found out on phrases of one length.
#[derive(Clone, Copy, Debug, PartialEq, Eq, Structural)]
pub struct PhraseVerdict {
    pub actionable: bool,
    pub max_error: Option<Duration>,
}

impl PhraseVerdict {
    /// Whether the phrases are actionable and observed to be in phase.
    pub open spec fn in_phase(self) -> bool {
        self.actionable && self.max_error is Some && self.max_error->0@
            <= MAX_PHRASE_PHASE_ERROR_NANOS
    }

    fn is_in_phase(self) -> (r: bool)
        ensures
            r == self.in_phase(),
    {
        match self.max_error {
            Some(error) => self.actionable && error.within(
                Duration { nanos: MAX_PHRASE_PHASE_ERROR_NANOS },
            ),
            None => false,
        }
    }
}

/// The bars of the longest phrase that is in phase in a beat-matched overlap.
pub fn strongest_phrase_boundary_bars(
    kind: TransitionKind,
    sixteen: PhraseVerdict,
    eight: PhraseVerdict,
    four: PhraseVerdict,
) -> (r: Option<u8>)
    ensures
        r == if kind != TransitionKind::BeatMatched {
            None
        } else if sixteen.in_phase() {
            Some(16u8)
        } else if eight.in_phase() {
            Some(8u8)
        } else if four.in_phase() {
            Some(4u8)
        } else {
            None
        },
{
    if kind != TransitionKind::BeatMatched {
        None
    } else if sixteen.is_in_phase() {
        Some(16)
    } else if eight.is_in_phase() {
        Some(8)
    } else if four.is_in_phase() {
        Some(4)
    } else {
        None
    }
}

/// What the pairs of an overlap say of its beats.
pub open spec fn beat_evidence(
    pairs: Seq<ObservedMarkerPair>,
    coverage: Option<u32>,
    overlap: Overlap,
    outgoing_half: Option<Duration>,
    incoming_half: Option<Duration>,
) -> BeatAlignmentEvidence {
    BeatAlignmentEvidence {
        phase: BeatPhaseReport {
            pairs: pairs.len() as usize,
            coverage,
            max_error: if phase_is_verified(pairs, coverage) {
                Some(Duration { nanos: largest_error(pairs, pairs.len() as int) as u128 })
            } else {
                None
            },
        },
        handoff_error: if pairs.len() > 0 && outgoing_half is Some && incoming_half is Some
            && is_at_handoff(pairs.last(), overlap, outgoing_half->0, incoming_half->0) {
            Some(pairs.last().error)
        } else {
            None
        },
    }
}

/// What the pairs of an overlap say of bars or phrases of so many beats.
pub open spec fn cycle_report(
    outgoing: TrackAnalysis,
    incoming: TrackAnalysis,
    overlap: Overlap,
    pairs: Seq<ObservedMarkerPair>,
    cycle_beats: u32,
    minimum_pairs: int,
) -> BeatPhaseReport {
    let opening = cycle_pairs(outgoing, incoming, overlap, pairs, cycle_beats);
    if !outgoing.downbeat_is_actionable() || !incoming.downbeat_is_actionable() {
        BeatPhaseReport { pairs: 0, coverage: None, max_error: None }
    } else {
        BeatPhaseReport {
            pairs: opening.len() as usize,
            coverage: None,
            max_error: if opening.len() >= minimum_pairs {
                Some(Duration { nanos: largest_error(opening, opening.len() as int) as u128 })
            } else {
                None
            },
        }
    }
}

/// The error of the last pair that opens a bar or phrase of so many beats and stands
/// at the end of the overlap.
pub open spec fn cycle_handoff(
    outgoing: TrackAnalysis,
    incoming: TrackAnalysis,
    overlap: Overlap,
    pairs: Seq<ObservedMarkerPair>,
    cycle_beats: u32,
    minimum_pairs: int,
    outgoing_half: Option<Duration>,
    incoming_half: Option<Duration>,
) -> Option<Duration> {
    let opening = cycle_pairs(outgoing, incoming, overlap, pairs, cycle_beats);
    if outgoing.downbeat_is_actionable() && incoming.downbeat_is_actionable() && outgoing_half
        is Some && incoming_half is Some && opening.len() >= minimum_pairs {
        last_handoff_error(
            opening,
            overlap,
            outgoing_half->0,
            incoming_half->0,
            opening.len() as int,
        )
    } else {
        None
    }
}

/// What was measured of the phases of a beat-matched overlap.
#[derive(Clone, Copy, Debug, PartialEq, Eq, Structural)]
pub struct PhaseMeasurements {
    pub beat: BeatAlignmentEvidence,
    pub downbeat: BeatPhaseReport,
    pub downbeat_handoff: Option<Duration>,
    pub phrase: BeatPhaseReport,
    pub phrase_handoff: Option<Duration>,
    /// Whether the phase of four-bar phrases can be acted upon.
    pub phrase_actionable: bool,
    pub phrase_boundary_bars: Option<u8>,
}

/// What phrases measure on two tracks, by their length in bars.
#[derive(Clone, Copy, Debug, PartialEq, Eq, Structural)]
pub struct PhraseMeasures {
    pub four: PhraseMeasure,
    pub eight: PhraseMeasure,
    pub sixteen: PhraseMeasure,
}

/// What the phases of an overlap are measured by besides its markers: the share of
/// its beats that was observed, half a beat of each track, and what its phrases
/// measure.
#[derive(Clone, Copy, Debug, PartialEq, Eq, Structural)]
pub struct PhaseTerms {
    pub coverage: Option<u32>,
    pub outgoing_half: Option<Duration>,
    pub incoming_half: Option<Duration>,
    pub harmonic: Option<u32>,
    pub phrases: PhraseMeasures,
}

/// What was found out on phrases of so many beats.
pub open spec fn verdict_on(
    outgoing: TrackAnalysis,
    incoming: TrackAnalysis,
    overlap: Overlap,
    pairs: Seq<ObservedMarkerPair>,
    harmonic: Option<u32>,
    measure: PhraseMeasure,
    cycle_beats: u32,
) -> PhraseVerdict {
    PhraseVerdict {
        actionable: phrase_phase_actionable(
            outgoing,
            incoming,
            harmonic,
            overlap.duration,
            measure,
        ),
        max_error: cycle_report(
            outgoing,
            incoming,
            overlap,
            pairs,
            cycle_beats,
            MIN_PHRASE_PHASE_PAIRS as int,
        ).max_error,
    }
}

fn cycle_report_of(
    outgoing: &TrackAnalysis,
    incoming: &TrackAnalysis,
    overlap: &Overlap,
    pairs: &Vec<ObservedMarkerPair>,
    cycle_beats: u32,
    minimum_pairs: usize,
) -> (r: BeatPhaseReport)
    requires
        minimum_pairs > 0,
        cycle_beats > 0,
    ensures
        r == cycle_report(
            *outgoing,
            *incoming,
            *overlap,
            pairs@,
            cycle_beats,
            minimum_pairs as int,
        ),
{
    let report = observed_phase_report(
        outgoing,
        incoming,
        overlap,
        pairs,
        cycle_beats,
        minimum_pairs,
    );
    proof {
        if let Some(error) = report.max_error {
            assert(error == Duration { nanos: error@ as u128 });
        }
    }
    report
}

fn phrase_verdict(
    outgoing: &TrackAnalysis,
    incoming: &TrackAnalysis,
    overlap: &Overlap,
    pairs: &Vec<ObservedMarkerPair>,
    harmonic: Option<u32>,
    measure: PhraseMeasure,
    cycle_beats: u32,
) -> (r: PhraseVerdict)
    requires
        cycle_beats > 0,
    ensures
        r == verdict_on(*outgoing, *incoming, *overlap, pairs@, harmonic, measure, cycle_beats),
{
    PhraseVerdict {
        actionable: phrase_phase_is_actionable(
            outgoing,
            incoming,
            harmonic,
            overlap.duration,
            measure,
        ),
        max_error: cycle_report_of(
            outgoing,
            incoming,
            overlap,
            pairs,
            cycle_beats,
            MIN_PHRASE_PHASE_PAIRS,
        ).max_error,
    }
}

impl PhaseMeasurements {
    /// Where beats are not matched, no phase is measured.
    pub fn unmeasured() -> (r: Self)
        ensures
            r.beat.phase.pairs == 0 && r.beat.phase.coverage is None && r.beat.phase.max_error
                is None,
            r.beat.handoff_error is None,
            r.downbeat == r.beat.phase,
            r.downbeat_handoff is None,
            r.phrase == r.beat.phase,
            r.phrase_handoff is None,
            !r.phrase_actionable,
            r.phrase_boundary_bars is None,
    {
        let nothing = BeatPhaseReport { pairs: 0, coverage: None, max_error: None };
        PhaseMeasurements {
            beat: BeatAlignmentEvidence { phase: nothing, handoff_error: None },
            downbeat: nothing,
            downbeat_handoff: None,
            phrase: nothing,
            phrase_handoff: None,
            phrase_actionable: false,
            phrase_boundary_bars: None,
        }
    }

    /// Measures the phases of beats, of bars and of phrases in a beat-matched
    /// overlap, by the markers that were paired in it.
    pub fn measure(
        outgoing: &TrackAnalysis,
        incoming: &TrackAnalysis,
        overlap: &Overlap,
        pairs: &Vec<ObservedMarkerPair>,
        terms: &PhaseTerms,
    ) -> (r: Self)
        ensures
            r.beat == beat_evidence(
                pairs@,
                terms.coverage,
                *overlap,
                terms.outgoing_half,
                terms.incoming_half,
            ),
            r.downbeat == cycle_report(
                *outgoing,
                *incoming,
                *overlap,
                pairs@,
                4,
                MIN_DOWNBEAT_PHASE_PAIRS as int,
            ),
            r.downbeat_handoff == cycle_handoff(
                *outgoing,
                *incoming,
                *overlap,
                pairs@,
                4,
                MIN_DOWNBEAT_PHASE_PAIRS as int,
                terms.outgoing_half,
                terms.incoming_half,
            ),
            r.phrase == cycle_report(
                *outgoing,
                *incoming,
                *overlap,
                pairs@,
                16,
                MIN_PHRASE_PHASE_PAIRS as int,
            ),
            r.phrase_handoff == cycle_handoff(
                *outgoing,
                *incoming,
                *overlap,
                pairs@,
                16,
                MIN_PHRASE_PHASE_PAIRS as int,
                terms.outgoing_half,
                terms.incoming_half,
            ),
            r.phrase_actionable == phrase_phase_actionable(
                *outgoing,
                *incoming,
                terms.harmonic,
                overlap.duration,
                terms.phrases.four,
            ),
            ({
                let found = |measure: PhraseMeasure, beats: u32|
                    verdict_on(
                        *outgoing,
                        *incoming,
                        *overlap,
                        pairs@,
                        terms.harmonic,
                        measure,
                        beats,
                    ).in_phase();
                r.phrase_boundary_bars == if found(terms.phrases.sixteen, 64) {
                    Some(16u8)
                } else if found(terms.phrases.eight, 32) {
                    Some(8u8)
                } else if found(terms.phrases.four, 16) {
                    Some(4u8)
                } else {
                    None
                }
            }),
    {
        let beat = beat_alignment_evidence(
            pairs,
            terms.coverage,
            overlap,
            terms.outgoing_half,
            terms.incoming_half,
        );
        proof {
            if let Some(error) = beat.phase.max_error {
                assert(error == Duration { nanos: error@ as u128 });
            }
        }
        let phrases = terms.phrases;
        let four = phrase_verdict(
            outgoing,
            incoming,
            overlap,
            pairs,
            terms.harmonic,
            phrases.four,
            16,
        );
        let eight = phrase_verdict(
            outgoing,
            incoming,
            overlap,
            pairs,
            terms.harmonic,
            phrases.eight,
            32,
        );
        let sixteen = phrase_verdict(
            outgoing,
            incoming,
            overlap,
            pairs,
            terms.harmonic,
            phrases.sixteen,
            64,
        );
        PhaseMeasurements {
            beat,
            downbeat: cycle_report_of(
                outgoing,
                incoming,
                overlap,
                pairs,
                4,
                MIN_DOWNBEAT_PHASE_PAIRS,
            ),
            downbeat_handoff: observed_phase_handoff_error(
                outgoing,
                incoming,
                overlap,
                pairs,
                4,
                MIN_DOWNBEAT_PHASE_PAIRS,
                terms.outgoing_half,
                terms.incoming_half,
            ),
            phrase: cycle_report_of(
                outgoing,
                incoming,
                overlap,
                pairs,
                16,
                MIN_PHRASE_PHASE_PAIRS,
            ),
            phrase_handoff: observed_phase_handoff_error(
                outgoing,
                incoming,
                overlap,
                pairs,
                16,
                MIN_PHRASE_PHASE_PAIRS,
                terms.outgoing_half,
                terms.incoming_half,
            ),
            phrase_actionable: four.actionable,
            phrase_boundary_bars: strongest_phrase_boundary_bars(
                TransitionKind::BeatMatched,
                sixteen,
                eight,
                four,
            ),
        }
    }
}

/// Where both tempos are positive and finite, a ratio of 1.5 to 2.5 pairs every beat with
/// every second incoming one, and one of 0.4 to 0.75 every second beat with every incoming
/// one. All others pair beat with beat.
pub proof fn strides_follow_the_ratio(outgoing: Option<u32>, incoming: Option<u32>, ratio: u32)
    ensures
        ({
            let strides = strides_of(outgoing, incoming, ratio);
            let sound = |bpm: Option<u32>|
                bpm is Some && scalar::spec_is_finite(bpm->0) && scalar::spec_less(0, bpm->0);
            let double = scalar::spec_at_most(0x3FC0_0000, ratio) && scalar::spec_at_most(
                ratio,
                0x4020_0000,
            );
            let half = scalar::spec_at_most(0x3ECC_CCCD, ratio) && scalar::spec_at_most(
                ratio,
                0x3F40_0000,
            );
            &&& !sound(outgoing) || !sound(incoming) ==> strides == (1int, 1int)
            &&& sound(outgoing) && sound(incoming) ==> {
                &&& double ==> strides == (1int, 2int)
                &&& half && !double ==> strides == (2int, 1int)
                &&& !double && !half ==> strides == (1int, 1int)
            }
        }),
{
}

/// The error of a pair is how far its incoming marker lies from where the incoming track
/// is when the outgoing marker plays.
pub proof fn pairs_tell_how_far_they_miss(
    outgoing: TrackAnalysis,
    incoming: TrackAnalysis,
    overlap: Overlap,
    elapsed: Seq<Duration>,
    outgoing_index: int,
    incoming_index: int,
)
    requires
        0 <= outgoing_index < outgoing.beat_markers@.len(),
        0 <= incoming_index < incoming.beat_markers@.len(),
        outgoing_index <= usize::MAX,
        incoming_index <= usize::MAX,
        overlap.incoming_start@ + elapsed[outgoing_index]@ <= MAX_NANOS,
    ensures
        ({
            let pair = pair_at(
                outgoing,
                incoming,
                overlap,
                elapsed,
                outgoing_index,
                incoming_index,
            );
            let played = overlap.incoming_start@ + elapsed[outgoing_index]@;
            &&& pair.outgoing_index == outgoing_index
            &&& pair.incoming_index == incoming_index
            &&& pair.outgoing == outgoing.beat_markers@[outgoing_index]
            &&& pair.incoming == incoming.beat_markers@[incoming_index]
            &&& pair.incoming@ <= played ==> pair.error@ == played - pair.incoming@
            &&& played <= pair.incoming@ ==> pair.error@ == pair.incoming@ - played
        }),
{
}

/// Pairs are taken where both markers are trusted and inside the overlap; the walk goes on
/// by one stride on each side, whether a pair was taken or not, and ends with the overlap
/// or when there is no room left.
pub proof fn pairs_go_on_by_strides(
    outgoing: TrackAnalysis,
    incoming: TrackAnalysis,
    overlap: Overlap,
    elapsed: Seq<Duration>,
    outgoing_index: int,
    incoming_index: int,
    room: int,
)
    requires
        overlap.wf(),
        0 <= outgoing_index,
        0 <= incoming_index,
    ensures
        ({
            let pairs = pairs_from(
                outgoing,
                incoming,
                overlap,
                elapsed,
                outgoing_index,
                incoming_index,
                room,
            );
            let inside = outgoing_index < outgoing.beat_markers@.len() && incoming_index
                < incoming.beat_markers@.len() && outgoing.beat_markers@[outgoing_index]@
                <= overlap.outgoing_end() && incoming.beat_markers@[incoming_index]@
                <= overlap.incoming_end();
            let taken = outgoing.trusted(outgoing_index) && incoming.trusted(incoming_index);
            let rest = pairs_from(
                outgoing,
                incoming,
                overlap,
                elapsed,
                outgoing_index + overlap.outgoing_stride,
                incoming_index + overlap.incoming_stride,
                if taken {
                    room - 1
                } else {
                    room
                },
            );
            &&& room <= 0 ==> pairs.len() == 0
            &&& !inside ==> pairs.len() == 0
            &&& inside && room > 0 && !taken ==> pairs == rest
            &&& inside && room > 0 && taken ==> pairs.len() == rest.len() + 1 && pairs.skip(1)
                == rest && pairs[0] == pair_at(
                outgoing,
                incoming,
                overlap,
                elapsed,
                outgoing_index,
                incoming_index,
            )
            &&& pairs.len() <= if room > 0 {
                room
            } else {
                0
            }
        }),
    decreases outgoing.beat_markers@.len() + 2 - outgoing_index,
{
    let inside = step_is_inside(outgoing, incoming, overlap, outgoing_index, incoming_index);
    let taken = outgoing.trusted(outgoing_index) && incoming.trusted(incoming_index);
    let left = if taken {
        room - 1
    } else {
        room
    };
    let pairs = pairs_from(
        outgoing,
        incoming,
        overlap,
        elapsed,
        outgoing_index,
        incoming_index,
        room,
    );
    let rest = pairs_from(
        outgoing,
        incoming,
        overlap,
        elapsed,
        outgoing_index + overlap.outgoing_stride,
        incoming_index + overlap.incoming_stride,
        left,
    );
    if inside && room > 0 {
        pairs_go_on_by_strides(
            outgoing,
            incoming,
            overlap,
            elapsed,
            outgoing_index + overlap.outgoing_stride,
            incoming_index + overlap.incoming_stride,
            left,
        );
        if taken {
            assert(pairs.skip(1) =~= rest);
        }
    }
}

/// The largest error is that of a pair, and no pair has a larger one; without pairs it is
/// nothing.
pub proof fn largest_errors_are_reached(pairs: Seq<ObservedMarkerPair>, count: int)
    requires
        0 <= count <= pairs.len(),
    ensures
        forall|k: int|
            0 <= k < count ==> (#[trigger] pairs[k]).error@ <= largest_error(pairs, count),
        count > 0 ==> exists|k: int|
            0 <= k < count && (#[trigger] pairs[k]).error@ == largest_error(pairs, count),
        count == 0 ==> largest_error(pairs, count) == 0,
    decreases count,
{
    if count > 0 {
        largest_errors_are_reached(pairs, count - 1);
        let last = pairs[count - 1].error@;
        if count == 1 || largest_error(pairs, count - 1) <= last {
            assert(pairs[count - 1].error@ == largest_error(pairs, count));
        } else {
            let k = choose|k: int|
                0 <= k < count - 1 && (#[trigger] pairs[k]).error@ == largest_error(
                    pairs,
                    count - 1,
                );
            assert(pairs[k].error@ == largest_error(pairs, count));
        }
    }
}

/// A pair is at the handoff where its outgoing marker lies within half an outgoing beat of
/// the end of the overlap and its incoming marker within half an incoming beat, on either
/// side.
pub proof fn handoff_pairs_lie_at_both_ends(
    pair: ObservedMarkerPair,
    overlap: Overlap,
    outgoing_half: Duration,
    incoming_half: Duration,
)
    requires
        overlap.outgoing_start@ + overlap.duration@ <= MAX_NANOS,
        overlap.incoming_start@ + overlap.incoming_source@ <= MAX_NANOS,
    ensures
        is_at_handoff(pair, overlap, outgoing_half, incoming_half) <==> {
            let end = overlap.outgoing_start@ + overlap.duration@;
            let other = overlap.incoming_start@ + overlap.incoming_source@;
            &&& end - outgoing_half@ <= pair.outgoing@ <= end + outgoing_half@
            &&& other - incoming_half@ <= pair.incoming@ <= other + incoming_half@
        },
{
}

/// The phase of the beats is verified from eight pairs on that cover 0.65 of the overlap.
pub proof fn eight_pairs_verify_the_phase(
    pairs: Seq<ObservedMarkerPair>,
    coverage: Option<u32>,
)
    ensures
        pairs.len() < 8 ==> !phase_is_verified(pairs, coverage),
        coverage is None ==> !phase_is_verified(pairs, coverage),
        coverage matches Some(share) ==> {
            &&& !scalar::spec_at_most(0x3F26_6666, share) ==> !phase_is_verified(pairs, coverage)
            &&& pairs.len() >= 8 && scalar::spec_at_most(0x3F26_6666, share) ==> phase_is_verified(
                pairs,
                coverage,
            )
        },
{
}

/// The pairs that open a cycle are those of the pairs whose markers both open one, in the
/// order in which they come.
pub proof fn cycle_pairs_open_on_both_sides(
    outgoing: TrackAnalysis,
    incoming: TrackAnalysis,
    overlap: Overlap,
    pairs: Seq<ObservedMarkerPair>,
    cycle_beats: u32,
    pair: ObservedMarkerPair,
)
    ensures
        cycle_pairs(outgoing, incoming, overlap, pairs, cycle_beats).contains(pair) <==> {
            &&& pairs.contains(pair)
            &&& outgoing.opens_cycle(
                pair.outgoing_index as int,
                cycle_beats,
                overlap.outgoing_tolerance,
            )
            &&& incoming.opens_cycle(
                pair.incoming_index as int,
                cycle_beats,
                overlap.incoming_tolerance,
            )
        },
        cycle_pairs(outgoing, incoming, overlap, pairs, cycle_beats).len() <= pairs.len(),
{
    let opens = |pair: ObservedMarkerPair|
        pair_opens_cycle(outgoing, incoming, overlap, pair, cycle_beats);
    let found = pairs.filter(opens);
    assert(found == cycle_pairs(outgoing, incoming, overlap, pairs, cycle_beats));
    pairs.lemma_filter_len(opens);
    if found.contains(pair) {
        let i = choose|i: int| 0 <= i < found.len() && found[i] == pair;
        pairs.lemma_filter_pred(opens, i);
        pairs.lemma_filter_contains_rev(opens, pair);
    }
    if pairs.contains(pair) && opens(pair) {
        let i = choose|i: int| 0 <= i < pairs.len() && pairs[i] == pair;
        pairs.lemma_filter_contains(opens, i);
    }
}

/// The error at the handoff is that of the last pair that lies there, and there is none
/// just where no pair does.
pub proof fn last_pair_at_the_handoff_counts(
    pairs: Seq<ObservedMarkerPair>,
    overlap: Overlap,
    outgoing_half: Duration,
    incoming_half: Duration,
    count: int,
)
    requires
        0 <= count <= pairs.len(),
    ensures
        match last_handoff_error(pairs, overlap, outgoing_half, incoming_half, count) {
            Some(error) => exists|k: int|
                {
                    &&& 0 <= k < count
                    &&& (#[trigger] pairs[k]).error == error
                    &&& is_at_handoff(pairs[k], overlap, outgoing_half, incoming_half)
                    &&& forall|l: int|
                        k < l < count ==> !is_at_handoff(
                            #[trigger] pairs[l],
                            overlap,
                            outgoing_half,
                            incoming_half,
                        )
                },
            None => forall|l: int|
                0 <= l < count ==> !is_at_handoff(
                    #[trigger] pairs[l],
                    overlap,
                    outgoing_half,
                    incoming_half,
                ),
        },
    decreases count,
{
    if count > 0 {
        if is_at_handoff(pairs[count - 1], overlap, outgoing_half, incoming_half) {
            assert(pairs[count - 1].error == pairs[count - 1].error);
        } else {
            last_pair_at_the_handoff_counts(
                pairs,
                overlap,
                outgoing_half,
                incoming_half,
                count - 1,
            );
            if let Some(error) = last_handoff_error(
                pairs,
                overlap,
                outgoing_half,
                incoming_half,
                count - 1,
            ) {
                let k = choose|k: int|
                    {
                        &&& 0 <= k < count - 1
                        &&& (#[trigger] pairs[k]).error == error
                        &&& is_at_handoff(pairs[k], overlap, outgoing_half, incoming_half)
                        &&& forall|l: int|
                            k < l < count - 1 ==> !is_at_handoff(
                                #[trigger] pairs[l],
                                overlap,
                                outgoing_half,
                                incoming_half,
                            )
                    };
                assert(pairs[k].error == error);
            }
        }
    }
}

/// Phrases can be acted upon only where the keys do not clash, both tracks have a grid
/// with a known interval and a downbeat to act upon, both phrases have a length and the
/// overlap holds at least one; then they can.
pub proof fn phrases_are_acted_upon_with_all_evidence(
    outgoing: TrackAnalysis,
    incoming: TrackAnalysis,
    harmonic: Option<u32>,
    duration: Duration,
    measure: PhraseMeasure,
)
    ensures
        ({
            let acts = phrase_phase_actionable(outgoing, incoming, harmonic, duration, measure);
            let clash = harmonic is Some && scalar::spec_less(harmonic->0, 0x3F00_0000);
            let grids = outgoing.has_grid() && incoming.has_grid();
            let intervals = measure.outgoing_interval is Some && measure.incoming_interval is Some;
            let downbeats = outgoing.downbeat_is_actionable() && incoming.downbeat_is_actionable();
            &&& clash ==> !acts
            &&& !grids ==> !acts
            &&& !intervals ==> !acts
            &&& !downbeats ==> !acts
            &&& measure.outgoing_phrase@ == 0 || measure.incoming_phrase@ == 0 ==> !acts
            &&& duration@ < measure.minimum_overlap@ ==> !acts
            &&& !clash && grids && intervals && downbeats && measure.outgoing_phrase@ > 0
                && measure.incoming_phrase@ > 0 && duration@ >= measure.minimum_overlap@ ==> acts
        }),
{
}

/// Phrases are in phase where they can be acted upon and their error is known and at most
/// 150 milliseconds.
pub proof fn phrases_in_phase_miss_by_little(verdict: PhraseVerdict)
    ensures
        !verdict.actionable ==> !verdict.in_phase(),
        verdict.max_error is None ==> !verdict.in_phase(),
        verdict.actionable && verdict.max_error is Some ==> (verdict.in_phase()
            <==> verdict.max_error->0@ <= 150_000_000),
{
}

/// The evidence on the beats counts the pairs and hands on their coverage. Its error is
/// the largest one, told only from eight pairs on that cover enough, and its error at the
/// handoff that of the last pair, told only where that lies there.
pub proof fn beat_evidence_tells_what_was_observed(
    pairs: Seq<ObservedMarkerPair>,
    coverage: Option<u32>,
    overlap: Overlap,
    outgoing_half: Option<Duration>,
    incoming_half: Option<Duration>,
)
    requires
        pairs.len() <= usize::MAX,
    ensures
        ({
            let evidence = beat_evidence(pairs, coverage, overlap, outgoing_half, incoming_half);
            &&& evidence.phase.pairs == pairs.len()
            &&& evidence.phase.coverage == coverage
            &&& evidence.phase.max_error is Some <==> pairs.len() >= 8 && coverage is Some
                && scalar::spec_at_most(0x3F26_6666, coverage->0)
            &&& evidence.phase.max_error matches Some(error) ==> {
                &&& forall|k: int|
                    0 <= k < pairs.len() ==> (#[trigger] pairs[k]).error@ <= error@
                &&& exists|k: int|
                    0 <= k < pairs.len() && (#[trigger] pairs[k]).error@ == error@
            }
            &&& evidence.handoff_error matches Some(error) ==> pairs.len() > 0 && error
                == pairs.last().error
            &&& evidence.handoff_error is Some <==> pairs.len() > 0 && outgoing_half is Some
                && incoming_half is Some && is_at_handoff(
                pairs.last(),
                overlap,
                outgoing_half->0,
                incoming_half->0,
            )
        }),
{
    largest_errors_are_reached(pairs, pairs.len() as int);
    let most = largest_error(pairs, pairs.len() as int);
    if pairs.len() > 0 {
        let k = choose|k: int|
            0 <= k < pairs.len() && (#[trigger] pairs[k]).error@ == largest_error(
                pairs,
                pairs.len() as int,
            );
        assert(most == pairs[k].error@);
    }
}

/// A report on bars or phrases needs a downbeat to act upon on both sides, counts the
/// pairs that open a cycle, and tells their largest error from the least number on.
pub proof fn cycle_reports_need_both_downbeats(
    outgoing: TrackAnalysis,
    incoming: TrackAnalysis,
    overlap: Overlap,
    pairs: Seq<ObservedMarkerPair>,
    cycle_beats: u32,
    minimum_pairs: int,
)
    requires
        pairs.len() <= usize::MAX,
        minimum_pairs > 0,
    ensures
        ({
            let report = cycle_report(
                outgoing,
                incoming,
                overlap,
                pairs,
                cycle_beats,
                minimum_pairs,
            );
            let opening = cycle_pairs(outgoing, incoming, overlap, pairs, cycle_beats);
            let downbeats = outgoing.downbeat_is_actionable() && incoming.downbeat_is_actionable();
            &&& !downbeats ==> report.pairs == 0 && report.max_error is None
            &&& report.coverage is None
            &&& downbeats ==> report.pairs == opening.len()
            &&& downbeats ==> (report.max_error is Some <==> opening.len() >= minimum_pairs)
            &&& report.max_error matches Some(error) ==> {
                &&& forall|k: int|
                    0 <= k < opening.len() ==> (#[trigger] opening[k]).error@ <= error@
                &&& exists|k: int|
                    0 <= k < opening.len() && (#[trigger] opening[k]).error@ == error@
            }
        }),
{
    let opening = cycle_pairs(outgoing, incoming, overlap, pairs, cycle_beats);
    largest_errors_are_reached(opening, opening.len() as int);
    pairs.lemma_filter_len(
        |pair: ObservedMarkerPair|
            pair_opens_cycle(outgoing, incoming, overlap, pair, cycle_beats),
    );
    let most = largest_error(opening, opening.len() as int);
    if opening.len() > 0 {
        let k = choose|k: int|
            0 <= k < opening.len() && (#[trigger] opening[k]).error@ == largest_error(
                opening,
                opening.len() as int,
            );
        assert(most == opening[k].error@);
    }
}

/// The error at the handoff of bars or phrases needs a downbeat to act upon and a known
/// interval on both sides, and the least number of pairs; it is that of the last pair that
/// opens a cycle there.
pub proof fn cycle_handoffs_need_both_sides(
    outgoing: TrackAnalysis,
    incoming: TrackAnalysis,
    overlap: Overlap,
    pairs: Seq<ObservedMarkerPair>,
    cycle_beats: u32,
    minimum_pairs: int,
    outgoing_half: Option<Duration>,
    incoming_half: Option<Duration>,
)
    ensures
        ({
            let error = cycle_handoff(
                outgoing,
                incoming,
                overlap,
                pairs,
                cycle_beats,
                minimum_pairs,
                outgoing_half,
                incoming_half,
            );
            let opening = cycle_pairs(outgoing, incoming, overlap, pairs, cycle_beats);
            let last = opening[opening.len() - 1];
            &&& !outgoing.downbeat_is_actionable() || !incoming.downbeat_is_actionable() ==> error
                is None
            &&& outgoing_half is None || incoming_half is None ==> error is None
            &&& opening.len() < minimum_pairs ==> error is None
            &&& outgoing.downbeat_is_actionable() && incoming.downbeat_is_actionable()
                && outgoing_half is Some && incoming_half is Some && opening.len()
                >= minimum_pairs && opening.len() > 0 && is_at_handoff(
                last,
                overlap,
                outgoing_half->0,
                incoming_half->0,
            ) ==> error == Some(last.error)
            &&& error matches Some(found) ==> exists|k: int|
                0 <= k < opening.len() && (#[trigger] opening[k]).error == found
        }),
{
    let opening = cycle_pairs(outgoing, incoming, overlap, pairs, cycle_beats);
    if outgoing_half is Some && incoming_half is Some {
        last_pair_at_the_handoff_counts(
            opening,
            overlap,
            outgoing_half->0,
            incoming_half->0,
            opening.len() as int,
        );
        if let Some(found) = last_handoff_error(
            opening,
            overlap,
            outgoing_half->0,
            incoming_half->0,
            opening.len() as int,
        ) {
            let k = choose|k: int|
                {
                    &&& 0 <= k < opening.len()
                    &&& (#[trigger] opening[k]).error == found
                    &&& is_at_handoff(opening[k], overlap, outgoing_half->0, incoming_half->0)
                    &&& forall|l: int|
                        k < l < opening.len() ==> !is_at_handoff(
                            #[trigger] opening[l],
                            overlap,
                            outgoing_half->0,
                            incoming_half->0,
                        )
                };
            assert(opening[k].error == found);
        }
    }
}

/// A verdict on phrases tells whether they can be acted upon and, from one pair on, how far
/// they miss at most.
pub proof fn verdicts_tell_of_phrases(
    outgoing: TrackAnalysis,
    incoming: TrackAnalysis,
    overlap: Overlap,
    pairs: Seq<ObservedMarkerPair>,
    harmonic: Option<u32>,
    measure: PhraseMeasure,
    cycle_beats: u32,
)
    ensures
        ({
            let verdict = verdict_on(
                outgoing,
                incoming,
                overlap,
                pairs,
                harmonic,
                measure,
                cycle_beats,
            );
            let opening = cycle_pairs(outgoing, incoming, overlap, pairs, cycle_beats);
            &&& verdict.actionable == phrase_phase_actionable(
                outgoing,
                incoming,
                harmonic,
                overlap.duration,
                measure,
            )
            &&& verdict.max_error is Some <==> opening.len() >= 1
                && outgoing.downbeat_is_actionable() && incoming.downbeat_is_actionable()
        }),
{
}

/// At most 128 pairs are observed; two pairs tell of bars and one of phrases.
pub proof fn observations_are_limited()
    ensures
        MAX_PHASE_MARKER_PAIRS == 128,
        MIN_DOWNBEAT_PHASE_PAIRS == 2,
        MIN_PHRASE_PHASE_PAIRS == 1,
{
}

} // verus!
