//! Following the local tempo of the outgoing track: which beats of both tracks
//! belong together, and in which blocks the speed is corrected.

use vstd::prelude::*;

use super::alignment::advance;
use super::plan::{TempoEnvelope, TempoSegment, MAX_TEMPO_SEGMENTS};
use super::track::{TrackAnalysis, MIN_PHASE_MARKER_CONFIDENCE};
use crate::scalar;
use crate::time::{spec_distance, spec_max, spec_min, Duration, MAX_NANOS};

verus! {

/// How many beats one correction of the speed spans.
pub const BEATS_PER_CORRECTION: usize = 4;

/// How many pairs of beats it takes to follow a tempo.
pub const MIN_FOLLOWED_PAIRS: usize = 5;

/// How far the first pair may stand from the two starts (30 milliseconds).
pub const MAX_ANCHOR_DISTANCE_NANOS: u128 = 30_000_000;

/// A deviation of the speed up to this is not worth correcting (0.001).
pub const TEMPO_SYNC_DEADBAND: u32 = 0x3A83_126F;

/// A beat with the confidence of its marker, as bits.
#[derive(Clone, Copy, Debug, PartialEq, Eq, Structural)]
pub struct ConfidentBeat {
    pub position: Duration,
    pub confidence: u32,
}

impl ConfidentBeat {
    /// Whether the beat carries a phase.
    pub open spec fn trusted(self) -> bool {
        scalar::spec_at_most(MIN_PHASE_MARKER_CONFIDENCE, self.confidence)
    }

    /// Whether the beat carries a phase.
    pub fn is_trusted(self) -> (r: bool)
        ensures
            r == self.trusted(),
    {
        scalar::at_most(MIN_PHASE_MARKER_CONFIDENCE, self.confidence)
    }
}

/// Those of the first `n` markers that lie between two positions, both included,
/// and have a confidence between zero and one.
pub open spec fn confident_between(
    track: TrackAnalysis,
    from: Duration,
    to: Duration,
    n: int,
) -> Seq<ConfidentBeat>
    decreases n,
{
    if n <= 0 {
        Seq::empty()
    } else {
        let rest = confident_between(track, from, to, n - 1);
        let beat = track.beat_markers@[n - 1];
        if from@ <= beat@ <= to@ && n - 1 < track.beat_marker_confidences@.len()
            && scalar::spec_in_unit(track.beat_marker_confidences@[n - 1]) {
            rest.push(
                ConfidentBeat {
                    position: beat,
                    confidence: track.beat_marker_confidences@[n - 1],
                },
            )
        } else {
            rest
        }
    }
}

/// The markers between two positions, both included, that have a confidence
/// between zero and one.
pub fn confident_beats_between(analysis: &TrackAnalysis, from: Duration, to: Duration) -> (r: Vec<
    ConfidentBeat,
>)
    ensures
        r@ == confident_between(*analysis, from, to, analysis.beat_markers@.len() as int),
{
    let mut beats: Vec<ConfidentBeat> = Vec::new();
    let mut i: usize = 0;
    while i < analysis.beat_markers.len()
        invariant
            i <= analysis.beat_markers@.len(),
            beats@ == confident_between(*analysis, from, to, i as int),
        decreases analysis.beat_markers@.len() - i,
    {
        let position = analysis.beat_markers[i];
        if from.within(position) && position.within(to) {
            if let Some(confidence) = analysis.marker_confidence(i) {
                beats.push(ConfidentBeat { position, confidence });
            }
        }
        i += 1;
    }
    beats
}

/// Whether a beat is trusted and near a position.
pub open spec fn anchors(beat: ConfidentBeat, position: Duration, tolerance: Duration) -> bool {
    beat.trusted() && spec_distance(beat.position@, position@) <= tolerance@
}

/// The first beat from an index on that is trusted and near a position.
pub open spec fn first_anchor(
    beats: Seq<ConfidentBeat>,
    position: Duration,
    tolerance: Duration,
    from: int,
) -> Option<int>
    decreases beats.len() - from,
{
    if from >= beats.len() {
        None
    } else if anchors(beats[from], position, tolerance) {
        Some(from)
    } else {
        first_anchor(beats, position, tolerance, from + 1)
    }
}

fn find_anchor(
    beats: &Vec<ConfidentBeat>,
    position: Duration,
    tolerance: Duration,
) -> (r: Option<usize>)
    ensures
        r is Some <==> first_anchor(beats@, position, tolerance, 0) is Some,
        r matches Some(index) ==> index < beats@.len() && first_anchor(
            beats@,
            position,
            tolerance,
            0,
        ) == Some(index as int),
{
    let mut i: usize = 0;
    while i < beats.len()
        invariant
            i <= beats@.len(),
            first_anchor(beats@, position, tolerance, 0) == first_anchor(
                beats@,
                position,
                tolerance,
                i as int,
            ),
        decreases beats@.len() - i,
    {
        if beats[i].is_trusted() && beats[i].position.abs_diff(position).within(tolerance) {
            return Some(i);
        }
        i += 1;
    }
    None
}

/// Two beats that sound together.
#[derive(Clone, Copy, Debug, PartialEq, Eq, Structural)]
pub struct BeatPair {
    pub outgoing: ConfidentBeat,
    pub incoming: ConfidentBeat,
}

/// The pairs of beats from two indexes on, stride by stride, up to the first that
/// does not meet where the speed says. `targets` tells for each outgoing beat where
/// the incoming track should be.
pub open spec fn followed_pairs(
    outgoing: Seq<ConfidentBeat>,
    incoming: Seq<ConfidentBeat>,
    targets: Seq<Duration>,
    tolerance: Duration,
    strides: (int, int),
    outgoing_index: int,
    incoming_index: int,
) -> Seq<BeatPair>
    decreases outgoing.len() + 2 - outgoing_index,
{
    if !(1 <= strides.0 <= 2 && 1 <= strides.1 <= 2) || outgoing_index >= outgoing.len()
        || incoming_index >= incoming.len() || spec_distance(
        incoming[incoming_index].position@,
        targets[outgoing_index]@,
    ) > tolerance@ {
        Seq::empty()
    } else {
        seq![
            BeatPair { outgoing: outgoing[outgoing_index], incoming: incoming[incoming_index] },
        ] + followed_pairs(
            outgoing,
            incoming,
            targets,
            tolerance,
            strides,
            outgoing_index + strides.0,
            incoming_index + strides.1,
        )
    }
}

/// Pairs the beats of two tracks. They start at the first trusted beat near each
/// start and go on, stride by stride, as long as the incoming beat stands where
/// the speed says it should.
pub fn pair_phase_follow_beats(
    outgoing_beats: &Vec<ConfidentBeat>,
    incoming_beats: &Vec<ConfidentBeat>,
    targets: &Vec<Duration>,
    outgoing_start: Duration,
    incoming_start: Duration,
    tolerance: Duration,
    strides: (usize, usize),
) -> (r: Vec<BeatPair>)
    requires
        targets@.len() == outgoing_beats@.len(),
        1 <= strides.0 <= 2,
        1 <= strides.1 <= 2,
    ensures
        ({
            let outgoing_anchor = first_anchor(outgoing_beats@, outgoing_start, tolerance, 0);
            let incoming_anchor = first_anchor(incoming_beats@, incoming_start, tolerance, 0);
            r@ == if outgoing_anchor is Some && incoming_anchor is Some {
                followed_pairs(
                    outgoing_beats@,
                    incoming_beats@,
                    targets@,
                    tolerance,
                    (strides.0 as int, strides.1 as int),
                    outgoing_anchor->0,
                    incoming_anchor->0,
                )
            } else {
                Seq::empty()
            }
        }),
{
    let mut pairs: Vec<BeatPair> = Vec::new();
    let outgoing_anchor = match find_anchor(outgoing_beats, outgoing_start, tolerance) {
        Some(index) => index,
        None => {
            return pairs;
        },
    };
    let incoming_anchor = match find_anchor(incoming_beats, incoming_start, tolerance) {
        Some(index) => index,
        None => {
            return pairs;
        },
    };
    let ghost steps = (strides.0 as int, strides.1 as int);
    let ghost whole = followed_pairs(
        outgoing_beats@,
        incoming_beats@,
        targets@,
        tolerance,
        steps,
        outgoing_anchor as int,
        incoming_anchor as int,
    );
    let mut i: usize = outgoing_anchor;
    let mut j: usize = incoming_anchor;
    assert(pairs@ + whole =~= whole);
    while i < outgoing_beats.len() && j < incoming_beats.len()
        && incoming_beats[j].position.abs_diff(targets[i]).within(tolerance)
        invariant
            targets@.len() == outgoing_beats@.len(),
            1 <= strides.0 <= 2,
            1 <= strides.1 <= 2,
            steps == (strides.0 as int, strides.1 as int),
            pairs@ + followed_pairs(
                outgoing_beats@,
                incoming_beats@,
                targets@,
                tolerance,
                steps,
                i as int,
                j as int,
            ) == whole,
        decreases spec_max(outgoing_beats@.len() - i, 0),
    {
        let pair = BeatPair { outgoing: outgoing_beats[i], incoming: incoming_beats[j] };
        let ghost before = pairs@;
        let ghost next = followed_pairs(
            outgoing_beats@,
            incoming_beats@,
            targets@,
            tolerance,
            steps,
            i + strides.0,
            j + strides.1,
        );
        pairs.push(pair);
        assert(before + (seq![pair] + next) =~= pairs@ + next);
        i = advance(i, strides.0, outgoing_beats.len());
        j = advance(j, strides.1, incoming_beats.len());
        assert(next =~= followed_pairs(
            outgoing_beats@,
            incoming_beats@,
            targets@,
            tolerance,
            steps,
            i as int,
            j as int,
        ));
    }
    assert(pairs@ =~= whole);
    pairs
}

/// A stretch of pairs in which one speed holds.
#[derive(Clone, Copy, Debug, PartialEq, Eq, Structural)]
pub struct CorrectionBlock {
    /// How long the stretch is on the outgoing track.
    pub output_delta: Duration,
    /// Where the stretch ends, from the start of the overlap.
    pub output_end: Duration,
    /// Where the incoming track should be then, from its start.
    pub desired_source: Duration,
    /// Whether the beats of the stretch are sure enough to correct the speed.
    pub trusted: bool,
}

/// How many of the pairs between two indexes, both included, have a trusted beat
/// on a side.
pub open spec fn trusted_beats(
    pairs: Seq<BeatPair>,
    first: int,
    last: int,
    outgoing: bool,
) -> int
    decreases last + 1 - first,
{
    if first > last {
        0
    } else {
        trusted_beats(pairs, first, last - 1, outgoing) + if (if outgoing {
            pairs[last].outgoing.trusted()
        } else {
            pairs[last].incoming.trusted()
        }) {
            1int
        } else {
            0int
        }
    }
}

/// Whether a stretch is sure enough: at least three trusted beats on each side,
/// and trusted beats at both of its ends.
pub open spec fn block_is_trusted(pairs: Seq<BeatPair>, first: int, last: int) -> bool {
    &&& trusted_beats(pairs, first, last, true) >= 3
    &&& trusted_beats(pairs, first, last, false) >= 3
    &&& pairs[first].outgoing.trusted() && pairs[last].outgoing.trusted()
    &&& pairs[first].incoming.trusted() && pairs[last].incoming.trusted()
}

/// The stretch between two pairs.
pub open spec fn block_between(
    pairs: Seq<BeatPair>,
    first: int,
    last: int,
    outgoing_start: Duration,
    incoming_start: Duration,
) -> CorrectionBlock {
    CorrectionBlock {
        output_delta: Duration {
            nanos: spec_max(
                pairs[last].outgoing.position@ - pairs[first].outgoing.position@,
                0,
            ) as u128,
        },
        output_end: Duration {
            nanos: spec_max(pairs[last].outgoing.position@ - outgoing_start@, 0) as u128,
        },
        desired_source: Duration {
            nanos: spec_max(pairs[last].incoming.position@ - incoming_start@, 0) as u128,
        },
        trusted: block_is_trusted(pairs, first, last),
    }
}

/// Where the stretch that starts at a pair ends: four beats on, or at the last
/// pair.
pub open spec fn block_end(pairs: Seq<BeatPair>, first: int) -> int {
    spec_min(first + BEATS_PER_CORRECTION, pairs.len() - 1)
}

/// The stretches from a pair on, at most `room` of them; `None` where one of them
/// does not move on either track.
pub open spec fn blocks_from(
    pairs: Seq<BeatPair>,
    first: int,
    outgoing_start: Duration,
    incoming_start: Duration,
    room: int,
) -> Option<Seq<CorrectionBlock>>
    decreases pairs.len() - first,
{
    if first + 1 >= pairs.len() || room <= 0 {
        Some(Seq::empty())
    } else {
        let last = block_end(pairs, first);
        let rest = blocks_from(pairs, last, outgoing_start, incoming_start, room - 1);
        if pairs[last].outgoing.position@ <= pairs[first].outgoing.position@
            || pairs[last].incoming.position@ <= pairs[first].incoming.position@ || rest is None {
            None
        } else {
            Some(
                seq![block_between(pairs, first, last, outgoing_start, incoming_start)] + rest->0,
            )
        }
    }
}

/// Whether paired beats can be followed: enough of them, the first outgoing beat
/// and the first paired incoming one next to the two starts.
pub open spec fn can_follow(
    pairs: Seq<BeatPair>,
    first_outgoing_beat: Option<Duration>,
    outgoing_start: Duration,
    incoming_start: Duration,
) -> bool {
    &&& pairs.len() >= MIN_FOLLOWED_PAIRS
    &&& first_outgoing_beat is Some
    &&& spec_distance(first_outgoing_beat->0@, outgoing_start@) <= MAX_ANCHOR_DISTANCE_NANOS
    &&& spec_distance(pairs[0].incoming.position@, incoming_start@) <= MAX_ANCHOR_DISTANCE_NANOS
}

fn count_trusted(pairs: &Vec<BeatPair>, first: usize, last: usize, outgoing: bool) -> (r: usize)
    requires
        first <= last < pairs.len(),
    ensures
        r == trusted_beats(pairs@, first as int, last as int, outgoing),
{
    let mut count: usize = 0;
    let mut i: usize = first;
    while i <= last
        invariant
            first <= i <= last + 1,
            last < pairs.len(),
            count == trusted_beats(pairs@, first as int, i - 1, outgoing),
            count <= i - first,
        decreases last + 1 - i,
    {
        let beat = if outgoing {
            pairs[i].outgoing
        } else {
            pairs[i].incoming
        };
        if beat.is_trusted() {
            count += 1;
        }
        i += 1;
    }
    count
}

/// The stretches in which the speed of the incoming track is corrected so that it
/// follows the outgoing one: four beats each, at most `limit` of them. `None`
/// where the beats cannot be followed or a stretch does not move.
pub fn correction_blocks(
    pairs: &Vec<BeatPair>,
    first_outgoing_beat: Option<Duration>,
    outgoing_start: Duration,
    incoming_start: Duration,
    limit: usize,
) -> (r: Option<Vec<CorrectionBlock>>)
    ensures
        ({
            let blocks = blocks_from(pairs@, 0, outgoing_start, incoming_start, limit as int);
            &&& r is Some <==> can_follow(
                pairs@,
                first_outgoing_beat,
                outgoing_start,
                incoming_start,
            ) && blocks is Some && limit > 0
            &&& r matches Some(found) ==> found@ == blocks->0 && found@.len() > 0
        }),
{
    let near = Duration { nanos: MAX_ANCHOR_DISTANCE_NANOS };
    if pairs.len() < MIN_FOLLOWED_PAIRS || limit == 0 {
        return None;
    }
    match first_outgoing_beat {
        Some(beat) => {
            if near.shorter(beat.abs_diff(outgoing_start)) || near.shorter(
                pairs[0].incoming.position.abs_diff(incoming_start),
            ) {
                return None;
            }
        },
        None => {
            return None;
        },
    }
    let ghost whole = blocks_from(pairs@, 0, outgoing_start, incoming_start, limit as int);
    let mut blocks: Vec<CorrectionBlock> = Vec::new();
    let mut first: usize = 0;
    while first < pairs.len() - 1 && blocks.len() < limit
        invariant
            first < pairs@.len(),
            pairs@.len() >= MIN_FOLLOWED_PAIRS,
            limit > 0,
            blocks@.len() <= limit,
            first > 0 ==> blocks@.len() > 0,
            whole == blocks_from(pairs@, 0, outgoing_start, incoming_start, limit as int),
            ({
                let rest = blocks_from(
                    pairs@,
                    first as int,
                    outgoing_start,
                    incoming_start,
                    limit - blocks@.len(),
                );
                &&& whole is Some <==> rest is Some
                &&& whole is Some ==> whole->0 == blocks@ + rest->0
            }),
        decreases pairs@.len() - first,
    {
        let last: usize = if pairs.len() - 1 - first <= BEATS_PER_CORRECTION {
            pairs.len() - 1
        } else {
            first + BEATS_PER_CORRECTION
        };
        assert(last == block_end(pairs@, first as int));
        let output_delta = pairs[last].outgoing.position.saturating_sub(
            pairs[first].outgoing.position,
        );
        let source_delta = pairs[last].incoming.position.saturating_sub(
            pairs[first].incoming.position,
        );
        if output_delta.is_zero() || source_delta.is_zero() {
            return None;
        }
        let trusted = count_trusted(pairs, first, last, true) >= 3 && count_trusted(
            pairs,
            first,
            last,
            false,
        ) >= 3 && pairs[first].outgoing.is_trusted() && pairs[last].outgoing.is_trusted()
            && pairs[first].incoming.is_trusted() && pairs[last].incoming.is_trusted();
        let block = CorrectionBlock {
            output_delta,
            output_end: pairs[last].outgoing.position.saturating_sub(outgoing_start),
            desired_source: pairs[last].incoming.position.saturating_sub(incoming_start),
            trusted,
        };
        let ghost before = blocks@;
        let ghost rest = blocks_from(
            pairs@,
            last as int,
            outgoing_start,
            incoming_start,
            limit - before.len() - 1,
        );
        blocks.push(block);
        proof {
            assert(block == block_between(
                pairs@,
                first as int,
                last as int,
                outgoing_start,
                incoming_start,
            ));
            if whole is Some {
                assert(before + (seq![block] + rest->0) =~= blocks@ + rest->0);
            }
        }
        first = last;
    }
    assert(whole is Some);
    assert(whole->0 =~= blocks@);
    Some(blocks)
}

/// The speed of a stretch: the corrected one where the stretch is trusted and the
/// correction is a number no further from one than allowed, else the global one.
/// All numbers are bits.
pub fn block_speed(
    trusted: bool,
    corrected: u32,
    distance: u32,
    max_tempo_adjustment: u32,
    global_speed: u32,
) -> (r: u32)
    ensures
        r == if trusted && scalar::spec_is_finite(corrected) && scalar::spec_at_most(
            distance,
            max_tempo_adjustment,
        ) {
            corrected
        } else {
            global_speed
        },
{
    if trusted && scalar::is_finite(corrected) && scalar::at_most(distance, max_tempo_adjustment) {
        corrected
    } else {
        global_speed
    }
}

/// Whether any deviation of the speed is worth correcting.
pub fn needs_tempo_dsp(deviations: &Vec<u32>) -> (r: bool)
    ensures
        r == exists|i: int|
            0 <= i < deviations@.len() && scalar::spec_less(
                TEMPO_SYNC_DEADBAND,
                #[trigger] deviations@[i],
            ),
{
    let mut i: usize = 0;
    while i < deviations.len()
        invariant
            i <= deviations@.len(),
            forall|k: int|
                0 <= k < i ==> !scalar::spec_less(TEMPO_SYNC_DEADBAND, #[trigger] deviations@[k]),
        decreases deviations@.len() - i,
    {
        if scalar::less(TEMPO_SYNC_DEADBAND, deviations[i]) {
            return true;
        }
        i += 1;
    }
    false
}

/// The speeds at which corrected stretches begin and end; without one, the tempo.
pub open spec fn end_speeds(tempo: u32, segments: Seq<TempoSegment>) -> (u32, u32) {
    if segments.len() == 0 {
        (tempo, tempo)
    } else {
        (segments[0].speed, segments.last().speed)
    }
}

/// The speeds at which corrected stretches begin and end; without one, the tempo.
pub fn follow_speeds(tempo: u32, segments: &Vec<TempoSegment>) -> (r: (u32, u32))
    ensures
        r == end_speeds(tempo, segments@),
{
    if segments.len() == 0 {
        (tempo, tempo)
    } else {
        (segments[0].speed, segments[segments.len() - 1].speed)
    }
}

/// The speed at which the incoming track starts, and its tempo map. There is one
/// only where a deviation of the speed is worth correcting; it holds for the
/// overlap and then returns to native tempo over the ramp.
pub fn follow_envelope(
    tempo: u32,
    segments: &Vec<TempoSegment>,
    deviations: &Vec<u32>,
    overlap: Duration,
    ramp: Duration,
) -> (r: (u32, Option<TempoEnvelope>))
    ensures
        r.0 == end_speeds(tempo, segments@).0,
        r.1 is Some <==> exists|i: int|
            0 <= i < deviations@.len() && scalar::spec_less(
                TEMPO_SYNC_DEADBAND,
                #[trigger] deviations@[i],
            ),
        r.1 matches Some(envelope) ==> {
            &&& envelope.initial_speed == end_speeds(tempo, segments@).0
            &&& envelope.mix_end_speed == end_speeds(tempo, segments@).1
            &&& envelope.hold == overlap
            &&& envelope.ramp == ramp
            &&& envelope.phase_segments@ == segments@.take(
                spec_min(segments@.len() as int, MAX_TEMPO_SEGMENTS as int),
            )
        },
{
    let (start, end): (u32, u32) = follow_speeds(tempo, segments);
    if !needs_tempo_dsp(deviations) {
        return (start, None);
    }
    let envelope = TempoEnvelope::new(start, end, overlap, ramp).with_phase_segments(segments);
    (start, Some(envelope))
}

/// A beat is trusted from a confidence of 0.35 on, and anchors a position within the
/// tolerance of it on either side.
pub proof fn trusted_beats_anchor_what_is_near(
    beat: ConfidentBeat,
    position: Duration,
    tolerance: Duration,
)
    ensures
        beat.trusted() <==> scalar::spec_at_most(0x3EB3_3333, beat.confidence),
        anchors(beat, position, tolerance) <==> beat.trusted() && position@ - tolerance@
            <= beat.position@ <= position@ + tolerance@,
{
}

/// The confident beats are the markers between two positions whose confidence lies between
/// zero and one, each with its confidence.
pub proof fn confident_beats_are_those_between(
    track: TrackAnalysis,
    from: Duration,
    to: Duration,
    count: int,
    found: ConfidentBeat,
)
    requires
        0 <= count <= track.beat_markers@.len(),
    ensures
        confident_between(track, from, to, count).contains(found) <==> {
            &&& from@ <= found.position@ <= to@
            &&& found.confidence <= 0x3F80_0000 || found.confidence == 0x8000_0000
            &&& exists|k: int|
                0 <= k < count && k < track.beat_marker_confidences@.len() && (
                #[trigger] track.beat_markers@[k]) == found.position
                    && track.beat_marker_confidences@[k] == found.confidence
        },
        confident_between(track, from, to, count).len() <= count,
    decreases count,
{
    if count > 0 {
        confident_beats_are_those_between(track, from, to, count - 1, found);
        let rest = confident_between(track, from, to, count - 1);
        let all = confident_between(track, from, to, count);
        let beat = track.beat_markers@[count - 1];
        if all.contains(found) {
            let i = choose|i: int| 0 <= i < all.len() && all[i] == found;
            if i < rest.len() {
                assert(rest[i] == found);
            } else {
                assert(beat == found.position);
            }
        }
        if from@ <= found.position@ <= to@ && scalar::spec_in_unit(found.confidence)
            && exists|k: int|
            0 <= k < count && k < track.beat_marker_confidences@.len() && (
            #[trigger] track.beat_markers@[k]) == found.position
                && track.beat_marker_confidences@[k] == found.confidence {
            let k = choose|k: int|
                0 <= k < count && k < track.beat_marker_confidences@.len() && (
                #[trigger] track.beat_markers@[k]) == found.position
                    && track.beat_marker_confidences@[k] == found.confidence;
            if k < count - 1 {
                assert(rest.contains(found));
                let i = choose|i: int| 0 <= i < rest.len() && rest[i] == found;
                assert(all[i] == found);
            } else {
                assert(all[all.len() - 1] == found);
            }
        }
    }
}

/// The first anchor is the earliest beat that anchors the position; there is none just
/// where no beat does.
pub proof fn first_anchors_come_first(
    beats: Seq<ConfidentBeat>,
    position: Duration,
    tolerance: Duration,
    from: int,
)
    requires
        0 <= from <= beats.len(),
    ensures
        match first_anchor(beats, position, tolerance, from) {
            Some(index) => {
                &&& from <= index < beats.len()
                &&& anchors(beats[index], position, tolerance)
                &&& forall|k: int|
                    from <= k < index ==> !anchors(#[trigger] beats[k], position, tolerance)
            },
            None => forall|k: int|
                from <= k < beats.len() ==> !anchors(#[trigger] beats[k], position, tolerance),
        },
    decreases beats.len() - from,
{
    if from < beats.len() {
        first_anchors_come_first(beats, position, tolerance, from + 1);
    }
}

/// Beats are followed in pairs, one stride apart on each side, for as long as the incoming
/// beat lies within the tolerance of where it should be; the first that does not ends it.
pub proof fn pairs_are_followed_while_they_fit(
    outgoing: Seq<ConfidentBeat>,
    incoming: Seq<ConfidentBeat>,
    targets: Seq<Duration>,
    tolerance: Duration,
    strides: (int, int),
    outgoing_index: int,
    incoming_index: int,
)
    requires
        1 <= strides.0 <= 2,
        1 <= strides.1 <= 2,
        0 <= outgoing_index,
        0 <= incoming_index,
    ensures
        ({
            let pairs = followed_pairs(
                outgoing,
                incoming,
                targets,
                tolerance,
                strides,
                outgoing_index,
                incoming_index,
            );
            let fits = outgoing_index < outgoing.len() && incoming_index < incoming.len()
                && targets[outgoing_index]@ - tolerance@ <= incoming[incoming_index].position@
                <= targets[outgoing_index]@ + tolerance@;
            &&& !fits ==> pairs.len() == 0
            &&& fits ==> {
                &&& pairs.len() > 0
                &&& pairs[0].outgoing == outgoing[outgoing_index]
                &&& pairs[0].incoming == incoming[incoming_index]
                &&& pairs.skip(1) == followed_pairs(
                    outgoing,
                    incoming,
                    targets,
                    tolerance,
                    strides,
                    outgoing_index + strides.0,
                    incoming_index + strides.1,
                )
            }
        }),
{
    let pairs = followed_pairs(
        outgoing,
        incoming,
        targets,
        tolerance,
        strides,
        outgoing_index,
        incoming_index,
    );
    let rest = followed_pairs(
        outgoing,
        incoming,
        targets,
        tolerance,
        strides,
        outgoing_index + strides.0,
        incoming_index + strides.1,
    );
    if pairs.len() > 0 {
        assert(pairs.skip(1) =~= rest);
    }
}

/// Each trusted beat of a block is counted once, on its own side.
pub proof fn trusted_beats_are_counted(pairs: Seq<BeatPair>, first: int, last: int)
    requires
        0 <= first <= last < pairs.len(),
    ensures
        trusted_beats(pairs, first, first - 1, true) == 0,
        trusted_beats(pairs, first, first - 1, false) == 0,
        trusted_beats(pairs, first, last, true) - trusted_beats(pairs, first, last - 1, true) == (
        if scalar::spec_at_most(0x3EB3_3333, pairs[last].outgoing.confidence) {
            1int
        } else {
            0
        }),
        trusted_beats(pairs, first, last, false) - trusted_beats(pairs, first, last - 1, false)
            == (if scalar::spec_at_most(0x3EB3_3333, pairs[last].incoming.confidence) {
            1int
        } else {
            0
        }),
{
}

/// A block is trusted where at least three beats of each side are, among them the first
/// and the last of each.
pub proof fn blocks_are_trusted_by_three_beats_and_their_ends(
    pairs: Seq<BeatPair>,
    first: int,
    last: int,
)
    ensures
        ({
            let trusted = block_is_trusted(pairs, first, last);
            let ends = pairs[first].outgoing.trusted() && pairs[last].outgoing.trusted()
                && pairs[first].incoming.trusted() && pairs[last].incoming.trusted();
            &&& !ends ==> !trusted
            &&& trusted_beats(pairs, first, last, true) < 3 ==> !trusted
            &&& trusted_beats(pairs, first, last, false) < 3 ==> !trusted
            &&& ends && trusted_beats(pairs, first, last, true) >= 3 && trusted_beats(
                pairs,
                first,
                last,
                false,
            ) >= 3 ==> trusted
        }),
{
}

/// A block lasts from its first outgoing beat to its last one, ends where that one plays
/// after the start, and wants the incoming track to have come to its last incoming beat.
pub proof fn blocks_go_from_beat_to_beat(
    pairs: Seq<BeatPair>,
    first: int,
    last: int,
    outgoing_start: Duration,
    incoming_start: Duration,
)
    requires
        pairs[first].outgoing.position@ <= pairs[last].outgoing.position@,
        outgoing_start@ <= pairs[last].outgoing.position@,
        incoming_start@ <= pairs[last].incoming.position@,
    ensures
        ({
            let block = block_between(pairs, first, last, outgoing_start, incoming_start);
            &&& pairs[first].outgoing.position@ + block.output_delta@
                == pairs[last].outgoing.position@
            &&& outgoing_start@ + block.output_end@ == pairs[last].outgoing.position@
            &&& incoming_start@ + block.desired_source@ == pairs[last].incoming.position@
            &&& block.trusted == block_is_trusted(pairs, first, last)
        }),
{
}

/// A block spans four beats, the last one what is left; the next begins where it ends.
/// Beats that do not go forward on either side give no blocks at all.
pub proof fn blocks_span_four_beats(
    pairs: Seq<BeatPair>,
    first: int,
    outgoing_start: Duration,
    incoming_start: Duration,
    room: int,
)
    requires
        0 <= first,
        0 < room,
    ensures
        ({
            let blocks = blocks_from(pairs, first, outgoing_start, incoming_start, room);
            let last = if first + 4 < pairs.len() {
                first + 4
            } else {
                pairs.len() - 1
            };
            let rest = blocks_from(pairs, last, outgoing_start, incoming_start, room - 1);
            let forward = pairs[first].outgoing.position@ < pairs[last].outgoing.position@
                && pairs[first].incoming.position@ < pairs[last].incoming.position@;
            &&& first + 1 >= pairs.len() ==> blocks == Some(Seq::<CorrectionBlock>::empty())
            &&& first + 1 < pairs.len() && (!forward || rest is None) ==> blocks is None
            &&& first + 1 < pairs.len() && forward && rest is Some ==> {
                &&& blocks is Some
                &&& blocks->0.len() == rest->0.len() + 1
                &&& blocks->0.skip(1) == rest->0
                &&& blocks->0[0] == block_between(
                    pairs,
                    first,
                    last,
                    outgoing_start,
                    incoming_start,
                )
            }
        }),
{
    let blocks = blocks_from(pairs, first, outgoing_start, incoming_start, room);
    if first + 1 < pairs.len() && blocks is Some {
        let last = block_end(pairs, first);
        let rest = blocks_from(pairs, last, outgoing_start, incoming_start, room - 1);
        assert(blocks->0.skip(1) =~= rest->0);
    }
}

/// Beats are followed from five pairs on whose first beats lie within 30 milliseconds of
/// both starts.
pub proof fn five_pairs_can_be_followed(
    pairs: Seq<BeatPair>,
    first_outgoing_beat: Option<Duration>,
    outgoing_start: Duration,
    incoming_start: Duration,
)
    ensures
        ({
            let can = can_follow(pairs, first_outgoing_beat, outgoing_start, incoming_start);
            &&& pairs.len() < 5 ==> !can
            &&& first_outgoing_beat is None ==> !can
            &&& pairs.len() >= 5 && first_outgoing_beat is Some ==> (can <==> {
                &&& outgoing_start@ - 30_000_000 <= first_outgoing_beat->0@ <= outgoing_start@
                    + 30_000_000
                &&& incoming_start@ - 30_000_000 <= pairs[0].incoming.position@ <= incoming_start@
                    + 30_000_000
            })
        }),
{
}

/// A map of segments starts at the speed of its first one and ends at that of its last;
/// without segments both are the tempo itself.
pub proof fn maps_start_and_end_with_their_segments(tempo: u32, segments: Seq<TempoSegment>)
    ensures
        segments.len() == 0 ==> end_speeds(tempo, segments) == (tempo, tempo),
        segments.len() > 0 ==> end_speeds(tempo, segments).0 == segments[0].speed && end_speeds(
            tempo,
            segments,
        ).1 == segments[segments.len() - 1].speed,
{
}

/// Speeds nearer than 0.001 to native are left alone.
pub proof fn small_deviations_are_left_alone()
    ensures
        TEMPO_SYNC_DEADBAND == 0x3A83_126F,
{
}

} // verus!
