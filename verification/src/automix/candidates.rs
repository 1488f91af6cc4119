//! Where an overlap may start on the outgoing track, and which start wins.

use vstd::prelude::*;

use super::markers::{MAX_BEATMATCH_PHASE_ERROR_NANOS, MAX_SHORTER_TRANSITION_SEARCH_NANOS};
use super::plan::{
    AutoMixEnergySelection, AutoMixQualityIssue, AutoMixQualityReport,
    MIN_AUDIBLE_MIX_OVERLAP_NANOS,
};
use super::positions::{is_ascending, sort_and_dedup_positions};
use super::track::{
    keys_clash, spec_keys_clash, TrackAnalysis, HALF_BITS, MIN_ACTIONABLE_DOWNBEAT_CONFIDENCE,
};
use crate::scalar;
use crate::time::{spec_max, spec_min, Duration, MAX_NANOS};

verus! {

/// How many candidates are scored.
pub const MAX_ENERGY_START_CANDIDATES: usize = 96;

/// Distance of the candidates of a crossfade (500 milliseconds).
pub const ENERGY_GRID_STEP_NANOS: u128 = 500_000_000;

/// An overlap below this length looks further for markers (four seconds).
pub const MIN_NATURAL_MIX_OVERLAP_NANOS: u128 = 4_000_000_000;

/// On which side of a target a start is looked for.
#[derive(Clone, Copy, Debug, PartialEq, Eq, Structural)]
pub enum BarPhaseBias {
    AtOrBefore,
    AtOrAfter,
}

/// The window in which a shorter overlap is looked for, after the target. There
/// is one only where the search went before the target, and only if it leaves
/// room for an audible mix.
pub fn shorter_transition_search_window(
    search_window: Duration,
    phase_bias: BarPhaseBias,
) -> (r: Option<Duration>)
    ensures
        r is Some <==> phase_bias == BarPhaseBias::AtOrBefore && search_window@
            >= MIN_AUDIBLE_MIX_OVERLAP_NANOS,
        r matches Some(window) ==> window@ == spec_min(
            MAX_SHORTER_TRANSITION_SEARCH_NANOS as int,
            search_window@,
        ),
{
    match phase_bias {
        BarPhaseBias::AtOrAfter => None,
        BarPhaseBias::AtOrBefore => {
            let window = Duration { nanos: MAX_SHORTER_TRANSITION_SEARCH_NANOS }.min(search_window);
            if (Duration { nanos: MIN_AUDIBLE_MIX_OVERLAP_NANOS }).within(window) {
                Some(window)
            } else {
                None
            }
        },
    }
}

/// The region in which a start is looked for.
pub open spec fn bounds_of(target: int, search_window: int, bias: BarPhaseBias) -> (int, int) {
    match bias {
        BarPhaseBias::AtOrBefore => (spec_max(target - search_window, 0), target),
        BarPhaseBias::AtOrAfter => (target, spec_min(target + search_window, MAX_NANOS as int)),
    }
}

/// The region in which a start is looked for: up to the target, or from it on.
pub fn candidate_bounds(target: Duration, search_window: Duration, bias: BarPhaseBias) -> (r: (
    Duration,
    Duration,
))
    ensures
        (r.0@, r.1@) == bounds_of(target@, search_window@, bias),
{
    match bias {
        BarPhaseBias::AtOrBefore => (target.saturating_sub(search_window), target),
        BarPhaseBias::AtOrAfter => (target, target.saturating_add(search_window)),
    }
}

/// The window in which markers are looked for: an overlap that is beat-aligned
/// and short looks up to eight seconds around.
pub fn marker_search_window(search_window: Duration, beat_aligned: bool) -> (r: Duration)
    ensures
        r@ == if beat_aligned && search_window@ < MIN_NATURAL_MIX_OVERLAP_NANOS {
            MAX_SHORTER_TRANSITION_SEARCH_NANOS as int
        } else {
            search_window@
        },
{
    if beat_aligned && search_window.shorter(Duration { nanos: MIN_NATURAL_MIX_OVERLAP_NANOS }) {
        Duration { nanos: MAX_SHORTER_TRANSITION_SEARCH_NANOS }
    } else {
        search_window
    }
}

/// Whether an overlap may start at a position: inside the audible part, with at
/// least a second left.
pub open spec fn may_start(track: TrackAnalysis, candidate: Duration) -> bool {
    &&& track.audible_start@ <= candidate@ <= track.audible_end@
    &&& track.audible_end@ - candidate@ >= MIN_AUDIBLE_MIX_OVERLAP_NANOS
}

/// Whether an overlap may start at a position: inside the audible part, with at
/// least a second left.
pub fn valid_outgoing_start(analysis: &TrackAnalysis, candidate: Duration) -> (r: bool)
    ensures
        r == may_start(*analysis, candidate),
{
    analysis.audible_start.within(candidate) && candidate.within(analysis.audible_end) && Duration {
        nanos: MIN_AUDIBLE_MIX_OVERLAP_NANOS,
    }.within(analysis.audible_end.saturating_sub(candidate))
}

/// Whether phrases may be aligned: the keys do not clash and the downbeat of the
/// incoming track is sure enough.
pub open spec fn phrases_may_align(incoming: TrackAnalysis, harmonic: Option<u32>) -> bool {
    &&& !(harmonic is Some && !scalar::spec_at_most(HALF_BITS, harmonic->0))
    &&& scalar::spec_at_most(MIN_ACTIONABLE_DOWNBEAT_CONFIDENCE, incoming.downbeat_confidence)
    &&& incoming.first_downbeat is Some
}

/// Whether phrases may be aligned: the keys do not clash and the downbeat of the
/// incoming track is sure enough.
pub fn may_align_phrases(incoming: &TrackAnalysis, harmonic: Option<u32>) -> (r: bool)
    ensures
        r == phrases_may_align(*incoming, harmonic),
{
    let compatible = match harmonic {
        Some(score) => scalar::at_most(HALF_BITS, score),
        None => true,
    };
    compatible && scalar::at_most(
        MIN_ACTIONABLE_DOWNBEAT_CONFIDENCE,
        incoming.downbeat_confidence,
    ) && incoming.first_downbeat.is_some()
}

/// Whether shorter overlaps are looked for as well: the keys do not clash.
pub fn may_search_shorter(harmonic: Option<u32>) -> (r: bool)
    ensures
        r == !spec_keys_clash(harmonic),
{
    !keys_clash(harmonic)
}

/// The markers that back the first `count` computed starts: for each start at
/// which an overlap may begin, the trusted marker next to it, if there is one.
pub open spec fn backed(track: TrackAnalysis, raw: Seq<Duration>, count: int) -> Seq<Duration>
    decreases count,
{
    if count <= 0 {
        Seq::empty()
    } else {
        let rest = backed(track, raw, count - 1);
        let near = track.marker_near(
            raw[count - 1],
            Duration { nanos: MAX_BEATMATCH_PHASE_ERROR_NANOS },
        );
        if may_start(track, raw[count - 1]) && near is Some {
            rest.push(near->0)
        } else {
            rest
        }
    }
}

/// The markers that back computed starts: for each start at which an overlap may
/// begin, the trusted marker next to it. A start that no marker backs is
/// dropped.
pub fn marker_backed_candidates(outgoing: &TrackAnalysis, raw: &Vec<Duration>) -> (r: Vec<Duration>)
    ensures
        r@ == backed(*outgoing, raw@, raw@.len() as int),
{
    let mut kept: Vec<Duration> = Vec::new();
    let tolerance = Duration { nanos: MAX_BEATMATCH_PHASE_ERROR_NANOS };
    let mut i: usize = 0;
    while i < raw.len()
        invariant
            i <= raw@.len(),
            tolerance.nanos == MAX_BEATMATCH_PHASE_ERROR_NANOS,
            kept@ == backed(*outgoing, raw@, i as int),
        decreases raw@.len() - i,
    {
        if valid_outgoing_start(outgoing, raw[i]) {
            if let Some(marker) = outgoing.trusted_marker_near(raw[i], tolerance) {
                kept.push(marker);
            }
        }
        i += 1;
    }
    kept
}

/// Those of the first `count` trusted markers in a region at which an overlap may
/// start.
pub open spec fn marker_starts(
    track: TrackAnalysis,
    earliest: int,
    latest: int,
    count: int,
) -> Seq<Duration>
    decreases count,
{
    if count <= 0 {
        Seq::empty()
    } else {
        let rest = marker_starts(track, earliest, latest, count - 1);
        let beat = track.beat_markers@[count - 1];
        if track.trusted(count - 1) && earliest <= beat@ <= latest && may_start(track, beat) {
            rest.push(beat)
        } else {
            rest
        }
    }
}

/// The positions from one on, a step apart and no later than another, at which an
/// overlap may start; at most `room` of them.
pub open spec fn stepped_starts(
    track: TrackAnalysis,
    position: int,
    step: int,
    latest: int,
    room: int,
) -> Seq<Duration>
    decreases latest - position + step,
{
    if step <= 0 || room <= 0 || position > latest {
        Seq::empty()
    } else {
        let here = Duration { nanos: position as u128 };
        if may_start(track, here) {
            seq![here] + stepped_starts(track, position + step, step, latest, room - 1)
        } else {
            stepped_starts(track, position + step, step, latest, room)
        }
    }
}

fn stepped_candidates(
    analysis: &TrackAnalysis,
    first: Duration,
    step: Duration,
    latest: Duration,
    room: usize,
) -> (r: Vec<Duration>)
    requires
        step@ > 0,
        latest@ + step@ <= MAX_NANOS,
    ensures
        r@ == stepped_starts(*analysis, first@, step@, latest@, room as int),
{
    let ghost whole = stepped_starts(*analysis, first@, step@, latest@, room as int);
    let mut candidates: Vec<Duration> = Vec::new();
    let mut position = first;
    assert(candidates@ + whole =~= whole);
    while position.within(latest) && candidates.len() < room
        invariant
            step@ > 0,
            latest@ + step@ <= MAX_NANOS,
            candidates@.len() <= room,
            candidates@ + stepped_starts(
                *analysis,
                position@,
                step@,
                latest@,
                room - candidates@.len(),
            ) == whole,
        decreases spec_max(latest@ - position@ + step@, 0),
    {
        let ghost rest = stepped_starts(
            *analysis,
            position@,
            step@,
            latest@,
            room - candidates@.len(),
        );
        let ghost before = candidates@;
        assert(Duration { nanos: position@ as u128 } == position);
        if valid_outgoing_start(analysis, position) {
            candidates.push(position);
            proof {
                let tail = stepped_starts(
                    *analysis,
                    position@ + step@,
                    step@,
                    latest@,
                    room - candidates@.len(),
                );
                assert(rest == seq![position] + tail);
                assert(before + rest =~= candidates@ + tail);
            }
        }
        position = Duration { nanos: position.nanos + step.nanos };
    }
    assert(candidates@ =~= whole);
    candidates
}

/// The beats at which an overlap may start: the trusted markers of the region.
/// Only a track without any marker falls back to its grid, given by its first
/// beat in reach and the beat interval.
pub fn beat_start_candidates(
    analysis: &TrackAnalysis,
    target: Duration,
    search_window: Duration,
    bias: BarPhaseBias,
    grid: Option<(Duration, Duration)>,
) -> (r: Vec<Duration>)
    requires
        analysis.beat_markers@.len() == 0 && grid is Some ==> (grid->0).1@ > 0 && bounds_of(
            target@,
            search_window@,
            bias,
        ).1 + (grid->0).1@ <= MAX_NANOS,
    ensures
        ({
            let bounds = bounds_of(target@, search_window@, bias);
            r@ == if analysis.beat_markers@.len() == 0 && grid is Some {
                stepped_starts(
                    *analysis,
                    (grid->0).0@,
                    (grid->0).1@,
                    bounds.1,
                    MAX_ENERGY_START_CANDIDATES as int,
                )
            } else {
                marker_starts(
                    *analysis,
                    bounds.0,
                    bounds.1,
                    analysis.beat_markers@.len() as int,
                )
            }
        }),
{
    let (earliest, latest) = candidate_bounds(target, search_window, bias);
    if analysis.beat_markers.len() == 0 {
        if let Some((first, interval)) = grid {
            return stepped_candidates(
                analysis,
                first,
                interval,
                latest,
                MAX_ENERGY_START_CANDIDATES,
            );
        }
    }
    let mut candidates: Vec<Duration> = Vec::new();
    let mut i: usize = 0;
    while i < analysis.beat_markers.len()
        invariant
            i <= analysis.beat_markers@.len(),
            candidates@ == marker_starts(*analysis, earliest@, latest@, i as int),
        decreases analysis.beat_markers@.len() - i,
    {
        let beat = analysis.beat_markers[i];
        if analysis.marker_is_trusted(i) && earliest.within(beat) && beat.within(latest)
            && valid_outgoing_start(analysis, beat) {
            candidates.push(beat);
        }
        i += 1;
    }
    candidates
}

/// The starts of a crossfade that are tried: every half second of the region, and
/// its end.
pub fn energy_grid_start_candidates(
    analysis: &TrackAnalysis,
    target: Duration,
    search_window: Duration,
    bias: BarPhaseBias,
) -> (r: Vec<Duration>)
    requires
        bounds_of(target@, search_window@, bias).1 + ENERGY_GRID_STEP_NANOS <= MAX_NANOS,
    ensures
        ({
            let bounds = bounds_of(target@, search_window@, bias);
            let stepped = stepped_starts(
                *analysis,
                bounds.0,
                ENERGY_GRID_STEP_NANOS as int,
                bounds.1,
                MAX_ENERGY_START_CANDIDATES as int,
            );
            let end = Duration { nanos: bounds.1 as u128 };
            r@ == if may_start(*analysis, end) {
                stepped.push(end)
            } else {
                stepped
            }
        }),
{
    let (earliest, latest) = candidate_bounds(target, search_window, bias);
    assert(Duration { nanos: latest@ as u128 } == latest);
    let mut candidates = stepped_candidates(
        analysis,
        earliest,
        Duration { nanos: ENERGY_GRID_STEP_NANOS },
        latest,
        MAX_ENERGY_START_CANDIDATES,
    );
    if valid_outgoing_start(analysis, latest) {
        candidates.push(latest);
    }
    candidates
}

/// Whether a list is the default start followed by all other candidates in order,
/// each once.
pub open spec fn is_default_first(
    list: Seq<Duration>,
    default_start: Duration,
    candidates: Seq<Duration>,
) -> bool {
    &&& list.len() > 0
    &&& list[0] == default_start
    &&& is_ascending(list.drop_first())
    &&& forall|position: Duration| #[trigger]
        list.drop_first().contains(position) <==> candidates.contains(position) && position
            != default_start
}

/// Puts candidates in the order in which they are tried: the default start first,
/// then all others by position, each once.
pub fn ordered_candidates(default_start: Duration, candidates: &Vec<Duration>) -> (r: Vec<Duration>)
    ensures
        is_default_first(r@, default_start, candidates@),
{
    let sorted = sort_and_dedup_positions(candidates);
    let mut ordered: Vec<Duration> = Vec::new();
    ordered.push(default_start);
    let mut i: usize = 0;
    while i < sorted.len()
        invariant
            i <= sorted@.len(),
            is_ascending(sorted@),
            ordered@.len() > 0,
            ordered@[0] == default_start,
            is_ascending(ordered@.drop_first()),
            forall|k: int|
                0 <= k < ordered@.drop_first().len() ==> sorted@.contains(
                    #[trigger] ordered@.drop_first()[k],
                ) && ordered@.drop_first()[k] != default_start,
            forall|k: int, m: int|
                0 <= k < ordered@.drop_first().len() && i <= m < sorted@.len() ==> (
                #[trigger] ordered@.drop_first()[k])@ < (#[trigger] sorted@[m])@,
            forall|m: int|
                0 <= m < i && #[trigger] sorted@[m] != default_start
                    ==> ordered@.drop_first().contains(sorted@[m]),
        decreases sorted@.len() - i,
    {
        let position = sorted[i];
        if position != default_start {
            let ghost before = ordered@.drop_first();
            ordered.push(position);
            proof {
                let after = ordered@.drop_first();
                assert(after =~= before.push(position));
                assert(sorted@.contains(sorted@[i as int]));
                assert forall|other: Duration| before.contains(other) implies after.contains(
                    other,
                ) by {
                    let k = choose|k: int| 0 <= k < before.len() && before[k] == other;
                    assert(after[k] == other);
                }
                assert(after[before.len() as int] == position);
                assert forall|k: int| 0 <= k < after.len() implies sorted@.contains(
                    #[trigger] after[k],
                ) && after[k] != default_start by {
                    if k < before.len() {
                        assert(after[k] == before[k]);
                    }
                }
            }
        }
        i += 1;
    }
    proof {
        let list = ordered@.drop_first();
        assert forall|position: Duration| #[trigger]
            list.contains(position) <==> candidates@.contains(position) && position
                != default_start by {
            if list.contains(position) {
                let k = choose|k: int| 0 <= k < list.len() && list[k] == position;
                assert(sorted@.contains(list[k]));
            }
            if candidates@.contains(position) && position != default_start {
                assert(sorted@.contains(position));
                let m = choose|m: int| 0 <= m < sorted@.len() && sorted@[m] == position;
                assert(list.contains(sorted@[m]));
            }
        }
    }
    ordered
}

/// The score of a candidate, lower is better, and the score with the margin that
/// a better candidate has to win by. Both are bits.
#[derive(Clone, Copy, Debug, PartialEq, Eq, Structural)]
pub struct CandidateScore {
    pub score: u32,
    pub with_margin: u32,
}

/// The candidate that wins among the first `count`, by its index: the first that
/// has a score, and after it each that beats the winner so far by the margin.
pub open spec fn winner_among(scores: Seq<Option<CandidateScore>>, count: int) -> Option<int>
    decreases count,
{
    if count <= 0 {
        None
    } else {
        let before = winner_among(scores, count - 1);
        let score = scores[count - 1];
        if score is Some && (before is None || scalar::spec_less(
            score->0.with_margin,
            scores[before->0]->0.score,
        )) {
            Some(count - 1)
        } else {
            before
        }
    }
}

/// How many of the first `count` candidates have a score.
pub open spec fn scored_among(scores: Seq<Option<CandidateScore>>, count: int) -> int
    decreases count,
{
    if count <= 0 {
        0
    } else {
        scored_among(scores, count - 1) + if scores[count - 1] is Some {
            1int
        } else {
            0int
        }
    }
}

proof fn lemma_winner_has_a_score(scores: Seq<Option<CandidateScore>>, count: int)
    requires
        0 <= count <= scores.len(),
    ensures
        winner_among(scores, count) is None <==> scored_among(scores, count) == 0,
        winner_among(scores, count) matches Some(index) ==> 0 <= index < count
            && scores[index] is Some,
        0 <= scored_among(scores, count) <= count,
    decreases count,
{
    if count > 0 {
        lemma_winner_has_a_score(scores, count - 1);
    }
}

/// The first candidate that is the position of a trusted marker.
pub open spec fn first_marked(
    track: TrackAnalysis,
    candidates: Seq<Duration>,
    from: int,
) -> Option<Duration>
    decreases candidates.len() - from,
{
    if from >= candidates.len() {
        None
    } else if track.is_trusted_position(candidates[from]) {
        Some(candidates[from])
    } else {
        first_marked(track, candidates, from + 1)
    }
}

fn first_marked_candidate(track: &TrackAnalysis, candidates: &Vec<Duration>) -> (r: Option<
    Duration,
>)
    ensures
        r == first_marked(*track, candidates@, 0),
{
    let mut i: usize = 0;
    while i < candidates.len()
        invariant
            i <= candidates@.len(),
            first_marked(*track, candidates@, 0) == first_marked(*track, candidates@, i as int),
        decreases candidates@.len() - i,
    {
        if track.trusted_marker_position(candidates[i]) {
            return Some(candidates[i]);
        }
        i += 1;
    }
    None
}

/// Chooses the start of an overlap among ordered candidates by their scores, of
/// which only the first so many count. Without any score a beat-aligned start
/// falls back to the first candidate that is a trusted marker: a start that the
/// scoring rejected is never taken up again where a marker is at hand.
pub fn choose_energy_balanced_start(
    outgoing: &TrackAnalysis,
    default_start: Duration,
    candidates: &Vec<Duration>,
    scores: &Vec<Option<CandidateScore>>,
    beat_aligned: bool,
) -> (r: (Duration, Option<AutoMixEnergySelection>))
    requires
        scores@.len() == spec_min(
            candidates@.len() as int,
            MAX_ENERGY_START_CANDIDATES as int,
        ),
    ensures
        match winner_among(scores@, scores@.len() as int) {
            Some(index) => {
                &&& r.0 == candidates@[index]
                &&& r.1 == Some(
                    AutoMixEnergySelection {
                        default_start,
                        selected_start: candidates@[index],
                        candidates_checked: scored_among(scores@, scores@.len() as int) as usize,
                    },
                )
            },
            None => {
                &&& r.1 is None
                &&& r.0 == match first_marked(*outgoing, candidates@, 0) {
                    Some(marked) => if beat_aligned {
                        marked
                    } else {
                        default_start
                    },
                    None => default_start,
                }
            },
        },
{
    let mut best: Option<(usize, u32)> = None;
    let mut checked: usize = 0;
    let mut i: usize = 0;
    while i < scores.len()
        invariant
            i <= scores@.len(),
            checked == scored_among(scores@, i as int),
            checked <= i,
            best is None <==> winner_among(scores@, i as int) is None,
            best matches Some((index, score)) ==> {
                &&& winner_among(scores@, i as int) == Some(index as int)
                &&& index < i
                &&& scores@[index as int] is Some
                &&& score == scores@[index as int]->0.score
            },
        decreases scores@.len() - i,
    {
        if let Some(score) = scores[i] {
            checked += 1;
            let better = match best {
                None => true,
                Some((_, best_score)) => scalar::less(score.with_margin, best_score),
            };
            if better {
                best = Some((i, score.score));
            }
        }
        i += 1;
    }
    match best {
        Some((index, _)) => (
            candidates[index],
            Some(
                AutoMixEnergySelection {
                    default_start,
                    selected_start: candidates[index],
                    candidates_checked: checked,
                },
            ),
        ),
        None => {
            if beat_aligned {
                if let Some(marked) = first_marked_candidate(outgoing, candidates) {
                    return (marked, None);
                }
            }
            (default_start, None)
        },
    }
}

/// A start that was chosen by score is one of the candidates, and at least one
/// candidate was scored.
pub proof fn chosen_start_is_a_candidate(scores: Seq<Option<CandidateScore>>)
    ensures
        winner_among(scores, scores.len() as int) matches Some(index) ==> 0 <= index < scores.len()
            && scores[index] is Some && scored_among(scores, scores.len() as int) > 0,
{
    lemma_winner_has_a_score(scores, scores.len() as int);
}

/// Whether a candidate is worth scoring: at least a second of overlap, and, where
/// it is beat-aligned, an observed trusted marker to anchor its phase. Gives the
/// length of its overlap.
pub fn candidate_overlap(
    outgoing: &TrackAnalysis,
    outgoing_start: Duration,
    beat_aligned: bool,
    tolerance: Duration,
) -> (r: Option<Duration>)
    ensures
        r is Some <==> spec_max(outgoing.audible_end@ - outgoing_start@, 0)
            >= MIN_AUDIBLE_MIX_OVERLAP_NANOS && (beat_aligned ==> outgoing.trusted_within(
            outgoing_start,
            tolerance,
        )),
        r matches Some(duration) ==> duration@ == outgoing.audible_end@ - outgoing_start@,
{
    let duration = outgoing.audible_end.saturating_sub(outgoing_start);
    if duration.shorter(Duration { nanos: MIN_AUDIBLE_MIX_OVERLAP_NANOS }) {
        return None;
    }
    if beat_aligned && outgoing.marker_anchor_index(outgoing_start, tolerance).is_none() {
        return None;
    }
    Some(duration)
}

/// What the energy of a candidate costs it.
#[derive(Clone, Copy, Debug, PartialEq, Eq, Structural)]
pub enum EnergyPenalty {
    /// The mix collapses for too long.
    Unsafe,
    /// The lowest level, as bits, is below the safe one.
    Shortfall(u32),
    /// Nothing.
    Free,
}

/// Whether an issue rules a candidate out: all that block do, but for energy,
/// which only costs.
pub open spec fn rules_out(issue: AutoMixQualityIssue) -> bool {
    issue.blocks() && !(issue is MixEnergyDipTooDeep)
}

/// Whether some issue of a report rules a candidate out.
pub open spec fn any_rules_out(issues: Seq<AutoMixQualityIssue>) -> bool {
    exists|i: int| 0 <= i < issues.len() && rules_out(#[trigger] issues[i])
}

/// Whether some issue of a report is a collapse of the energy.
pub open spec fn any_collapse(issues: Seq<AutoMixQualityIssue>) -> bool {
    exists|i: int| 0 <= i < issues.len() && (#[trigger] issues[i]) is MixEnergyDipTooDeep
}

/// What the energy of a candidate costs it; `None` where another issue rules the
/// candidate out.
pub fn candidate_penalty(quality: &AutoMixQualityReport) -> (r: Option<EnergyPenalty>)
    ensures
        r is None <==> any_rules_out(quality.issues@),
        r matches Some(penalty) ==> penalty == if any_collapse(quality.issues@) {
            EnergyPenalty::Unsafe
        } else if quality.min_mix_energy_ratio is Some && super::energy::dip_is_blocking(
            quality.min_mix_energy_ratio->0,
        ) {
            EnergyPenalty::Shortfall(quality.min_mix_energy_ratio->0)
        } else {
            EnergyPenalty::Free
        },
{
    let mut collapse: bool = false;
    let mut i: usize = 0;
    while i < quality.issues.len()
        invariant
            i <= quality.issues@.len(),
            forall|k: int| 0 <= k < i ==> !rules_out(#[trigger] quality.issues@[k]),
            collapse == exists|k: int|
                0 <= k < i && (#[trigger] quality.issues@[k]) is MixEnergyDipTooDeep,
        decreases quality.issues@.len() - i,
    {
        let is_energy = match quality.issues[i] {
            AutoMixQualityIssue::MixEnergyDipTooDeep { .. } => true,
            _ => false,
        };
        if is_energy {
            assert(quality.issues@[i as int] is MixEnergyDipTooDeep);
            collapse = true;
        } else if quality.issues[i].blocks_automatic_transition() {
            assert(rules_out(quality.issues@[i as int]));
            return None;
        }
        i += 1;
    }
    if collapse {
        return Some(EnergyPenalty::Unsafe);
    }
    if let Some(ratio) = quality.min_mix_energy_ratio {
        if super::energy::mix_energy_dip_is_blocking(ratio) {
            return Some(EnergyPenalty::Shortfall(ratio));
        }
    }
    Some(EnergyPenalty::Free)
}

/// Whether a candidate pays for having bars but no phrase observed.
pub fn lacks_phrase_evidence(quality: &AutoMixQualityReport, beat_aligned: bool) -> (r: bool)
    ensures
        r == (beat_aligned && quality.downbeat_pairs_checked
            >= super::alignment::MIN_DOWNBEAT_PHASE_PAIRS && quality.phrase_pairs_checked == 0),
{
    beat_aligned && quality.downbeat_pairs_checked >= super::alignment::MIN_DOWNBEAT_PHASE_PAIRS
        && quality.phrase_pairs_checked == 0
}

/// The bounds of a search hold the target at one end and lie a window apart, as far as
/// time reaches.
pub proof fn bounds_are_a_window_apart(target: Duration, window: Duration)
    ensures
        ({
            let before = bounds_of(target@, window@, BarPhaseBias::AtOrBefore);
            let after = bounds_of(target@, window@, BarPhaseBias::AtOrAfter);
            &&& before.1 == target@
            &&& window@ <= target@ ==> before.1 - before.0 == window@
            &&& target@ < window@ ==> before.0 == 0
            &&& after.0 == target@
            &&& target@ + window@ <= MAX_NANOS ==> after.1 - after.0 == window@
        }),
{
}

/// A track may start where it is heard and at least a second of it is left to hear.
pub proof fn starts_leave_a_second(track: TrackAnalysis, candidate: Duration)
    ensures
        candidate@ < track.audible_start@ ==> !may_start(track, candidate),
        candidate@ + 1_000_000_000 > track.audible_end@ ==> !may_start(track, candidate),
        track.audible_start@ <= candidate@ && candidate@ + 1_000_000_000 <= track.audible_end@
            ==> may_start(track, candidate),
{
}

/// Phrases may align from a downbeat confidence of 0.6 on, with a known first downbeat,
/// unless the harmonic score is below one half.
pub proof fn phrases_align_with_a_sure_downbeat(incoming: TrackAnalysis, harmonic: Option<u32>)
    ensures
        incoming.first_downbeat is None ==> !phrases_may_align(incoming, harmonic),
        !scalar::spec_at_most(0x3F19_999A, incoming.downbeat_confidence) ==> !phrases_may_align(
            incoming,
            harmonic,
        ),
        harmonic matches Some(score) ==> !scalar::spec_at_most(0x3F00_0000, score)
            ==> !phrases_may_align(incoming, harmonic),
        incoming.first_downbeat is Some && scalar::spec_at_most(
            0x3F19_999A,
            incoming.downbeat_confidence,
        ) && (harmonic is None || scalar::spec_at_most(0x3F00_0000, harmonic->0))
            ==> phrases_may_align(incoming, harmonic),
{
}

/// A candidate backed by a marker is the trusted marker within 35 milliseconds of a
/// position that the track may start at, and each such position has its candidate.
pub proof fn backed_candidates_are_near_markers(
    track: TrackAnalysis,
    raw: Seq<Duration>,
    count: int,
    found: Duration,
)
    requires
        0 <= count <= raw.len(),
    ensures
        backed(track, raw, count).contains(found) <==> exists|k: int|
            0 <= k < count && may_start(track, #[trigger] raw[k]) && track.marker_near(
                raw[k],
                Duration { nanos: 35_000_000 },
            ) == Some(found),
        backed(track, raw, count).len() <= count,
    decreases count,
{
    if count > 0 {
        backed_candidates_are_near_markers(track, raw, count - 1, found);
        let rest = backed(track, raw, count - 1);
        let all = backed(track, raw, count);
        let near = track.marker_near(raw[count - 1], Duration { nanos: 35_000_000 });
        if all.contains(found) {
            let i = choose|i: int| 0 <= i < all.len() && all[i] == found;
            if i < rest.len() {
                assert(rest[i] == found);
            } else {
                assert(near == Some(found));
            }
        }
        if exists|k: int|
            0 <= k < count && may_start(track, #[trigger] raw[k]) && track.marker_near(
                raw[k],
                Duration { nanos: 35_000_000 },
            ) == Some(found) {
            let k = choose|k: int|
                0 <= k < count && may_start(track, #[trigger] raw[k]) && track.marker_near(
                    raw[k],
                    Duration { nanos: 35_000_000 },
                ) == Some(found);
            if k < count - 1 {
                assert(rest.contains(found));
                let i = choose|i: int| 0 <= i < rest.len() && rest[i] == found;
                assert(all[i] == found);
            } else {
                assert(all[all.len() - 1] == found);
            }
        }
    }
}

/// The starts at beats are the trusted markers between the bounds at which the track may
/// start, and no others.
pub proof fn marker_starts_are_the_trusted_markers(
    track: TrackAnalysis,
    earliest: int,
    latest: int,
    count: int,
    found: Duration,
)
    requires
        0 <= count <= track.beat_markers@.len(),
    ensures
        marker_starts(track, earliest, latest, count).contains(found) <==> {
            &&& earliest <= found@ <= latest
            &&& may_start(track, found)
            &&& exists|k: int|
                0 <= k < count && track.trusted(k) && #[trigger] track.beat_markers@[k] == found
        },
        marker_starts(track, earliest, latest, count).len() <= count,
    decreases count,
{
    if count > 0 {
        marker_starts_are_the_trusted_markers(track, earliest, latest, count - 1, found);
        let rest = marker_starts(track, earliest, latest, count - 1);
        let all = marker_starts(track, earliest, latest, count);
        let beat = track.beat_markers@[count - 1];
        if all.contains(found) {
            let i = choose|i: int| 0 <= i < all.len() && all[i] == found;
            if i < rest.len() {
                assert(rest[i] == found);
            } else {
                assert(beat == found);
            }
        }
        if earliest <= found@ <= latest && may_start(track, found) && exists|k: int|
            0 <= k < count && track.trusted(k) && #[trigger] track.beat_markers@[k] == found {
            let k = choose|k: int|
                0 <= k < count && track.trusted(k) && #[trigger] track.beat_markers@[k] == found;
            if k < count - 1 {
                assert(rest.contains(found));
                let i = choose|i: int| 0 <= i < rest.len() && rest[i] == found;
                assert(all[i] == found);
            } else {
                assert(all[all.len() - 1] == found);
            }
        }
    }
}

/// The starts on a grid lie a whole number of steps after the first position, up to the
/// latest one, where the track may start, and are no more than there is room for.
pub proof fn stepped_starts_lie_on_the_grid(
    track: TrackAnalysis,
    position: int,
    step: int,
    latest: int,
    room: int,
    at: int,
)
    requires
        0 <= position,
        0 < step,
        latest <= MAX_NANOS,
        0 <= at < stepped_starts(track, position, step, latest, room).len(),
    ensures
        ({
            let starts = stepped_starts(track, position, step, latest, room);
            &&& starts.len() <= room
            &&& position <= starts[at]@ <= latest
            &&& may_start(track, starts[at])
            &&& exists|k: int| k >= 0 && starts[at]@ == position + #[trigger] (k * step)
        }),
    decreases latest - position + step,
{
    let starts = stepped_starts(track, position, step, latest, room);
    let here = Duration { nanos: position as u128 };
    if may_start(track, here) && at == 0 {
        assert(starts[0] == here);
        assert(starts[0]@ == position + 0 * step);
        if starts.len() > 1 {
            assert(stepped_starts(track, position + step, step, latest, room - 1).len() > 0);
            stepped_starts_lie_on_the_grid(track, position + step, step, latest, room - 1, 0);
        }
    } else {
        let left = if may_start(track, here) {
            room - 1
        } else {
            room
        };
        let next = if may_start(track, here) {
            at - 1
        } else {
            at
        };
        let rest = stepped_starts(track, position + step, step, latest, left);
        assert(starts[at] == rest[next]);
        stepped_starts_lie_on_the_grid(track, position + step, step, latest, left, next);
        let k = choose|k: int|
            k >= 0 && rest[next]@ == position + step + #[trigger] (k * step);
        assert((k + 1) * step == k * step + step) by (nonlinear_arith);
        assert(starts[at]@ == position + (k + 1) * step);
    }
}

/// While there is room every position on the grid at which the track may start is taken:
/// the first such position comes first.
pub proof fn stepped_starts_take_the_first_position(
    track: TrackAnalysis,
    position: Duration,
    step: int,
    latest: int,
    room: int,
)
    requires
        0 < step,
        position@ <= latest <= MAX_NANOS,
        0 < room,
        may_start(track, position),
    ensures
        ({
            let starts = stepped_starts(track, position@, step, latest, room);
            &&& starts.len() > 0
            &&& starts[0] == position
            &&& starts.skip(1) == stepped_starts(
                track,
                position@ + step,
                step,
                latest,
                room - 1,
            )
        }),
{
    let starts = stepped_starts(track, position@, step, latest, room);
    let here = Duration { nanos: position@ as u128 };
    assert(here == position);
    assert(starts.skip(1) =~= stepped_starts(track, position@ + step, step, latest, room - 1));
}

/// The winner is a scored candidate; there is one as soon as anything was scored, and no
/// candidate after it costs less than it does even with the margin added.
pub proof fn winners_are_not_beaten_later(scores: Seq<Option<CandidateScore>>, count: int)
    requires
        0 <= count <= scores.len(),
    ensures
        match winner_among(scores, count) {
            Some(winner) => {
                &&& 0 <= winner < count
                &&& scores[winner] is Some
                &&& forall|k: int|
                    winner < k < count && (#[trigger] scores[k]) is Some ==> !scalar::spec_less(
                        scores[k]->0.with_margin,
                        scores[winner]->0.score,
                    )
            },
            None => forall|k: int| 0 <= k < count ==> (#[trigger] scores[k]) is None,
        },
    decreases count,
{
    if count > 0 {
        winners_are_not_beaten_later(scores, count - 1);
    }
}

/// A candidate displaces the winner before it just where it costs less even with the
/// margin added.
pub proof fn winners_are_displaced_by_a_margin(
    scores: Seq<Option<CandidateScore>>,
    count: int,
    winner: int,
)
    requires
        0 <= count < scores.len(),
        winner_among(scores, count) == Some(winner),
        0 <= winner < count,
    ensures
        scores[count] is None ==> winner_among(scores, count + 1) == Some(winner),
        scores[count] matches Some(score) ==> {
            let less = scalar::spec_less(score.with_margin, scores[winner]->0.score);
            &&& less ==> winner_among(scores, count + 1) == Some(count)
            &&& !less ==> winner_among(scores, count + 1) == Some(winner)
        },
{
}

/// Each scored candidate is counted once.
pub proof fn scored_candidates_are_counted(scores: Seq<Option<CandidateScore>>, count: int)
    requires
        0 <= count < scores.len(),
    ensures
        scored_among(scores, 0) == 0,
        scores[count] is Some ==> scored_among(scores, count + 1) == scored_among(scores, count)
            + 1,
        scores[count] is None ==> scored_among(scores, count + 1) == scored_among(scores, count),
{
}

/// The first marked candidate is a trusted marker, and no candidate before it is; there is
/// none just where no candidate is a trusted marker.
pub proof fn first_marked_candidates_come_first(
    track: TrackAnalysis,
    candidates: Seq<Duration>,
    from: int,
)
    requires
        0 <= from <= candidates.len(),
    ensures
        match first_marked(track, candidates, from) {
            Some(found) => exists|k: int|
                {
                    &&& from <= k < candidates.len()
                    &&& #[trigger] candidates[k] == found
                    &&& track.is_trusted_position(candidates[k])
                    &&& forall|l: int|
                        from <= l < k ==> !track.is_trusted_position(#[trigger] candidates[l])
                },
            None => forall|l: int|
                from <= l < candidates.len() ==> !track.is_trusted_position(
                    #[trigger] candidates[l],
                ),
        },
    decreases candidates.len() - from,
{
    if from < candidates.len() {
        if track.is_trusted_position(candidates[from]) {
            assert(candidates[from] == candidates[from]);
        } else {
            first_marked_candidates_come_first(track, candidates, from + 1);
            if let Some(found) = first_marked(track, candidates, from + 1) {
                let k = choose|k: int|
                    {
                        &&& from + 1 <= k < candidates.len()
                        &&& #[trigger] candidates[k] == found
                        &&& track.is_trusted_position(candidates[k])
                        &&& forall|l: int|
                            from + 1 <= l < k ==> !track.is_trusted_position(
                                #[trigger] candidates[l],
                            )
                    };
                assert(candidates[k] == found);
            }
        }
    }
}

/// Of what is found wrong with a candidate, a dip in the energy does not rule it out and
/// neither does the bass gain; everything else does.
pub proof fn energy_and_bass_do_not_rule_out(issue: AutoMixQualityIssue)
    ensures
        rules_out(issue) == match issue {
            AutoMixQualityIssue::MixOverlapTooShort { .. } => true,
            AutoMixQualityIssue::OutgoingOverlapMissesAudibleEnd { .. } => true,
            AutoMixQualityIssue::IncomingOverlapExceedsAudibleEnd { .. } => true,
            AutoMixQualityIssue::BeatPhaseUnverified => true,
            AutoMixQualityIssue::DownbeatPhaseUnverified => true,
            AutoMixQualityIssue::BeatPhaseDriftTooLarge { .. } => true,
            AutoMixQualityIssue::BeatHandoffPhaseDriftTooLarge { .. } => true,
            AutoMixQualityIssue::DownbeatPhaseDriftTooLarge { .. } => true,
            AutoMixQualityIssue::DownbeatHandoffPhaseDriftTooLarge { .. } => true,
            AutoMixQualityIssue::PhrasePhaseDriftTooLarge { .. } => true,
            AutoMixQualityIssue::PhraseHandoffPhaseDriftTooLarge { .. } => true,
            AutoMixQualityIssue::LowHandoffDip { .. } => false,
            AutoMixQualityIssue::LowHandoffBuildUp { .. } => false,
            AutoMixQualityIssue::DualVocalOverlapTooHigh { .. } => true,
            AutoMixQualityIssue::MixEnergyDipTooDeep { .. } => false,
        },
{
}

/// The default start comes first, and after it every other candidate once, in order of
/// time.
pub proof fn defaults_come_before_the_ordered_candidates(
    list: Seq<Duration>,
    default_start: Duration,
    candidates: Seq<Duration>,
    position: Duration,
)
    requires
        is_default_first(list, default_start, candidates),
    ensures
        list[0] == default_start,
        list.contains(position) <==> position == default_start || candidates.contains(position),
        forall|i: int, j: int|
            1 <= i < j < list.len() ==> (#[trigger] list[i])@ < (#[trigger] list[j])@,
        forall|i: int| 1 <= i < list.len() ==> #[trigger] list[i] != default_start,
{
    let rest = list.drop_first();
    assert forall|i: int, j: int| 1 <= i < j < list.len() implies (#[trigger] list[i])@ < (
    #[trigger] list[j])@ by {
        assert(rest[i - 1] == list[i]);
        assert(rest[j - 1] == list[j]);
    }
    assert forall|i: int| 1 <= i < list.len() implies #[trigger] list[i] != default_start by {
        assert(rest[i - 1] == list[i]);
        assert(rest.contains(list[i]));
    }
    if list.contains(position) {
        let i = choose|i: int| 0 <= i < list.len() && list[i] == position;
        if i > 0 {
            assert(rest[i - 1] == position);
            assert(rest.contains(position));
        }
    }
    if candidates.contains(position) && position != default_start {
        assert(rest.contains(position));
        let i = choose|i: int| 0 <= i < rest.len() && rest[i] == position;
        assert(list[i + 1] == position);
    }
    assert(list.contains(list[0]));
}

/// A candidate is ruled out by any issue that does so, and collapses with any dip in its
/// energy.
pub proof fn single_issues_rule_out(issues: Seq<AutoMixQualityIssue>, i: int)
    requires
        0 <= i < issues.len(),
    ensures
        rules_out(issues[i]) ==> any_rules_out(issues),
        issues[i] is MixEnergyDipTooDeep ==> any_collapse(issues),
        !any_rules_out(Seq::<AutoMixQualityIssue>::empty()),
        !any_collapse(Seq::<AutoMixQualityIssue>::empty()),
{
}

/// At most 96 starts are tried, half a second apart on a grid.
pub proof fn starts_are_limited()
    ensures
        MAX_ENERGY_START_CANDIDATES == 96,
        ENERGY_GRID_STEP_NANOS == 500_000_000,
{
}

} // verus!
