//! Kicks and loudness of a rendered overlap: which onsets are kicks, which beat of
//! the grid each belongs to, and what that amounts to.
//!
//! Strengths, errors and levels are the bits of single-precision numbers.

use vstd::prelude::*;

use super::gate::{KickPhaseReport, RmsReport};
use super::wav::{count_and_longest_run, longest_run_of, RMS_HOP_MS, RMS_WINDOW_MS};
use crate::ordering::{is_totally_ordered, lemma_ordered_is_unique, sort_totally};
use crate::scalar;
use crate::text::texts;
use crate::time::{spec_max, spec_min};

verus! {

/// The greatest finite number; it stands for an error that was not measured.
pub const UNMEASURED: u32 = 0x7F7F_FFFF;

/// The distance from one to the next greater number.
pub const EPSILON: u32 = 0x3400_0000;

/// An onset that stands out, by the index of its block.
#[derive(Clone, Copy, Debug, PartialEq, Eq, Structural)]
pub struct KickPeak {
    pub index: usize,
    pub strength: u32,
}

/// Whether an onset stands out: it reaches the threshold and is not weaker than
/// either neighbour.
pub open spec fn stands_out(onsets: Seq<u32>, threshold: u32, index: int) -> bool {
    &&& !scalar::spec_less(onsets[index], threshold)
    &&& !scalar::spec_less(onsets[index], onsets[index - 1])
    &&& !scalar::spec_less(onsets[index], onsets[index + 1])
}

/// The peaks among the onsets before an index. Of peaks closer than the minimum
/// distance to the one kept before them, the stronger is kept. `places` gives the
/// block at which an onset is heard.
pub open spec fn peaks_before(
    onsets: Seq<u32>,
    places: Seq<usize>,
    threshold: u32,
    minimum_blocks: int,
    index: int,
) -> Seq<KickPeak>
    decreases index,
{
    if index <= 1 {
        Seq::empty()
    } else {
        let rest = peaks_before(onsets, places, threshold, minimum_blocks, index - 1);
        let peak = KickPeak { index: (index - 1) as usize, strength: onsets[index - 1] };
        if !stands_out(onsets, threshold, index - 1) {
            rest
        } else if rest.len() > 0 && spec_max(index - 1 - places[rest.last().index as int], 0)
            < minimum_blocks {
            if scalar::spec_less(rest.last().strength, peak.strength) {
                rest.update(rest.len() - 1, peak)
            } else {
                rest
            }
        } else {
            rest.push(peak)
        }
    }
}

proof fn lemma_peaks_inside(
    onsets: Seq<u32>,
    places: Seq<usize>,
    threshold: u32,
    minimum_blocks: int,
    index: int,
)
    requires
        index <= usize::MAX,
    ensures
        forall|k: int|
            0 <= k < peaks_before(onsets, places, threshold, minimum_blocks, index).len() ==> (
            #[trigger] peaks_before(onsets, places, threshold, minimum_blocks, index)[k]).index
                < spec_max(index, 1),
        peaks_before(onsets, places, threshold, minimum_blocks, index).len() <= spec_max(index, 0),
    decreases index,
{
    if index > 1 {
        lemma_peaks_inside(onsets, places, threshold, minimum_blocks, index - 1);
        let rest = peaks_before(onsets, places, threshold, minimum_blocks, index - 1);
        let all = peaks_before(onsets, places, threshold, minimum_blocks, index);
        assert forall|k: int| 0 <= k < all.len() implies (#[trigger] all[k]).index < spec_max(
            index,
            1,
        ) by {
            if k < rest.len() {
                assert(rest[k].index < spec_max(index - 1, 1));
            }
        }
    }
}

/// The onsets that stand out, at least a minimum distance apart.
pub fn pick_peaks(
    onsets: &Vec<u32>,
    places: &Vec<usize>,
    threshold: u32,
    minimum_blocks: usize,
) -> (r: Vec<KickPeak>)
    requires
        onsets@.len() >= 2,
        places@.len() == onsets@.len(),
    ensures
        r@ == peaks_before(
            onsets@,
            places@,
            threshold,
            minimum_blocks as int,
            onsets@.len() - 1,
        ),
{
    let mut peaks: Vec<KickPeak> = Vec::new();
    let mut index: usize = 1;
    while index < onsets.len() - 1
        invariant
            1 <= index <= onsets@.len() - 1,
            onsets.len() >= 2,
            places@.len() == onsets@.len(),
            peaks@ == peaks_before(
                onsets@,
                places@,
                threshold,
                minimum_blocks as int,
                index as int,
            ),
        decreases onsets@.len() - index,
    {
        proof {
            lemma_peaks_inside(
                onsets@,
                places@,
                threshold,
                minimum_blocks as int,
                index as int,
            );
        }
        let value = onsets[index];
        if !(scalar::less(value, threshold) || scalar::less(value, onsets[index - 1])
            || scalar::less(value, onsets[index + 1])) {
            let peak = KickPeak { index, strength: value };
            if peaks.len() > 0 {
                let at: usize = peaks.len() - 1;
                let last = peaks[at];
                assert(peaks@[at as int] == peaks@.last());
                let place = places[last.index];
                let distance: usize = if index >= place {
                    index - place
                } else {
                    0
                };
                if distance < minimum_blocks {
                    if scalar::less(last.strength, value) {
                        peaks.set(at, peak);
                    }
                } else {
                    peaks.push(peak);
                }
            } else {
                peaks.push(peak);
            }
        }
        index += 1;
    }
    peaks
}

/// Whether one peak goes before another where only the strongest are kept: it is
/// stronger, or as strong and earlier.
pub open spec fn outranks(peaks: Seq<KickPeak>, one: int, other: int) -> bool {
    scalar::total_key(peaks[one].strength) > scalar::total_key(peaks[other].strength)
        || scalar::total_key(peaks[one].strength) == scalar::total_key(peaks[other].strength) && one
        < other
}

/// How many of the first `count` peaks go before the one at an index.
pub open spec fn rank_among(peaks: Seq<KickPeak>, index: int, count: int) -> int
    decreases count,
{
    if count <= 0 {
        0
    } else {
        rank_among(peaks, index, count - 1) + if outranks(peaks, count - 1, index) {
            1int
        } else {
            0int
        }
    }
}

/// Those of the first `count` peaks that are among the strongest, in their order.
pub open spec fn strongest_of(peaks: Seq<KickPeak>, maximum: int, count: int) -> Seq<KickPeak>
    decreases count,
{
    if count <= 0 {
        Seq::empty()
    } else {
        let rest = strongest_of(peaks, maximum, count - 1);
        if rank_among(peaks, count - 1, peaks.len() as int) < maximum {
            rest.push(peaks[count - 1])
        } else {
            rest
        }
    }
}

fn rank_of(peaks: &Vec<KickPeak>, index: usize) -> (r: usize)
    requires
        index < peaks@.len(),
    ensures
        r == rank_among(peaks@, index as int, peaks@.len() as int),
{
    let mut rank: usize = 0;
    let mut i: usize = 0;
    while i < peaks.len()
        invariant
            i <= peaks@.len(),
            index < peaks@.len(),
            rank == rank_among(peaks@, index as int, i as int),
            rank <= i,
        decreases peaks@.len() - i,
    {
        if scalar::total_less(peaks[index].strength, peaks[i].strength) || i < index
            && !scalar::total_less(peaks[i].strength, peaks[index].strength) {
            rank += 1;
        }
        i += 1;
    }
    rank
}

/// The strongest peaks, at most so many, in the order of time; of equally strong
/// ones the earlier.
pub fn keep_strongest(peaks: &Vec<KickPeak>, maximum: usize) -> (r: Vec<KickPeak>)
    ensures
        r@ == strongest_of(peaks@, maximum as int, peaks@.len() as int),
{
    let mut kept: Vec<KickPeak> = Vec::new();
    let mut i: usize = 0;
    while i < peaks.len()
        invariant
            i <= peaks@.len(),
            kept@ == strongest_of(peaks@, maximum as int, i as int),
        decreases peaks@.len() - i,
    {
        if rank_of(peaks, i) < maximum {
            kept.push(peaks[i]);
        }
        i += 1;
    }
    kept
}

/// A peak that is kept is at least as strong as one that is dropped.
pub proof fn kept_peaks_are_strongest(
    peaks: Seq<KickPeak>,
    maximum: int,
    kept: int,
    dropped: int,
)
    requires
        0 <= kept < peaks.len(),
        0 <= dropped < peaks.len(),
        rank_among(peaks, kept, peaks.len() as int) < maximum,
        rank_among(peaks, dropped, peaks.len() as int) >= maximum,
    ensures
        scalar::total_key(peaks[kept].strength) >= scalar::total_key(peaks[dropped].strength),
{
    if scalar::total_key(peaks[kept].strength) < scalar::total_key(peaks[dropped].strength) {
        lemma_rank_order(peaks, dropped, kept, peaks.len() as int);
    }
}

proof fn lemma_rank_order(peaks: Seq<KickPeak>, stronger: int, weaker: int, count: int)
    requires
        scalar::total_key(peaks[weaker].strength) < scalar::total_key(peaks[stronger].strength),
    ensures
        rank_among(peaks, stronger, count) <= rank_among(peaks, weaker, count),
    decreases count,
{
    if count > 0 {
        lemma_rank_order(peaks, stronger, weaker, count - 1);
    }
}

/// A peak held against the grid: the beat it is nearest to, how far it is off, and
/// how far it may be.
#[derive(Clone, Copy, Debug, PartialEq, Eq, Structural)]
pub struct GridPeak {
    pub grid_index: i32,
    pub error: u32,
    pub limit: u32,
    pub strength: u32,
}

/// A beat of the grid with the kick that was heard at it.
#[derive(Clone, Copy, Debug, PartialEq, Eq, Structural)]
pub struct MatchedBeat {
    pub grid_index: i32,
    pub error: u32,
    pub strength: u32,
}

impl GridPeak {
    /// Whether the peak belongs to a beat of the grid: the beat lies in the overlap
    /// and the peak is not too far off.
    pub open spec fn belongs(self, first: i32, last: i32) -> bool {
        first <= self.grid_index <= last && !scalar::spec_less(self.limit, self.error)
    }
}

/// The kick of a beat among the first `count` peaks: the strongest, the first of
/// equally strong ones.
pub open spec fn kick_at(
    peaks: Seq<GridPeak>,
    first: i32,
    last: i32,
    beat: i32,
    count: int,
) -> Option<MatchedBeat>
    decreases count,
{
    if count <= 0 {
        None
    } else {
        let before = kick_at(peaks, first, last, beat, count - 1);
        let peak = peaks[count - 1];
        if peak.grid_index == beat && peak.belongs(first, last) && (before is None
            || scalar::spec_less(before->0.strength, peak.strength)) {
            Some(MatchedBeat { grid_index: beat, error: peak.error, strength: peak.strength })
        } else {
            before
        }
    }
}

/// Whether a list holds the kicks of all beats, in the order of the grid.
pub open spec fn is_matching(
    matched: Seq<MatchedBeat>,
    peaks: Seq<GridPeak>,
    first: i32,
    last: i32,
    count: int,
) -> bool {
    &&& forall|i: int, j: int|
        0 <= i < j < matched.len() ==> (#[trigger] matched[i]).grid_index < (
        #[trigger] matched[j]).grid_index
    &&& forall|i: int|
        0 <= i < matched.len() ==> kick_at(
            peaks,
            first,
            last,
            (#[trigger] matched[i]).grid_index,
            count,
        ) == Some(matched[i])
    &&& forall|beat: i32|
        (#[trigger] kick_at(peaks, first, last, beat, count)) is Some ==> has_beat(matched, beat)
}

/// Whether a list holds a beat of the grid.
pub open spec fn has_beat(matched: Seq<MatchedBeat>, beat: i32) -> bool {
    exists|i: int| 0 <= i < matched.len() && (#[trigger] matched[i]).grid_index == beat
}

/// Gives each beat of the grid the strongest kick that belongs to it.
pub fn match_beats(peaks: &Vec<GridPeak>, first: i32, last: i32) -> (r: Vec<MatchedBeat>)
    ensures
        is_matching(r@, peaks@, first, last, peaks@.len() as int),
        r@.len() <= peaks@.len(),
{
    let mut matched: Vec<MatchedBeat> = Vec::new();
    let mut i: usize = 0;
    while i < peaks.len()
        invariant
            i <= peaks@.len(),
            matched@.len() <= i,
            is_matching(matched@, peaks@, first, last, i as int),
        decreases peaks@.len() - i,
    {
        let peak = peaks[i];
        let ghost before = matched@;
        let belongs = first <= peak.grid_index && peak.grid_index <= last && !scalar::less(
            peak.limit,
            peak.error,
        );
        if belongs {
            let entry = MatchedBeat {
                grid_index: peak.grid_index,
                error: peak.error,
                strength: peak.strength,
            };
            let mut at: usize = 0;
            while at < matched.len() && matched[at].grid_index < peak.grid_index
                invariant
                    at <= matched@.len(),
                    forall|k: int|
                        0 <= k < at ==> (#[trigger] matched@[k]).grid_index < peak.grid_index,
                decreases matched@.len() - at,
            {
                at += 1;
            }
            if at < matched.len() && matched[at].grid_index == peak.grid_index {
                assert(kick_at(peaks@, first, last, peak.grid_index, i as int) == Some(
                    before[at as int],
                ));
                if scalar::less(matched[at].strength, peak.strength) {
                    matched.set(at, entry);
                    proof {
                        lemma_replaced(before, matched@, at as int, peaks@, first, last, i as int);
                    }
                } else {
                    proof {
                        lemma_unchanged(before, peaks@, first, last, i as int);
                    }
                }
            } else {
                proof {
                    assert forall|k: int| 0 <= k < before.len() implies (
                    #[trigger] before[k]).grid_index != peak.grid_index by {
                        if k >= at {
                            assert(before[at as int].grid_index > peak.grid_index);
                            if k > at {
                                assert(before[at as int].grid_index < before[k].grid_index);
                            }
                        }
                    }
                    assert(!has_beat(before, peak.grid_index));
                    assert(kick_at(peaks@, first, last, peak.grid_index, i as int) is None);
                }
                matched.insert(at, entry);
                proof {
                    assert(matched@ =~= before.insert(at as int, entry));
                    lemma_inserted(before, entry, at as int, peaks@, first, last, i as int);
                }
            }
        } else {
            proof {
                lemma_unchanged(before, peaks@, first, last, i as int);
            }
        }
        i += 1;
    }
    matched
}

proof fn lemma_unchanged(
    matched: Seq<MatchedBeat>,
    peaks: Seq<GridPeak>,
    first: i32,
    last: i32,
    count: int,
)
    requires
        0 <= count < peaks.len(),
        is_matching(matched, peaks, first, last, count),
        !peaks[count].belongs(first, last) || ({
            let kept = kick_at(peaks, first, last, peaks[count].grid_index, count);
            kept is Some && !scalar::spec_less(kept->0.strength, peaks[count].strength)
        }),
    ensures
        is_matching(matched, peaks, first, last, count + 1),
{
    assert forall|beat: i32| #[trigger]
        kick_at(peaks, first, last, beat, count + 1) == kick_at(
            peaks,
            first,
            last,
            beat,
            count,
        ) by {}
}

proof fn lemma_replaced(
    before: Seq<MatchedBeat>,
    after: Seq<MatchedBeat>,
    at: int,
    peaks: Seq<GridPeak>,
    first: i32,
    last: i32,
    count: int,
)
    requires
        0 <= count < peaks.len(),
        0 <= at < before.len(),
        is_matching(before, peaks, first, last, count),
        peaks[count].belongs(first, last),
        before[at].grid_index == peaks[count].grid_index,
        scalar::spec_less(before[at].strength, peaks[count].strength),
        after == before.update(
            at,
            MatchedBeat {
                grid_index: peaks[count].grid_index,
                error: peaks[count].error,
                strength: peaks[count].strength,
            },
        ),
    ensures
        is_matching(after, peaks, first, last, count + 1),
{
    let beat = peaks[count].grid_index;
    assert(kick_at(peaks, first, last, beat, count) == Some(before[at]));
    assert forall|i: int| 0 <= i < after.len() implies kick_at(
        peaks,
        first,
        last,
        (#[trigger] after[i]).grid_index,
        count + 1,
    ) == Some(after[i]) by {
        if i != at {
            assert(after[i] == before[i]);
            assert(before[i].grid_index != beat) by {
                if i < at {
                    assert(before[i].grid_index < before[at].grid_index);
                } else {
                    assert(before[at].grid_index < before[i].grid_index);
                }
            }
        }
    }
    assert forall|i: int, j: int| 0 <= i < j < after.len() implies (
    #[trigger] after[i]).grid_index < (#[trigger] after[j]).grid_index by {
        assert(before[i].grid_index < before[j].grid_index);
    }
    assert forall|b: i32| (#[trigger] kick_at(peaks, first, last, b, count + 1)) is Some implies
        has_beat(after, b) by {
        if b == beat {
            assert(after[at].grid_index == beat);
        } else {
            assert(kick_at(peaks, first, last, b, count) is Some);
            let k = choose|k: int| 0 <= k < before.len() && (#[trigger] before[k]).grid_index == b;
            assert(after[k].grid_index == b);
        }
    }
}

proof fn lemma_inserted(
    before: Seq<MatchedBeat>,
    entry: MatchedBeat,
    at: int,
    peaks: Seq<GridPeak>,
    first: i32,
    last: i32,
    count: int,
)
    requires
        0 <= count < peaks.len(),
        0 <= at <= before.len(),
        is_matching(before, peaks, first, last, count),
        peaks[count].belongs(first, last),
        kick_at(peaks, first, last, peaks[count].grid_index, count) is None,
        entry == (MatchedBeat {
            grid_index: peaks[count].grid_index,
            error: peaks[count].error,
            strength: peaks[count].strength,
        }),
        forall|k: int| 0 <= k < at ==> (#[trigger] before[k]).grid_index < entry.grid_index,
        forall|k: int|
            at <= k < before.len() ==> (#[trigger] before[k]).grid_index > entry.grid_index,
    ensures
        is_matching(before.insert(at, entry), peaks, first, last, count + 1),
{
    let after = before.insert(at, entry);
    let beat = entry.grid_index;
    assert forall|i: int| 0 <= i < after.len() implies kick_at(
        peaks,
        first,
        last,
        (#[trigger] after[i]).grid_index,
        count + 1,
    ) == Some(after[i]) by {
        if i < at {
            assert(after[i] == before[i]);
        } else if i > at {
            assert(after[i] == before[i - 1]);
        }
    }
    assert forall|i: int, j: int| 0 <= i < j < after.len() implies (
    #[trigger] after[i]).grid_index < (#[trigger] after[j]).grid_index by {
        if i < at && j < at {
            assert(after[i] == before[i] && after[j] == before[j]);
        } else if i < at && j == at {
            assert(after[i] == before[i]);
        } else if i < at {
            assert(after[i] == before[i] && after[j] == before[j - 1]);
        } else if i == at {
            assert(after[j] == before[j - 1]);
        } else {
            assert(after[i] == before[i - 1] && after[j] == before[j - 1]);
        }
    }
    assert forall|b: i32| (#[trigger] kick_at(peaks, first, last, b, count + 1)) is Some implies
        has_beat(after, b) by {
        if b == beat {
            assert(after[at].grid_index == beat);
        } else {
            assert(kick_at(peaks, first, last, b, count) is Some);
            let k = choose|k: int| 0 <= k < before.len() && (#[trigger] before[k]).grid_index == b;
            if k < at {
                assert(after[k].grid_index == b);
            } else {
                assert(after[k + 1].grid_index == b);
            }
        }
    }
}

/// The error at a rank of the ordered errors, and the largest one.
pub fn error_percentile(errors: &Vec<u32>, rank: usize) -> (r: (u32, u32))
    requires
        errors@.len() > 0,
        rank < errors@.len(),
    ensures
        forall|ordered: Seq<u32>| #[trigger]
            is_totally_ordered(ordered) && ordered.to_multiset() == errors@.to_multiset() ==> r.0
                == ordered[rank as int] && r.1 == ordered[errors@.len() - 1],
{
    let ordered = sort_totally(errors);
    proof {
        assert forall|other: Seq<u32>| #[trigger]
            is_totally_ordered(other) && other.to_multiset() == errors@.to_multiset() implies other
            == ordered@ by {
            lemma_ordered_is_unique(other, ordered@);
        }
    }
    (ordered[rank], ordered[ordered.len() - 1])
}

/// How the search for kicks ended.
#[derive(Clone, Copy, Debug, PartialEq, Eq, Structural)]
pub enum KickOutcome {
    /// Nothing in the low band stands out.
    NoOnsets,
    /// Too few onsets stand out; how many.
    TooFewPeaks(usize),
    /// The first bar has too few peaks to find the phase; how many peaks in all.
    NoAnchor(usize),
    /// No beat of the grid falls into the overlap; how many peaks in all.
    NoGrid(usize),
    /// Too few beats have a kick; how many.
    TooFewMatches(usize),
    /// The phase was measured.
    Measured {
        candidate_onsets: usize,
        matched: usize,
        beat_coverage: u32,
        p95_ms: u32,
        max_ms: u32,
        handoff_ms: u32,
    },
}

/// Whether the low band has onsets at all: three blocks, and a rise that can be
/// heard.
pub fn onsets_are_usable(blocks: usize, maximum: u32) -> (r: bool)
    ensures
        r == (blocks >= 3 && !scalar::spec_at_most(maximum, EPSILON)),
{
    blocks >= 3 && !scalar::at_most(maximum, EPSILON)
}

/// What one stage of the search for kicks found, in the order of the stages.
#[derive(Clone, Copy, Debug, PartialEq, Eq, Structural)]
pub enum KickFinding {
    /// The blocks of the low band, and the largest rise between two of them.
    Onsets { blocks: usize, maximum: u32 },
    /// How many onsets stand out.
    Peaks(usize),
    /// How many peaks were kept, and how many of them lie in the first bar.
    Anchors { peaks: usize, anchors: usize },
    /// How many peaks were kept, and the first and last beat of the grid.
    Grid { peaks: usize, first: i32, last: i32 },
    /// How many beats have a kick.
    Matches(usize),
}

/// How a search ends for want of something at a stage; none where it goes on. It
/// takes onsets, three peaks, two of the kept ones in the first bar, a beat on the
/// grid and three beats with a kick.
pub open spec fn shortfall_of(finding: KickFinding) -> Option<KickOutcome> {
    match finding {
        KickFinding::Onsets { blocks, maximum } => if blocks < 3 || scalar::spec_at_most(
            maximum,
            EPSILON,
        ) {
            Some(KickOutcome::NoOnsets)
        } else {
            None
        },
        KickFinding::Peaks(peaks) => if peaks < 3 {
            Some(KickOutcome::TooFewPeaks(peaks))
        } else {
            None
        },
        KickFinding::Anchors { peaks, anchors } => if anchors < 2 {
            Some(KickOutcome::NoAnchor(peaks))
        } else {
            None
        },
        KickFinding::Grid { peaks, first, last } => if last < first {
            Some(KickOutcome::NoGrid(peaks))
        } else {
            None
        },
        KickFinding::Matches(matched) => if matched < 3 {
            Some(KickOutcome::TooFewMatches(matched))
        } else {
            None
        },
    }
}

/// How a search ends for want of something at a stage; none where it goes on.
pub fn kick_shortfall(finding: KickFinding) -> (r: Option<KickOutcome>)
    ensures
        r == shortfall_of(finding),
{
    match finding {
        KickFinding::Onsets { blocks, maximum } => if onsets_are_usable(blocks, maximum) {
            None
        } else {
            Some(KickOutcome::NoOnsets)
        },
        KickFinding::Peaks(peaks) => if peaks < 3 {
            Some(KickOutcome::TooFewPeaks(peaks))
        } else {
            None
        },
        KickFinding::Anchors { peaks, anchors } => if anchors < 2 {
            Some(KickOutcome::NoAnchor(peaks))
        } else {
            None
        },
        KickFinding::Grid { peaks, first, last } => if last < first {
            Some(KickOutcome::NoGrid(peaks))
        } else {
            None
        },
        KickFinding::Matches(matched) => if matched < 3 {
            Some(KickOutcome::TooFewMatches(matched))
        } else {
            None
        },
    }
}

/// How many peaks are kept for so many expected beats: three for each, and no less
/// than three.
pub fn maximum_peaks(expected: usize) -> (r: usize)
    ensures
        r == spec_max(spec_min(expected * 3, usize::MAX as int), 3),
{
    let tripled: usize = if expected > usize::MAX / 3 {
        usize::MAX
    } else {
        expected * 3
    };
    if tripled >= 3 {
        tripled
    } else {
        3
    }
}

/// How many beats count as matched: no more than were expected.
pub open spec fn matched_count(matched: usize, expected: usize) -> usize {
    if matched <= expected {
        matched
    } else {
        expected
    }
}

/// What is wrong with the outcome of a search.
pub open spec fn outcome_issue(outcome: KickOutcome) -> Option<Seq<char>> {
    match outcome {
        KickOutcome::NoOnsets => Some("kick_onsets_unavailable"@),
        KickOutcome::TooFewPeaks(_) => Some("kick_matches_insufficient"@),
        KickOutcome::NoAnchor(_) => Some("kick_phase_anchor_unavailable"@),
        KickOutcome::NoGrid(_) => Some("kick_expected_beats_unavailable"@),
        KickOutcome::TooFewMatches(_) => Some("kick_matches_insufficient"@),
        KickOutcome::Measured { .. } => None,
    }
}

/// The issues of a report: that no beat was expected, and what was wrong with the
/// outcome.
pub open spec fn issues_of_outcome(expected_beats: usize, outcome: KickOutcome) -> Seq<Seq<char>> {
    let expectation = if expected_beats == 0 {
        seq!["kick_expected_beats_unavailable"@]
    } else {
        Seq::empty()
    };
    match outcome_issue(outcome) {
        Some(issue) => expectation.push(issue),
        None => expectation,
    }
}

/// Reports how the search for kicks ended. Errors that were not measured are as
/// large as a number can be, so that no threshold lets them through.
pub fn kick_phase_report(expected_bpm: u32, expected_beats: usize, outcome: KickOutcome) -> (r:
    KickPhaseReport)
    ensures
        r.expected_bpm == expected_bpm,
        r.expected_beats == expected_beats,
        texts(r.issues@) == issues_of_outcome(expected_beats, outcome),
        match outcome {
            KickOutcome::Measured {
                candidate_onsets,
                matched,
                beat_coverage,
                p95_ms,
                max_ms,
                handoff_ms,
            } => {
                &&& r.candidate_onsets == candidate_onsets
                &&& r.matched_beats == matched_count(matched, expected_beats)
                &&& r.beat_coverage == if expected_beats == 0 {
                    0
                } else {
                    beat_coverage
                }
                &&& r.p95_ms == p95_ms
                &&& r.max_ms == max_ms
                &&& r.handoff_ms == handoff_ms
            },
            KickOutcome::NoOnsets => r.candidate_onsets == 0 && r.matched_beats == 0
                && is_unmeasured(r),
            KickOutcome::TooFewPeaks(peaks) => r.candidate_onsets == peaks && r.matched_beats == 0
                && is_unmeasured(r),
            KickOutcome::NoAnchor(peaks) => r.candidate_onsets == peaks && r.matched_beats == 0
                && is_unmeasured(r),
            KickOutcome::NoGrid(peaks) => r.candidate_onsets == peaks && r.matched_beats == 0
                && is_unmeasured(r),
            KickOutcome::TooFewMatches(beats) => r.candidate_onsets == beats && r.matched_beats
                == beats && is_unmeasured(r),
        },
{
    let mut issues: Vec<String> = Vec::new();
    if expected_beats == 0 {
        issues.push("kick_expected_beats_unavailable".to_owned());
    }
    let ghost expectation = texts(issues@);
    assert(expectation =~= if expected_beats == 0 {
        seq!["kick_expected_beats_unavailable"@]
    } else {
        Seq::empty()
    });
    let issue: Option<&'static str> = match outcome {
        KickOutcome::NoOnsets => Some("kick_onsets_unavailable"),
        KickOutcome::TooFewPeaks(_) => Some("kick_matches_insufficient"),
        KickOutcome::NoAnchor(_) => Some("kick_phase_anchor_unavailable"),
        KickOutcome::NoGrid(_) => Some("kick_expected_beats_unavailable"),
        KickOutcome::TooFewMatches(_) => Some("kick_matches_insufficient"),
        KickOutcome::Measured { .. } => None,
    };
    if let Some(text) = issue {
        issues.push(text.to_owned());
        assert(texts(issues@) =~= expectation.push(text@));
    }
    let (candidate_onsets, matched_beats): (usize, usize) = match outcome {
        KickOutcome::NoOnsets => (0, 0),
        KickOutcome::TooFewPeaks(peaks) => (peaks, 0),
        KickOutcome::NoAnchor(peaks) => (peaks, 0),
        KickOutcome::NoGrid(peaks) => (peaks, 0),
        KickOutcome::TooFewMatches(beats) => (beats, beats),
        KickOutcome::Measured { candidate_onsets, matched, .. } => (
            candidate_onsets,
            if matched <= expected_beats {
                matched
            } else {
                expected_beats
            },
        ),
    };
    let (beat_coverage, p95_ms, max_ms, handoff_ms): (u32, u32, u32, u32) = match outcome {
        KickOutcome::Measured { beat_coverage, p95_ms, max_ms, handoff_ms, .. } => (
            if expected_beats == 0 {
                0
            } else {
                beat_coverage
            },
            p95_ms,
            max_ms,
            handoff_ms,
        ),
        _ => (0, UNMEASURED, UNMEASURED, UNMEASURED),
    };
    KickPhaseReport {
        expected_bpm,
        candidate_onsets,
        matched_beats,
        expected_beats,
        beat_coverage,
        p95_ms,
        max_ms,
        handoff_ms,
        issues,
    }
}

/// Whether a report holds no measured phase.
pub open spec fn is_unmeasured(report: KickPhaseReport) -> bool {
    report.beat_coverage == 0 && report.p95_ms == UNMEASURED && report.max_ms == UNMEASURED
        && report.handoff_ms == UNMEASURED
}

/// Whether each ratio lies below a threshold.
pub open spec fn below(ratios: Seq<u32>, threshold: u32) -> Seq<bool> {
    ratios.map_values(|ratio: u32| scalar::spec_less(ratio, threshold))
}

/// The quietest of the first `count` windows.
pub open spec fn quietest_of(values: Seq<u32>, count: int) -> u32
    decreases count,
{
    if count <= 0 {
        scalar::INFINITY_BITS
    } else {
        scalar::spec_lesser(quietest_of(values, count - 1), values[count - 1])
    }
}

/// The quietest window; positive infinity without any.
pub fn quietest_window(values: &Vec<u32>) -> (r: u32)
    ensures
        r == quietest_of(values@, values@.len() as int),
{
    let mut quietest: u32 = scalar::INFINITY_BITS;
    let mut i: usize = 0;
    while i < values.len()
        invariant
            i <= values@.len(),
            quietest == quietest_of(values@, i as int),
        decreases values@.len() - i,
    {
        quietest = scalar::lesser(quietest, values[i]);
        i += 1;
    }
    quietest
}

/// Reports how even the loudness of an overlap is. `ratios` holds the level of each
/// window against the level at the edges; `None` without any window.
pub fn rms_report(
    ratios: &Vec<u32>,
    threshold_ratio: u32,
    quietest_dbfs: u32,
    edge_reference_dbfs: u32,
    quietest_to_edge_ratio: u32,
) -> (r: Option<RmsReport>)
    ensures
        r is Some <==> ratios@.len() > 0,
        r matches Some(report) ==> {
            &&& report.window_ms == RMS_WINDOW_MS
            &&& report.hop_ms == RMS_HOP_MS
            &&& report.windows == ratios@.len()
            &&& report.quietest_dbfs == quietest_dbfs
            &&& report.edge_reference_dbfs == edge_reference_dbfs
            &&& report.quietest_to_edge_ratio == quietest_to_edge_ratio
            &&& report.consecutive_below_ratio_windows == longest_run_of(
                below(ratios@, threshold_ratio),
                ratios@.len() as int,
            )
        },
{
    if ratios.len() == 0 {
        return None;
    }
    let mut flags: Vec<bool> = Vec::new();
    let mut i: usize = 0;
    while i < ratios.len()
        invariant
            i <= ratios@.len(),
            flags@ == below(ratios@, threshold_ratio).take(i as int),
        decreases ratios@.len() - i,
    {
        flags.push(scalar::less(ratios[i], threshold_ratio));
        assert(flags@ =~= below(ratios@, threshold_ratio).take(i + 1));
        i += 1;
    }
    assert(flags@ =~= below(ratios@, threshold_ratio));
    let (_, longest) = count_and_longest_run(flags.as_slice());
    Some(
        RmsReport {
            window_ms: RMS_WINDOW_MS,
            hop_ms: RMS_HOP_MS,
            windows: ratios.len(),
            quietest_dbfs,
            edge_reference_dbfs,
            quietest_to_edge_ratio,
            consecutive_below_ratio_windows: longest,
        },
    )
}

/// A block stands out where it reaches the threshold and neither neighbor is above it.
pub proof fn peaks_are_above_their_neighbors(onsets: Seq<u32>, threshold: u32, index: int)
    ensures
        scalar::spec_less(onsets[index], threshold) ==> !stands_out(onsets, threshold, index),
        scalar::spec_less(onsets[index], onsets[index - 1]) ==> !stands_out(
            onsets,
            threshold,
            index,
        ),
        scalar::spec_less(onsets[index], onsets[index + 1]) ==> !stands_out(
            onsets,
            threshold,
            index,
        ),
        scalar::spec_at_most(threshold, onsets[index]) && scalar::spec_at_most(
            onsets[index - 1],
            onsets[index],
        ) && scalar::spec_at_most(onsets[index + 1], onsets[index]) ==> stands_out(
            onsets,
            threshold,
            index,
        ),
{
}

/// A block that stands out is a new peak where it is far enough from the last one, takes
/// its place where it is too near and stronger, and is passed over otherwise, as is any
/// block that does not stand out.
pub proof fn peaks_keep_their_distance(
    onsets: Seq<u32>,
    places: Seq<usize>,
    threshold: u32,
    minimum_blocks: int,
    index: int,
)
    requires
        0 < index < onsets.len(),
        index <= usize::MAX,
    ensures
        ({
            let before = peaks_before(onsets, places, threshold, minimum_blocks, index);
            let after = peaks_before(onsets, places, threshold, minimum_blocks, index + 1);
            let peak = KickPeak { index: index as usize, strength: onsets[index] };
            let last = before[before.len() - 1];
            let near = before.len() > 0 && index - places[last.index as int] < minimum_blocks
                && 0 < minimum_blocks;
            let out = stands_out(onsets, threshold, index);
            &&& !out ==> after == before
            &&& out && !near ==> after == before.push(peak)
            &&& out && near && scalar::spec_less(last.strength, onsets[index]) ==> after.len()
                == before.len() && after[before.len() - 1] == peak && after.drop_last()
                == before.drop_last()
            &&& out && near && !scalar::spec_less(last.strength, onsets[index]) ==> after
                == before
        }),
{
    let before = peaks_before(onsets, places, threshold, minimum_blocks, index);
    let after = peaks_before(onsets, places, threshold, minimum_blocks, index + 1);
    if before.len() > 0 && after.len() == before.len() {
        assert(after.drop_last() =~= before.drop_last());
    }
}

/// The stronger peak outranks the weaker one, of two as strong the earlier one, and each
/// peak that outranks another is counted once in its rank.
pub proof fn ranks_count_the_stronger_peaks(
    peaks: Seq<KickPeak>,
    one: int,
    other: int,
    count: int,
)
    requires
        0 <= count,
    ensures
        ({
            let left = scalar::total_key(peaks[one].strength);
            let right = scalar::total_key(peaks[other].strength);
            &&& left > right ==> outranks(peaks, one, other)
            &&& left < right ==> !outranks(peaks, one, other)
            &&& left == right ==> (outranks(peaks, one, other) <==> one < other)
            &&& rank_among(peaks, other, 0) == 0
            &&& outranks(peaks, count, other) ==> rank_among(peaks, other, count + 1)
                == rank_among(peaks, other, count) + 1
            &&& !outranks(peaks, count, other) ==> rank_among(peaks, other, count + 1)
                == rank_among(peaks, other, count)
        }),
{
}

/// The peaks kept are those that fewer than the maximum outrank, in the order in which they
/// come.
pub proof fn peaks_are_kept_up_to_the_maximum(peaks: Seq<KickPeak>, maximum: int, count: int)
    requires
        0 <= count < peaks.len(),
    ensures
        ({
            let before = strongest_of(peaks, maximum, count);
            let after = strongest_of(peaks, maximum, count + 1);
            let rank = rank_among(peaks, count, peaks.len() as int);
            &&& strongest_of(peaks, maximum, 0).len() == 0
            &&& rank < maximum ==> after == before.push(peaks[count])
            &&& rank >= maximum ==> after == before
        }),
{
}

/// The kick of a beat is the strongest peak on it that lies on the grid between the first
/// and the last beat with an error within its limit; there is none just where no such peak
/// is.
pub proof fn kicks_are_the_strongest_on_their_beat(
    peaks: Seq<GridPeak>,
    first: i32,
    last: i32,
    beat: i32,
    count: int,
    k: int,
)
    requires
        0 <= k < count <= peaks.len(),
        peaks[k].grid_index == beat,
        first <= beat <= last,
        !scalar::spec_less(peaks[k].limit, peaks[k].error),
        forall|i: int| 0 <= i < count ==> !scalar::spec_is_nan((#[trigger] peaks[i]).strength),
    ensures
        ({
            let kick = kick_at(peaks, first, last, beat, count);
            &&& kick is Some
            &&& kick->0.grid_index == beat
            &&& scalar::spec_at_most(peaks[k].strength, kick->0.strength)
        }),
    decreases count,
{
    if k < count - 1 {
        kicks_are_the_strongest_on_their_beat(peaks, first, last, beat, count - 1, k);
    }
    kicks_are_peaks_of_their_beat(peaks, first, last, beat, count - 1);
}

/// A kick on a beat is one of the peaks there, with its own error and strength.
pub proof fn kicks_are_peaks_of_their_beat(
    peaks: Seq<GridPeak>,
    first: i32,
    last: i32,
    beat: i32,
    count: int,
)
    requires
        0 <= count <= peaks.len(),
    ensures
        kick_at(peaks, first, last, beat, count) matches Some(kick) ==> exists|i: int|
            {
                &&& 0 <= i < count
                &&& (#[trigger] peaks[i]).grid_index == beat
                &&& first <= beat <= last
                &&& !scalar::spec_less(peaks[i].limit, peaks[i].error)
                &&& kick == (MatchedBeat {
                    grid_index: beat,
                    error: peaks[i].error,
                    strength: peaks[i].strength,
                })
            },
    decreases count,
{
    if count > 0 {
        kicks_are_peaks_of_their_beat(peaks, first, last, beat, count - 1);
        let before = kick_at(peaks, first, last, beat, count - 1);
        let after = kick_at(peaks, first, last, beat, count);
        if after is Some {
            if after == before {
                let i = choose|i: int|
                    {
                        &&& 0 <= i < count - 1
                        &&& (#[trigger] peaks[i]).grid_index == beat
                        &&& first <= beat <= last
                        &&& !scalar::spec_less(peaks[i].limit, peaks[i].error)
                        &&& before->0 == (MatchedBeat {
                            grid_index: beat,
                            error: peaks[i].error,
                            strength: peaks[i].strength,
                        })
                    };
                assert(peaks[i].grid_index == beat);
            } else {
                assert(peaks[count - 1].grid_index == beat);
            }
        }
    }
}

/// A measurement needs three blocks with an onset to speak of, three peaks, two anchors, a
/// grid that does not end before it starts, and three matches; what falls short is told by
/// what was there.
pub proof fn measurements_fall_short_by_their_numbers(
    blocks: usize,
    maximum: u32,
    peaks: usize,
    anchors: usize,
    first: i32,
    last: i32,
)
    ensures
        shortfall_of(KickFinding::Onsets { blocks, maximum }) == (if blocks >= 3
            && !scalar::spec_at_most(maximum, 0x3400_0000) {
            None
        } else {
            Some(KickOutcome::NoOnsets)
        }),
        peaks >= 3 ==> shortfall_of(KickFinding::Peaks(peaks)) is None,
        peaks < 3 ==> shortfall_of(KickFinding::Peaks(peaks)) == Some(
            KickOutcome::TooFewPeaks(peaks),
        ),
        anchors >= 2 ==> shortfall_of(KickFinding::Anchors { peaks, anchors }) is None,
        anchors < 2 ==> shortfall_of(KickFinding::Anchors { peaks, anchors }) == Some(
            KickOutcome::NoAnchor(peaks),
        ),
        first <= last ==> shortfall_of(KickFinding::Grid { peaks, first, last }) is None,
        last < first ==> shortfall_of(KickFinding::Grid { peaks, first, last }) == Some(
            KickOutcome::NoGrid(peaks),
        ),
        peaks >= 3 ==> shortfall_of(KickFinding::Matches(peaks)) is None,
        peaks < 3 ==> shortfall_of(KickFinding::Matches(peaks)) == Some(
            KickOutcome::TooFewMatches(peaks),
        ),
{
}

/// No more matches are told than were expected; without expected beats that is the first
/// issue, and an outcome that falls short is told under its own.
pub proof fn outcomes_are_told_by_their_issues(
    matched: usize,
    expected: usize,
    outcome: KickOutcome,
)
    ensures
        matched_count(matched, expected) <= expected,
        matched <= expected ==> matched_count(matched, expected) == matched,
        expected < matched ==> matched_count(matched, expected) == expected,
        outcome is NoOnsets ==> outcome_issue(outcome) == Some("kick_onsets_unavailable"@),
        outcome is TooFewPeaks || outcome is TooFewMatches ==> outcome_issue(outcome) == Some(
            "kick_matches_insufficient"@,
        ),
        outcome is NoAnchor ==> outcome_issue(outcome) == Some("kick_phase_anchor_unavailable"@),
        outcome is NoGrid ==> outcome_issue(outcome) == Some("kick_expected_beats_unavailable"@),
        outcome_issue(outcome) is None <==> outcome is Measured,
        expected > 0 && outcome is Measured <==> issues_of_outcome(expected, outcome).len() == 0,
        expected == 0 ==> issues_of_outcome(expected, outcome)[0]
            == "kick_expected_beats_unavailable"@,
        outcome_issue(outcome) matches Some(issue) ==> issues_of_outcome(expected, outcome).last()
            == issue,
{
}

/// What was not measured has no coverage and the largest of all numbers as its errors.
pub proof fn unmeasured_reports_miss_by_the_most(report: KickPhaseReport)
    ensures
        is_unmeasured(report) <==> report.beat_coverage == 0 && report.p95_ms == 0x7F7F_FFFF
            && report.max_ms == 0x7F7F_FFFF && report.handoff_ms == 0x7F7F_FFFF,
{
}

/// A ratio counts as below a threshold only where it is less, and the quietest value is at
/// or below every other and one of them.
pub proof fn quietest_values_are_below_all(
    values: Seq<u32>,
    threshold: u32,
    count: int,
    index: int,
)
    requires
        0 <= index < count <= values.len(),
    ensures
        below(values, threshold).len() == values.len(),
        below(values, threshold)[index] == scalar::spec_less(values[index], threshold),
        !scalar::spec_is_nan(values[index]) ==> scalar::spec_at_most(
            quietest_of(values, count),
            values[index],
        ),
        quietest_of(values, count) == 0x7F80_0000 || exists|k: int|
            0 <= k < count && #[trigger] values[k] == quietest_of(values, count),
    decreases count,
{
    lemma_quietest_is_a_value(values, count);
    lemma_quietest_is_a_value(values, count - 1);
    if index < count - 1 {
        quietest_values_are_below_all(values, threshold, count - 1, index);
    }
}

proof fn lemma_quietest_is_a_value(values: Seq<u32>, count: int)
    requires
        count <= values.len(),
    ensures
        !scalar::spec_is_nan(quietest_of(values, count)),
        quietest_of(values, count) == 0x7F80_0000 || exists|k: int|
            0 <= k < count && #[trigger] values[k] == quietest_of(values, count),
    decreases count,
{
    if count > 0 {
        lemma_quietest_is_a_value(values, count - 1);
        let before = quietest_of(values, count - 1);
        if quietest_of(values, count) == before && before != 0x7F80_0000 {
            let k = choose|k: int|
                0 <= k < count - 1 && #[trigger] values[k] == quietest_of(values, count - 1);
            assert(values[k] == before);
        } else {
            assert(values[count - 1] == values[count - 1]);
        }
    }
}

/// A matching has the kick of each beat that has one, once, in the order of the grid.
pub proof fn matchings_have_each_kick_once(
    matched: Seq<MatchedBeat>,
    peaks: Seq<GridPeak>,
    first: i32,
    last: i32,
    count: int,
    beat: i32,
)
    requires
        is_matching(matched, peaks, first, last, count),
    ensures
        kick_at(peaks, first, last, beat, count) matches Some(kick) ==> matched.contains(kick),
        forall|i: int, j: int|
            0 <= i < j < matched.len() ==> (#[trigger] matched[i]).grid_index < (
            #[trigger] matched[j]).grid_index,
        forall|i: int|
            0 <= i < matched.len() ==> kick_at(
                peaks,
                first,
                last,
                (#[trigger] matched[i]).grid_index,
                count,
            ) == Some(matched[i]),
{
    if kick_at(peaks, first, last, beat, count) is Some {
        assert(has_beat(matched, beat));
        let i = choose|i: int| 0 <= i < matched.len() && (#[trigger] matched[i]).grid_index == beat;
        assert(kick_at(peaks, first, last, matched[i].grid_index, count) == Some(matched[i]));
    }
}

} // verus!
