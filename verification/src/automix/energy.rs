//! Energy and vocals along an overlap, folded from samples of the mix.

use vstd::prelude::*;

use super::guard::is_level;
use super::incoming::LEAST_ENERGY;
use super::track::TrackAnalysis;
use crate::ordering::{is_totally_ordered, lemma_ordered_is_unique, sort_totally};
use crate::scalar;
use crate::time::{spec_max, spec_min, Duration, MAX_NANOS};

verus! {

/// Below this ratio the mix has collapsed (0.2, roughly 14 dB).
pub const MIN_SAFE_MIX_ENERGY_RATIO: u32 = 0x3E4C_CCCD;

/// Below this ratio of its own reference a source is in a break (0.05).
pub const MIN_STRUCTURAL_BREAK_RATIO: u32 = 0x3D4C_CCCD;

/// How long a collapse must last to block a transition (500 milliseconds).
pub const MIN_BLOCKING_ENERGY_GAP_NANOS: u128 = 500_000_000;

/// How long a break of both sources may last (four seconds).
pub const MAX_STRUCTURAL_BREAK_NANOS: u128 = 4_000_000_000;

/// From this progress on, the incoming track should own the mix (0.75).
pub const HANDOFF_PROGRESS: u32 = 0x3F40_0000;

/// At or below this power there is nothing to own (a millionth of a millionth).
pub const LEAST_POWER: u32 = 0x2B8C_BCCC;

/// How far around an overlap its reference is measured (two seconds).
pub const REFERENCE_RADIUS_NANOS: u128 = 2_000_000_000;

/// How far around a position its level is measured (250 milliseconds).
pub const LEVEL_RADIUS_NANOS: u128 = 250_000_000;

/// One sample of the mix. All numbers are bits.
#[derive(Clone, Copy, Debug, PartialEq, Eq, Structural)]
pub struct EnergySample {
    /// How far the overlap has come.
    pub progress: u32,
    /// Level of the mix against the reference.
    pub combined: u32,
    /// Distance of the level from that of the sample before.
    pub step: u32,
    /// Level of the outgoing source against its own reference.
    pub outgoing_source_ratio: u32,
    /// Level of the incoming source against its own reference.
    pub incoming_source_ratio: u32,
    /// Power of the mix.
    pub total_power: u32,
    /// Share of the incoming track in the power, between zero and one.
    pub incoming_share: u32,
}

/// What the energy of an overlap amounts to.
#[derive(Clone, Copy, Debug, PartialEq, Eq, Structural)]
pub struct TransitionEnergyReport {
    pub samples: usize,
    pub min_ratio: Option<u32>,
    pub max_ratio: Option<u32>,
    pub max_step: Option<u32>,
    pub longest_blocking_gap: Duration,
    pub handoff_ratio: Option<u32>,
    pub handoff_incoming_share: Option<u32>,
}

/// Whether a level of the mix blocks a transition: a finite number below the
/// safe ratio.
pub open spec fn dip_is_blocking(ratio: u32) -> bool {
    scalar::spec_is_finite(ratio) && scalar::spec_less(ratio, MIN_SAFE_MIX_ENERGY_RATIO)
}

/// Whether a level of the mix blocks a transition: a finite number strictly below
/// the safe ratio.
pub fn mix_energy_dip_is_blocking(min_ratio: u32) -> (r: bool)
    ensures
        r == dip_is_blocking(min_ratio),
{
    scalar::is_finite(min_ratio) && scalar::less(min_ratio, MIN_SAFE_MIX_ENERGY_RATIO)
}

impl EnergySample {
    /// Whether both sources are in a break at once.
    pub open spec fn both_in_break(self) -> bool {
        &&& scalar::spec_is_finite(self.outgoing_source_ratio)
        &&& scalar::spec_is_finite(self.incoming_source_ratio)
        &&& scalar::spec_less(self.outgoing_source_ratio, MIN_STRUCTURAL_BREAK_RATIO)
        &&& scalar::spec_less(self.incoming_source_ratio, MIN_STRUCTURAL_BREAK_RATIO)
    }

    /// Whether the share of the incoming track counts.
    pub open spec fn share_counts(self) -> bool {
        scalar::spec_at_most(HANDOFF_PROGRESS, self.progress) && scalar::spec_less(
            LEAST_POWER,
            self.total_power,
        )
    }

    fn is_in_break(&self) -> (r: bool)
        ensures
            r == self.both_in_break(),
    {
        scalar::is_finite(self.outgoing_source_ratio) && scalar::is_finite(
            self.incoming_source_ratio,
        ) && scalar::less(self.outgoing_source_ratio, MIN_STRUCTURAL_BREAK_RATIO) && scalar::less(
            self.incoming_source_ratio,
            MIN_STRUCTURAL_BREAK_RATIO,
        )
    }
}

/// How long the mix has been collapsed, how long of that both sources were in a
/// break, and the longest collapse that counts.
pub struct Gaps {
    pub blocking: int,
    pub structural: int,
    pub longest: int,
}

/// Whether a break of both sources has lasted long enough to be structural, and
/// not too long.
pub open spec fn is_structural(length: int) -> bool {
    MIN_BLOCKING_ENERGY_GAP_NANOS <= length <= MAX_STRUCTURAL_BREAK_NANOS
}

/// A run that goes on for one more sample, no longer than the overlap.
pub open spec fn longer_run(run: int, span: int, limit: int) -> int {
    spec_min(spec_min(run + span, MAX_NANOS as int), limit)
}

/// The gaps after the first `count` samples. A sample that is not collapsed ends
/// all runs. A run of simultaneous breaks that proves structural is discarded;
/// any other collapse counts.
pub open spec fn gaps_after(samples: Seq<EnergySample>, span: int, limit: int, count: int) -> Gaps
    decreases count,
{
    if count <= 0 {
        Gaps { blocking: 0, structural: 0, longest: 0 }
    } else {
        let before = gaps_after(samples, span, limit, count - 1);
        let sample = samples[count - 1];
        if !dip_is_blocking(sample.combined) {
            Gaps { blocking: 0, structural: 0, longest: before.longest }
        } else {
            let blocking = longer_run(before.blocking, span, limit);
            let structural = if sample.both_in_break() {
                longer_run(before.structural, span, limit)
            } else {
                0
            };
            if is_structural(structural) {
                Gaps { blocking: 0, structural, longest: before.longest }
            } else {
                Gaps { blocking, structural, longest: spec_max(before.longest, blocking) }
            }
        }
    }
}

/// Whether a sample counts for the lowest level: it is not inside a simultaneous
/// break, or it is collapsed in a break that has lasted too long.
pub open spec fn counts_for_minimum(
    samples: Seq<EnergySample>,
    span: int,
    limit: int,
    index: int,
) -> bool {
    !samples[index].both_in_break() || dip_is_blocking(samples[index].combined) && gaps_after(
        samples,
        span,
        limit,
        index + 1,
    ).structural > MAX_STRUCTURAL_BREAK_NANOS
}

/// Whether any of the first `count` samples counts for the lowest level.
pub open spec fn any_counts(samples: Seq<EnergySample>, span: int, limit: int, count: int) -> bool {
    exists|index: int|
        0 <= index < count && #[trigger] counts_for_minimum(samples, span, limit, index)
}

/// The lowest level of those among the first `count` samples that count.
pub open spec fn lowest_level(
    samples: Seq<EnergySample>,
    span: int,
    limit: int,
    count: int,
) -> u32
    decreases count,
{
    if count <= 0 {
        scalar::INFINITY_BITS
    } else if counts_for_minimum(samples, span, limit, count - 1) {
        scalar::spec_lesser(
            lowest_level(samples, span, limit, count - 1),
            samples[count - 1].combined,
        )
    } else {
        lowest_level(samples, span, limit, count - 1)
    }
}

/// The highest level of the first `count` samples.
pub open spec fn highest_level(samples: Seq<EnergySample>, count: int) -> u32
    decreases count,
{
    if count <= 0 {
        scalar::NEGATIVE_INFINITY_BITS
    } else {
        scalar::spec_greater(highest_level(samples, count - 1), samples[count - 1].combined)
    }
}

/// The largest step between neighbours among the first `count` samples.
pub open spec fn largest_step(samples: Seq<EnergySample>, count: int) -> u32
    decreases count,
{
    if count <= 1 {
        0
    } else {
        scalar::spec_greater(largest_step(samples, count - 1), samples[count - 1].step)
    }
}

/// Whether the share of the incoming track counts in any of the first `count`
/// samples.
pub open spec fn any_share(samples: Seq<EnergySample>, count: int) -> bool {
    exists|index: int| 0 <= index < count && (#[trigger] samples[index]).share_counts()
}

/// The least share of the incoming track in those of the first `count` samples in
/// which it counts.
pub open spec fn least_share(samples: Seq<EnergySample>, count: int) -> u32
    decreases count,
{
    if count <= 0 {
        scalar::INFINITY_BITS
    } else if samples[count - 1].share_counts() {
        scalar::spec_lesser(least_share(samples, count - 1), samples[count - 1].incoming_share)
    } else {
        least_share(samples, count - 1)
    }
}

/// What the energy samples of an overlap amount to. `span` is the time between
/// two samples and `duration` that of the overlap. A break of both sources at
/// once is scored only: it neither blocks nor sets the lowest level unless it
/// lasts too long, and an overlap that is nothing but such a break has the
/// neutral level one.
pub fn transition_energy_report(
    samples: &Vec<EnergySample>,
    span: Duration,
    duration: Duration,
) -> (r: TransitionEnergyReport)
    ensures
        r.samples == samples@.len(),
        r.min_ratio == if any_counts(samples@, span@, duration@, samples@.len() as int) {
            Some(lowest_level(samples@, span@, duration@, samples@.len() as int))
        } else if samples@.len() > 0 {
            Some(scalar::ONE_BITS)
        } else {
            None
        },
        r.max_ratio == if samples@.len() > 0 {
            Some(highest_level(samples@, samples@.len() as int))
        } else {
            None
        },
        r.max_step == if samples@.len() > 1 {
            Some(largest_step(samples@, samples@.len() as int))
        } else {
            None
        },
        r.longest_blocking_gap@ == gaps_after(
            samples@,
            span@,
            duration@,
            samples@.len() as int,
        ).longest,
        r.handoff_ratio == if samples@.len() > 0 {
            Some(samples@.last().combined)
        } else {
            None
        },
        r.handoff_incoming_share == if any_share(samples@, samples@.len() as int) {
            Some(least_share(samples@, samples@.len() as int))
        } else {
            None
        },
{
    let zero = Duration::zero();
    let least_break = Duration { nanos: MIN_BLOCKING_ENERGY_GAP_NANOS };
    let longest_break = Duration { nanos: MAX_STRUCTURAL_BREAK_NANOS };
    let mut counted: bool = false;
    let mut shared: bool = false;
    let mut min_ratio: u32 = scalar::INFINITY_BITS;
    let mut max_ratio: u32 = scalar::NEGATIVE_INFINITY_BITS;
    let mut max_step: u32 = 0;
    let mut share: u32 = scalar::INFINITY_BITS;
    let mut blocking = zero;
    let mut structural = zero;
    let mut longest = zero;
    let mut i: usize = 0;
    while i < samples.len()
        invariant
            i <= samples@.len(),
            zero@ == 0,
            least_break@ == MIN_BLOCKING_ENERGY_GAP_NANOS,
            longest_break@ == MAX_STRUCTURAL_BREAK_NANOS,
            counted == any_counts(samples@, span@, duration@, i as int),
            shared == any_share(samples@, i as int),
            min_ratio == lowest_level(samples@, span@, duration@, i as int),
            max_ratio == highest_level(samples@, i as int),
            max_step == largest_step(samples@, i as int),
            share == least_share(samples@, i as int),
            gaps_after(samples@, span@, duration@, i as int) == (Gaps {
                blocking: blocking@,
                structural: structural@,
                longest: longest@,
            }),
        decreases samples@.len() - i,
    {
        let sample = samples[i];
        let in_break = sample.is_in_break();
        let mut counts: bool = !in_break;
        if mix_energy_dip_is_blocking(sample.combined) {
            let run = blocking.saturating_add(span).min(duration);
            structural = if in_break {
                structural.saturating_add(span).min(duration)
            } else {
                zero
            };
            if in_break && longest_break.shorter(structural) {
                counts = true;
            }
            if least_break.within(structural) && structural.within(longest_break) {
                blocking = zero;
            } else {
                blocking = run;
                longest = longest.max(run);
            }
        } else {
            blocking = zero;
            structural = zero;
        }
        assert(counts == counts_for_minimum(samples@, span@, duration@, i as int));
        if counts {
            min_ratio = scalar::lesser(min_ratio, sample.combined);
            counted = true;
        }
        max_ratio = scalar::greater(max_ratio, sample.combined);
        if i > 0 {
            max_step = scalar::greater(max_step, sample.step);
        }
        if scalar::at_most(HANDOFF_PROGRESS, sample.progress) && scalar::less(
            LEAST_POWER,
            sample.total_power,
        ) {
            share = scalar::lesser(share, sample.incoming_share);
            shared = true;
        }
        proof {
            assert(shared == any_share(samples@, i + 1)) by {
                if samples@[i as int].share_counts() {
                    assert(samples@[i as int].share_counts());
                }
            }
        }
        i += 1;
    }
    let some = samples.len() > 0;
    TransitionEnergyReport {
        samples: samples.len(),
        min_ratio: if counted {
            Some(min_ratio)
        } else if some {
            Some(scalar::ONE_BITS)
        } else {
            None
        },
        max_ratio: if some {
            Some(max_ratio)
        } else {
            None
        },
        max_step: if samples.len() > 1 {
            Some(max_step)
        } else {
            None
        },
        longest_blocking_gap: longest,
        handoff_ratio: if some {
            Some(samples[samples.len() - 1].combined)
        } else {
            None
        },
        handoff_incoming_share: if shared {
            Some(share)
        } else {
            None
        },
    }
}

/// The report of an overlap without a usable reference or without samples.
pub fn no_energy_report() -> (r: TransitionEnergyReport)
    ensures
        r.samples == 0,
        r.min_ratio is None && r.max_ratio is None && r.max_step is None,
        r.longest_blocking_gap@ == 0,
        r.handoff_ratio is None && r.handoff_incoming_share is None,
{
    TransitionEnergyReport {
        samples: 0,
        min_ratio: None,
        max_ratio: None,
        max_step: None,
        longest_blocking_gap: Duration::zero(),
        handoff_ratio: None,
        handoff_incoming_share: None,
    }
}

/// No collapse is longer than the overlap.
pub proof fn gaps_fit_the_overlap(samples: Seq<EnergySample>, span: int, limit: int, count: int)
    requires
        0 <= span,
        0 <= limit,
    ensures
        0 <= gaps_after(samples, span, limit, count).longest <= limit,
        0 <= gaps_after(samples, span, limit, count).blocking <= limit,
        0 <= gaps_after(samples, span, limit, count).structural <= limit,
    decreases count,
{
    if count > 0 {
        gaps_fit_the_overlap(samples, span, limit, count - 1);
    }
}

/// A simultaneous break of both sources is scored only: where the mix collapses
/// in such a break alone and the overlap is no longer than a break may last, no
/// collapse is long enough to block.
pub proof fn structural_breaks_do_not_block(
    samples: Seq<EnergySample>,
    span: int,
    limit: int,
    count: int,
)
    requires
        0 <= span,
        0 <= limit <= MAX_STRUCTURAL_BREAK_NANOS,
        0 <= count <= samples.len(),
        forall|index: int|
            0 <= index < count && dip_is_blocking((#[trigger] samples[index]).combined)
                ==> samples[index].both_in_break(),
    ensures
        gaps_after(samples, span, limit, count).longest < MIN_BLOCKING_ENERGY_GAP_NANOS,
{
    lemma_breaks_do_not_block(samples, span, limit, count);
}

proof fn lemma_breaks_do_not_block(
    samples: Seq<EnergySample>,
    span: int,
    limit: int,
    count: int,
)
    requires
        0 <= span,
        0 <= limit <= MAX_STRUCTURAL_BREAK_NANOS,
        0 <= count <= samples.len(),
        forall|index: int|
            0 <= index < count && dip_is_blocking((#[trigger] samples[index]).combined)
                ==> samples[index].both_in_break(),
    ensures
        ({
            let gaps = gaps_after(samples, span, limit, count);
            &&& gaps.longest < MIN_BLOCKING_ENERGY_GAP_NANOS
            &&& 0 <= gaps.blocking <= gaps.structural <= limit
            &&& gaps.structural < MIN_BLOCKING_ENERGY_GAP_NANOS ==> gaps.blocking
                == gaps.structural
        }),
    decreases count,
{
    if count > 0 {
        lemma_breaks_do_not_block(samples, span, limit, count - 1);
        let sample = samples[count - 1];
        assert(dip_is_blocking(sample.combined) ==> sample.both_in_break());
    }
}

/// A single sample below the floor does not block: where no two samples in a row
/// are collapsed and samples stand less than the blocking gap apart, no collapse
/// is long enough.
pub proof fn single_drops_do_not_block(
    samples: Seq<EnergySample>,
    span: int,
    limit: int,
    count: int,
)
    requires
        0 <= span < MIN_BLOCKING_ENERGY_GAP_NANOS,
        0 <= limit,
        0 <= count <= samples.len(),
        forall|index: int|
            1 <= index < count && dip_is_blocking((#[trigger] samples[index]).combined)
                ==> !dip_is_blocking(samples[index - 1].combined),
    ensures
        gaps_after(samples, span, limit, count).longest < MIN_BLOCKING_ENERGY_GAP_NANOS,
    decreases count,
{
    if count > 0 {
        single_drops_do_not_block(samples, span, limit, count - 1);
        if count > 1 {
            let sample = samples[count - 1];
            let earlier = samples[count - 2];
            assert(dip_is_blocking(sample.combined) ==> !dip_is_blocking(earlier.combined));
            if dip_is_blocking(sample.combined) {
                assert(gaps_after(samples, span, limit, count - 1).blocking == 0);
            }
        } else {
            assert(gaps_after(samples, span, limit, 0).blocking == 0);
        }
    }
}

/// Two vocals that sound at once, as heard through the mix. The numbers are bits.
#[derive(Clone, Copy, Debug, PartialEq, Eq, Structural)]
pub struct VocalSample {
    /// Positions of the sample on both tracks.
    pub outgoing_position: Duration,
    pub incoming_position: Duration,
    /// Weighted vocal risk of both tracks.
    pub outgoing_risk: u32,
    pub incoming_risk: u32,
}

/// The audible part of a track.
#[derive(Clone, Copy, Debug, PartialEq, Eq, Structural)]
pub struct Audible {
    pub start: Duration,
    pub end: Duration,
}

impl Audible {
    /// Whether a position lies in the audible part, its ends included.
    pub open spec fn holds(self, position: Duration) -> bool {
        self.start@ <= position@ <= self.end@
    }

    fn contains(self, position: Duration) -> (r: bool)
        ensures
            r == self.holds(position),
    {
        self.start.within(position) && position.within(self.end)
    }
}

/// How much two vocals collide along an overlap.
#[derive(Clone, Copy, Debug, PartialEq, Eq, Structural)]
pub struct DualVocalOverlapReport {
    pub samples: usize,
    pub max_risk: Option<u32>,
}

impl VocalSample {
    /// Whether both tracks are audible at the sample.
    pub open spec fn audible(self, outgoing: Audible, incoming: Audible) -> bool {
        outgoing.holds(self.outgoing_position) && incoming.holds(self.incoming_position)
    }

    /// The collision of the sample: what the quieter of both vocals contributes.
    pub open spec fn collision(self) -> u32 {
        scalar::spec_lesser(self.outgoing_risk, self.incoming_risk)
    }
}

/// How many of the first `count` samples are audible on both tracks.
pub open spec fn audible_samples(
    samples: Seq<VocalSample>,
    outgoing: Audible,
    incoming: Audible,
    count: int,
) -> int
    decreases count,
{
    if count <= 0 {
        0
    } else {
        audible_samples(samples, outgoing, incoming, count - 1) + if samples[count - 1].audible(
            outgoing,
            incoming,
        ) {
            1int
        } else {
            0int
        }
    }
}

/// The worst collision of the audible samples among the first `count`.
pub open spec fn worst_collision(
    samples: Seq<VocalSample>,
    outgoing: Audible,
    incoming: Audible,
    count: int,
) -> Option<u32>
    decreases count,
{
    if count <= 0 {
        None
    } else {
        let before = worst_collision(samples, outgoing, incoming, count - 1);
        let sample = samples[count - 1];
        if !sample.audible(outgoing, incoming) {
            before
        } else if before is Some {
            Some(scalar::spec_greater(before->0, sample.collision()))
        } else {
            Some(sample.collision())
        }
    }
}

/// How much two vocals collide along an overlap: the worst collision of the
/// samples at which both tracks are audible. Where the vocals of a track are not
/// known, nothing is checked.
pub fn dual_vocal_overlap_report(
    samples: &Vec<VocalSample>,
    outgoing: Audible,
    incoming: Audible,
    vocals_known: bool,
) -> (r: DualVocalOverlapReport)
    ensures
        !vocals_known ==> r.samples == 0 && r.max_risk is None,
        vocals_known ==> r.samples == audible_samples(
            samples@,
            outgoing,
            incoming,
            samples@.len() as int,
        ) && r.max_risk == worst_collision(samples@, outgoing, incoming, samples@.len() as int),
{
    let mut checked: usize = 0;
    let mut worst: Option<u32> = None;
    if vocals_known {
        let mut i: usize = 0;
        while i < samples.len()
            invariant
                i <= samples@.len(),
                checked <= i,
                checked == audible_samples(samples@, outgoing, incoming, i as int),
                worst == worst_collision(samples@, outgoing, incoming, i as int),
            decreases samples@.len() - i,
        {
            let sample = samples[i];
            if outgoing.contains(sample.outgoing_position) && incoming.contains(
                sample.incoming_position,
            ) {
                let risk = scalar::lesser(sample.outgoing_risk, sample.incoming_risk);
                worst = match worst {
                    Some(current) => Some(scalar::greater(current, risk)),
                    None => Some(risk),
                };
                checked += 1;
            }
            i += 1;
        }
    }
    DualVocalOverlapReport { samples: checked, max_risk: worst }
}

/// The upper quartile of energies: the value three quarters up the ordered list.
/// `None` when there are none.
pub fn upper_quartile(energies: &Vec<u32>) -> (r: Option<u32>)
    ensures
        r is Some <==> energies@.len() > 0,
        forall|ordered: Seq<u32>| #[trigger]
            is_totally_ordered(ordered) && ordered.to_multiset() == energies@.to_multiset()
                && energies@.len() > 0 ==> r == Some(ordered[(energies@.len() - 1) * 3 / 4]),
{
    if energies.len() == 0 {
        return None;
    }
    let ordered = sort_totally(energies);
    proof {
        ordered@.to_multiset_ensures();
        energies@.to_multiset_ensures();
        assert forall|other: Seq<u32>| #[trigger]
            is_totally_ordered(other) && other.to_multiset() == energies@.to_multiset() implies other
            == ordered@ by {
            lemma_ordered_is_unique(other, ordered@);
        }
    }
    let last: usize = ordered.len() - 1;
    let at: usize = last - (last / 4 + if last % 4 > 0 {
        1
    } else {
        0
    });
    assert(at == last * 3 / 4);
    Some(ordered[at])
}

/// The part of a track between two positions, widened by a radius on both sides,
/// that is audible.
pub open spec fn widened(track: TrackAnalysis, from: int, to: int, radius: int) -> (int, int) {
    (
        spec_max(spec_max(from - radius, 0), track.audible_start@),
        spec_min(spec_min(to + radius, MAX_NANOS as int), track.audible_end@),
    )
}

fn audible_around(analysis: &TrackAnalysis, from: Duration, to: Duration, radius: Duration) -> (r:
    Option<(Duration, Duration)>)
    ensures
        ({
            let region = widened(*analysis, from@, to@, radius@);
            &&& r is Some <==> region.0 < region.1
            &&& r matches Some(found) ==> (found.0@, found.1@) == region
        }),
{
    let start = from.saturating_sub(radius).max(analysis.audible_start);
    let end = to.saturating_add(radius).min(analysis.audible_end);
    if end.within(start) {
        None
    } else {
        Some((start, end))
    }
}

/// The region in which the reference level of a track around an overlap is
/// measured: two seconds more on both sides, as far as the track is audible.
/// `None` without an energy profile or without anything to measure.
pub fn reference_region(
    analysis: &TrackAnalysis,
    overlap_start: Duration,
    overlap_end: Duration,
) -> (r: Option<(Duration, Duration)>)
    ensures
        ({
            let region = widened(
                *analysis,
                overlap_start@,
                overlap_end@,
                REFERENCE_RADIUS_NANOS as int,
            );
            &&& r is Some <==> analysis.energy_profile_rate > 0 && analysis.energy_profile@.len()
                > 0 && overlap_start@ < overlap_end@ && region.0 < region.1
            &&& r matches Some(found) ==> (found.0@, found.1@) == region
        }),
{
    if !analysis.has_energy_profile() || overlap_end.within(overlap_start) {
        return None;
    }
    audible_around(
        analysis,
        overlap_start,
        overlap_end,
        Duration { nanos: REFERENCE_RADIUS_NANOS },
    )
}

/// The window around a position over which its level is averaged. `None` where the
/// track is not audible around it.
pub fn level_window(analysis: &TrackAnalysis, position: Duration) -> (r: Option<
    (Duration, Duration),
>)
    ensures
        ({
            let region = widened(*analysis, position@, position@, LEVEL_RADIUS_NANOS as int);
            &&& r is Some <==> region.0 < region.1
            &&& r matches Some(found) ==> (found.0@, found.1@) == region
        }),
{
    audible_around(analysis, position, position, Duration { nanos: LEVEL_RADIUS_NANOS })
}

/// The greatest of the first `n` levels, and at least zero.
pub open spec fn greatest_level(levels: Seq<u32>, n: int) -> u32
    decreases n,
{
    if n <= 0 {
        0
    } else if is_level(levels[n - 1]) {
        scalar::spec_greater(greatest_level(levels, n - 1), levels[n - 1])
    } else {
        greatest_level(levels, n - 1)
    }
}

/// The reference level of a track: the upper quartile of its energies, or the
/// greatest level at the edges of the overlap. `None` without energies, and where
/// the level is no finite number or inaudible.
pub fn energy_reference(energies: &Vec<u32>, edges: &Vec<u32>) -> (r: Option<u32>)
    ensures
        energies@.len() == 0 ==> r is None,
        forall|ordered: Seq<u32>| #[trigger]
            is_totally_ordered(ordered) && ordered.to_multiset() == energies@.to_multiset()
                && energies@.len() > 0 ==> ({
                let level = scalar::spec_greater(
                    ordered[(energies@.len() - 1) * 3 / 4],
                    greatest_level(edges@, edges@.len() as int),
                );
                r == if scalar::spec_is_finite(level) && scalar::spec_less(LEAST_ENERGY, level) {
                    Some(level)
                } else {
                    None
                }
            }),
{
    let quartile: u32 = match upper_quartile(energies) {
        Some(quartile) => quartile,
        None => {
            return None;
        },
    };
    let mut edge: u32 = 0;
    let mut i: usize = 0;
    while i < edges.len()
        invariant
            i <= edges@.len(),
            edge == greatest_level(edges@, i as int),
        decreases edges@.len() - i,
    {
        if scalar::is_finite(edges[i]) && scalar::at_most(0, edges[i]) {
            edge = scalar::greater(edge, edges[i]);
        }
        i += 1;
    }
    let level: u32 = scalar::greater(quartile, edge);
    if scalar::is_finite(level) && scalar::less(LEAST_ENERGY, level) {
        Some(level)
    } else {
        None
    }
}

/// Whether the levels of two tracks can be measured against: both are finite and
/// not negative, and one of them is audible.
pub fn references_are_usable(outgoing: u32, incoming: u32) -> (r: bool)
    ensures
        r == (is_level(outgoing) && is_level(incoming) && scalar::spec_less(
            LEAST_ENERGY,
            scalar::spec_greater(outgoing, incoming),
        )),
{
    scalar::is_finite(outgoing) && scalar::is_finite(incoming) && scalar::at_most(0, outgoing)
        && scalar::at_most(0, incoming) && scalar::less(
        LEAST_ENERGY,
        scalar::greater(outgoing, incoming),
    )
}

/// A level below 0.2 of the reference is a dip, and a source below 0.05 of it on both
/// sides a break.
pub proof fn dips_and_breaks_have_their_levels(sample: EnergySample)
    ensures
        dip_is_blocking(sample.combined) <==> scalar::spec_is_finite(sample.combined)
            && scalar::spec_less(sample.combined, 0x3E4C_CCCD),
        sample.both_in_break() ==> scalar::spec_less(sample.outgoing_source_ratio, 0x3D4C_CCCD)
            && scalar::spec_less(sample.incoming_source_ratio, 0x3D4C_CCCD),
        scalar::spec_is_finite(sample.outgoing_source_ratio) && scalar::spec_less(
            sample.outgoing_source_ratio,
            0x3D4C_CCCD,
        ) && scalar::spec_is_finite(sample.incoming_source_ratio) && scalar::spec_less(
            sample.incoming_source_ratio,
            0x3D4C_CCCD,
        ) ==> sample.both_in_break(),
        !scalar::spec_is_finite(sample.outgoing_source_ratio) || !scalar::spec_is_finite(
            sample.incoming_source_ratio,
        ) ==> !sample.both_in_break(),
{
}

/// A share of the mix counts from three quarters of the overlap on, where there is power
/// to speak of.
pub proof fn shares_count_near_the_handoff(sample: EnergySample)
    ensures
        sample.share_counts() ==> scalar::spec_at_most(0x3F40_0000, sample.progress),
        sample.share_counts() ==> scalar::spec_less(0x2B8C_BCCC, sample.total_power),
        scalar::spec_at_most(0x3F40_0000, sample.progress) && scalar::spec_less(
            0x2B8C_BCCC,
            sample.total_power,
        ) ==> sample.share_counts(),
{
}

/// A break of half a second to four seconds is structural; a run of samples lengthens by
/// the span of one and never past the overlap.
pub proof fn structural_breaks_last_half_a_second_to_four(run: int, span: int, limit: int)
    requires
        0 <= run <= limit <= MAX_NANOS,
        0 <= span,
    ensures
        is_structural(run) <==> 500_000_000 <= run <= 4_000_000_000,
        run + span <= limit ==> longer_run(run, span, limit) == run + span,
        run + span > limit ==> longer_run(run, span, limit) == limit,
{
}

/// A loud sample ends the runs; a quiet one lengthens the run of the dip, and that of the
/// break where both tracks are in one. A dip that is a structural break starts anew and
/// counts for nothing, any other counts with its whole length.
pub proof fn gaps_grow_sample_by_sample(
    samples: Seq<EnergySample>,
    span: int,
    limit: int,
    count: int,
)
    requires
        0 <= count < samples.len(),
        0 <= span,
        0 <= limit <= MAX_NANOS,
    ensures
        ({
            let before = gaps_after(samples, span, limit, count);
            let after = gaps_after(samples, span, limit, count + 1);
            let sample = samples[count];
            let quiet = scalar::spec_is_finite(sample.combined) && scalar::spec_less(
                sample.combined,
                0x3E4C_CCCD,
            );
            &&& gaps_after(samples, span, limit, 0).longest == 0
            &&& after.longest >= before.longest
            &&& !quiet ==> after.blocking == 0 && after.structural == 0 && after.longest
                == before.longest
            &&& quiet && !sample.both_in_break() ==> {
                &&& after.structural == 0
                &&& after.blocking == longer_run(before.blocking, span, limit)
                &&& after.longest == spec_max(before.longest, after.blocking)
            }
            &&& quiet && sample.both_in_break() ==> {
                &&& after.structural == longer_run(before.structural, span, limit)
                &&& 500_000_000 <= after.structural <= 4_000_000_000 ==> after.blocking == 0
                    && after.longest == before.longest
                &&& !(500_000_000 <= after.structural <= 4_000_000_000) ==> after.blocking
                    == longer_run(before.blocking, span, limit) && after.longest == spec_max(
                    before.longest,
                    after.blocking,
                )
            }
        }),
{
}

/// A sample counts for the lowest level unless both tracks are in a break there; even then
/// it does in a dip whose break has lasted over four seconds.
pub proof fn samples_in_breaks_do_not_count(
    samples: Seq<EnergySample>,
    span: int,
    limit: int,
    index: int,
)
    requires
        0 <= index < samples.len(),
    ensures
        ({
            let counts = counts_for_minimum(samples, span, limit, index);
            let broken = gaps_after(samples, span, limit, index + 1).structural;
            &&& !samples[index].both_in_break() ==> counts
            &&& samples[index].both_in_break() && broken <= 4_000_000_000 ==> !counts
            &&& samples[index].both_in_break() && dip_is_blocking(samples[index].combined)
                && broken > 4_000_000_000 ==> counts
            &&& samples[index].both_in_break() && !dip_is_blocking(samples[index].combined)
                ==> !counts
        }),
{
}

/// What is heard of a track goes from its start to its end, both included; vocals are
/// compared only where both tracks are heard, and collide by the lesser of their risks.
pub proof fn vocals_collide_where_both_are_heard(
    sample: VocalSample,
    outgoing: Audible,
    incoming: Audible,
)
    ensures
        sample.audible(outgoing, incoming) <==> {
            &&& outgoing.start@ <= sample.outgoing_position@ <= outgoing.end@
            &&& incoming.start@ <= sample.incoming_position@ <= incoming.end@
        },
        sample.collision() == sample.outgoing_risk || sample.collision() == sample.incoming_risk,
{
}

/// A span is widened by the radius on both sides, within what is heard of the track.
pub proof fn spans_are_widened_within_the_audible(
    track: TrackAnalysis,
    from: Duration,
    to: Duration,
    radius: Duration,
)
    requires
        to@ + radius@ <= MAX_NANOS,
    ensures
        ({
            let (start, end) = widened(track, from@, to@, radius@);
            &&& track.audible_start@ <= start
            &&& from@ - radius@ <= start
            &&& start == track.audible_start@ || start == from@ - radius@ || start == 0
            &&& end <= track.audible_end@
            &&& end <= to@ + radius@
            &&& end == track.audible_end@ || end == to@ + radius@
        }),
{
}

/// The lowest level lies at or below that of every sample that counts, the highest at or
/// above that of every sample, and the largest step at or above every one after the first.
pub proof fn extremes_bound_the_samples(
    samples: Seq<EnergySample>,
    span: int,
    limit: int,
    count: int,
    index: int,
)
    requires
        0 <= index < count <= samples.len(),
    ensures
        !scalar::spec_is_nan(samples[index].combined) ==> {
            &&& counts_for_minimum(samples, span, limit, index) ==> scalar::spec_at_most(
                lowest_level(samples, span, limit, count),
                samples[index].combined,
            )
            &&& scalar::spec_at_most(samples[index].combined, highest_level(samples, count))
        },
        index > 0 && !scalar::spec_is_nan(samples[index].step) ==> scalar::spec_at_most(
            samples[index].step,
            largest_step(samples, count),
        ),
        samples[index].share_counts() && !scalar::spec_is_nan(samples[index].incoming_share)
            ==> scalar::spec_at_most(least_share(samples, count), samples[index].incoming_share),
    decreases count,
{
    if index < count - 1 {
        extremes_bound_the_samples(samples, span, limit, count - 1, index);
    }
    lemma_extremes_are_numbers(samples, span, limit, count - 1);
}

proof fn lemma_extremes_are_numbers(
    samples: Seq<EnergySample>,
    span: int,
    limit: int,
    count: int,
)
    ensures
        !scalar::spec_is_nan(lowest_level(samples, span, limit, count)),
        !scalar::spec_is_nan(highest_level(samples, count)),
        !scalar::spec_is_nan(largest_step(samples, count)),
        !scalar::spec_is_nan(least_share(samples, count)),
    decreases count,
{
    if count > 0 {
        lemma_extremes_are_numbers(samples, span, limit, count - 1);
    }
}

/// The extremes are reached: each is the value of a sample that counts, or what it is
/// before any sample has been seen.
pub proof fn extremes_are_reached(
    samples: Seq<EnergySample>,
    span: int,
    limit: int,
    count: int,
)
    requires
        0 <= count <= samples.len(),
    ensures
        lowest_level(samples, span, limit, count) == 0x7F80_0000 || exists|k: int|
            0 <= k < count && counts_for_minimum(samples, span, limit, k) && (
            #[trigger] samples[k]).combined == lowest_level(samples, span, limit, count),
        highest_level(samples, count) == 0xFF80_0000 || exists|k: int|
            0 <= k < count && (#[trigger] samples[k]).combined == highest_level(samples, count),
        largest_step(samples, count) == 0 || exists|k: int|
            0 < k < count && (#[trigger] samples[k]).step == largest_step(samples, count),
        least_share(samples, count) == 0x7F80_0000 || exists|k: int|
            0 <= k < count && (#[trigger] samples[k]).share_counts() && samples[k].incoming_share
                == least_share(samples, count),
    decreases count,
{
    if count > 0 {
        extremes_are_reached(samples, span, limit, count - 1);
        let here = samples[count - 1];
        let low = lowest_level(samples, span, limit, count - 1);
        if lowest_level(samples, span, limit, count) == low && low != 0x7F80_0000 {
            let k = choose|k: int|
                0 <= k < count - 1 && counts_for_minimum(samples, span, limit, k) && (
                #[trigger] samples[k]).combined == lowest_level(samples, span, limit, count - 1);
            assert(samples[k].combined == low);
        }
        let high = highest_level(samples, count - 1);
        if highest_level(samples, count) == high && high != 0xFF80_0000 {
            let k = choose|k: int|
                0 <= k < count - 1 && (#[trigger] samples[k]).combined == highest_level(
                    samples,
                    count - 1,
                );
            assert(samples[k].combined == high);
        }
        let step = largest_step(samples, count - 1);
        if largest_step(samples, count) == step && step != 0 {
            let k = choose|k: int|
                0 < k < count - 1 && (#[trigger] samples[k]).step == largest_step(
                    samples,
                    count - 1,
                );
            assert(samples[k].step == step);
        }
        let share = least_share(samples, count - 1);
        if least_share(samples, count) == share && share != 0x7F80_0000 {
            let k = choose|k: int|
                0 <= k < count - 1 && (#[trigger] samples[k]).share_counts()
                    && samples[k].incoming_share == least_share(samples, count - 1);
            assert(samples[k].share_counts());
        }
        assert(here.combined == samples[count - 1].combined);
    }
}

/// The worst collision is there just where both tracks are heard in some sample, and each
/// such sample is counted once.
pub proof fn audible_samples_are_counted(
    samples: Seq<VocalSample>,
    outgoing: Audible,
    incoming: Audible,
    count: int,
)
    requires
        0 <= count < samples.len(),
    ensures
        ({
            let before = audible_samples(samples, outgoing, incoming, count);
            let after = audible_samples(samples, outgoing, incoming, count + 1);
            let heard = outgoing.start@ <= samples[count].outgoing_position@ <= outgoing.end@
                && incoming.start@ <= samples[count].incoming_position@ <= incoming.end@;
            &&& audible_samples(samples, outgoing, incoming, 0) == 0
            &&& heard ==> after == before + 1
            &&& !heard ==> after == before && worst_collision(
                samples,
                outgoing,
                incoming,
                count + 1,
            ) == worst_collision(samples, outgoing, incoming, count)
            &&& heard ==> worst_collision(samples, outgoing, incoming, count + 1) is Some
        }),
        worst_collision(samples, outgoing, incoming, count) is Some <==> audible_samples(
            samples,
            outgoing,
            incoming,
            count,
        ) > 0,
{
    lemma_collisions_are_counted(samples, outgoing, incoming, count);
}

proof fn lemma_collisions_are_counted(
    samples: Seq<VocalSample>,
    outgoing: Audible,
    incoming: Audible,
    count: int,
)
    ensures
        audible_samples(samples, outgoing, incoming, count) >= 0,
        worst_collision(samples, outgoing, incoming, count) is Some <==> audible_samples(
            samples,
            outgoing,
            incoming,
            count,
        ) > 0,
    decreases count,
{
    if count > 0 {
        lemma_collisions_are_counted(samples, outgoing, incoming, count - 1);
    }
}

/// No sample in which both tracks are heard has vocals that collide by more than the worst
/// collision.
pub proof fn no_collision_is_above_the_worst(
    samples: Seq<VocalSample>,
    outgoing: Audible,
    incoming: Audible,
    count: int,
    index: int,
)
    requires
        0 <= index < count <= samples.len(),
        samples[index].audible(outgoing, incoming),
        !scalar::spec_is_nan(samples[index].outgoing_risk),
        !scalar::spec_is_nan(samples[index].incoming_risk),
    ensures
        ({
            let worst = worst_collision(samples, outgoing, incoming, count);
            &&& worst is Some
            &&& scalar::spec_at_most(samples[index].outgoing_risk, worst->0)
                || scalar::spec_at_most(samples[index].incoming_risk, worst->0)
        }),
    decreases count,
{
    if index < count - 1 {
        no_collision_is_above_the_worst(samples, outgoing, incoming, count - 1, index);
    }
}

/// The greatest level is at or above every level and one of them unless it is zero; what is
/// no level does not count.
pub proof fn greatest_levels_are_above_all(levels: Seq<u32>, n: int, index: int)
    requires
        0 <= index < n <= levels.len(),
    ensures
        scalar::spec_is_finite(levels[index]) && scalar::spec_at_most(0, levels[index])
            ==> scalar::spec_at_most(levels[index], greatest_level(levels, n)),
        greatest_level(levels, n) == 0 || exists|k: int|
            0 <= k < n && #[trigger] levels[k] == greatest_level(levels, n) && is_level(levels[k]),
    decreases n,
{
    lemma_greatest_is_a_level(levels, n);
    lemma_greatest_is_a_level(levels, n - 1);
    if index < n - 1 {
        greatest_levels_are_above_all(levels, n - 1, index);
    }
}

proof fn lemma_greatest_is_a_level(levels: Seq<u32>, n: int)
    requires
        n <= levels.len(),
    ensures
        !scalar::spec_is_nan(greatest_level(levels, n)),
        greatest_level(levels, n) == 0 || exists|k: int|
            0 <= k < n && #[trigger] levels[k] == greatest_level(levels, n) && is_level(levels[k]),
    decreases n,
{
    if n > 0 {
        lemma_greatest_is_a_level(levels, n - 1);
        let before = greatest_level(levels, n - 1);
        if greatest_level(levels, n) == before && before != 0 {
            let k = choose|k: int|
                0 <= k < n - 1 && #[trigger] levels[k] == greatest_level(levels, n - 1)
                    && is_level(levels[k]);
            assert(levels[k] == before);
        } else {
            assert(levels[n - 1] == levels[n - 1]);
        }
    }
}

/// Any sample that counts for the lowest level, or whose share counts, is found among the
/// samples before a place.
pub proof fn counting_samples_are_found(
    samples: Seq<EnergySample>,
    span: int,
    limit: int,
    count: int,
    index: int,
)
    requires
        0 <= index < count,
    ensures
        counts_for_minimum(samples, span, limit, index) ==> any_counts(samples, span, limit, count),
        scalar::spec_at_most(0x3F40_0000, samples[index].progress) && scalar::spec_less(
            0x2B8C_BCCC,
            samples[index].total_power,
        ) ==> any_share(samples, count),
        !any_counts(samples, span, limit, 0),
        !any_share(samples, 0),
{
    if samples[index].share_counts() {
        assert(any_share(samples, count));
    }
}

/// A reference reaches two seconds and a level a quarter of one to either side.
pub proof fn radii_have_their_lengths()
    ensures
        REFERENCE_RADIUS_NANOS == 2_000_000_000,
        LEVEL_RADIUS_NANOS == 250_000_000,
{
}

} // verus!
