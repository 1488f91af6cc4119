//! Vocals and structure at the edges of a track, and how long they let two tracks
//! overlap.

use vstd::prelude::*;

use super::plan::MIN_AUDIBLE_MIX_OVERLAP_NANOS;
use super::track::TrackAnalysis;
use crate::scalar;
use crate::time::{spec_max, spec_min, Duration, MAX_NANOS};

verus! {

/// Vocals are known from this mean confidence on (0.6).
pub const MIN_VOCAL_CONFIDENCE: u32 = 0x3F19_999A;

/// A bin is vocal from this risk on (0.58).
pub const MIN_ACTIVE_VOCAL_RISK: u32 = 0x3F14_7AE1;

/// Structure is trusted from this confidence on (0.65).
pub const MIN_STRUCTURE_CONFIDENCE: u32 = 0x3F26_6666;

/// How long tracks may overlap when vocals are not known (two seconds).
pub const UNKNOWN_VOCAL_OVERLAP_NANOS: u128 = 2_000_000_000;

/// One bin of a vocal profile; the risk is bits.
#[derive(Clone, Copy, Debug, PartialEq, Eq, Structural)]
pub struct VocalBin {
    pub start: Duration,
    pub end: Duration,
    pub risk: u32,
}

impl VocalBin {
    /// Whether the bin reaches into the audible part and is vocal.
    pub open spec fn active(self, audible_start: Duration, audible_end: Duration) -> bool {
        &&& self.start@ < audible_end@
        &&& self.end@ > audible_start@
        &&& scalar::spec_at_most(MIN_ACTIVE_VOCAL_RISK, self.risk)
    }

    fn is_active(self, audible_start: Duration, audible_end: Duration) -> (r: bool)
        ensures
            r == self.active(audible_start, audible_end),
    {
        self.start.shorter(audible_end) && audible_start.shorter(self.end) && scalar::at_most(
            MIN_ACTIVE_VOCAL_RISK,
            self.risk,
        )
    }
}

/// Where the vocals of a track begin and end, if that is known at all.
#[derive(Clone, Copy, Debug, PartialEq, Eq, Structural)]
pub struct VocalSummary {
    pub known: bool,
    pub first: Option<Duration>,
    pub last_end: Option<Duration>,
}

/// Whether the vocals of a track are known: a confidence for each bin, and not
/// too low a mean.
pub open spec fn vocals_known(track: TrackAnalysis, mean_confidence: u32) -> bool {
    &&& track.vocal_activity_rate > 0
    &&& track.vocal_activity@.len() == track.vocal_activity_confidences@.len()
    &&& track.vocal_activity@.len() > 0
    &&& !scalar::spec_less(mean_confidence, MIN_VOCAL_CONFIDENCE)
}

/// Where the vocals of a track begin and end in its audible part. `bins` are the
/// bins of its profile with their risk, `mean_confidence` is the mean of the
/// profile's confidences.
pub fn summarize_vocals(
    analysis: &TrackAnalysis,
    bins: &Vec<VocalBin>,
    mean_confidence: u32,
) -> (r: VocalSummary)
    ensures
        !vocals_known(*analysis, mean_confidence) ==> r == (VocalSummary {
            known: false,
            first: None,
            last_end: None,
        }),
        vocals_known(*analysis, mean_confidence) ==> {
            &&& r.known
            &&& r.first is Some <==> exists|i: int|
                0 <= i < bins@.len() && (#[trigger] bins@[i]).active(
                    analysis.audible_start,
                    analysis.audible_end,
                )
            &&& r.last_end is Some <==> r.first is Some
            &&& r.first matches Some(first) ==> exists|i: int|
                0 <= i < bins@.len() && first@ == spec_max(
                    bins@[i].start@,
                    analysis.audible_start@,
                ) && #[trigger] is_first_active(
                    bins@,
                    i,
                    analysis.audible_start,
                    analysis.audible_end,
                )
            &&& r.last_end matches Some(end) ==> exists|i: int|
                0 <= i < bins@.len() && end@ == spec_min(bins@[i].end@, analysis.audible_end@)
                    && #[trigger] is_last_active(
                    bins@,
                    i,
                    analysis.audible_start,
                    analysis.audible_end,
                )
        },
{
    if analysis.vocal_activity_rate == 0 || analysis.vocal_activity.len()
        != analysis.vocal_activity_confidences.len() || analysis.vocal_activity.len() == 0
        || scalar::less(mean_confidence, MIN_VOCAL_CONFIDENCE) {
        return VocalSummary { known: false, first: None, last_end: None };
    }
    let start = analysis.audible_start;
    let end = analysis.audible_end;
    let mut first: Option<usize> = None;
    let mut last: Option<usize> = None;
    let mut i: usize = 0;
    while i < bins.len()
        invariant
            i <= bins@.len(),
            first is None ==> forall|k: int|
                0 <= k < i ==> !(#[trigger] bins@[k]).active(start, end),
            first is Some <==> last is Some,
            first matches Some(index) ==> index < i && is_first_active(
                bins@,
                index as int,
                start,
                end,
            ),
            last matches Some(index) ==> index < i && bins@[index as int].active(start, end)
                && forall|k: int|
                index < k < i ==> !(#[trigger] bins@[k]).active(start, end),
        decreases bins@.len() - i,
    {
        if bins[i].is_active(start, end) {
            if first.is_none() {
                first = Some(i);
            }
            last = Some(i);
        }
        i += 1;
    }
    let begins = match first {
        Some(index) => Some(bins[index].start.max(start)),
        None => None,
    };
    let ends = match last {
        Some(index) => {
            assert(is_last_active(bins@, index as int, start, end));
            Some(bins[index].end.min(end))
        },
        None => None,
    };
    VocalSummary { known: true, first: begins, last_end: ends }
}

/// Whether a bin is the first that is vocal in the audible part.
pub open spec fn is_first_active(
    bins: Seq<VocalBin>,
    index: int,
    audible_start: Duration,
    audible_end: Duration,
) -> bool {
    &&& 0 <= index < bins.len()
    &&& bins[index].active(audible_start, audible_end)
    &&& forall|k: int|
        0 <= k < index ==> !(#[trigger] bins[k]).active(audible_start, audible_end)
}

/// Whether a bin is the last that is vocal in the audible part.
pub open spec fn is_last_active(
    bins: Seq<VocalBin>,
    index: int,
    audible_start: Duration,
    audible_end: Duration,
) -> bool {
    &&& 0 <= index < bins.len()
    &&& bins[index].active(audible_start, audible_end)
    &&& forall|k: int|
        index < k < bins.len() ==> !(#[trigger] bins[k]).active(audible_start, audible_end)
}

/// How long two tracks may overlap without two vocals at once: as long as the
/// outgoing track goes on after its last vocal, and the incoming one plays before
/// its first.
pub open spec fn vocal_limit(
    outgoing: VocalSummary,
    incoming: VocalSummary,
    outgoing_end: int,
    incoming_head: int,
    maximum: int,
) -> int {
    if !outgoing.known || !incoming.known {
        spec_min(maximum, UNKNOWN_VOCAL_OVERLAP_NANOS as int)
    } else if outgoing.last_end is None || incoming.first is None {
        maximum
    } else {
        let tail = spec_min(spec_max(outgoing_end - outgoing.last_end->0@, 0), maximum);
        spec_min(maximum, spec_min(tail + incoming_head, MAX_NANOS as int))
    }
}

/// How much of the incoming track plays before its first vocal, counted from its
/// start; zero without a vocal.
pub fn incoming_head_source(incoming: &VocalSummary, incoming_start: Duration) -> (r: Duration)
    ensures
        r@ == if incoming.first is Some {
            spec_max(incoming.first->0@ - incoming_start@, 0)
        } else {
            0
        },
{
    match incoming.first {
        Some(first) => first.saturating_sub(incoming_start),
        None => Duration::zero(),
    }
}

/// How long two tracks may overlap without two vocals at once. `incoming_head` is
/// how long the incoming track plays before its first vocal, through its tempo
/// map.
pub fn vocal_overlap_limit(
    outgoing: &VocalSummary,
    incoming: &VocalSummary,
    outgoing_end: Duration,
    incoming_head: Duration,
    maximum: Duration,
) -> (r: Duration)
    ensures
        r@ == vocal_limit(*outgoing, *incoming, outgoing_end@, incoming_head@, maximum@),
        r@ <= maximum@,
        !outgoing.known || !incoming.known ==> r@ == spec_min(maximum@, 2_000_000_000),
        outgoing.known && incoming.known && (outgoing.last_end is None || incoming.first is None)
            ==> r@ == maximum@,
        outgoing.known && incoming.known && outgoing.last_end is Some && incoming.first is Some
            && r@ < maximum@ && r@ < MAX_NANOS ==> r@ == spec_max(
            outgoing_end@ - outgoing.last_end->0@,
            0,
        ) + incoming_head@,
{
    if !outgoing.known || !incoming.known {
        return maximum.min(Duration { nanos: UNKNOWN_VOCAL_OVERLAP_NANOS });
    }
    match (outgoing.last_end, incoming.first) {
        (Some(last_outgoing_vocal), Some(_)) => {
            let tail = outgoing_end.saturating_sub(last_outgoing_vocal).min(maximum);
            maximum.min(tail.saturating_add(incoming_head))
        },
        _ => maximum,
    }
}

/// The span that a trusted outro and a trusted intro have in common.
pub open spec fn structure_span(
    outgoing: TrackAnalysis,
    incoming: TrackAnalysis,
    incoming_start: Duration,
) -> int {
    spec_min(
        spec_max(outgoing.audible_end@ - outgoing.outro_start->0@, 0),
        spec_max(incoming.intro_end->0@ - incoming_start@, 0),
    )
}

/// Whether outro and intro are both known with enough confidence.
pub open spec fn structure_is_trusted(outgoing: TrackAnalysis, incoming: TrackAnalysis) -> bool {
    &&& outgoing.outro_start is Some
    &&& scalar::spec_at_most(MIN_STRUCTURE_CONFIDENCE, outgoing.outro_confidence)
    &&& incoming.intro_end is Some
    &&& scalar::spec_at_most(MIN_STRUCTURE_CONFIDENCE, incoming.intro_confidence)
}

/// The span that a trusted outro and a trusted intro have in common, where it is
/// at least a second.
pub fn trusted_structure_span(
    outgoing: &TrackAnalysis,
    incoming: &TrackAnalysis,
    incoming_start: Duration,
) -> (r: Option<Duration>)
    ensures
        r is Some <==> structure_is_trusted(*outgoing, *incoming) && structure_span(
            *outgoing,
            *incoming,
            incoming_start,
        ) >= MIN_AUDIBLE_MIX_OVERLAP_NANOS,
        r matches Some(span) ==> span@ == structure_span(*outgoing, *incoming, incoming_start),
{
    if let (Some(outro_start), Some(intro_end)) = (outgoing.outro_start, incoming.intro_end) {
        if scalar::at_most(MIN_STRUCTURE_CONFIDENCE, outgoing.outro_confidence) && scalar::at_most(
            MIN_STRUCTURE_CONFIDENCE,
            incoming.intro_confidence,
        ) {
            let outgoing_span = outgoing.audible_end.saturating_sub(outro_start);
            let incoming_span = intro_end.saturating_sub(incoming_start);
            let duration = outgoing_span.min(incoming_span);
            if (Duration { nanos: MIN_AUDIBLE_MIX_OVERLAP_NANOS }).within(duration) {
                return Some(duration);
            }
        }
    }
    None
}

/// The overlap that a trusted outro and intro ask for: their common span, no
/// longer than the maximum and at least a second.
pub fn trusted_structure_overlap(
    outgoing: &TrackAnalysis,
    incoming: &TrackAnalysis,
    incoming_start: Duration,
    maximum: Duration,
) -> (r: Option<Duration>)
    ensures
        r is Some <==> structure_is_trusted(*outgoing, *incoming) && spec_min(
            structure_span(*outgoing, *incoming, incoming_start),
            maximum@,
        ) >= MIN_AUDIBLE_MIX_OVERLAP_NANOS,
        r matches Some(overlap) ==> overlap@ == spec_min(
            structure_span(*outgoing, *incoming, incoming_start),
            maximum@,
        ),
{
    match trusted_structure_span(outgoing, incoming, incoming_start) {
        Some(span) => {
            let duration = span.min(maximum);
            if (Duration { nanos: MIN_AUDIBLE_MIX_OVERLAP_NANOS }).within(duration) {
                Some(duration)
            } else {
                None
            }
        },
        None => None,
    }
}

/// Where the vocals of a track are not known, it is mixed for two seconds at most,
/// whatever is known of the other one. Otherwise an overlap is as long as is asked for
/// where one of them has no vocal, and ends where the vocal of one would meet that of
/// the other.
pub proof fn unknown_vocals_allow_two_seconds(
    outgoing: VocalSummary,
    incoming: VocalSummary,
    outgoing_end: int,
    incoming_head: int,
    maximum: int,
)
    requires
        0 <= incoming_head,
        0 <= maximum <= MAX_NANOS,
    ensures
        ({
            let limit = vocal_limit(outgoing, incoming, outgoing_end, incoming_head, maximum);
            &&& 0 <= limit <= maximum
            &&& !outgoing.known || !incoming.known ==> limit <= 2_000_000_000 && (limit == maximum
                || limit == 2_000_000_000)
            &&& outgoing.known && incoming.known && outgoing.last_end is None ==> limit == maximum
            &&& outgoing.known && incoming.known && incoming.first is None ==> limit == maximum
            &&& outgoing.known && incoming.known && outgoing.last_end is Some && incoming.first
                is Some && outgoing.last_end->0@ <= outgoing_end ==> {
                &&& outgoing_end - limit >= outgoing.last_end->0@ - incoming_head
                &&& limit == maximum || limit == outgoing_end - outgoing.last_end->0@
                    + incoming_head
            }
            &&& outgoing.known && incoming.known && outgoing.last_end is Some && incoming.first
                is Some && outgoing.last_end->0@ > outgoing_end ==> limit <= incoming_head && (
            limit == maximum || limit == incoming_head)
        }),
{
}

/// A bin is vocal just where its risk is at least 0.58 and a part of it is audible,
/// and vocals are known just where a profile with a rate has a confidence for each of
/// its bins and the mean of them is not below 0.6.
pub proof fn vocals_are_told_by_risk_and_confidence(
    bin: VocalBin,
    track: TrackAnalysis,
    mean_confidence: u32,
)
    ensures
        bin.active(track.audible_start, track.audible_end) <==> scalar::spec_at_most(
            0x3F14_7AE1,
            bin.risk,
        ) && bin.start@ < track.audible_end@ && track.audible_start@ < bin.end@,
        vocals_known(track, mean_confidence) <==> track.vocal_activity_rate != 0
            && track.vocal_activity@.len() != 0 && track.vocal_activity_confidences@.len()
            == track.vocal_activity@.len() && !scalar::spec_less(mean_confidence, 0x3F19_999A),
{
}

/// A structure is trusted just where outro and intro are known with a confidence of at
/// least 0.65 each, and the span that they share is no longer than either.
pub proof fn structure_takes_outro_and_intro(
    outgoing: TrackAnalysis,
    incoming: TrackAnalysis,
    incoming_start: Duration,
)
    requires
        structure_is_trusted(outgoing, incoming),
    ensures
        outgoing.outro_start is Some,
        incoming.intro_end is Some,
        scalar::spec_at_most(0x3F26_6666, outgoing.outro_confidence),
        scalar::spec_at_most(0x3F26_6666, incoming.intro_confidence),
        ({
            let span = structure_span(outgoing, incoming, incoming_start);
            let outro = outgoing.audible_end@ - outgoing.outro_start->0@;
            let intro = incoming.intro_end->0@ - incoming_start@;
            &&& span >= 0
            &&& 0 <= outro ==> span <= outro
            &&& 0 <= intro ==> span <= intro
            &&& span == 0 || span == outro || span == intro
            &&& span == 0 ==> outro <= 0 || intro <= 0
        }),
{
}

/// The first active bin is active and none before it is, the last one is and none after it
/// is, so each is one bin.
pub proof fn active_bins_have_one_first_and_last(
    bins: Seq<VocalBin>,
    index: int,
    other: int,
    start: Duration,
    end: Duration,
)
    requires
        0 <= other < bins.len(),
        bins[other].active(start, end),
    ensures
        is_first_active(bins, index, start, end) ==> 0 <= index <= other && bins[index].active(
            start,
            end,
        ),
        is_last_active(bins, index, start, end) ==> other <= index < bins.len()
            && bins[index].active(start, end),
{
}

/// Where some bin is active there are a first and a last active one, and a bin is the first
/// or the last as soon as none before or after it is active.
pub proof fn active_bins_include_a_first_and_last(
    bins: Seq<VocalBin>,
    some: int,
    start: Duration,
    end: Duration,
)
    requires
        0 <= some < bins.len(),
        bins[some].active(start, end),
    ensures
        exists|index: int| #[trigger] is_first_active(bins, index, start, end),
        exists|index: int| #[trigger] is_last_active(bins, index, start, end),
{
    lemma_first_active(bins, some, start, end);
    lemma_last_active(bins, some, start, end);
}

proof fn lemma_first_active(bins: Seq<VocalBin>, some: int, start: Duration, end: Duration)
    requires
        0 <= some < bins.len(),
        bins[some].active(start, end),
    ensures
        exists|index: int| #[trigger] is_first_active(bins, index, start, end),
    decreases some,
{
    if exists|k: int| 0 <= k < some && (#[trigger] bins[k]).active(start, end) {
        let k = choose|k: int| 0 <= k < some && (#[trigger] bins[k]).active(start, end);
        lemma_first_active(bins, k, start, end);
    } else {
        assert(is_first_active(bins, some, start, end));
    }
}

proof fn lemma_last_active(bins: Seq<VocalBin>, some: int, start: Duration, end: Duration)
    requires
        0 <= some < bins.len(),
        bins[some].active(start, end),
    ensures
        exists|index: int| #[trigger] is_last_active(bins, index, start, end),
    decreases bins.len() - some,
{
    if exists|k: int| some < k < bins.len() && (#[trigger] bins[k]).active(start, end) {
        let k = choose|k: int| some < k < bins.len() && (#[trigger] bins[k]).active(start, end);
        lemma_last_active(bins, k, start, end);
    } else {
        assert(is_last_active(bins, some, start, end));
    }
}

} // verus!
