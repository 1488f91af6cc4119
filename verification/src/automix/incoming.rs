//! Where the incoming track may start: which of its opening beats can be skipped
//! to without losing anything worth hearing.

use vstd::prelude::*;

use super::markers::{MAX_BEATMATCH_PHASE_ERROR_NANOS, MAX_INCOMING_CUE_CANDIDATES};
use super::positions::{is_ascending, is_sorted_set_of, sort_and_dedup_positions};
use super::track::TrackAnalysis;
use super::vocals::MIN_STRUCTURE_CONFIDENCE;
use crate::scalar;
use crate::time::{spec_max, spec_min, Duration, MAX_NANOS};

verus! {

/// How much of a quiet opening may be skipped (eight seconds).
pub const MAX_LOW_ENERGY_INTRO_SKIP_NANOS: u128 = 8_000_000_000;

/// How much of a structured intro may be skipped (sixteen seconds).
pub const MAX_STRUCTURED_INTRO_SKIP_NANOS: u128 = 16_000_000_000;

/// The vocal risk that a skipped opening may have (0.2).
pub const MAX_SKIPPED_INTRO_VOCAL_RISK: u32 = 0x3E4C_CCCD;

/// Energy above this is audible (one millionth).
pub const LEAST_ENERGY: u32 = 0x3586_37BD;

/// The least tolerance around the end of an intro (120 milliseconds).
pub const INTRO_END_TOLERANCE_NANOS: u128 = 120_000_000;

/// A beat that is assumed where a track has no tempo (500 milliseconds).
pub const FALLBACK_BEAT_NANOS: u128 = 500_000_000;

/// What is known of the opening that a cue would skip. Numbers are bits.
#[derive(Clone, Copy, Debug, PartialEq, Eq, Structural)]
pub struct SkipEvidence {
    pub vocals_known: bool,
    /// Highest vocal risk of the skipped part, where it was measured.
    pub max_vocal_risk: Option<u32>,
    /// Mean energy of the skipped part.
    pub before: Option<u32>,
    /// Mean energy of what follows the cue.
    pub after: Option<u32>,
    /// Energy that the skipped part may have, a share of what follows.
    pub allowed: u32,
}

impl SkipEvidence {
    /// Whether the skipped part is known to hold no vocals.
    pub open spec fn free_of_vocals(self) -> bool {
        self.vocals_known && !(self.max_vocal_risk is Some && scalar::spec_less(
            MAX_SKIPPED_INTRO_VOCAL_RISK,
            self.max_vocal_risk->0,
        ))
    }

    fn is_free_of_vocals(self) -> (r: bool)
        ensures
            r == self.free_of_vocals(),
    {
        if !self.vocals_known {
            return false;
        }
        match self.max_vocal_risk {
            Some(risk) => !scalar::less(MAX_SKIPPED_INTRO_VOCAL_RISK, risk),
            None => true,
        }
    }

    /// Whether the skipped part is quiet against what follows.
    pub open spec fn quiet(self) -> bool {
        &&& self.before is Some
        &&& self.after is Some
        &&& scalar::spec_is_finite(self.before->0)
        &&& scalar::spec_is_finite(self.after->0)
        &&& scalar::spec_less(LEAST_ENERGY, self.after->0)
        &&& scalar::spec_at_most(self.before->0, self.allowed)
    }
}

/// Whether an opening may be skipped up to a cue.
pub open spec fn may_skip_until(
    incoming: TrackAnalysis,
    candidate: Duration,
    maximum_skip: int,
    evidence: SkipEvidence,
) -> bool {
    &&& incoming.audible_start@ < candidate@ < incoming.audible_end@
    &&& candidate@ - incoming.audible_start@ <= maximum_skip
    &&& evidence.free_of_vocals()
    &&& evidence.quiet()
}

/// Whether an opening may be skipped up to a cue inside the audible part: it is
/// not too long, known to be free of vocals, and quiet against what follows.
pub fn safe_to_skip_intro_until(
    incoming: &TrackAnalysis,
    candidate: Duration,
    maximum_skip: Duration,
    evidence: SkipEvidence,
) -> (r: bool)
    ensures
        r == may_skip_until(*incoming, candidate, maximum_skip@, evidence),
{
    if candidate.within(incoming.audible_start) || maximum_skip.shorter(
        candidate.saturating_sub(incoming.audible_start),
    ) || incoming.audible_end.within(candidate) {
        return false;
    }
    if !evidence.is_free_of_vocals() {
        return false;
    }
    match (evidence.before, evidence.after) {
        (Some(before), Some(after)) => scalar::is_finite(before) && scalar::is_finite(after)
            && scalar::less(LEAST_ENERGY, after) && scalar::at_most(before, evidence.allowed),
        _ => false,
    }
}

/// Whether the pickup before the first cue may be skipped.
pub open spec fn may_skip_pickup(
    incoming: TrackAnalysis,
    candidate: Duration,
    maximum_pickup: int,
    beat_interval: Option<Duration>,
    evidence: SkipEvidence,
) -> bool {
    let skipped = candidate@ - incoming.audible_start@;
    let beat = if beat_interval is Some {
        beat_interval->0@
    } else {
        FALLBACK_BEAT_NANOS as int
    };
    &&& 0 <= skipped <= maximum_pickup
    &&& skipped <= MAX_BEATMATCH_PHASE_ERROR_NANOS || evidence.free_of_vocals() && (skipped
        <= beat || may_skip_until(incoming, candidate, maximum_pickup, evidence))
}

/// Whether the pickup before the first cue may be skipped. A cue at the audible
/// boundary skips nothing; anything beyond it has to be known to be free of
/// vocals, and anything beyond a beat to be quiet as well.
pub fn safe_to_skip_initial_pickup(
    incoming: &TrackAnalysis,
    candidate: Duration,
    maximum_pickup: Duration,
    beat_interval: Option<Duration>,
    evidence: SkipEvidence,
) -> (r: bool)
    ensures
        r == may_skip_pickup(*incoming, candidate, maximum_pickup@, beat_interval, evidence),
{
    if candidate.shorter(incoming.audible_start) || maximum_pickup.shorter(
        candidate.saturating_sub(incoming.audible_start),
    ) {
        return false;
    }
    let skipped = candidate.saturating_sub(incoming.audible_start);
    if skipped.within(Duration { nanos: MAX_BEATMATCH_PHASE_ERROR_NANOS }) {
        return true;
    }
    if !evidence.is_free_of_vocals() {
        return false;
    }
    let beat = match beat_interval {
        Some(interval) => interval,
        None => Duration { nanos: FALLBACK_BEAT_NANOS },
    };
    if skipped.within(beat) {
        return true;
    }
    safe_to_skip_intro_until(incoming, candidate, maximum_pickup, evidence)
}

/// How long a pickup may be: 32 beats, given as a span where there is a tempo,
/// and no more than the longest structured intro.
pub fn pickup_limit(pickup_beats: Option<Duration>) -> (r: Duration)
    ensures
        r@ == if pickup_beats is Some {
            spec_min(pickup_beats->0@, MAX_STRUCTURED_INTRO_SKIP_NANOS as int)
        } else {
            MAX_STRUCTURED_INTRO_SKIP_NANOS as int
        },
{
    let longest = Duration { nanos: MAX_STRUCTURED_INTRO_SKIP_NANOS };
    match pickup_beats {
        Some(span) => span.min(longest),
        None => longest,
    }
}

/// The region of the opening, so long from the audible start and inside the
/// audible part.
pub fn opening_region(incoming: &TrackAnalysis, length: Duration) -> (r: (Duration, Duration))
    ensures
        r.0 == incoming.audible_start,
        r.1@ == spec_min(
            incoming.audible_end@,
            spec_min(incoming.audible_start@ + length@, MAX_NANOS as int),
        ),
{
    (
        incoming.audible_start,
        incoming.audible_end.min(incoming.audible_start.saturating_add(length)),
    )
}

/// The region around the end of a trusted intro in which cues are looked for; its
/// half is the tolerance of the tempo, and no less than 120 milliseconds.
pub fn intro_end_region(incoming: &TrackAnalysis, snap_tolerance: Duration) -> (r: Option<
    (Duration, Duration),
>)
    ensures
        r is Some <==> incoming.intro_end is Some && scalar::spec_at_most(
            MIN_STRUCTURE_CONFIDENCE,
            incoming.intro_confidence,
        ),
        r matches Some(region) ==> {
            let tolerance = spec_max(snap_tolerance@, INTRO_END_TOLERANCE_NANOS as int);
            &&& region.0@ == spec_max(incoming.intro_end->0@ - tolerance, 0)
            &&& region.1@ == spec_min(
                incoming.audible_end@,
                spec_min(incoming.intro_end->0@ + tolerance, MAX_NANOS as int),
            )
        },
{
    match incoming.intro_end {
        Some(intro_end) => if scalar::at_most(MIN_STRUCTURE_CONFIDENCE, incoming.intro_confidence) {
            let tolerance = snap_tolerance.max(
                Duration { nanos: MAX_BEATMATCH_PHASE_ERROR_NANOS },
            ).max(Duration { nanos: INTRO_END_TOLERANCE_NANOS });
            Some(
                (
                    intro_end.saturating_sub(tolerance),
                    incoming.audible_end.min(intro_end.saturating_add(tolerance)),
                ),
            )
        } else {
            None
        },
        None => None,
    }
}

/// A cue and whether the opening before it may be skipped.
#[derive(Clone, Copy, Debug, PartialEq, Eq, Structural)]
pub struct JudgedCue {
    pub position: Duration,
    pub safe: bool,
}

/// The safe cues among the first `count`, appended to those found before while
/// there is room.
pub open spec fn with_safe_cues(
    found: Seq<Duration>,
    cues: Seq<JudgedCue>,
    count: int,
) -> Seq<Duration>
    decreases count,
{
    if count <= 0 {
        found
    } else {
        let rest = with_safe_cues(found, cues, count - 1);
        if cues[count - 1].safe && rest.len() < MAX_INCOMING_CUE_CANDIDATES {
            rest.push(cues[count - 1].position)
        } else {
            rest
        }
    }
}

fn append_safe_cues(found: Vec<Duration>, cues: &Vec<JudgedCue>) -> (r: Vec<Duration>)
    ensures
        r@ == with_safe_cues(found@, cues@, cues@.len() as int),
{
    let ghost start = found@;
    let mut all = found;
    let mut i: usize = 0;
    while i < cues.len()
        invariant
            i <= cues@.len(),
            all@ == with_safe_cues(start, cues@, i as int),
        decreases cues@.len() - i,
    {
        if cues[i].safe && all.len() < MAX_INCOMING_CUE_CANDIDATES {
            all.push(cues[i].position);
        }
        i += 1;
    }
    all
}

proof fn lemma_safe_cues_fit(found: Seq<Duration>, cues: Seq<JudgedCue>, count: int)
    requires
        found.len() <= MAX_INCOMING_CUE_CANDIDATES,
    ensures
        with_safe_cues(found, cues, count).len() <= MAX_INCOMING_CUE_CANDIDATES,
    decreases count,
{
    if count > 0 {
        lemma_safe_cues_fit(found, cues, count - 1);
    }
}

/// All cues at which the incoming track may start, before they are put in order.
pub open spec fn safe_starts(
    pickup: Option<JudgedCue>,
    intro: Seq<JudgedCue>,
    quiet: Seq<JudgedCue>,
) -> Seq<Duration> {
    let first = if pickup is Some && pickup->0.safe {
        seq![pickup->0.position]
    } else {
        Seq::empty()
    };
    with_safe_cues(
        with_safe_cues(first, intro, intro.len() as int),
        quiet,
        quiet.len() as int,
    )
}

/// The cues at which the incoming track may start, in order and each once, at
/// most as many as are looked at: the first cue of the pickup, the cues around
/// the end of a trusted intro and those after a quiet opening, each only where
/// what it skips may be skipped.
pub fn safe_incoming_beat_starts(
    pickup: Option<JudgedCue>,
    intro: &Vec<JudgedCue>,
    quiet: &Vec<JudgedCue>,
) -> (r: Vec<Duration>)
    ensures
        is_sorted_set_of(r@, safe_starts(pickup, intro@, quiet@)),
        r@.len() <= MAX_INCOMING_CUE_CANDIDATES,
{
    let mut candidates: Vec<Duration> = Vec::new();
    if let Some(cue) = pickup {
        if cue.safe {
            candidates.push(cue.position);
        }
    }
    assert(candidates@ =~= if pickup is Some && pickup->0.safe {
        seq![pickup->0.position]
    } else {
        Seq::empty()
    });
    let ghost first = candidates@;
    let candidates = append_safe_cues(candidates, intro);
    let ghost second = candidates@;
    let candidates = append_safe_cues(candidates, quiet);
    proof {
        lemma_safe_cues_fit(first, intro@, intro@.len() as int);
        lemma_safe_cues_fit(second, quiet@, quiet@.len() as int);
    }
    sort_and_dedup_positions(&candidates)
}

/// Nothing but a safe cue is ever started at.
pub proof fn starts_are_safe(
    pickup: Option<JudgedCue>,
    intro: Seq<JudgedCue>,
    quiet: Seq<JudgedCue>,
    position: Duration,
)
    requires
        safe_starts(pickup, intro, quiet).contains(position),
    ensures
        pickup is Some && pickup->0 == (JudgedCue { position, safe: true }) || intro.contains(
            JudgedCue { position, safe: true },
        ) || quiet.contains(JudgedCue { position, safe: true }),
{
    let first = if pickup is Some && pickup->0.safe {
        seq![pickup->0.position]
    } else {
        Seq::empty()
    };
    let second = with_safe_cues(first, intro, intro.len() as int);
    lemma_from_safe_cues(second, quiet, quiet.len() as int, position);
    if !quiet.contains(JudgedCue { position, safe: true }) {
        lemma_from_safe_cues(first, intro, intro.len() as int, position);
    }
}

proof fn lemma_from_safe_cues(
    found: Seq<Duration>,
    cues: Seq<JudgedCue>,
    count: int,
    position: Duration,
)
    requires
        0 <= count <= cues.len(),
        with_safe_cues(found, cues, count).contains(position),
    ensures
        found.contains(position) || cues.contains(JudgedCue { position, safe: true }),
    decreases count,
{
    if count > 0 {
        let rest = with_safe_cues(found, cues, count - 1);
        let all = with_safe_cues(found, cues, count);
        if !rest.contains(position) {
            let k = choose|k: int| 0 <= k < all.len() && all[k] == position;
            if k < rest.len() {
                assert(rest[k] == position);
            }
            assert(cues[count - 1] == JudgedCue { position, safe: true });
        } else {
            lemma_from_safe_cues(found, cues, count - 1, position);
        }
    }
}

/// An intro is free of vocals where they are known and the risk is at most 0.2, and quiet
/// where the energy before it is within what is allowed and there is some after it.
pub proof fn intros_are_quiet_and_free_of_vocals(evidence: SkipEvidence)
    ensures
        !evidence.vocals_known ==> !evidence.free_of_vocals(),
        evidence.vocals_known && evidence.max_vocal_risk is None ==> evidence.free_of_vocals(),
        evidence.vocals_known && evidence.max_vocal_risk is Some ==> (evidence.free_of_vocals()
            <==> !scalar::spec_less(0x3E4C_CCCD, evidence.max_vocal_risk->0)),
        evidence.before is None || evidence.after is None ==> !evidence.quiet(),
        evidence.before is Some && evidence.after is Some ==> (evidence.quiet() <==> {
            &&& scalar::spec_is_finite(evidence.before->0)
            &&& scalar::spec_is_finite(evidence.after->0)
            &&& scalar::spec_less(0x3586_37BD, evidence.after->0)
            &&& scalar::spec_at_most(evidence.before->0, evidence.allowed)
        }),
{
}

/// What is skipped lies strictly inside what is heard, is no longer than allowed, quiet
/// and free of vocals; all such may be skipped.
pub proof fn skips_are_short_and_quiet(
    incoming: TrackAnalysis,
    candidate: Duration,
    maximum_skip: int,
    evidence: SkipEvidence,
)
    ensures
        ({
            let may = may_skip_until(incoming, candidate, maximum_skip, evidence);
            &&& candidate@ <= incoming.audible_start@ || incoming.audible_end@ <= candidate@
                ==> !may
            &&& candidate@ > incoming.audible_start@ + maximum_skip ==> !may
            &&& !evidence.free_of_vocals() || !evidence.quiet() ==> !may
            &&& incoming.audible_start@ < candidate@ < incoming.audible_end@ && candidate@
                <= incoming.audible_start@ + maximum_skip && evidence.free_of_vocals()
                && evidence.quiet() ==> may
        }),
{
}

/// A pickup of 35 milliseconds may always be skipped, one of a beat where it is free of
/// vocals, and a longer one only as any other intro; none longer than the maximum.
pub proof fn pickups_are_skipped_by_their_length(
    incoming: TrackAnalysis,
    candidate: Duration,
    maximum_pickup: int,
    beat_interval: Option<Duration>,
    evidence: SkipEvidence,
)
    ensures
        ({
            let may = may_skip_pickup(
                incoming,
                candidate,
                maximum_pickup,
                beat_interval,
                evidence,
            );
            let skipped = candidate@ - incoming.audible_start@;
            &&& skipped < 0 || skipped > maximum_pickup ==> !may
            &&& 0 <= skipped <= maximum_pickup && skipped <= 35_000_000 ==> may
            &&& 35_000_000 < skipped && !evidence.free_of_vocals() ==> !may
            &&& 35_000_000 < skipped <= maximum_pickup && evidence.free_of_vocals()
                && beat_interval is Some && skipped <= beat_interval->0@ ==> may
            &&& 35_000_000 < skipped <= maximum_pickup && evidence.free_of_vocals()
                && beat_interval is None && skipped <= 500_000_000 ==> may
            &&& 35_000_000 < skipped && skipped > (if beat_interval is Some {
                beat_interval->0@
            } else {
                500_000_000
            }) && !may_skip_until(incoming, candidate, maximum_pickup, evidence) ==> !may
        }),
{
}

/// Safe cues are added in order while there are fewer than 96, unsafe ones never, and
/// nothing that was found is lost.
pub proof fn safe_cues_are_added_in_order(
    found: Seq<Duration>,
    cues: Seq<JudgedCue>,
    count: int,
)
    requires
        0 <= count < cues.len(),
    ensures
        ({
            let before = with_safe_cues(found, cues, count);
            let after = with_safe_cues(found, cues, count + 1);
            &&& with_safe_cues(found, cues, 0) == found
            &&& cues[count].safe && before.len() < 96 ==> after == before.push(
                cues[count].position,
            )
            &&& !cues[count].safe || before.len() >= 96 ==> after == before
        }),
{
}

/// A safe pickup comes first, then the intro, then what is quiet.
pub proof fn pickups_come_first(
    pickup: Option<JudgedCue>,
    intro: Seq<JudgedCue>,
    quiet: Seq<JudgedCue>,
)
    ensures
        pickup matches Some(cue) ==> cue.safe ==> safe_starts(pickup, intro, quiet).len() > 0
            && safe_starts(pickup, intro, quiet)[0] == cue.position,
        safe_starts(None, Seq::empty(), Seq::empty()).len() == 0,
{
    let first = if pickup is Some && pickup->0.safe {
        seq![pickup->0.position]
    } else {
        Seq::empty()
    };
    lemma_safe_cues_keep(first, intro, intro.len() as int);
    lemma_safe_cues_keep(
        with_safe_cues(first, intro, intro.len() as int),
        quiet,
        quiet.len() as int,
    );
}

proof fn lemma_safe_cues_keep(found: Seq<Duration>, cues: Seq<JudgedCue>, count: int)
    ensures
        with_safe_cues(found, cues, count).len() >= found.len(),
        forall|i: int|
            0 <= i < found.len() ==> #[trigger] with_safe_cues(found, cues, count)[i] == found[i],
    decreases count,
{
    if count > 0 {
        lemma_safe_cues_keep(found, cues, count - 1);
    }
}

/// A quiet intro is skipped for up to eight seconds, a structured one for up to sixteen, and
/// its end is searched within 120 milliseconds.
pub proof fn skips_are_limited()
    ensures
        MAX_LOW_ENERGY_INTRO_SKIP_NANOS == 8_000_000_000,
        MAX_STRUCTURED_INTRO_SKIP_NANOS == 16_000_000_000,
        INTRO_END_TOLERANCE_NANOS == 120_000_000,
{
}

} // verus!
