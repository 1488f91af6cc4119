//! The steps in which a transition is planned.
//!
//! Each step decides on what was measured so far and says what to measure next:
//! an opening asks how long vocals let the tracks overlap, an aim where the
//! outgoing track may be aligned, a draft how its tempo map changes the vocal
//! limit. Wherever no overlap is left, the plan is gapless.

use vstd::prelude::*;

use super::candidates::{
    marker_search_window, may_align_phrases, may_search_shorter, may_start, phrases_may_align,
    shorter_transition_search_window, valid_outgoing_start, BarPhaseBias,
    MIN_NATURAL_MIX_OVERLAP_NANOS,
};
use super::kinds::TransitionKind;
use super::markers::{MAX_BEATMATCH_PHASE_ERROR_NANOS, MAX_SHORTER_TRANSITION_SEARCH_NANOS};
use super::plan::{
    base_overlap, base_overlap_duration, gapless_plan, is_gapless_plan, AutoMixEnergySelection,
    AutoMixIncomingCueSelection, TempoEnvelope, TransitionPlan, END_TOLERANCE_NANOS,
    MIN_AUDIBLE_MIX_OVERLAP_NANOS,
};
use super::track::{
    bpm_is_trusted, spec_bpm_is_trusted, spec_keys_clash, AutoMixConfig, PhraseCue, TrackAnalysis,
};
use super::vocals::{structure_is_trusted, structure_span, trusted_structure_overlap};
use crate::scalar;
use crate::time::{spec_max, spec_min, Duration, MAX_NANOS};

verus! {

/// A tempo ratio and its distance from one, as bits.
#[derive(Clone, Copy, Debug, PartialEq, Eq, Structural)]
pub struct TempoRatio {
    pub ratio: u32,
    pub distance: u32,
}

impl TempoRatio {
    /// Whether the ratio is a positive finite number.
    pub open spec fn usable(self) -> bool {
        scalar::spec_is_finite(self.ratio) && scalar::spec_less(0, self.ratio)
    }

    fn is_usable(self) -> (r: bool)
        ensures
            r == self.usable(),
    {
        scalar::is_finite(self.ratio) && scalar::less(0, self.ratio)
    }
}

/// The better of a ratio found so far and another: a usable one that lies nearer
/// to one.
pub open spec fn nearer_ratio(found: Option<TempoRatio>, other: TempoRatio) -> Option<TempoRatio> {
    if other.usable() && (found is None || scalar::total_key(other.distance) < scalar::total_key(
        found->0.distance,
    )) {
        Some(other)
    } else {
        found
    }
}

fn nearer(found: Option<TempoRatio>, other: TempoRatio) -> (r: Option<TempoRatio>)
    ensures
        r == nearer_ratio(found, other),
{
    if !other.is_usable() {
        return found;
    }
    match found {
        Some(best) => if scalar::total_less(other.distance, best.distance) {
            Some(other)
        } else {
            found
        },
        None => Some(other),
    }
}

/// The ratio of two tempos nearest to one: as they are, at double or at half
/// time, the earlier on a tie. `None` for a tempo that is not positive or where no
/// ratio is usable.
pub fn closest_tempo_family_ratio(
    outgoing_bpm: u32,
    incoming_bpm: u32,
    raw: TempoRatio,
    double: TempoRatio,
    half: TempoRatio,
) -> (r: Option<TempoRatio>)
    ensures
        r == if scalar::spec_at_most(outgoing_bpm, 0) || scalar::spec_at_most(incoming_bpm, 0) {
            None
        } else {
            nearer_ratio(nearer_ratio(nearer_ratio(None, raw), double), half)
        },
{
    if scalar::at_most(outgoing_bpm, 0) || scalar::at_most(incoming_bpm, 0) {
        return None;
    }
    nearer(nearer(nearer(None, raw), double), half)
}

/// Whether two tracks can be brought to one tempo: both tempos are sure and
/// trusted, and the ratio nearest to one is no further off than allowed.
pub open spec fn tempos_are_compatible(
    outgoing: TrackAnalysis,
    incoming: TrackAnalysis,
    config: AutoMixConfig,
    both_confident: bool,
    closest: Option<TempoRatio>,
) -> bool {
    &&& both_confident
    &&& outgoing.bpm is Some && spec_bpm_is_trusted(outgoing.bpm->0)
    &&& incoming.bpm is Some && spec_bpm_is_trusted(incoming.bpm->0)
    &&& closest is Some
    &&& scalar::spec_is_finite(closest->0.ratio)
    &&& scalar::spec_at_most(closest->0.distance, config.max_tempo_adjustment)
}

/// The speed at which the incoming track plays in a beat-matched overlap, where
/// the two tracks can be brought to one tempo.
pub fn compatible_tempo_curve(
    outgoing: &TrackAnalysis,
    incoming: &TrackAnalysis,
    config: &AutoMixConfig,
    both_confident: bool,
    closest: Option<TempoRatio>,
) -> (r: Option<u32>)
    ensures
        r == if tempos_are_compatible(*outgoing, *incoming, *config, both_confident, closest) {
            Some(closest->0.ratio)
        } else {
            None
        },
{
    if !both_confident {
        return None;
    }
    match (outgoing.bpm, incoming.bpm, closest) {
        (Some(outgoing_bpm), Some(incoming_bpm), Some(best)) => if bpm_is_trusted(outgoing_bpm)
            && bpm_is_trusted(incoming_bpm) && scalar::is_finite(best.ratio) && scalar::at_most(
            best.distance,
            config.max_tempo_adjustment,
        ) {
            Some(best.ratio)
        } else {
            None
        },
        _ => None,
    }
}

/// How much overlap a plan starts from.
#[derive(Clone, Copy, Debug, PartialEq, Eq, Structural)]
pub struct Opening {
    pub beat_aligned: bool,
    pub incoming_start: Duration,
    /// The overlap that is aimed at.
    pub overlap: Duration,
    /// Whether outro and intro set the overlap.
    pub structure_adaptive: bool,
}

/// Where the incoming track starts: at the cue where beats are aligned, else at
/// its audible start.
pub open spec fn opening_start(
    incoming: TrackAnalysis,
    cue: Duration,
    beat_aligned: bool,
) -> Duration {
    if beat_aligned {
        cue
    } else {
        incoming.audible_start
    }
}

/// Opens a plan: the overlap is the longest safe fade, or what a trusted outro and
/// intro have in common. `None` where there is nothing to overlap.
pub fn open_plan(
    outgoing: &TrackAnalysis,
    incoming: &TrackAnalysis,
    crossfade: Duration,
    harmonic: Option<u32>,
    cue: Duration,
    beat_aligned: bool,
) -> (r: Option<Opening>)
    ensures
        ({
            let start = opening_start(*incoming, cue, beat_aligned);
            let base = base_overlap(*outgoing, *incoming, start, crossfade, harmonic);
            let common = spec_min(structure_span(*outgoing, *incoming, start), base);
            let structured = structure_is_trusted(*outgoing, *incoming) && common
                >= MIN_AUDIBLE_MIX_OVERLAP_NANOS;
            &&& r is Some <==> base > 0
            &&& r matches Some(opening) ==> {
                &&& opening.beat_aligned == beat_aligned
                &&& opening.incoming_start == start
                &&& opening.structure_adaptive == structured
                &&& opening.overlap@ == if structured {
                    common
                } else {
                    base
                }
                &&& opening.overlap@ > 0
            }
        }),
{
    let incoming_start = if beat_aligned {
        cue
    } else {
        incoming.audible_start
    };
    match base_overlap_duration(outgoing, incoming, incoming_start, crossfade, harmonic) {
        None => None,
        Some(base) => match trusted_structure_overlap(outgoing, incoming, incoming_start, base) {
            Some(overlap) => Some(
                Opening { beat_aligned, incoming_start, overlap, structure_adaptive: true },
            ),
            None => Some(
                Opening { beat_aligned, incoming_start, overlap: base, structure_adaptive: false },
            ),
        },
    }
}

/// What a plan aims at once vocals are taken into account.
#[derive(Clone, Copy, Debug, PartialEq, Eq, Structural)]
pub struct Aim {
    pub beat_aligned: bool,
    pub incoming_start: Duration,
    pub overlap: Duration,
    pub structure_adaptive: bool,
    pub vocal_constrained: bool,
    /// Where the outgoing track would start to overlap.
    pub target: Duration,
    /// On which side of the target a start is looked for.
    pub bias: BarPhaseBias,
}

impl Opening {
    /// Takes the vocal limit of the overlap into account. Where it leaves nothing,
    /// the plan ends as a gapless one. A start is looked for before the target,
    /// but after it where vocals or structure set the overlap.
    pub fn on_vocal_limit(
        self,
        outgoing: &TrackAnalysis,
        incoming: &TrackAnalysis,
        limit: Duration,
    ) -> (r: Result<Aim, TransitionPlan>)
        ensures
            r is Err <==> limit@ == 0,
            r matches Err(plan) ==> is_gapless_plan(plan, *outgoing, *incoming),
            r matches Ok(aim) ==> {
                &&& aim.beat_aligned == self.beat_aligned
                &&& aim.incoming_start == self.incoming_start
                &&& aim.structure_adaptive == self.structure_adaptive
                &&& aim.vocal_constrained == (limit@ < self.overlap@)
                &&& aim.overlap@ == spec_min(self.overlap@, limit@)
                &&& aim.target@ == spec_max(outgoing.audible_end@ - aim.overlap@, 0)
                &&& aim.bias == if aim.vocal_constrained || aim.structure_adaptive {
                    BarPhaseBias::AtOrAfter
                } else {
                    BarPhaseBias::AtOrBefore
                }
            },
    {
        if limit.is_zero() {
            return Err(gapless_plan(outgoing, incoming));
        }
        let vocal_constrained = limit.shorter(self.overlap);
        let overlap = self.overlap.min(limit);
        let bias = if vocal_constrained || self.structure_adaptive {
            BarPhaseBias::AtOrAfter
        } else {
            BarPhaseBias::AtOrBefore
        };
        Ok(
            Aim {
                beat_aligned: self.beat_aligned,
                incoming_start: self.incoming_start,
                overlap,
                structure_adaptive: self.structure_adaptive,
                vocal_constrained,
                target: outgoing.audible_end.saturating_sub(overlap),
                bias,
            },
        )
    }
}

/// A search for starts of an overlap, on one side of a target.
#[derive(Clone, Copy, Debug, PartialEq, Eq, Structural)]
pub enum StartSearch {
    /// The starts in the phase of the incoming cycle of so many beats.
    Phase { beats: u32, window: Duration, bias: BarPhaseBias },
    /// The beats of the outgoing track.
    Beats { window: Duration, bias: BarPhaseBias },
    /// Every so often, whatever the beats.
    Grid { window: Duration, bias: BarPhaseBias },
}

/// The searches of one window: for the phase of phrases where they may be aligned,
/// for that of bars, and for beats.
pub open spec fn searches_in(phrases: bool, window: Duration, bias: BarPhaseBias) -> Seq<
    StartSearch,
> {
    let bars_and_beats = seq![
        StartSearch::Phase { beats: 4, window, bias },
        StartSearch::Beats { window, bias },
    ];
    if phrases {
        seq![StartSearch::Phase { beats: 16, window, bias }] + bars_and_beats
    } else {
        bars_and_beats
    }
}

fn push_searches(
    searches: &mut Vec<StartSearch>,
    phrases: bool,
    window: Duration,
    bias: BarPhaseBias,
)
    ensures
        final(searches)@ == old(searches)@ + searches_in(phrases, window, bias),
{
    let ghost before = searches@;
    if phrases {
        searches.push(StartSearch::Phase { beats: 16, window, bias });
    }
    searches.push(StartSearch::Phase { beats: 4, window, bias });
    searches.push(StartSearch::Beats { window, bias });
    assert(searches@ =~= before + searches_in(phrases, window, bias));
}

impl Aim {
    /// The window in which a beat-aligned start is looked for.
    pub open spec fn marker_window(&self) -> Duration {
        if self.overlap@ < MIN_NATURAL_MIX_OVERLAP_NANOS {
            Duration { nanos: MAX_SHORTER_TRANSITION_SEARCH_NANOS }
        } else {
            self.overlap
        }
    }

    /// The window past the target in which a shorter overlap is looked for, where
    /// the keys do not clash and the search went before the target.
    pub open spec fn shorter_window(&self, harmonic: Option<u32>) -> Option<Duration> {
        if !spec_keys_clash(harmonic) && self.bias == BarPhaseBias::AtOrBefore && self.overlap@
            >= MIN_AUDIBLE_MIX_OVERLAP_NANOS {
            Some(
                Duration {
                    nanos: spec_min(
                        MAX_SHORTER_TRANSITION_SEARCH_NANOS as int,
                        self.overlap@,
                    ) as u128,
                },
            )
        } else {
            None
        }
    }

    /// Where a start is looked for besides the default one.
    pub open spec fn searches(&self, incoming: TrackAnalysis, harmonic: Option<u32>) -> Seq<
        StartSearch,
    > {
        if !self.beat_aligned {
            seq![StartSearch::Grid { window: self.overlap, bias: self.bias }]
        } else {
            let phrases = phrases_may_align(incoming, harmonic);
            let near = searches_in(phrases, self.marker_window(), self.bias);
            match self.shorter_window(harmonic) {
                Some(window) => near + searches_in(phrases, window, BarPhaseBias::AtOrAfter),
                None => near,
            }
        }
    }

    /// Where a start is looked for besides the default one: with aligned beats in
    /// the phase of phrases and bars and at beats, and past the target as well where
    /// a shorter overlap may do; else every so often.
    pub fn start_searches(&self, incoming: &TrackAnalysis, harmonic: Option<u32>) -> (r: Vec<
        StartSearch,
    >)
        ensures
            r@ == self.searches(*incoming, harmonic),
    {
        let mut searches: Vec<StartSearch> = Vec::new();
        if !self.beat_aligned {
            searches.push(StartSearch::Grid { window: self.overlap, bias: self.bias });
            return searches;
        }
        let phrases: bool = may_align_phrases(incoming, harmonic);
        let window = marker_search_window(self.overlap, true);
        assert(window == self.marker_window());
        push_searches(&mut searches, phrases, window, self.bias);
        assert(searches@ =~= searches_in(phrases, window, self.bias));
        if may_search_shorter(harmonic) {
            if let Some(window) = shorter_transition_search_window(self.overlap, self.bias) {
                assert(self.shorter_window(harmonic) == Some(window));
                push_searches(&mut searches, phrases, window, BarPhaseBias::AtOrAfter);
            }
        }
        searches
    }

    /// The plan of a candidate start, whose tempo map consumes so much of the
    /// incoming track. `None` where the incoming track ends before the overlap
    /// does, or vocals allow less than the overlap.
    pub fn candidate_plan(
        &self,
        incoming: &TrackAnalysis,
        harmonic: Option<u32>,
        outgoing_start: Duration,
        duration: Duration,
        tempo: (u32, Option<TempoEnvelope>),
        incoming_source: Duration,
        limit: Duration,
    ) -> (r: Option<TransitionPlan>)
        ensures
            r is Some <==> spec_min(self.incoming_start@ + incoming_source@, MAX_NANOS as int)
                <= spec_min(incoming.audible_end@ + END_TOLERANCE_NANOS, MAX_NANOS as int)
                && duration@ <= limit@,
            r matches Some(plan) ==> plan == (TransitionPlan {
                kind: if self.beat_aligned {
                    TransitionKind::BeatMatched
                } else {
                    TransitionKind::Crossfade
                },
                outgoing_start,
                incoming_start: self.incoming_start,
                incoming_cue_selection: None,
                duration,
                incoming_tempo_ratio: tempo.0,
                harmonic_compatibility: harmonic,
                incoming_gain: scalar::ONE_BITS,
                tempo_envelope: tempo.1,
                energy_selection: None,
            }),
    {
        let incoming_end = self.incoming_start.saturating_add(incoming_source);
        let latest = incoming.audible_end.saturating_add(Duration { nanos: END_TOLERANCE_NANOS });
        if latest.shorter(incoming_end) || limit.shorter(duration) {
            return None;
        }
        Some(
            TransitionPlan {
                kind: if self.beat_aligned {
                    TransitionKind::BeatMatched
                } else {
                    TransitionKind::Crossfade
                },
                outgoing_start,
                incoming_start: self.incoming_start,
                incoming_cue_selection: None,
                duration,
                incoming_tempo_ratio: tempo.0,
                harmonic_compatibility: harmonic,
                incoming_gain: scalar::ONE_BITS,
                tempo_envelope: tempo.1,
                energy_selection: None,
            },
        )
    }
}

/// Whether a candidate of the phrase phase lies in the search window.
pub open spec fn in_search_window(
    candidate: Duration,
    target: Duration,
    search_window: Duration,
    bias: BarPhaseBias,
) -> bool {
    match bias {
        BarPhaseBias::AtOrBefore => target@ - search_window@ <= candidate@ <= target@,
        BarPhaseBias::AtOrAfter => target@ <= candidate@ <= spec_min(
            target@ + search_window@,
            MAX_NANOS as int,
        ),
    }
}

/// The marker that backs a start in the phase of the incoming phrases: it lies in
/// the search window and an overlap may start there.
pub fn accept_phrase_start(
    outgoing: &TrackAnalysis,
    candidate: Duration,
    target: Duration,
    search_window: Duration,
    bias: BarPhaseBias,
) -> (r: Option<Duration>)
    ensures
        r == if in_search_window(candidate, target, search_window, bias) && may_start(
            *outgoing,
            candidate,
        ) {
            outgoing.marker_near(candidate, Duration { nanos: MAX_BEATMATCH_PHASE_ERROR_NANOS })
        } else {
            None
        },
{
    let inside = match bias {
        BarPhaseBias::AtOrBefore => target.saturating_sub(search_window).within(candidate)
            && candidate.within(target),
        BarPhaseBias::AtOrAfter => target.within(candidate) && candidate.within(
            target.saturating_add(search_window),
        ),
    };
    if inside && valid_outgoing_start(outgoing, candidate) {
        outgoing.trusted_marker_near(
            candidate,
            Duration { nanos: MAX_BEATMATCH_PHASE_ERROR_NANOS },
        )
    } else {
        None
    }
}

/// The marker that backs a start in the phase of the incoming bars, inside the
/// audible part.
pub fn accept_bar_start(outgoing: &TrackAnalysis, candidate: Duration) -> (r: Option<Duration>)
    ensures
        r == if outgoing.audible_start@ <= candidate@ <= outgoing.audible_end@ {
            outgoing.marker_near(candidate, Duration { nanos: MAX_BEATMATCH_PHASE_ERROR_NANOS })
        } else {
            None
        },
{
    if outgoing.audible_start.within(candidate) && candidate.within(outgoing.audible_end) {
        outgoing.trusted_marker_near(
            candidate,
            Duration { nanos: MAX_BEATMATCH_PHASE_ERROR_NANOS },
        )
    } else {
        None
    }
}

/// Whether a cue is a better boundary than another: of a longer phrase, or as long
/// and later.
pub open spec fn stronger_cue(cue: PhraseCue, other: PhraseCue) -> bool {
    cue.length.spec_bars() > other.length.spec_bars() || cue.length == other.length
        && cue.position@ > other.position@
}

/// Whether a cue is the strongest of a list inside a window up to a target.
pub open spec fn is_strongest_cue(
    cues: Seq<PhraseCue>,
    index: int,
    earliest: int,
    target: int,
) -> bool {
    &&& 0 <= index < cues.len()
    &&& earliest <= cues[index].position@ <= target
    &&& forall|other: int|
        0 <= other < cues.len() && earliest <= (#[trigger] cues[other]).position@ <= target
            ==> !stronger_cue(cues[other], cues[index])
}

/// The strongest phrase boundary in a window up to a target: of the longest phrase,
/// and the latest of those.
pub fn strongest_phrase_cue(
    cues: &Vec<PhraseCue>,
    target: Duration,
    search_window: Duration,
) -> (r: Option<PhraseCue>)
    ensures
        ({
            let earliest = spec_max(target@ - search_window@, 0);
            &&& r is Some <==> exists|i: int|
                0 <= i < cues@.len() && earliest <= (#[trigger] cues@[i]).position@ <= target@
            &&& r matches Some(cue) ==> exists|i: int| #[trigger]
                is_strongest_cue(cues@, i, earliest, target@) && cues@[i] == cue
        }),
{
    let earliest = target.saturating_sub(search_window);
    let mut best: Option<usize> = None;
    let mut i: usize = 0;
    while i < cues.len()
        invariant
            i <= cues@.len(),
            best is None ==> forall|k: int|
                0 <= k < i ==> !(earliest@ <= (#[trigger] cues@[k]).position@ <= target@),
            best matches Some(index) ==> {
                &&& index < i
                &&& earliest@ <= cues@[index as int].position@ <= target@
                &&& forall|k: int|
                    0 <= k < i && earliest@ <= (#[trigger] cues@[k]).position@ <= target@
                        ==> !stronger_cue(cues@[k], cues@[index as int])
            },
        decreases cues@.len() - i,
    {
        let cue = cues[i];
        if earliest.within(cue.position) && cue.position.within(target) {
            let stronger = match best {
                None => true,
                Some(index) => {
                    let found = cues[index];
                    found.length.bars() < cue.length.bars() || found.length == cue.length
                        && found.position.within(cue.position)
                },
            };
            if stronger {
                best = Some(i);
            }
        }
        i += 1;
    }
    match best {
        Some(index) => {
            assert(is_strongest_cue(cues@, index as int, earliest@, target@));
            Some(cues[index])
        },
        None => None,
    }
}

/// Starts of the outgoing track that line up with the phrases of the incoming one,
/// by the length of the phrase.
#[derive(Clone, Copy, Debug, PartialEq, Eq, Structural)]
pub struct PhraseStarts {
    pub sixteen: Option<Duration>,
    pub eight: Option<Duration>,
    pub four: Option<Duration>,
}

impl PhraseStarts {
    /// The start of the longest phrase that has one.
    pub open spec fn spec_strongest(self) -> Option<Duration> {
        if self.sixteen is Some {
            self.sixteen
        } else if self.eight is Some {
            self.eight
        } else {
            self.four
        }
    }

    /// The start of the longest phrase that has one.
    pub fn strongest(self) -> (r: Option<Duration>)
        ensures
            r == self.spec_strongest(),
    {
        if self.sixteen.is_some() {
            self.sixteen
        } else if self.eight.is_some() {
            self.eight
        } else {
            self.four
        }
    }
}

/// Starts that were found for the outgoing track.
#[derive(Clone, Copy, Debug, PartialEq, Eq, Structural)]
pub struct Alignments {
    /// In the phase of the incoming phrases.
    pub phrases: PhraseStarts,
    /// At the strongest phrase boundary of the outgoing track itself.
    pub own_phrase: Option<Duration>,
    /// In the phase of the incoming bars.
    pub bar: Option<Duration>,
    /// At a beat up to the target, and from it on.
    pub beat_before: Duration,
    pub beat_after: Duration,
    /// At the beat nearest to the target.
    pub nearest_beat: Option<Duration>,
}

impl Aim {
    /// The start in the phase of phrases: where phrases may be aligned, that of the
    /// longest phrase, or before the target the track's own boundary.
    pub open spec fn phrase_start(
        self,
        incoming: TrackAnalysis,
        harmonic: Option<u32>,
        found: Alignments,
    ) -> Option<Duration> {
        if !phrases_may_align(incoming, harmonic) {
            None
        } else if found.phrases.spec_strongest() is Some {
            found.phrases.spec_strongest()
        } else if self.bias == BarPhaseBias::AtOrBefore {
            found.own_phrase
        } else {
            None
        }
    }

    /// The start that a plan takes unless energy speaks for another.
    pub open spec fn spec_default_start(
        self,
        incoming: TrackAnalysis,
        harmonic: Option<u32>,
        found: Alignments,
    ) -> Duration {
        let phrase = self.phrase_start(incoming, harmonic, found);
        if !self.beat_aligned {
            self.target
        } else if phrase is Some {
            phrase->0
        } else if found.bar is Some {
            found.bar->0
        } else if self.vocal_constrained {
            found.beat_after
        } else if self.structure_adaptive {
            if found.nearest_beat is Some {
                found.nearest_beat->0
            } else {
                self.target
            }
        } else {
            found.beat_before
        }
    }

    /// The start that a plan takes unless energy speaks for another: without
    /// aligned beats the target itself; else in the phase of phrases, of bars, or
    /// at a beat.
    pub fn default_start(
        &self,
        incoming: &TrackAnalysis,
        harmonic: Option<u32>,
        found: &Alignments,
    ) -> (r: Duration)
        ensures
            r == self.spec_default_start(*incoming, harmonic, *found),
    {
        if !self.beat_aligned {
            return self.target;
        }
        if may_align_phrases(incoming, harmonic) {
            if let Some(start) = found.phrases.strongest() {
                return start;
            }
            if self.bias == BarPhaseBias::AtOrBefore {
                if let Some(start) = found.own_phrase {
                    return start;
                }
            }
        }
        if let Some(start) = found.bar {
            return start;
        }
        if self.vocal_constrained {
            return found.beat_after;
        }
        if self.structure_adaptive {
            return match found.nearest_beat {
                Some(beat) => beat,
                None => self.target,
            };
        }
        found.beat_before
    }

    /// Drafts the plan with the start that was selected: the overlap lasts to the
    /// audible end.
    pub fn on_selected(
        &self,
        outgoing: &TrackAnalysis,
        start: Duration,
        energy_selection: Option<AutoMixEnergySelection>,
    ) -> (r: Draft)
        ensures
            r.beat_aligned == self.beat_aligned,
            r.incoming_start == self.incoming_start,
            r.outgoing_start == start,
            r.duration@ == spec_max(outgoing.audible_end@ - start@, 0),
            r.energy_selection == energy_selection,
    {
        Draft {
            beat_aligned: self.beat_aligned,
            incoming_start: self.incoming_start,
            outgoing_start: start,
            duration: outgoing.audible_end.saturating_sub(start),
            energy_selection,
        }
    }

    /// Drafts the plan anew after the tempo map showed the overlap to be too long:
    /// it starts at the target of the shorter overlap, or at the first aligned
    /// place from there on. The selection by energy no longer holds.
    pub fn on_tightened(
        &self,
        outgoing: &TrackAnalysis,
        target: Duration,
        phrases: PhraseStarts,
        bar: Option<Duration>,
        beat_after: Duration,
    ) -> (r: Draft)
        ensures
            r.beat_aligned == self.beat_aligned,
            r.incoming_start == self.incoming_start,
            r.energy_selection is None,
            r.outgoing_start == if !self.beat_aligned {
                target
            } else if phrases.spec_strongest() is Some {
                phrases.spec_strongest()->0
            } else if bar is Some {
                bar->0
            } else {
                beat_after
            },
            r.duration@ == spec_max(outgoing.audible_end@ - r.outgoing_start@, 0),
    {
        let start = if !self.beat_aligned {
            target
        } else {
            match phrases.strongest() {
                Some(start) => start,
                None => match bar {
                    Some(start) => start,
                    None => beat_after,
                },
            }
        };
        self.on_selected(outgoing, start, None)
    }
}

/// A plan whose start is chosen and whose tempo map can be built.
#[derive(Clone, Copy, Debug, PartialEq, Eq, Structural)]
pub struct Draft {
    pub beat_aligned: bool,
    pub incoming_start: Duration,
    pub outgoing_start: Duration,
    pub duration: Duration,
    pub energy_selection: Option<AutoMixEnergySelection>,
}

/// What follows from the vocal limit of a draft.
#[derive(Clone, Debug)]
pub enum DraftStep {
    /// No overlap is left.
    Finished(TransitionPlan),
    /// The overlap fits.
    Kept,
    /// The overlap is too long; it should start at this target.
    Tighten(Duration),
}

/// What follows from the vocal limit of the final draft.
#[derive(Clone, Debug)]
pub enum FinalStep {
    Finished(TransitionPlan),
    /// The tempo map has to be given up; the limit at native tempo decides.
    MeasureNativeLimit,
}

/// Whether a plan carries what a draft holds, beyond its kind, times and tempo.
pub open spec fn plan_of_draft(
    plan: TransitionPlan,
    draft: Draft,
    harmonic: Option<u32>,
) -> bool {
    &&& plan.incoming_start == draft.incoming_start
    &&& plan.incoming_cue_selection is None
    &&& plan.harmonic_compatibility == harmonic
    &&& plan.incoming_gain == scalar::ONE_BITS
}

/// Whether a plan is what a draft settles to, given its vocal limit through the
/// tempo map and the one at native tempo: gapless where no overlap is left, the
/// draft itself where it keeps the limit, and else a crossfade at native tempo.
pub open spec fn is_settled(
    plan: TransitionPlan,
    draft: Draft,
    outgoing: TrackAnalysis,
    incoming: TrackAnalysis,
    limit: Duration,
    native_limit: Duration,
) -> bool {
    if limit@ == 0 || limit@ < draft.duration@ && native_limit@ == 0 {
        is_gapless_plan(plan, outgoing, incoming)
    } else if limit@ >= draft.duration@ {
        &&& plan.outgoing_start == draft.outgoing_start
        &&& plan.duration == draft.duration
    } else {
        &&& plan.kind == TransitionKind::Crossfade
        &&& plan.outgoing_start@ == spec_max(outgoing.audible_end@ - native_limit@, 0)
        &&& plan.duration == native_limit
        &&& plan.tempo_envelope is None
    }
}

impl Draft {
    /// Holds the draft against the vocal limit through its tempo map.
    pub fn on_vocal_limit(
        &self,
        outgoing: &TrackAnalysis,
        incoming: &TrackAnalysis,
        limit: Duration,
    ) -> (r: DraftStep)
        ensures
            r is Finished <==> limit@ == 0,
            r is Kept <==> limit@ > 0 && limit@ >= self.duration@,
            r matches DraftStep::Finished(plan) ==> is_gapless_plan(plan, *outgoing, *incoming),
            r matches DraftStep::Tighten(target) ==> limit@ < self.duration@ && target@ == spec_max(
                outgoing.audible_end@ - limit@,
                0,
            ),
    {
        if limit.is_zero() {
            DraftStep::Finished(gapless_plan(outgoing, incoming))
        } else if limit.shorter(self.duration) {
            DraftStep::Tighten(outgoing.audible_end.saturating_sub(limit))
        } else {
            DraftStep::Kept
        }
    }

    /// Finishes the plan if the final draft keeps its vocal limit: with the tempo
    /// map, and beat-matched where its beats are aligned.
    pub fn on_final_limit(
        &self,
        outgoing: &TrackAnalysis,
        incoming: &TrackAnalysis,
        harmonic: Option<u32>,
        tempo_ratio: u32,
        tempo_envelope: Option<TempoEnvelope>,
        limit: Duration,
    ) -> (r: FinalStep)
        ensures
            r is MeasureNativeLimit <==> 0 < limit@ < self.duration@,
            limit@ == 0 ==> r is Finished && is_gapless_plan(r->0, *outgoing, *incoming),
            limit@ > 0 && limit@ >= self.duration@ ==> {
                &&& r is Finished
                &&& plan_of_draft(r->0, *self, harmonic)
                &&& r->0.kind == if self.beat_aligned {
                    TransitionKind::BeatMatched
                } else {
                    TransitionKind::Crossfade
                }
                &&& r->0.outgoing_start == self.outgoing_start
                &&& r->0.duration == self.duration
                &&& r->0.duration@ <= limit@
                &&& r->0.incoming_tempo_ratio == tempo_ratio
                &&& r->0.tempo_envelope == tempo_envelope
                &&& r->0.energy_selection == self.energy_selection
            },
            r is Finished ==> is_settled(r->0, *self, *outgoing, *incoming, limit, limit),
    {
        if limit.is_zero() {
            return FinalStep::Finished(gapless_plan(outgoing, incoming));
        }
        if limit.shorter(self.duration) {
            return FinalStep::MeasureNativeLimit;
        }
        FinalStep::Finished(
            TransitionPlan {
                kind: if self.beat_aligned {
                    TransitionKind::BeatMatched
                } else {
                    TransitionKind::Crossfade
                },
                outgoing_start: self.outgoing_start,
                incoming_start: self.incoming_start,
                incoming_cue_selection: None,
                duration: self.duration,
                incoming_tempo_ratio: tempo_ratio,
                harmonic_compatibility: harmonic,
                incoming_gain: scalar::ONE_BITS,
                tempo_envelope,
                energy_selection: self.energy_selection,
            },
        )
    }

    /// Finishes the plan at native tempo: a crossfade as long as the native vocal
    /// limit, which ends with the outgoing track; gapless where nothing is left.
    pub fn on_native_limit(
        &self,
        outgoing: &TrackAnalysis,
        incoming: &TrackAnalysis,
        harmonic: Option<u32>,
        limit: Duration,
    ) -> (r: TransitionPlan)
        ensures
            limit@ == 0 ==> is_gapless_plan(r, *outgoing, *incoming),
            limit@ > 0 ==> {
                &&& plan_of_draft(r, *self, harmonic)
                &&& r.kind == TransitionKind::Crossfade
                &&& r.duration == limit
                &&& r.outgoing_start@ == spec_max(outgoing.audible_end@ - limit@, 0)
                &&& r.incoming_tempo_ratio == scalar::ONE_BITS
                &&& r.tempo_envelope is None
                &&& r.energy_selection is None
            },
            forall|mapped_limit: Duration|
                0 < mapped_limit@ < self.duration@ ==> #[trigger] is_settled(
                    r,
                    *self,
                    *outgoing,
                    *incoming,
                    mapped_limit,
                    limit,
                ),
    {
        if limit.is_zero() {
            return gapless_plan(outgoing, incoming);
        }
        TransitionPlan {
            kind: TransitionKind::Crossfade,
            outgoing_start: outgoing.audible_end.saturating_sub(limit),
            incoming_start: self.incoming_start,
            incoming_cue_selection: None,
            duration: limit,
            incoming_tempo_ratio: scalar::ONE_BITS,
            harmonic_compatibility: harmonic,
            incoming_gain: scalar::ONE_BITS,
            tempo_envelope: None,
            energy_selection: None,
        }
    }
}

/// The search for the cue at which a beat-matched transition starts best.
#[derive(Clone, Debug)]
pub struct CueSearch {
    /// The first cue, `None` when there is none.
    pub default_start: Option<Duration>,
    pub candidates: usize,
    /// The best plan so far, with the bits of its score.
    pub best: Option<(TransitionPlan, u32)>,
}

/// Whether the search replaces its best plan by one with this score.
pub open spec fn replaces(best: Option<(TransitionPlan, u32)>, with_margin: u32) -> bool {
    best is None || scalar::spec_less(with_margin, (best->0).1)
}

impl CueSearch {
    /// A search over cues.
    pub fn new(cues: &Vec<Duration>) -> (r: Self)
        ensures
            r.default_start == if cues@.len() > 0 {
                Some(cues@[0])
            } else {
                None
            },
            r.candidates == cues@.len(),
            r.best is None,
    {
        CueSearch {
            default_start: if cues.len() > 0 {
                Some(cues[0])
            } else {
                None
            },
            candidates: cues.len(),
            best: None,
        }
    }

    /// The plan of a cue, with the note of how it was selected.
    pub open spec fn noted(&self, plan: TransitionPlan, cue: Duration) -> TransitionPlan {
        TransitionPlan {
            incoming_cue_selection: if self.default_start is Some {
                Some(
                    AutoMixIncomingCueSelection {
                        default_start: self.default_start->0,
                        selected_start: cue,
                        candidates_checked: self.candidates,
                    },
                )
            } else {
                None
            },
            ..plan
        }
    }

    /// Offers the plan of a cue. Only a beat-matched plan with a score counts; it
    /// becomes the best if there is none yet or if it wins by the margin.
    pub fn offer(
        &mut self,
        plan: TransitionPlan,
        cue: Duration,
        score: Option<u32>,
        with_margin: u32,
    )
        ensures
            final(self).default_start == old(self).default_start,
            final(self).candidates == old(self).candidates,
            final(self).best == if plan.kind == TransitionKind::BeatMatched && score is Some
                && replaces(old(self).best, with_margin) {
                Some((old(self).noted(plan, cue), score->0))
            } else {
                old(self).best
            },
    {
        if plan.kind != TransitionKind::BeatMatched {
            return;
        }
        let score = match score {
            Some(score) => score,
            None => {
                return;
            },
        };
        let better = match &self.best {
            None => true,
            Some((_, best_score)) => scalar::less(with_margin, *best_score),
        };
        if better {
            let mut chosen = plan;
            chosen.incoming_cue_selection = match self.default_start {
                Some(default_start) => Some(
                    AutoMixIncomingCueSelection {
                        default_start,
                        selected_start: cue,
                        candidates_checked: self.candidates,
                    },
                ),
                None => None,
            };
            self.best = Some((chosen, score));
        }
    }

    /// The plan that is carried out: the best beat-matched one, else the crossfade
    /// that was planned at the audible start.
    pub fn conclude(self, crossfade: TransitionPlan) -> (r: TransitionPlan)
        ensures
            r == if self.best is Some {
                (self.best->0).0
            } else {
                crossfade
            },
    {
        match self.best {
            Some((plan, _)) => plan,
            None => crossfade,
        }
    }
}

/// Whether beats may be matched at all: enough trusted markers on both tracks, and
/// a tempo that both can play at.
pub fn may_beatmatch(
    outgoing: &TrackAnalysis,
    incoming: &TrackAnalysis,
    tempo_curve: Option<u32>,
) -> (r: bool)
    ensures
        r == (marker_evidence(*outgoing) && marker_evidence(*incoming) && tempo_curve is Some),
{
    outgoing.has_trusted_marker_evidence() && incoming.has_trusted_marker_evidence()
        && tempo_curve.is_some()
}

/// Whether a track has enough trusted markers to establish a phase.
pub open spec fn marker_evidence(track: TrackAnalysis) -> bool {
    super::track::trusted_among(
        track.beat_marker_confidences@,
        spec_min(track.beat_markers@.len() as int, track.beat_marker_confidences@.len() as int),
    ) >= super::track::MIN_MARKER_BACKED_KICK_MARKERS
}

/// Every planned overlap keeps the vocal limit that was last measured for it, and
/// ends with the outgoing track wherever it starts inside it: with its tempo map,
/// and without where that had to be given up.
pub proof fn overlaps_respect_their_vocal_limit(
    outgoing: TrackAnalysis,
    incoming: TrackAnalysis,
    draft: Draft,
    plan: TransitionPlan,
    limit: Duration,
    native_limit: Duration,
)
    requires
        draft.duration@ == spec_max(outgoing.audible_end@ - draft.outgoing_start@, 0),
        is_settled(plan, draft, outgoing, incoming, limit, native_limit),
    ensures
        plan.duration@ <= spec_max(limit@, native_limit@),
        plan.tempo_envelope is Some ==> plan.duration@ <= limit@,
        limit@ < draft.duration@ ==> plan.kind != TransitionKind::BeatMatched,
        plan.outgoing_start@ < outgoing.audible_end@ && plan.duration@ <= outgoing.audible_end@
            ==> plan.outgoing_start@ + plan.duration@ == outgoing.audible_end@,
{
}

/// Of the tempo ratio as it is, doubled and halved, the one nearest to native speed is
/// taken, the earlier where two are as near; a ratio that is no positive finite number is
/// never taken, and there is one unless all three are such.
pub proof fn nearest_usable_ratio_is_taken(raw: TempoRatio, double: TempoRatio, half: TempoRatio)
    ensures
        ({
            let taken = nearer_ratio(nearer_ratio(nearer_ratio(None, raw), double), half);
            let can = |ratio: TempoRatio|
                scalar::spec_is_finite(ratio.ratio) && scalar::spec_less(0, ratio.ratio);
            let far = |ratio: TempoRatio| scalar::total_key(ratio.distance);
            &&& taken is Some <==> can(raw) || can(double) || can(half)
            &&& taken matches Some(ratio) ==> {
                &&& ratio == raw || ratio == double || ratio == half
                &&& can(ratio)
                &&& can(raw) ==> far(ratio) <= far(raw)
                &&& can(double) ==> far(ratio) <= far(double)
                &&& can(half) ==> far(ratio) <= far(half)
                &&& can(raw) && far(raw) == far(ratio) ==> ratio == raw
                &&& ratio == half && ratio != double && ratio != raw && can(double) ==> far(half)
                    < far(double)
            }
        }),
{
}

/// Two tempos match only where both are known and trusted, between 20 and 300 beats per
/// minute, and one ratio of them lies within the adjustment allowed; then they do.
pub proof fn tempos_match_within_the_adjustment(
    outgoing: TrackAnalysis,
    incoming: TrackAnalysis,
    config: AutoMixConfig,
    both_confident: bool,
    closest: Option<TempoRatio>,
)
    ensures
        ({
            let matches = tempos_are_compatible(
                outgoing,
                incoming,
                config,
                both_confident,
                closest,
            );
            let in_range = |bpm: Option<u32>|
                bpm is Some && scalar::spec_at_most(0x41A0_0000, bpm->0) && scalar::spec_at_most(
                    bpm->0,
                    0x4396_0000,
                );
            &&& matches ==> both_confident
            &&& !in_range(outgoing.bpm) ==> !matches
            &&& !in_range(incoming.bpm) ==> !matches
            &&& closest is None ==> !matches
            &&& matches ==> scalar::spec_at_most(closest->0.distance, config.max_tempo_adjustment)
            &&& matches ==> scalar::spec_is_finite(closest->0.ratio)
            &&& both_confident && in_range(outgoing.bpm) && in_range(incoming.bpm) && closest
                is Some && scalar::spec_is_finite(closest->0.ratio) && scalar::spec_at_most(
                closest->0.distance,
                config.max_tempo_adjustment,
            ) ==> matches
        }),
{
}

/// Without beats to align the starts are searched on a grid. With them those in the phase
/// of a 16-beat phrase come first where phrases may align, then those in the phase of a
/// bar of four, then those at a beat; short overlaps look up to eight seconds away. A
/// shorter transition is searched after the target, in at most eight seconds, unless the
/// keys clash or less than a second is left.
pub proof fn searches_go_from_phrases_to_beats(
    aim: Aim,
    incoming: TrackAnalysis,
    harmonic: Option<u32>,
)
    ensures
        ({
            let searches = aim.searches(incoming, harmonic);
            let phrases = phrases_may_align(incoming, harmonic);
            let clash = harmonic is Some && scalar::spec_less(harmonic->0, 0x3F00_0000);
            let near = Duration {
                nanos: if aim.overlap@ < 4_000_000_000 {
                    8_000_000_000
                } else {
                    aim.overlap.nanos
                },
            };
            let short = Duration {
                nanos: if aim.overlap@ < 8_000_000_000 {
                    aim.overlap.nanos
                } else {
                    8_000_000_000
                },
            };
            let again = !clash && aim.bias == BarPhaseBias::AtOrBefore && aim.overlap@
                >= 1_000_000_000;
            let bars = if phrases {
                1int
            } else {
                0
            };
            &&& !aim.beat_aligned ==> searches.len() == 1 && searches[0] == (StartSearch::Grid {
                window: aim.overlap,
                bias: aim.bias,
            })
            &&& aim.beat_aligned ==> {
                &&& searches.len() == if again {
                    2 * (bars + 2)
                } else {
                    bars + 2
                }
                &&& phrases ==> searches[0] == (StartSearch::Phase {
                    beats: 16,
                    window: near,
                    bias: aim.bias,
                })
                &&& searches[bars] == (StartSearch::Phase {
                    beats: 4,
                    window: near,
                    bias: aim.bias,
                })
                &&& searches[bars + 1] == (StartSearch::Beats { window: near, bias: aim.bias })
                &&& again && phrases ==> searches[3] == (StartSearch::Phase {
                    beats: 16,
                    window: short,
                    bias: BarPhaseBias::AtOrAfter,
                })
                &&& again ==> searches[2 * bars + 2] == (StartSearch::Phase {
                    beats: 4,
                    window: short,
                    bias: BarPhaseBias::AtOrAfter,
                })
                &&& again ==> searches[2 * bars + 3] == (StartSearch::Beats {
                    window: short,
                    bias: BarPhaseBias::AtOrAfter,
                })
            }
        }),
{
}

/// A search window reaches from the target to the side that is searched, and holds just
/// what lies no further away than its length.
pub proof fn windows_reach_from_the_target(
    candidate: Duration,
    target: Duration,
    window: Duration,
)
    requires
        candidate@ <= MAX_NANOS,
    ensures
        in_search_window(candidate, target, window, BarPhaseBias::AtOrBefore) <==> 0 <= target@
            - candidate@ <= window@,
        in_search_window(candidate, target, window, BarPhaseBias::AtOrAfter) <==> 0 <= candidate@
            - target@ <= window@,
{
}

/// A cue of a longer phrase is stronger wherever it stands, of two of one length the later
/// one is, and no cue is stronger than one that is stronger than it.
pub proof fn longer_and_later_cues_are_stronger(cue: PhraseCue, other: PhraseCue)
    ensures
        cue.length is SixteenBars && !(other.length is SixteenBars) ==> stronger_cue(cue, other),
        cue.length is EightBars && other.length is FourBars ==> stronger_cue(cue, other),
        cue.length == other.length ==> (stronger_cue(cue, other) <==> cue.position@
            > other.position@),
        stronger_cue(cue, other) ==> !stronger_cue(other, cue),
{
}

/// The strongest start is that of sixteen bars, without it that of eight, and only without
/// both that of four.
pub proof fn longest_phrase_start_is_strongest(starts: PhraseStarts)
    ensures
        starts.sixteen is Some ==> starts.spec_strongest() == starts.sixteen,
        starts.sixteen is None && starts.eight is Some ==> starts.spec_strongest() == starts.eight,
        starts.sixteen is None && starts.eight is None ==> starts.spec_strongest() == starts.four,
{
}

/// Without beats to align the start stays at the target. With them it is a phrase start
/// where phrases may align and one was found, else a bar start; failing both it is the
/// beat after the target where vocals constrain it, the nearest beat where the structure
/// was adapted to, and the beat before it otherwise. A phrase of the outgoing track alone
/// counts only up to the target.
pub proof fn default_starts_prefer_phrases_then_bars(
    aim: Aim,
    incoming: TrackAnalysis,
    harmonic: Option<u32>,
    found: Alignments,
)
    ensures
        ({
            let start = aim.spec_default_start(incoming, harmonic, found);
            let phrases = phrases_may_align(incoming, harmonic);
            let shared = found.phrases.sixteen is Some || found.phrases.eight is Some
                || found.phrases.four is Some;
            let own = found.own_phrase is Some && aim.bias == BarPhaseBias::AtOrBefore;
            let phrase = phrases && (shared || own);
            &&& !aim.beat_aligned ==> start == aim.target
            &&& aim.beat_aligned && phrases && found.phrases.sixteen is Some ==> Some(start)
                == found.phrases.sixteen
            &&& aim.beat_aligned && phrases && found.phrases.sixteen is None
                && found.phrases.eight is Some ==> Some(start) == found.phrases.eight
            &&& aim.beat_aligned && phrases && found.phrases.sixteen is None
                && found.phrases.eight is None && found.phrases.four is Some ==> Some(start)
                == found.phrases.four
            &&& aim.beat_aligned && phrases && !shared && own ==> Some(start) == found.own_phrase
            &&& aim.beat_aligned && !phrase && found.bar is Some ==> Some(start) == found.bar
            &&& aim.beat_aligned && !phrase && found.bar is None ==> {
                &&& aim.vocal_constrained ==> start == found.beat_after
                &&& !aim.vocal_constrained && aim.structure_adaptive && found.nearest_beat
                    is Some ==> Some(start) == found.nearest_beat
                &&& !aim.vocal_constrained && aim.structure_adaptive && found.nearest_beat
                    is None ==> start == aim.target
                &&& !aim.vocal_constrained && !aim.structure_adaptive ==> start
                    == found.beat_before
            }
        }),
{
}

/// A draft that its vocal limit allows is kept, one without any overlap left is joined
/// gaplessly, and any other is a plain crossfade over what the native limit leaves, up to
/// the audible end of the outgoing track.
pub proof fn drafts_are_kept_or_shortened(
    plan: TransitionPlan,
    draft: Draft,
    outgoing: TrackAnalysis,
    incoming: TrackAnalysis,
    limit: Duration,
    native_limit: Duration,
)
    requires
        is_settled(plan, draft, outgoing, incoming, limit, native_limit),
    ensures
        limit@ == 0 ==> plan.kind == TransitionKind::Gapless && plan.duration@ == 0
            && plan.outgoing_start == outgoing.audible_end && plan.incoming_start
            == incoming.audible_start,
        limit@ < draft.duration@ && native_limit@ == 0 ==> plan.kind == TransitionKind::Gapless
            && plan.duration@ == 0,
        0 < limit@ && draft.duration@ <= limit@ ==> plan.outgoing_start == draft.outgoing_start
            && plan.duration == draft.duration,
        0 < limit@ < draft.duration@ && 0 < native_limit@ <= outgoing.audible_end@ ==> {
            &&& plan.kind == TransitionKind::Crossfade
            &&& plan.duration@ == native_limit@
            &&& plan.outgoing_start@ + native_limit@ == outgoing.audible_end@
            &&& plan.tempo_envelope is None
        },
{
}

/// A plan takes the place of the best one so far only where its cost, with the margin
/// added, is below the best one's; so equal costs never displace it.
pub proof fn only_cheaper_plans_replace_the_best(
    best: Option<(TransitionPlan, u32)>,
    with_margin: u32,
)
    ensures
        best is None ==> replaces(best, with_margin),
        best matches Some(kept) ==> {
            &&& replaces(best, with_margin) ==> scalar::spec_less(with_margin, kept.1)
            &&& scalar::spec_less(with_margin, kept.1) ==> replaces(best, with_margin)
            &&& with_margin == kept.1 ==> !replaces(best, with_margin)
        },
{
}

/// Markers speak for a track's beats from eight trusted ones on; fewer markers than eight
/// never do.
pub proof fn eight_trusted_markers_are_evidence(track: TrackAnalysis)
    requires
        track.beat_markers@.len() == track.beat_marker_confidences@.len(),
    ensures
        marker_evidence(track) <==> super::track::trusted_among(
            track.beat_marker_confidences@,
            track.beat_markers@.len() as int,
        ) >= 8,
        track.beat_markers@.len() < 8 ==> !marker_evidence(track),
{
    super::track::lemma_trusted_among_fits(
        track.beat_marker_confidences@,
        track.beat_markers@.len() as int,
    );
}

/// The strongest cue lies between the earliest position and the target, and none there is
/// of a longer phrase, or of as long a one and later.
pub proof fn strongest_cues_are_long_and_late(
    cues: Seq<PhraseCue>,
    index: int,
    earliest: int,
    target: int,
    other: int,
)
    requires
        is_strongest_cue(cues, index, earliest, target),
        0 <= other < cues.len(),
        earliest <= cues[other].position@ <= target,
    ensures
        earliest <= cues[index].position@ <= target,
        cues[other].length is SixteenBars ==> cues[index].length is SixteenBars,
        cues[other].length is EightBars ==> !(cues[index].length is FourBars),
        cues[other].length == cues[index].length ==> cues[other].position@
            <= cues[index].position@,
{
}

/// A cue that was selected is noted with the default it replaced and the number of
/// candidates, and nothing else of the plan changes; without a default nothing is noted.
pub proof fn selections_are_noted(search: CueSearch, plan: TransitionPlan, cue: Duration)
    ensures
        ({
            let noted = search.noted(plan, cue);
            &&& search.default_start is None ==> noted.incoming_cue_selection is None
            &&& search.default_start matches Some(start) ==> {
                &&& noted.incoming_cue_selection matches Some(selection)
                &&& selection.default_start == start
                &&& selection.selected_start == cue
                &&& selection.candidates_checked == search.candidates
            }
            &&& noted.kind == plan.kind
            &&& noted.outgoing_start == plan.outgoing_start
            &&& noted.incoming_start == plan.incoming_start
            &&& noted.duration == plan.duration
            &&& noted.incoming_tempo_ratio == plan.incoming_tempo_ratio
            &&& noted.incoming_gain == plan.incoming_gain
            &&& noted.tempo_envelope == plan.tempo_envelope
            &&& noted.harmonic_compatibility == plan.harmonic_compatibility
            &&& noted.energy_selection == plan.energy_selection
        }),
{
}

/// A plan starts the incoming track where its draft does, at full gain, and an opening that
/// is aligned with beats starts at its cue, any other where the track is first heard.
pub proof fn plans_start_where_their_draft_does(
    plan: TransitionPlan,
    draft: Draft,
    harmonic: Option<u32>,
    incoming: TrackAnalysis,
    cue: Duration,
)
    ensures
        plan_of_draft(plan, draft, harmonic) ==> {
            &&& plan.incoming_start == draft.incoming_start
            &&& plan.incoming_gain == 0x3F80_0000
            &&& plan.harmonic_compatibility == harmonic
            &&& plan.incoming_cue_selection is None
        },
        opening_start(incoming, cue, true) == cue,
        opening_start(incoming, cue, false) == incoming.audible_start,
{
}

/// Where some cue lies between the earliest position and the target, both included, one of
/// those is the strongest.
pub proof fn cues_in_range_include_a_strongest(
    cues: Seq<PhraseCue>,
    earliest: int,
    target: int,
    some: int,
)
    requires
        0 <= some < cues.len(),
        earliest <= cues[some].position@ <= target,
    ensures
        exists|index: int| #[trigger] is_strongest_cue(cues, index, earliest, target),
    decreases 64 - cues[some].length.spec_bars(), target - cues[some].position@,
{
    if exists|other: int|
        0 <= other < cues.len() && earliest <= (#[trigger] cues[other]).position@ <= target
            && stronger_cue(cues[other], cues[some]) {
        let other = choose|other: int|
            0 <= other < cues.len() && earliest <= (#[trigger] cues[other]).position@ <= target
                && stronger_cue(cues[other], cues[some]);
        cues_in_range_include_a_strongest(cues, earliest, target, other);
    } else {
        assert(is_strongest_cue(cues, some, earliest, target));
    }
}

/// Only markers that have a confidence count as evidence, and only confidences that have a
/// marker.
pub proof fn evidence_counts_markers_with_confidence(track: TrackAnalysis)
    ensures
        ({
            let markers = track.beat_markers@.len() as int;
            let confidences = track.beat_marker_confidences@.len() as int;
            let counted = |count: int|
                super::track::trusted_among(track.beat_marker_confidences@, count) >= 8;
            &&& markers <= confidences ==> marker_evidence(track) == counted(markers)
            &&& confidences <= markers ==> marker_evidence(track) == counted(confidences)
        }),
{
}

} // verus!
