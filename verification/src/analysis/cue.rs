//! DJ cue candidates and human cue adapters.
//!
//! Cue generation here is heuristic and bounded. It consumes beat indexes and
//! already-computed structure evidence.

use vstd::prelude::*;

use super::structure::{
    PhraseBoundary, PhraseBoundarySource, Section, SectionLabel, SectionLabelScore,
    StructureAnalysis,
};
use super::value::{clamped_bits, UnitInterval};
use crate::time::{spec_distance, Duration};

verus! {

/// Maximum number of candidates retained for a planner search.
pub const MAX_CUE_CANDIDATES: usize = 96;

/// Maximum number of candidates retained for either mix role.
pub const MAX_ROLE_CUES: usize = 8;

/// Bits of 0.70, the importance of a cue at an audible edge.
pub const AUDIBLE_EDGE_IMPORTANCE: u32 = 0x3F33_3333;

/// Bits of 0.80, the importance of a cue at an intro or outro edge.
pub const STRUCTURE_EDGE_IMPORTANCE: u32 = 0x3F4C_CCCD;

/// Bits of 0.5, how safe a cut at a vocal cue is.
pub const VOCAL_CUT_SAFETY: u32 = 0x3F00_0000;

/// One where the flag is set, zero where it is not.
pub open spec fn spec_score_from_bool(enabled: bool) -> UnitInterval {
    if enabled {
        UnitInterval::one()
    } else {
        UnitInterval::zero()
    }
}

fn score_from_bool(enabled: bool) -> (r: UnitInterval)
    ensures
        r == spec_score_from_bool(enabled),
{
    if enabled {
        UnitInterval::one()
    } else {
        UnitInterval::zero()
    }
}

/// Why a cue is present in the human-editable cue list.
#[derive(Clone, Copy, Debug, PartialEq, Eq, Hash, Structural)]
pub enum HumanCueSource {
    RekordboxMemory,
    /// Primary source name for Rekordbox hot cues.
    RekordboxHotCue,
    /// Shorter source name that older cache records use.
    HotCue,
    ManualWotoha,
}

impl Default for HumanCueSource {
    fn default() -> (r: Self)
        ensures
            r == HumanCueSource::ManualWotoha,
    {
        HumanCueSource::ManualWotoha
    }
}

impl HumanCueSource {
    /// The name of the source in records.
    pub open spec fn name(self) -> Seq<char> {
        match self {
            HumanCueSource::RekordboxMemory => "rekordbox_memory"@,
            HumanCueSource::RekordboxHotCue => "rekordbox_hot_cue"@,
            HumanCueSource::HotCue => "hot_cue"@,
            HumanCueSource::ManualWotoha => "manual_wotoha"@,
        }
    }

    pub fn as_str(self) -> (r: &'static str)
        ensures
            r@ == self.name(),
    {
        match self {
            HumanCueSource::RekordboxMemory => "rekordbox_memory",
            HumanCueSource::RekordboxHotCue => "rekordbox_hot_cue",
            HumanCueSource::HotCue => "hot_cue",
            HumanCueSource::ManualWotoha => "manual_wotoha",
        }
    }

    pub fn is_imported(self) -> (r: bool)
        ensures
            r == (self != HumanCueSource::ManualWotoha),
    {
        !matches!(self, HumanCueSource::ManualWotoha)
    }
}

/// Origin of a cue candidate.
#[derive(Clone, Copy, Debug, PartialEq, Eq, Hash, Structural)]
pub enum CueProvenance {
    Detected,
    Heuristic,
    PeriodicPrior,
    Imported(HumanCueSource),
    /// Several candidate sources landed on the same beat. This variant prevents
    /// a merged cue from masquerading as one source.
    Mixed,
}

impl Default for CueProvenance {
    fn default() -> (r: Self)
        ensures
            r == CueProvenance::Heuristic,
    {
        CueProvenance::Heuristic
    }
}

impl CueProvenance {
    pub fn is_human(self) -> (r: bool)
        ensures
            r == (self is Imported),
    {
        matches!(self, CueProvenance::Imported(_))
    }

    pub fn is_periodic_prior(self) -> (r: bool)
        ensures
            r == (self == CueProvenance::PeriodicPrior),
    {
        matches!(self, CueProvenance::PeriodicPrior)
    }

    fn human_source(self) -> (r: Option<HumanCueSource>)
        ensures
            r == self.spec_human_source(),
    {
        match self {
            CueProvenance::Imported(source) => Some(source),
            _ => None,
        }
    }

    /// The human source that the cue was imported from, if any.
    pub open spec fn spec_human_source(self) -> Option<HumanCueSource> {
        match self {
            CueProvenance::Imported(source) => Some(source),
            _ => None,
        }
    }
}

/// Role used when selecting a bounded subset of cue candidates.
#[derive(Clone, Copy, Debug, PartialEq, Eq, Hash, Structural)]
pub enum CueRole {
    MixIn,
    MixOut,
}

impl Default for CueRole {
    fn default() -> (r: Self)
        ensures
            r == CueRole::MixIn,
    {
        CueRole::MixIn
    }
}

/// Errors returned by cue validation.
#[derive(Clone, Copy, Debug, PartialEq, Eq, Structural)]
pub enum CueValidationError {
    BeatIndexOutOfBounds { beat_index: usize, beat_count: usize },
    NonFiniteImportance,
    ImportanceOutOfRange,
    TimeOutOfBounds { time: Duration },
}

/// A beat-indexed DJ cue candidate.
///
/// `importance` is an ordering score for candidate selection. It is not a
/// probability and should not be read as calibrated confidence.
#[derive(Clone, Copy, Debug, PartialEq)]
pub struct DjCue {
    pub beat_index: usize,
    pub importance: UnitInterval,
    pub mix_in: UnitInterval,
    pub mix_out: UnitInterval,
    pub cut_safe: UnitInterval,
    pub phrase_boundary: UnitInterval,
    pub drop: UnitInterval,
    pub build: UnitInterval,
    pub provenance: CueProvenance,
}

/// Common acronym spelling.
pub type DJCue = DjCue;

/// Short alias for planner code that has no other cue type in scope.
pub type Cue = DjCue;

/// A cue with the importance, and no role or feature evidence.
pub open spec fn plain_cue(beat_index: usize, importance: UnitInterval) -> DjCue {
    DjCue {
        beat_index,
        importance,
        mix_in: UnitInterval::zero(),
        mix_out: UnitInterval::zero(),
        cut_safe: UnitInterval::zero(),
        phrase_boundary: UnitInterval::zero(),
        drop: UnitInterval::zero(),
        build: UnitInterval::zero(),
        provenance: CueProvenance::Heuristic,
    }
}

impl Default for DjCue {
    fn default() -> (r: Self)
        ensures
            r == plain_cue(0, UnitInterval::zero()),
    {
        DjCue::new(0, UnitInterval::zero())
    }
}

impl DjCue {
    /// Whether all scores of the cue are valid.
    pub open spec fn wf(self) -> bool {
        &&& self.importance.wf()
        &&& self.mix_in.wf()
        &&& self.mix_out.wf()
        &&& self.cut_safe.wf()
        &&& self.phrase_boundary.wf()
        &&& self.drop.wf()
        &&& self.build.wf()
    }

    /// Constructs a cue with no role or feature evidence yet.
    pub fn new(beat_index: usize, importance: UnitInterval) -> (r: Self)
        ensures
            r == plain_cue(beat_index, importance),
    {
        DjCue::scored(
            beat_index,
            importance,
            UnitInterval::zero(),
            UnitInterval::zero(),
            UnitInterval::zero(),
            UnitInterval::zero(),
            UnitInterval::zero(),
            UnitInterval::zero(),
            CueProvenance::Heuristic,
        )
    }

    /// Constructs a cue from an importance that is clamped.
    pub fn new_legacy(beat_index: usize, importance: u32) -> (r: Self)
        ensures
            r.importance.bits() == clamped_bits(importance),
            r == plain_cue(beat_index, r.importance),
    {
        DjCue::from_legacy_flags(
            beat_index,
            importance,
            false,
            false,
            false,
            false,
            false,
            false,
        )
    }

    /// Constructs a cue from its scores.
    pub fn scored(
        beat_index: usize,
        importance: UnitInterval,
        mix_in: UnitInterval,
        mix_out: UnitInterval,
        cut_safe: UnitInterval,
        phrase_boundary: UnitInterval,
        drop: UnitInterval,
        build: UnitInterval,
        provenance: CueProvenance,
    ) -> (r: Self)
        ensures
            r == (DjCue {
                beat_index,
                importance,
                mix_in,
                mix_out,
                cut_safe,
                phrase_boundary,
                drop,
                build,
                provenance,
            }),
    {
        DjCue {
            beat_index,
            importance,
            mix_in,
            mix_out,
            cut_safe,
            phrase_boundary,
            drop,
            build,
            provenance,
        }
    }

    /// Constructs a cue from six flags and an importance that is clamped.
    pub fn from_legacy_flags(
        beat_index: usize,
        importance: u32,
        mix_in: bool,
        mix_out: bool,
        cut_safe: bool,
        phrase_boundary: bool,
        drop: bool,
        build: bool,
    ) -> (r: Self)
        ensures
            r.importance.bits() == clamped_bits(importance),
            r == (DjCue {
                beat_index,
                importance: r.importance,
                mix_in: spec_score_from_bool(mix_in),
                mix_out: spec_score_from_bool(mix_out),
                cut_safe: spec_score_from_bool(cut_safe),
                phrase_boundary: spec_score_from_bool(phrase_boundary),
                drop: spec_score_from_bool(drop),
                build: spec_score_from_bool(build),
                provenance: CueProvenance::Heuristic,
            }),
    {
        DjCue {
            beat_index,
            importance: UnitInterval::clamped(importance),
            mix_in: score_from_bool(mix_in),
            mix_out: score_from_bool(mix_out),
            cut_safe: score_from_bool(cut_safe),
            phrase_boundary: score_from_bool(phrase_boundary),
            drop: score_from_bool(drop),
            build: score_from_bool(build),
            provenance: CueProvenance::Heuristic,
        }
    }

    pub fn from_bool(
        beat_index: usize,
        importance: u32,
        mix_in: bool,
        mix_out: bool,
    ) -> (r: Self)
        ensures
            r.importance.bits() == clamped_bits(importance),
            r == (DjCue {
                mix_in: spec_score_from_bool(mix_in),
                mix_out: spec_score_from_bool(mix_out),
                ..plain_cue(beat_index, r.importance)
            }),
    {
        DjCue::from_legacy_flags(
            beat_index,
            importance,
            mix_in,
            mix_out,
            false,
            false,
            false,
            false,
        )
    }

    /// The cue that a phrase boundary gives.
    pub open spec fn of_phrase_boundary(boundary: PhraseBoundary) -> DjCue {
        DjCue {
            phrase_boundary: UnitInterval::one(),
            provenance: match boundary.source {
                PhraseBoundarySource::Detected => CueProvenance::Detected,
                PhraseBoundarySource::PeriodicPrior => CueProvenance::PeriodicPrior,
                PhraseBoundarySource::Heuristic | PhraseBoundarySource::Imported =>
                    CueProvenance::Heuristic,
            },
            ..plain_cue(boundary.beat_index, boundary.strength)
        }
    }

    pub fn from_phrase_boundary(boundary: PhraseBoundary) -> (r: Self)
        ensures
            r == DjCue::of_phrase_boundary(boundary),
    {
        let provenance = match boundary.source {
            PhraseBoundarySource::Detected => CueProvenance::Detected,
            PhraseBoundarySource::Heuristic => CueProvenance::Heuristic,
            PhraseBoundarySource::PeriodicPrior => CueProvenance::PeriodicPrior,
            PhraseBoundarySource::Imported => CueProvenance::Heuristic,
        };
        DjCue {
            beat_index: boundary.beat_index,
            importance: boundary.strength,
            mix_in: UnitInterval::zero(),
            mix_out: UnitInterval::zero(),
            cut_safe: UnitInterval::zero(),
            phrase_boundary: UnitInterval::one(),
            drop: UnitInterval::zero(),
            build: UnitInterval::zero(),
            provenance,
        }
    }

    pub fn validate_for_beat_count(&self, beat_count: usize) -> (r: Result<(), CueValidationError>)
        ensures
            r == if self.beat_index >= beat_count {
                Err(
                    CueValidationError::BeatIndexOutOfBounds {
                        beat_index: self.beat_index,
                        beat_count,
                    },
                )
            } else if !self.wf() {
                Err(CueValidationError::ImportanceOutOfRange)
            } else {
                Ok::<(), CueValidationError>(())
            },
            r is Ok <==> self.beat_index < beat_count,
    {
        if self.beat_index >= beat_count {
            return Err(
                CueValidationError::BeatIndexOutOfBounds {
                    beat_index: self.beat_index,
                    beat_count,
                },
            );
        }
        if !self.all_scores_valid() {
            return Err(CueValidationError::ImportanceOutOfRange);
        }
        Ok(())
    }

    fn all_scores_valid(&self) -> (r: bool)
        ensures
            r == self.wf(),
            r,
    {
        self.importance.validate() && self.mix_in.validate() && self.mix_out.validate()
            && self.cut_safe.validate() && self.phrase_boundary.validate() && self.drop.validate()
            && self.build.validate()
    }

    /// Whether the cue has evidence for the role.
    pub open spec fn plays(self, role: CueRole) -> bool {
        match role {
            CueRole::MixIn => self.mix_in.key() != 0,
            CueRole::MixOut => self.mix_out.key() != 0,
        }
    }

    pub fn has_role(self, role: CueRole) -> (r: bool)
        ensures
            r == self.plays(role),
    {
        match role {
            CueRole::MixIn => !self.mix_in.is_zero(),
            CueRole::MixOut => !self.mix_out.is_zero(),
        }
    }

    pub fn mix_in_enabled(self) -> (r: bool)
        ensures
            r == (self.mix_in.key() != 0),
    {
        !self.mix_in.is_zero()
    }

    pub fn mix_out_enabled(self) -> (r: bool)
        ensures
            r == (self.mix_out.key() != 0),
    {
        !self.mix_out.is_zero()
    }

    pub fn cut_safe_enabled(self) -> (r: bool)
        ensures
            r == (self.cut_safe.key() != 0),
    {
        !self.cut_safe.is_zero()
    }

    pub fn phrase_boundary_enabled(self) -> (r: bool)
        ensures
            r == (self.phrase_boundary.key() != 0),
    {
        !self.phrase_boundary.is_zero()
    }

    pub fn drop_enabled(self) -> (r: bool)
        ensures
            r == (self.drop.key() != 0),
    {
        !self.drop.is_zero()
    }

    pub fn build_enabled(self) -> (r: bool)
        ensures
            r == (self.build.key() != 0),
    {
        !self.build.is_zero()
    }

    /// Converts this cue to a human cue at the time of its beat.
    pub fn to_human_cue(self, beat_times: &[Duration], source: HumanCueSource) -> (r: Option<
        HumanCue,
    >)
        ensures
            r == human_cue_of(self, beat_times@, source),
    {
        human_cue_from_dj_cue(&self, beat_times, source)
    }
}

/// Role or type supplied by a human cue source.
#[derive(Clone, Copy, Debug, PartialEq, Eq, Hash, Structural)]
pub enum HumanCueKind {
    Unlabeled,
    MixIn,
    MixOut,
    Drop,
    Break,
    Vocal,
    /// Kind of imports that use a cut-safe marker.
    CutSafe,
    /// Kind of imports that use a phrase marker.
    PhraseBoundary,
    /// Older spelling of an unlabeled cue.
    Cue,
}

/// Alias for adapters that call this a cue kind.
pub type CueKind = HumanCueKind;

impl Default for HumanCueKind {
    fn default() -> (r: Self)
        ensures
            r == HumanCueKind::Unlabeled,
    {
        HumanCueKind::Unlabeled
    }
}

/// Human-authored or imported cue in source-time coordinates.
///
/// Absence of a `HumanCue` means that no human evidence was provided; it is
/// unknown rather than negative evidence.
#[derive(Clone, Copy, Debug, PartialEq, Eq, Hash, Structural)]
pub struct HumanCue {
    pub time: Duration,
    pub source: HumanCueSource,
    pub kind: HumanCueKind,
}

impl Default for HumanCue {
    fn default() -> (r: Self)
        ensures
            r.time@ == 0,
            r.source == HumanCueSource::ManualWotoha,
            r.kind == HumanCueKind::Unlabeled,
    {
        HumanCue {
            time: Duration::zero(),
            source: HumanCueSource::ManualWotoha,
            kind: HumanCueKind::Unlabeled,
        }
    }
}

impl HumanCue {
    pub fn new(time: Duration, source: HumanCueSource, kind: HumanCueKind) -> (r: Self)
        ensures
            r == (HumanCue { time, source, kind }),
    {
        HumanCue { time, source, kind }
    }

    pub fn to_dj_cue(self, beat_times: &[Duration]) -> (r: Option<DjCue>)
        ensures
            is_dj_cue_of(r, self, beat_times@),
    {
        dj_cue_from_human_cue(&self, beat_times)
    }

    /// The human cue of a cue that was imported, with the source it came from.
    pub fn from_dj_cue(cue: &DjCue, beat_times: &[Duration]) -> (r: Option<Self>)
        ensures
            r == match cue.provenance.spec_human_source() {
                Some(source) => human_cue_of(*cue, beat_times@, source),
                None => None,
            },
    {
        match cue.provenance.human_source() {
            Some(source) => human_cue_from_dj_cue(cue, beat_times, source),
            None => None,
        }
    }

    pub fn validate(self, duration: Option<Duration>) -> (r: Result<(), CueValidationError>)
        ensures
            r == if duration is Some && self.time@ > duration->0@ {
                Err(CueValidationError::TimeOutOfBounds { time: self.time })
            } else {
                Ok::<(), CueValidationError>(())
            },
    {
        if let Some(duration) = duration {
            if duration.shorter(self.time) {
                return Err(CueValidationError::TimeOutOfBounds { time: self.time });
            }
        }
        Ok(())
    }
}

/// Whether beat `index` is the nearest to the time, and the first of those.
pub open spec fn is_nearest_beat(beat_times: Seq<Duration>, time: Duration, index: int) -> bool {
    &&& 0 <= index < beat_times.len()
    &&& forall|k: int|
        0 <= k < beat_times.len() ==> {
            let there = spec_distance((#[trigger] beat_times[k])@, time@);
            let here = spec_distance(beat_times[index]@, time@);
            here <= there && (k < index ==> here < there)
        }
}

fn nearest_beat_index(time: Duration, beat_times: &[Duration]) -> (r: Option<usize>)
    ensures
        r is None <==> beat_times@.len() == 0,
        r matches Some(index) ==> is_nearest_beat(beat_times@, time, index as int),
{
    if beat_times.len() == 0 {
        return None;
    }
    let mut best: usize = 0;
    let mut i: usize = 1;
    while i < beat_times.len()
        invariant
            1 <= i <= beat_times@.len(),
            best < i,
            forall|k: int|
                0 <= k < i ==> {
                    let there = spec_distance((#[trigger] beat_times@[k])@, time@);
                    let here = spec_distance(beat_times@[best as int]@, time@);
                    here <= there && (k < best ==> here < there)
                },
        decreases beat_times@.len() - i,
    {
        if beat_times[i].abs_diff(time).shorter(beat_times[best].abs_diff(time)) {
            best = i;
        }
        i += 1;
    }
    Some(best)
}

/// The evidence that a human cue of a kind gives to a beat.
pub open spec fn cue_of_kind(
    beat_index: usize,
    source: HumanCueSource,
    kind: HumanCueKind,
) -> DjCue {
    let plain = DjCue {
        provenance: CueProvenance::Imported(source),
        ..plain_cue(beat_index, UnitInterval::one())
    };
    match kind {
        HumanCueKind::Unlabeled | HumanCueKind::Cue => plain,
        HumanCueKind::MixIn => DjCue { mix_in: UnitInterval::one(), ..plain },
        HumanCueKind::MixOut => DjCue { mix_out: UnitInterval::one(), ..plain },
        HumanCueKind::CutSafe => DjCue { cut_safe: UnitInterval::one(), ..plain },
        HumanCueKind::PhraseBoundary | HumanCueKind::Break => DjCue {
            phrase_boundary: UnitInterval::one(),
            ..plain
        },
        HumanCueKind::Drop => DjCue {
            drop: UnitInterval::one(),
            phrase_boundary: UnitInterval::one(),
            ..plain
        },
        HumanCueKind::Vocal => DjCue {
            cut_safe: UnitInterval::of_bits(VOCAL_CUT_SAFETY),
            ..plain
        },
    }
}

/// Whether `result` is the cue of a human cue: none without beats, and otherwise
/// the evidence of its kind on the nearest beat.
pub open spec fn is_dj_cue_of(
    result: Option<DjCue>,
    human: HumanCue,
    beat_times: Seq<Duration>,
) -> bool {
    match result {
        None => beat_times.len() == 0,
        Some(cue) => {
            &&& is_nearest_beat(beat_times, human.time, cue.beat_index as int)
            &&& cue == cue_of_kind(cue.beat_index, human.source, human.kind)
        },
    }
}

/// Maps a human cue to its nearest beat.
pub fn dj_cue_from_human_cue(human: &HumanCue, beat_times: &[Duration]) -> (r: Option<DjCue>)
    ensures
        is_dj_cue_of(r, *human, beat_times@),
{
    let beat_index: usize = match nearest_beat_index(human.time, beat_times) {
        Some(index) => index,
        None => {
            return None;
        },
    };
    let mut cue = DjCue::new(beat_index, UnitInterval::one());
    cue.provenance = CueProvenance::Imported(human.source);
    match human.kind {
        HumanCueKind::Unlabeled | HumanCueKind::Cue => {},
        HumanCueKind::MixIn => {
            cue.mix_in = UnitInterval::one();
        },
        HumanCueKind::MixOut => {
            cue.mix_out = UnitInterval::one();
        },
        HumanCueKind::CutSafe => {
            cue.cut_safe = UnitInterval::one();
        },
        HumanCueKind::PhraseBoundary => {
            cue.phrase_boundary = UnitInterval::one();
        },
        HumanCueKind::Drop => {
            cue.drop = UnitInterval::one();
            cue.phrase_boundary = UnitInterval::one();
        },
        HumanCueKind::Break => {
            cue.phrase_boundary = UnitInterval::one();
        },
        HumanCueKind::Vocal => {
            cue.cut_safe = UnitInterval::clamped(VOCAL_CUT_SAFETY);
        },
    }
    Some(cue)
}

/// Another name of [`dj_cue_from_human_cue`].
pub fn human_cue_to_dj_cue(human: &HumanCue, beat_times: &[Duration]) -> (r: Option<DjCue>)
    ensures
        is_dj_cue_of(r, *human, beat_times@),
{
    dj_cue_from_human_cue(human, beat_times)
}

/// The kind of human cue that stands for the evidence of a cue. The first kind of
/// evidence counts; a build is written as a structural break.
pub open spec fn kind_of_cue(cue: DjCue) -> HumanCueKind {
    if cue.mix_in.key() != 0 {
        HumanCueKind::MixIn
    } else if cue.mix_out.key() != 0 {
        HumanCueKind::MixOut
    } else if cue.drop.key() != 0 {
        HumanCueKind::Drop
    } else if cue.build.key() != 0 {
        HumanCueKind::Break
    } else if cue.cut_safe.key() != 0 {
        HumanCueKind::CutSafe
    } else if cue.phrase_boundary.key() != 0 {
        HumanCueKind::PhraseBoundary
    } else {
        HumanCueKind::Unlabeled
    }
}

/// The human cue of a cue, at the time of its beat; none beyond the beats.
pub open spec fn human_cue_of(
    cue: DjCue,
    beat_times: Seq<Duration>,
    source: HumanCueSource,
) -> Option<HumanCue> {
    if cue.beat_index < beat_times.len() {
        Some(
            HumanCue { time: beat_times[cue.beat_index as int], source, kind: kind_of_cue(cue) },
        )
    } else {
        None
    }
}

/// Converts a beat-indexed cue back to source-time coordinates.
pub fn human_cue_from_dj_cue(
    cue: &DjCue,
    beat_times: &[Duration],
    source: HumanCueSource,
) -> (r: Option<HumanCue>)
    ensures
        r == human_cue_of(*cue, beat_times@, source),
{
    if cue.beat_index >= beat_times.len() {
        return None;
    }
    let time = beat_times[cue.beat_index];
    let kind = if !cue.mix_in.is_zero() {
        HumanCueKind::MixIn
    } else if !cue.mix_out.is_zero() {
        HumanCueKind::MixOut
    } else if !cue.drop.is_zero() {
        HumanCueKind::Drop
    } else if !cue.build.is_zero() {
        HumanCueKind::Break
    } else if !cue.cut_safe.is_zero() {
        HumanCueKind::CutSafe
    } else if !cue.phrase_boundary.is_zero() {
        HumanCueKind::PhraseBoundary
    } else {
        HumanCueKind::Unlabeled
    };
    Some(HumanCue::new(time, source, kind))
}

/// The scores that a cue carries.
pub enum CueScore {
    Importance,
    MixIn,
    MixOut,
    CutSafe,
    PhraseBoundary,
    Drop,
    Build,
}

impl DjCue {
    /// One of the scores of the cue.
    pub open spec fn score(self, which: CueScore) -> UnitInterval {
        match which {
            CueScore::Importance => self.importance,
            CueScore::MixIn => self.mix_in,
            CueScore::MixOut => self.mix_out,
            CueScore::CutSafe => self.cut_safe,
            CueScore::PhraseBoundary => self.phrase_boundary,
            CueScore::Drop => self.drop,
            CueScore::Build => self.build,
        }
    }
}

/// Whether candidate `j`, one of the first `n`, is valid and lies on the beat.
pub open spec fn in_group(candidates: Seq<DjCue>, n: int, beat: usize, j: int) -> bool {
    0 <= j < n && candidates[j].beat_index == beat && candidates[j].importance.wf()
}

/// Whether candidate `j` has the greatest score on the beat, and is the first of
/// those.
pub open spec fn strongest_in_group(
    candidates: Seq<DjCue>,
    n: int,
    beat: usize,
    which: CueScore,
    j: int,
) -> bool {
    &&& in_group(candidates, n, beat, j)
    &&& forall|k: int| #[trigger]
        in_group(candidates, n, beat, k) ==> candidates[k].score(which).key()
            <= candidates[j].score(which).key() && (k < j ==> candidates[k].score(which).key()
            < candidates[j].score(which).key())
}

/// Whether `value` is the greatest score of its kind on the beat.
pub open spec fn is_group_score(
    candidates: Seq<DjCue>,
    n: int,
    beat: usize,
    which: CueScore,
    value: UnitInterval,
) -> bool {
    exists|j: int| #[trigger]
        strongest_in_group(candidates, n, beat, which, j) && value == candidates[j].score(which)
}

/// Whether candidate `j` lies on the beat and was imported from a human source.
pub open spec fn human_in_group(candidates: Seq<DjCue>, n: int, beat: usize, j: int) -> bool {
    in_group(candidates, n, beat, j) && candidates[j].provenance is Imported
}

/// Whether all candidates on the beat have the provenance.
pub open spec fn group_agrees(
    candidates: Seq<DjCue>,
    n: int,
    beat: usize,
    provenance: CueProvenance,
) -> bool {
    forall|k: int| #[trigger]
        in_group(candidates, n, beat, k) ==> candidates[k].provenance == provenance
}

/// The provenance of all candidates on a beat: that of the first human one, or
/// else the one that all share, or else a mix.
pub open spec fn is_group_provenance(
    candidates: Seq<DjCue>,
    n: int,
    beat: usize,
    provenance: CueProvenance,
) -> bool {
    if exists|j: int| human_in_group(candidates, n, beat, j) {
        exists|j: int| #[trigger]
            human_in_group(candidates, n, beat, j) && provenance == candidates[j].provenance && (
            forall|k: int| #[trigger] human_in_group(candidates, n, beat, k) ==> j <= k)
    } else {
        group_agrees(candidates, n, beat, provenance) || (provenance == CueProvenance::Mixed
            && forall|p: CueProvenance| !#[trigger] group_agrees(candidates, n, beat, p))
    }
}

/// Whether `merged` stands for all of the first `n` candidates on its beat: each
/// score is the strongest, and the provenance is that of the group.
pub open spec fn stands_for_group(merged: DjCue, candidates: Seq<DjCue>, n: int) -> bool {
    &&& forall|which: CueScore| #[trigger]
        is_group_score(candidates, n, merged.beat_index, which, merged.score(which))
    &&& is_group_provenance(candidates, n, merged.beat_index, merged.provenance)
}

/// Whether some cue lies on the beat.
pub open spec fn has_cue_at(cues: Seq<DjCue>, beat: usize) -> bool {
    exists|i: int| 0 <= i < cues.len() && (#[trigger] cues[i]).beat_index == beat
}

/// Whether the cues are in the strict order of their beats.
pub open spec fn in_beat_order(cues: Seq<DjCue>) -> bool {
    forall|i: int, j: int| 0 <= i < j < cues.len() ==> cues[i].beat_index < cues[j].beat_index
}

/// Whether `merged` holds one cue for each beat that has a valid candidate, in
/// the order of the beats.
pub open spec fn is_cue_merge(merged: Seq<DjCue>, candidates: Seq<DjCue>) -> bool {
    let n = candidates.len() as int;
    &&& in_beat_order(merged)
    &&& forall|i: int|
        0 <= i < merged.len() ==> stands_for_group(#[trigger] merged[i], candidates, n)
    &&& forall|j: int| #![trigger candidates[j]]
        0 <= j < n && candidates[j].importance.wf() ==> has_cue_at(
            merged,
            candidates[j].beat_index,
        )
}

/// The stronger of two scores; the left one where they are equal.
pub open spec fn stronger(left: UnitInterval, right: UnitInterval) -> UnitInterval {
    if left.key() < right.key() {
        right
    } else {
        left
    }
}

fn max_score(left: UnitInterval, right: UnitInterval) -> (r: UnitInterval)
    ensures
        r == stronger(left, right),
{
    if left.less(right) {
        right
    } else {
        left
    }
}

/// The provenance of two cues on one beat.
pub open spec fn joint_provenance(left: CueProvenance, right: CueProvenance) -> CueProvenance {
    if left == right || left is Imported {
        left
    } else if right is Imported {
        right
    } else {
        CueProvenance::Mixed
    }
}

fn merge_provenance(left: CueProvenance, right: CueProvenance) -> (r: CueProvenance)
    ensures
        r == joint_provenance(left, right),
{
    if left == right {
        return left;
    }
    if left.is_human() {
        return left;
    }
    if right.is_human() {
        return right;
    }
    CueProvenance::Mixed
}

fn merge_pair(left: DjCue, right: DjCue) -> (r: DjCue)
    ensures
        r.beat_index == left.beat_index,
        forall|which: CueScore| #[trigger]
            r.score(which) == stronger(left.score(which), right.score(which)),
        r.provenance == joint_provenance(left.provenance, right.provenance),
{
    DjCue {
        beat_index: left.beat_index,
        importance: max_score(left.importance, right.importance),
        mix_in: max_score(left.mix_in, right.mix_in),
        mix_out: max_score(left.mix_out, right.mix_out),
        cut_safe: max_score(left.cut_safe, right.cut_safe),
        phrase_boundary: max_score(left.phrase_boundary, right.phrase_boundary),
        drop: max_score(left.drop, right.drop),
        build: max_score(left.build, right.build),
        provenance: merge_provenance(left.provenance, right.provenance),
    }
}

proof fn lemma_group_step(candidates: Seq<DjCue>, n: int, beat: usize)
    requires
        0 <= n < candidates.len(),
    ensures
        forall|k: int| #![trigger in_group(candidates, n + 1, beat, k)]
            #![trigger in_group(candidates, n, beat, k)]
            in_group(candidates, n + 1, beat, k) <==> in_group(candidates, n, beat, k) || (k == n
                && candidates[n].beat_index == beat && candidates[n].importance.wf()),
        forall|k: int| #![trigger human_in_group(candidates, n + 1, beat, k)]
            #![trigger human_in_group(candidates, n, beat, k)]
            human_in_group(candidates, n + 1, beat, k) <==> human_in_group(candidates, n, beat, k)
                || (k == n && candidates[n].beat_index == beat && candidates[n].importance.wf()
                && candidates[n].provenance is Imported),
{
}

proof fn lemma_group_first(candidates: Seq<DjCue>, n: int, beat: usize)
    requires
        0 <= n < candidates.len(),
        forall|k: int| !#[trigger] in_group(candidates, n, beat, k),
        candidates[n].beat_index == beat,
        candidates[n].importance.wf(),
    ensures
        stands_for_group(candidates[n], candidates, n + 1),
{
    lemma_group_step(candidates, n, beat);
    let m = candidates[n];
    assert(in_group(candidates, n + 1, beat, n));
    assert forall|which: CueScore| #[trigger]
        is_group_score(candidates, n + 1, beat, which, m.score(which)) by {
        assert(strongest_in_group(candidates, n + 1, beat, which, n));
    }
    if m.provenance is Imported {
        assert(human_in_group(candidates, n + 1, beat, n));
    } else {
        assert(forall|k: int| !#[trigger] human_in_group(candidates, n + 1, beat, k));
        assert(group_agrees(candidates, n + 1, beat, m.provenance));
    }
}

proof fn lemma_group_skip(merged: DjCue, candidates: Seq<DjCue>, n: int)
    requires
        0 <= n < candidates.len(),
        stands_for_group(merged, candidates, n),
        candidates[n].beat_index != merged.beat_index || !candidates[n].importance.wf(),
    ensures
        stands_for_group(merged, candidates, n + 1),
{
    let beat = merged.beat_index;
    lemma_group_step(candidates, n, beat);
    assert forall|which: CueScore| #[trigger]
        is_group_score(candidates, n + 1, beat, which, merged.score(which)) by {
        assert(is_group_score(candidates, n, beat, which, merged.score(which)));
        let j = choose|j: int| #[trigger]
            strongest_in_group(candidates, n, beat, which, j) && merged.score(which)
                == candidates[j].score(which);
        assert(strongest_in_group(candidates, n + 1, beat, which, j));
    }
    if exists|j: int| human_in_group(candidates, n, beat, j) {
        let j = choose|j: int| #[trigger]
            human_in_group(candidates, n, beat, j) && merged.provenance
                == candidates[j].provenance && (forall|k: int| #[trigger]
                human_in_group(candidates, n, beat, k) ==> j <= k);
        assert(human_in_group(candidates, n + 1, beat, j));
    } else {
        assert forall|p: CueProvenance| group_agrees(candidates, n, beat, p)
            == #[trigger] group_agrees(candidates, n + 1, beat, p) by {}
        assert(group_agrees(candidates, n, beat, merged.provenance) == group_agrees(
            candidates,
            n + 1,
            beat,
            merged.provenance,
        ));
    }
}

proof fn lemma_group_join(left: DjCue, merged: DjCue, candidates: Seq<DjCue>, n: int)
    requires
        0 <= n < candidates.len(),
        stands_for_group(left, candidates, n),
        candidates[n].beat_index == left.beat_index,
        candidates[n].importance.wf(),
        merged.beat_index == left.beat_index,
        forall|which: CueScore| #[trigger]
            merged.score(which) == stronger(left.score(which), candidates[n].score(which)),
        merged.provenance == joint_provenance(left.provenance, candidates[n].provenance),
    ensures
        stands_for_group(merged, candidates, n + 1),
{
    let beat = merged.beat_index;
    let new = candidates[n];
    lemma_group_step(candidates, n, beat);
    assert(in_group(candidates, n + 1, beat, n));
    assert forall|which: CueScore| #[trigger]
        is_group_score(candidates, n + 1, beat, which, merged.score(which)) by {
        assert(is_group_score(candidates, n, beat, which, left.score(which)));
        let j = choose|j: int| #[trigger]
            strongest_in_group(candidates, n, beat, which, j) && left.score(which)
                == candidates[j].score(which);
        assert(strongest_in_group(candidates, n, beat, which, j));
        assert(merged.score(which) == stronger(left.score(which), new.score(which)));
        if left.score(which).key() < new.score(which).key() {
            assert(strongest_in_group(candidates, n + 1, beat, which, n));
        } else {
            assert(strongest_in_group(candidates, n + 1, beat, which, j));
        }
    }
    assert(is_group_score(candidates, n, beat, CueScore::Importance, left.score(CueScore::Importance)));
    let some = choose|j: int| #[trigger]
        strongest_in_group(candidates, n, beat, CueScore::Importance, j) && left.score(
            CueScore::Importance,
        ) == candidates[j].score(CueScore::Importance);
    assert(in_group(candidates, n, beat, some));
    assert(in_group(candidates, n + 1, beat, some));
    if exists|j: int| human_in_group(candidates, n, beat, j) {
        let j = choose|j: int| #[trigger]
            human_in_group(candidates, n, beat, j) && left.provenance == candidates[j].provenance
                && (forall|k: int| #[trigger] human_in_group(candidates, n, beat, k) ==> j <= k);
        assert(human_in_group(candidates, n + 1, beat, j));
    } else if new.provenance is Imported {
        assert(!human_in_group(candidates, n, beat, some));
        assert(human_in_group(candidates, n + 1, beat, n));
        if group_agrees(candidates, n, beat, left.provenance) {
            assert(candidates[some].provenance == left.provenance);
        }
        assert(merged.provenance == new.provenance);
    } else {
        assert(forall|k: int| !#[trigger] human_in_group(candidates, n + 1, beat, k));
        if group_agrees(candidates, n, beat, left.provenance) {
            assert(candidates[some].provenance == left.provenance);
            assert(!human_in_group(candidates, n, beat, some));
            if left.provenance == new.provenance {
                assert(group_agrees(candidates, n + 1, beat, left.provenance));
            } else {
                assert forall|p: CueProvenance| !#[trigger]
                    group_agrees(candidates, n + 1, beat, p) by {
                    if group_agrees(candidates, n + 1, beat, p) {
                        assert(candidates[some].provenance == p);
                        assert(candidates[n].provenance == p);
                    }
                }
            }
        } else {
            assert forall|p: CueProvenance| !#[trigger]
                group_agrees(candidates, n + 1, beat, p) by {
                if group_agrees(candidates, n + 1, beat, p) {
                    assert(group_agrees(candidates, n, beat, p));
                }
            }
        }
    }
}

fn merge_group(candidates: &Vec<DjCue>, first: usize) -> (r: DjCue)
    requires
        first < candidates@.len(),
    ensures
        r.beat_index == candidates@[first as int].beat_index,
        stands_for_group(r, candidates@, candidates@.len() as int),
{
    let ghost all = candidates@;
    let beat: usize = candidates[first].beat_index;
    let mut merged: Option<DjCue> = None;
    let mut i: usize = 0;
    while i < candidates.len()
        invariant
            all == candidates@,
            i <= all.len(),
            first < all.len(),
            beat == all[first as int].beat_index,
            i > first ==> merged is Some,
            merged matches Some(cue) ==> cue.beat_index == beat && stands_for_group(
                cue,
                all,
                i as int,
            ),
            merged is None ==> forall|k: int| !#[trigger] in_group(all, i as int, beat, k),
        decreases all.len() - i,
    {
        let candidate = candidates[i];
        if candidate.importance.validate() && candidate.beat_index == beat {
            match merged {
                Some(cue) => {
                    let joined = merge_pair(cue, candidate);
                    proof {
                        lemma_group_join(cue, joined, all, i as int);
                    }
                    merged = Some(joined);
                },
                None => {
                    proof {
                        lemma_group_first(all, i as int, beat);
                    }
                    merged = Some(candidate);
                },
            }
        } else {
            proof {
                lemma_group_step(all, i as int, beat);
                if merged is Some {
                    lemma_group_skip(merged->0, all, i as int);
                }
            }
        }
        i += 1;
    }
    match merged {
        Some(cue) => cue,
        None => candidates[first],
    }
}

/// Merges the candidates that lie on one beat, retaining the strongest score for
/// every semantic field. The output is in beat order.
pub fn merge_cue_candidates(candidates: Vec<DjCue>) -> (r: Vec<DjCue>)
    ensures
        is_cue_merge(r@, candidates@),
{
    let ghost all = candidates@;
    let mut merged: Vec<DjCue> = Vec::new();
    let mut i: usize = 0;
    while i < candidates.len()
        invariant
            all == candidates@,
            i <= all.len(),
            in_beat_order(merged@),
            forall|a: int|
                0 <= a < merged@.len() ==> stands_for_group(
                    #[trigger] merged@[a],
                    all,
                    all.len() as int,
                ),
            forall|j: int| #![trigger all[j]]
                0 <= j < i && all[j].importance.wf() ==> has_cue_at(merged@, all[j].beat_index),
        decreases all.len() - i,
    {
        let beat: usize = candidates[i].beat_index;
        let mut at: usize = 0;
        while at < merged.len() && merged[at].beat_index < beat
            invariant
                at <= merged@.len(),
                forall|a: int| 0 <= a < at ==> (#[trigger] merged@[a]).beat_index < beat,
            decreases merged@.len() - at,
        {
            at += 1;
        }
        let ghost before = merged@;
        if candidates[i].importance.validate() && !(at < merged.len() && merged[at].beat_index
            == beat) {
            let entry = merge_group(&candidates, i);
            merged.insert(at, entry);
            proof {
                assert(merged@[at as int].beat_index == all[i as int].beat_index);
                assert forall|j: int| #![trigger all[j]]
                    0 <= j < i && all[j].importance.wf() implies has_cue_at(
                    merged@,
                    all[j].beat_index,
                ) by {
                    let a = choose|a: int|
                        0 <= a < before.len() && (#[trigger] before[a]).beat_index
                            == all[j].beat_index;
                    let moved = if a < at {
                        a
                    } else {
                        a + 1
                    };
                    assert(merged@[moved] == before[a]);
                }
            }
        }
        i += 1;
    }
    merged
}

/// Whether `left` is a better candidate than `right`: more important, or as
/// important and earlier.
pub open spec fn ranks_before(left: DjCue, right: DjCue) -> bool {
    left.importance.key() > right.importance.key() || (left.importance.key()
        == right.importance.key() && left.beat_index < right.beat_index)
}

/// Whether the cues are in the strict order of their ranks.
pub open spec fn in_rank_order(cues: Seq<DjCue>) -> bool {
    forall|i: int, j: int| 0 <= i < j < cues.len() ==> ranks_before(cues[i], cues[j])
}

/// Whether every one of the cues ranks before `other`.
pub open spec fn all_rank_before(cues: Seq<DjCue>, other: DjCue) -> bool {
    forall|i: int| 0 <= i < cues.len() ==> ranks_before(#[trigger] cues[i], other)
}

/// Whether `selected` is the `limit` best of the merged candidates that are
/// accepted, or all of them where there are no more, in the order of rank.
pub open spec fn is_selection(
    selected: Seq<DjCue>,
    candidates: Seq<DjCue>,
    accept: spec_fn(DjCue) -> bool,
    limit: int,
) -> bool {
    let n = candidates.len() as int;
    &&& selected.len() <= limit
    &&& in_rank_order(selected)
    &&& forall|i: int|
        0 <= i < selected.len() ==> accept(selected[i]) && stands_for_group(
            #[trigger] selected[i],
            candidates,
            n,
        )
    &&& forall|cue: DjCue| #[trigger]
        stands_for_group(cue, candidates, n) && accept(cue) ==> selected.contains(cue) || (
        selected.len() == limit && all_rank_before(selected, cue))
}

/// Whether `selected` is the `limit` best of the merged candidates on a grid of
/// `beat_count` beats.
pub open spec fn is_bounded_selection(
    selected: Seq<DjCue>,
    candidates: Seq<DjCue>,
    beat_count: usize,
    limit: usize,
) -> bool {
    is_selection(
        selected,
        candidates,
        |cue: DjCue| cue.beat_index < beat_count && cue.wf(),
        limit as int,
    )
}

/// Whether `selected` is the `limit` best of the merged candidates that play a
/// role.
pub open spec fn is_role_selection(
    selected: Seq<DjCue>,
    candidates: Seq<DjCue>,
    role: CueRole,
    limit: usize,
) -> bool {
    is_selection(selected, candidates, |cue: DjCue| cue.plays(role), limit as int)
}

proof fn lemma_group_unique(left: DjCue, right: DjCue, candidates: Seq<DjCue>, n: int)
    requires
        stands_for_group(left, candidates, n),
        stands_for_group(right, candidates, n),
        left.beat_index == right.beat_index,
    ensures
        left == right,
{
    let beat = left.beat_index;
    assert forall|which: CueScore| left.score(which) == #[trigger] right.score(which) by {
        assert(is_group_score(candidates, n, beat, which, left.score(which)));
        assert(is_group_score(candidates, n, beat, which, right.score(which)));
        let a = choose|j: int| #[trigger]
            strongest_in_group(candidates, n, beat, which, j) && left.score(which)
                == candidates[j].score(which);
        let b = choose|j: int| #[trigger]
            strongest_in_group(candidates, n, beat, which, j) && right.score(which)
                == candidates[j].score(which);
        assert(in_group(candidates, n, beat, a) && in_group(candidates, n, beat, b));
        assert(a == b);
    }
    assert(left.score(CueScore::Importance) == right.score(CueScore::Importance));
    assert(left.score(CueScore::MixIn) == right.score(CueScore::MixIn));
    assert(left.score(CueScore::MixOut) == right.score(CueScore::MixOut));
    assert(left.score(CueScore::CutSafe) == right.score(CueScore::CutSafe));
    assert(left.score(CueScore::PhraseBoundary) == right.score(CueScore::PhraseBoundary));
    assert(left.score(CueScore::Drop) == right.score(CueScore::Drop));
    assert(left.score(CueScore::Build) == right.score(CueScore::Build));
    assert(is_group_score(candidates, n, beat, CueScore::Build, left.score(CueScore::Build)));
    let some = choose|j: int| #[trigger]
        strongest_in_group(candidates, n, beat, CueScore::Build, j) && left.score(CueScore::Build)
            == candidates[j].score(CueScore::Build);
    assert(in_group(candidates, n, beat, some));
}

proof fn lemma_group_has_member(cue: DjCue, candidates: Seq<DjCue>, n: int)
    requires
        stands_for_group(cue, candidates, n),
    ensures
        exists|j: int| #[trigger] in_group(candidates, n, cue.beat_index, j),
        cue.importance.wf(),
{
    assert(is_group_score(
        candidates,
        n,
        cue.beat_index,
        CueScore::Importance,
        cue.score(CueScore::Importance),
    ));
    let j = choose|j: int| #[trigger]
        strongest_in_group(candidates, n, cue.beat_index, CueScore::Importance, j) && cue.score(
            CueScore::Importance,
        ) == candidates[j].score(CueScore::Importance);
    assert(in_group(candidates, n, cue.beat_index, j));
}

/// Every beat with a merged cue appears in the merge, with that very cue.
proof fn lemma_merge_is_complete(merged: Seq<DjCue>, candidates: Seq<DjCue>, cue: DjCue)
    requires
        is_cue_merge(merged, candidates),
        stands_for_group(cue, candidates, candidates.len() as int),
    ensures
        merged.contains(cue),
{
    let n = candidates.len() as int;
    lemma_group_has_member(cue, candidates, n);
    let j = choose|j: int| #[trigger] in_group(candidates, n, cue.beat_index, j);
    assert(candidates[j].beat_index == cue.beat_index);
    assert(has_cue_at(merged, cue.beat_index));
    let i = choose|i: int|
        0 <= i < merged.len() && (#[trigger] merged[i]).beat_index == cue.beat_index;
    lemma_group_unique(merged[i], cue, candidates, n);
}

/// The best `limit` cues of a pool with distinct beats, in the order of rank.
fn select_best(pool: &Vec<DjCue>, limit: usize) -> (r: Vec<DjCue>)
    requires
        in_beat_order(pool@),
    ensures
        r@.len() <= limit,
        in_rank_order(r@),
        forall|i: int| 0 <= i < r@.len() ==> pool@.contains(#[trigger] r@[i]),
        forall|cue: DjCue| #[trigger]
            pool@.contains(cue) ==> r@.contains(cue) || (r@.len() == limit && all_rank_before(
                r@,
                cue,
            )),
{
    let ghost all = pool@;
    let mut ranked: Vec<DjCue> = Vec::new();
    let mut i: usize = 0;
    while i < pool.len()
        invariant
            all == pool@,
            in_beat_order(all),
            i <= all.len(),
            in_rank_order(ranked@),
            forall|a: int|
                0 <= a < ranked@.len() ==> all.contains(#[trigger] ranked@[a]) && (i < all.len()
                    ==> ranked@[a].beat_index < all[i as int].beat_index),
            forall|j: int| 0 <= j < i ==> ranked@.contains(#[trigger] all[j]),
        decreases all.len() - i,
    {
        let cue = pool[i];
        let mut at: usize = 0;
        while at < ranked.len() && !ranked[at].importance.less(cue.importance)
            invariant
                at <= ranked@.len(),
                forall|a: int| 0 <= a < at ==> (#[trigger] ranked@[a]).importance.key() >= cue.importance.key(),
            decreases ranked@.len() - at,
        {
            at += 1;
        }
        let ghost before = ranked@;
        ranked.insert(at, cue);
        proof {
            assert(forall|a: int| 0 <= a < at ==> ranked@[a] == before[a]);
            assert(forall|a: int| at < a < ranked@.len() ==> ranked@[a] == before[a - 1]);
            assert forall|a: int, b: int| 0 <= a < b < ranked@.len() implies ranks_before(
                ranked@[a],
                ranked@[b],
            ) by {
                if a == at {
                    assert(before[b - 1] == ranked@[b]);
                    if b - 1 > at {
                        assert(ranks_before(before[at as int], before[b - 1]));
                    }
                } else if b == at {
                    assert(before[a] == ranked@[a]);
                } else {
                    let x = if a < at { a } else { a - 1 };
                    let y = if b < at { b } else { b - 1 };
                    assert(ranks_before(before[x], before[y]));
                }
            }
            assert(ranked@[at as int] == all[i as int]);
            assert(all.contains(all[i as int]));
            assert forall|a: int| 0 <= a < ranked@.len() implies all.contains(#[trigger] ranked@[a]) && (i + 1
                < all.len() ==> ranked@[a].beat_index < all[i + 1].beat_index) by {
                if a != at {
                    let x = if a < at { a } else { a - 1 };
                    assert(before[x] == ranked@[a]);
                }
            }
            assert forall|j: int| 0 <= j < i + 1 implies ranked@.contains(#[trigger] all[j]) by {
                if j < i {
                    let x = choose|x: int| 0 <= x < before.len() && before[x] == all[j];
                    let moved = if x < at { x } else { x + 1 };
                    assert(ranked@[moved] == before[x]);
                } else {
                    assert(ranked@[at as int] == all[j]);
                }
            }
        }
        i += 1;
    }
    let ghost full = ranked@;
    ranked.truncate(limit);
    proof {
        if full.len() <= limit {
            assert(ranked@ =~= full);
        }
        assert(forall|a: int| 0 <= a < ranked@.len() ==> ranked@[a] == full[a]);
        assert forall|cue: DjCue| #[trigger] all.contains(cue) implies ranked@.contains(cue) || (
        ranked@.len() == limit && all_rank_before(ranked@, cue)) by {
            let j = choose|j: int| 0 <= j < all.len() && all[j] == cue;
            assert(full.contains(all[j]));
            let x = choose|x: int| 0 <= x < full.len() && full[x] == cue;
            if x < ranked@.len() {
                assert(ranked@[x] == cue);
            } else {
                assert forall|a: int| 0 <= a < ranked@.len() implies ranks_before(
                    #[trigger] ranked@[a],
                    cue,
                ) by {
                    assert(ranks_before(full[a], full[x]));
                }
            }
        }
    }
    ranked
}

/// Filters invalid indexes, deduplicates, ranks, and retains at most
/// [`MAX_CUE_CANDIDATES`] candidates.
pub fn bound_cue_candidates(candidates: Vec<DjCue>, beat_count: usize) -> (r: Vec<DjCue>)
    ensures
        is_bounded_selection(r@, candidates@, beat_count, MAX_CUE_CANDIDATES),
{
    bound_cue_candidates_with_limit(candidates, beat_count, MAX_CUE_CANDIDATES)
}

/// Configurable form of [`bound_cue_candidates`].
pub fn bound_cue_candidates_with_limit(
    candidates: Vec<DjCue>,
    beat_count: usize,
    limit: usize,
) -> (r: Vec<DjCue>)
    ensures
        is_bounded_selection(r@, candidates@, beat_count, limit),
{
    let ghost all = candidates@;
    let ghost n = all.len() as int;
    if beat_count == 0 || limit == 0 {
        let none: Vec<DjCue> = Vec::new();
        return none;
    }
    let merged = merge_cue_candidates(candidates);
    let mut valid: Vec<DjCue> = Vec::new();
    let mut i: usize = 0;
    while i < merged.len()
        invariant
            is_cue_merge(merged@, all),
            n == all.len(),
            i <= merged@.len(),
            in_beat_order(valid@),
            forall|a: int|
                0 <= a < valid@.len() ==> merged@.contains(#[trigger] valid@[a])
                    && valid@[a].beat_index < beat_count && valid@[a].wf() && (i < merged@.len()
                    ==> valid@[a].beat_index < merged@[i as int].beat_index),
            forall|m: int|
                0 <= m < i && (#[trigger] merged@[m]).beat_index < beat_count && merged@[m].wf()
                    ==> valid@.contains(merged@[m]),
        decreases merged@.len() - i,
    {
        let cue = merged[i];
        let ghost before = valid@;
        assert(merged@.contains(merged@[i as int]));
        if cue.validate_for_beat_count(beat_count).is_ok() {
            valid.push(cue);
            proof {
                assert(valid@[before.len() as int] == cue);
                assert forall|m: int|
                    0 <= m < i + 1 && (#[trigger] merged@[m]).beat_index < beat_count
                        && merged@[m].wf() implies valid@.contains(merged@[m]) by {
                    if m < i {
                        let x = choose|x: int| 0 <= x < before.len() && before[x] == merged@[m];
                        assert(valid@[x] == merged@[m]);
                    }
                }
            }
        }
        i += 1;
    }
    let bounded = select_best(&valid, limit);
    proof {
        let accept = |cue: DjCue| cue.beat_index < beat_count && cue.wf();
        assert forall|a: int| 0 <= a < bounded@.len() implies accept(bounded@[a])
            && stands_for_group(#[trigger] bounded@[a], all, n) by {
            assert(valid@.contains(bounded@[a]));
            let x = choose|x: int| 0 <= x < valid@.len() && valid@[x] == bounded@[a];
            assert(merged@.contains(valid@[x]));
        }
        assert forall|cue: DjCue| #[trigger]
            stands_for_group(cue, all, n) && accept(cue) implies bounded@.contains(cue) || (
        bounded@.len() == limit && all_rank_before(bounded@, cue)) by {
            lemma_merge_is_complete(merged@, all, cue);
            let m = choose|m: int| 0 <= m < merged@.len() && merged@[m] == cue;
            assert(merged@[m].beat_index < beat_count);
            assert(valid@.contains(cue));
        }
    }
    bounded
}

/// The strongest candidates, at most eight, for one mix role.
pub fn top_role_cues(candidates: &[DjCue], role: CueRole) -> (r: Vec<DjCue>)
    ensures
        is_role_selection(r@, candidates@, role, MAX_ROLE_CUES),
{
    top_role_cues_with_limit(candidates, role, MAX_ROLE_CUES)
}

fn copy_cues(cues: &[DjCue]) -> (r: Vec<DjCue>)
    ensures
        r@ == cues@,
{
    let mut copy: Vec<DjCue> = Vec::new();
    let mut i: usize = 0;
    while i < cues.len()
        invariant
            i <= cues@.len(),
            copy@ == cues@.take(i as int),
        decreases cues@.len() - i,
    {
        copy.push(cues[i]);
        i += 1;
    }
    assert(cues@.take(i as int) =~= cues@);
    copy
}

/// Configurable form of [`top_role_cues`].
pub fn top_role_cues_with_limit(candidates: &[DjCue], role: CueRole, limit: usize) -> (r: Vec<
    DjCue,
>)
    ensures
        is_role_selection(r@, candidates@, role, limit),
{
    let ghost all = candidates@;
    let ghost n = all.len() as int;
    let merged = merge_cue_candidates(copy_cues(candidates));
    let mut playing: Vec<DjCue> = Vec::new();
    let mut i: usize = 0;
    while i < merged.len()
        invariant
            is_cue_merge(merged@, all),
            n == all.len(),
            i <= merged@.len(),
            in_beat_order(playing@),
            forall|a: int|
                0 <= a < playing@.len() ==> merged@.contains(#[trigger] playing@[a])
                    && playing@[a].plays(role) && (i < merged@.len() ==> playing@[a].beat_index
                    < merged@[i as int].beat_index),
            forall|m: int|
                0 <= m < i && (#[trigger] merged@[m]).plays(role) ==> playing@.contains(
                    merged@[m],
                ),
        decreases merged@.len() - i,
    {
        let cue = merged[i];
        let ghost before = playing@;
        assert(merged@.contains(merged@[i as int]));
        if cue.has_role(role) && cue.importance.validate() {
            playing.push(cue);
            proof {
                assert(playing@[before.len() as int] == cue);
                assert forall|m: int|
                    0 <= m < i + 1 && (#[trigger] merged@[m]).plays(
                        role,
                    ) implies playing@.contains(merged@[m]) by {
                    if m < i {
                        let x = choose|x: int| 0 <= x < before.len() && before[x] == merged@[m];
                        assert(playing@[x] == merged@[m]);
                    }
                }
            }
        }
        i += 1;
    }
    let selected = select_best(&playing, limit);
    proof {
        let accept = |cue: DjCue| cue.plays(role);
        assert forall|a: int| 0 <= a < selected@.len() implies accept(selected@[a])
            && stands_for_group(#[trigger] selected@[a], all, n) by {
            assert(playing@.contains(selected@[a]));
            let x = choose|x: int| 0 <= x < playing@.len() && playing@[x] == selected@[a];
            assert(merged@.contains(playing@[x]));
        }
        assert forall|cue: DjCue| #[trigger]
            stands_for_group(cue, all, n) && accept(cue) implies selected@.contains(cue) || (
        selected@.len() == limit && all_rank_before(selected@, cue)) by {
            lemma_merge_is_complete(merged@, all, cue);
            let m = choose|m: int| 0 <= m < merged@.len() && merged@[m] == cue;
            assert(merged@[m].plays(role));
            assert(playing@.contains(cue));
        }
    }
    selected
}

pub fn top_mix_in_cues(candidates: &[DjCue]) -> (r: Vec<DjCue>)
    ensures
        is_role_selection(r@, candidates@, CueRole::MixIn, MAX_ROLE_CUES),
{
    top_role_cues(candidates, CueRole::MixIn)
}

pub fn top_mix_out_cues(candidates: &[DjCue]) -> (r: Vec<DjCue>)
    ensures
        is_role_selection(r@, candidates@, CueRole::MixOut, MAX_ROLE_CUES),
{
    top_role_cues(candidates, CueRole::MixOut)
}

/// Input of heuristic cue generation. All fields are in beat-grid coordinates,
/// with `audible_end_beat` exclusive.
#[derive(Clone, Copy, Debug)]
pub struct CueGenerationInput<'a> {
    pub beat_count: usize,
    pub audible_start_beat: usize,
    pub audible_end_beat: usize,
    pub intro_end_beat: Option<usize>,
    pub outro_start_beat: Option<usize>,
    pub structure: Option<&'a StructureAnalysis>,
}

impl<'a> Default for CueGenerationInput<'a> {
    fn default() -> (r: Self)
        ensures
            r.beat_count == 0,
            r.audible_start_beat == 0,
            r.audible_end_beat == 0,
            r.intro_end_beat is None,
            r.outro_start_beat is None,
            r.structure is None,
    {
        CueGenerationInput::new(0, 0, 0)
    }
}

impl<'a> CueGenerationInput<'a> {
    pub fn new(beat_count: usize, audible_start_beat: usize, audible_end_beat: usize) -> (r: Self)
        ensures
            r == (CueGenerationInput {
                beat_count,
                audible_start_beat,
                audible_end_beat,
                intro_end_beat: None,
                outro_start_beat: None,
                structure: None,
            }),
    {
        CueGenerationInput {
            beat_count,
            audible_start_beat,
            audible_end_beat,
            intro_end_beat: None,
            outro_start_beat: None,
            structure: None,
        }
    }

    pub fn with_intro_end(self, beat_index: Option<usize>) -> (r: Self)
        ensures
            r == (CueGenerationInput { intro_end_beat: beat_index, ..self }),
    {
        CueGenerationInput { intro_end_beat: beat_index, ..self }
    }

    pub fn with_outro_start(self, beat_index: Option<usize>) -> (r: Self)
        ensures
            r == (CueGenerationInput { outro_start_beat: beat_index, ..self }),
    {
        CueGenerationInput { outro_start_beat: beat_index, ..self }
    }

    pub fn with_structure(self, structure: &'a StructureAnalysis) -> (r: Self)
        ensures
            r == (CueGenerationInput { structure: Some(structure), ..self }),
    {
        CueGenerationInput { structure: Some(structure), ..self }
    }
}

/// The candidates, and the template at the beat if the track has that beat.
pub open spec fn with_cue_at(
    candidates: Seq<DjCue>,
    template: DjCue,
    beat: int,
    beat_count: usize,
) -> Seq<DjCue> {
    if beat < beat_count {
        candidates.push(DjCue { beat_index: beat as usize, ..template })
    } else {
        candidates
    }
}

/// The candidates, and the template at the beats around a center.
pub open spec fn with_neighborhood(
    candidates: Seq<DjCue>,
    template: DjCue,
    center: usize,
    beat_count: usize,
) -> Seq<DjCue> {
    let before = if center == 0 {
        0
    } else {
        center - 1
    };
    with_cue_at(
        with_cue_at(
            with_cue_at(candidates, template, before, beat_count),
            template,
            center as int,
            beat_count,
        ),
        template,
        center + 1,
        beat_count,
    )
}

fn push_neighborhood(
    candidates: &mut Vec<DjCue>,
    center: usize,
    beat_count: usize,
    template: DjCue,
)
    ensures
        final(candidates)@ == with_neighborhood(old(candidates)@, template, center, beat_count),
{
    let before: usize = center.saturating_sub(1);
    if before < beat_count {
        candidates.push(DjCue { beat_index: before, ..template });
    }
    if center < beat_count {
        candidates.push(DjCue { beat_index: center, ..template });
    }
    if let Some(after) = center.checked_add(1) {
        if after < beat_count {
            candidates.push(DjCue { beat_index: after, ..template });
        }
    }
}

/// The score of the first label, from `i` on, that is `label`; zero without one.
pub open spec fn first_label_score(
    labels: Seq<SectionLabelScore>,
    label: SectionLabel,
    i: int,
) -> UnitInterval
    decreases labels.len() - i,
{
    if i < 0 || i >= labels.len() {
        UnitInterval::zero()
    } else if labels[i].label == label {
        labels[i].score
    } else {
        first_label_score(labels, label, i + 1)
    }
}

fn label_score(labels: &Vec<SectionLabelScore>, label: SectionLabel) -> (r: UnitInterval)
    ensures
        r == first_label_score(labels@, label, 0),
{
    let mut i: usize = 0;
    while i < labels.len()
        invariant
            i <= labels@.len(),
            first_label_score(labels@, label, 0) == first_label_score(labels@, label, i as int),
        decreases labels@.len() - i,
    {
        if labels[i].label == label {
            return labels[i].score;
        }
        i += 1;
    }
    UnitInterval::zero()
}

/// The cue at the start of a section.
pub open spec fn section_start_cue(section: Section) -> DjCue {
    DjCue {
        beat_index: section.start_beat,
        importance: UnitInterval::of_bits(section.boundary_confidence.bits()),
        mix_in: UnitInterval::one(),
        mix_out: UnitInterval::zero(),
        cut_safe: spec_score_from_bool(
            section.labelled(SectionLabel::Intro) || section.labelled(SectionLabel::Build)
                || section.labelled(SectionLabel::Drop),
        ),
        phrase_boundary: UnitInterval::one(),
        drop: first_label_score(section.labels@, SectionLabel::Drop, 0),
        build: first_label_score(section.labels@, SectionLabel::Build, 0),
        provenance: CueProvenance::Heuristic,
    }
}

/// The cue at the end of a section.
pub open spec fn section_end_cue(section: Section) -> DjCue {
    DjCue {
        beat_index: section.end_beat,
        mix_in: UnitInterval::zero(),
        mix_out: UnitInterval::one(),
        cut_safe: UnitInterval::one(),
        drop: UnitInterval::zero(),
        build: UnitInterval::zero(),
        ..section_start_cue(section)
    }
}

/// The candidates, and the cues at the edges of the first `n` sections. A section
/// without beats has no end cue.
pub open spec fn with_sections(
    candidates: Seq<DjCue>,
    sections: Seq<Section>,
    n: int,
) -> Seq<DjCue>
    decreases n,
{
    if n <= 0 {
        candidates
    } else {
        let section = sections[n - 1];
        let started = with_sections(candidates, sections, n - 1).push(section_start_cue(section));
        if section.end_beat > section.start_beat {
            started.push(section_end_cue(section))
        } else {
            started
        }
    }
}

/// The cue near an edge of the audible span.
pub open spec fn audible_edge_cue(mix_in: bool, cut_safe: bool) -> DjCue {
    DjCue {
        mix_in: spec_score_from_bool(mix_in),
        mix_out: spec_score_from_bool(!mix_in),
        cut_safe: spec_score_from_bool(cut_safe),
        ..plain_cue(0, UnitInterval::of_bits(AUDIBLE_EDGE_IMPORTANCE))
    }
}

/// The cue near the end of the intro or the start of the outro.
pub open spec fn structure_edge_cue(mix_in: bool) -> DjCue {
    DjCue {
        mix_in: spec_score_from_bool(mix_in),
        mix_out: spec_score_from_bool(!mix_in),
        cut_safe: UnitInterval::one(),
        ..plain_cue(0, UnitInterval::of_bits(STRUCTURE_EDGE_IMPORTANCE))
    }
}

/// All candidates that the input gives: around the audible edges and the intro
/// and outro hints, at section edges, and at phrase boundaries.
pub open spec fn heuristic_candidates(input: CueGenerationInput) -> Seq<DjCue> {
    let n = input.beat_count;
    let start = with_neighborhood(
        Seq::empty(),
        audible_edge_cue(true, false),
        input.audible_start_beat,
        n,
    );
    let end = with_neighborhood(
        start,
        audible_edge_cue(false, true),
        (input.audible_end_beat - 1) as usize,
        n,
    );
    let intro = match input.intro_end_beat {
        Some(beat) => with_neighborhood(end, structure_edge_cue(true), beat, n),
        None => end,
    };
    let outro = match input.outro_start_beat {
        Some(beat) => with_neighborhood(intro, structure_edge_cue(false), beat, n),
        None => intro,
    };
    match input.structure {
        Some(structure) => with_sections(
            outro,
            structure.sections@,
            structure.sections@.len() as int,
        ) + structure.phrase_boundaries@.map_values(
            |boundary: PhraseBoundary| DjCue::of_phrase_boundary(boundary),
        ),
        None => outro,
    }
}

/// The cues whose beat lies in the span, in their order.
pub open spec fn cues_in_span(cues: Seq<DjCue>, start: usize, end: usize) -> Seq<DjCue> {
    cues.filter(|cue: DjCue| start <= cue.beat_index < end)
}

/// Whether `cues` is what the generator gives: nothing without beats or without
/// an audible span, and otherwise those of the best candidates that lie in the
/// audible span.
pub open spec fn is_heuristic_generation(cues: Seq<DjCue>, input: CueGenerationInput) -> bool {
    if input.beat_count == 0 || input.audible_start_beat >= input.audible_end_beat {
        cues.len() == 0
    } else {
        exists|best: Seq<DjCue>| #[trigger]
            is_bounded_selection(
                best,
                heuristic_candidates(input),
                input.beat_count,
                MAX_CUE_CANDIDATES,
            ) && cues == cues_in_span(best, input.audible_start_beat, input.audible_end_beat)
    }
}

fn retain_span(cues: &Vec<DjCue>, start: usize, end: usize) -> (r: Vec<DjCue>)
    ensures
        r@ == cues_in_span(cues@, start, end),
{
    let mut kept: Vec<DjCue> = Vec::new();
    let mut i: usize = 0;
    while i < cues.len()
        invariant
            i <= cues@.len(),
            kept@ == cues_in_span(cues@.take(i as int), start, end),
        decreases cues@.len() - i,
    {
        proof {
            reveal(Seq::filter);
            assert(cues@.take(i + 1).drop_last() =~= cues@.take(i as int));
        }
        if start <= cues[i].beat_index && cues[i].beat_index < end {
            kept.push(cues[i]);
        }
        i += 1;
    }
    assert(cues@.take(i as int) =~= cues@);
    kept
}

/// Generates bounded heuristic candidates around audible and structural edges.
///
/// Periodic prior cues stay tagged as such and remain low-importance search
/// candidates. Missing human cues do not suppress any generated candidate.
pub fn generate_heuristic_cues(input: &CueGenerationInput) -> (r: Vec<DjCue>)
    ensures
        is_heuristic_generation(r@, *input),
{
    if input.beat_count == 0 || input.audible_start_beat >= input.audible_end_beat {
        let none: Vec<DjCue> = Vec::new();
        return none;
    }
    let mut candidates: Vec<DjCue> = Vec::new();
    let audible_end: usize = input.audible_end_beat.saturating_sub(1);
    let mut cue = DjCue::new(0, UnitInterval::clamped(AUDIBLE_EDGE_IMPORTANCE));
    cue.mix_in = UnitInterval::one();
    cue.cut_safe = UnitInterval::zero();
    push_neighborhood(&mut candidates, input.audible_start_beat, input.beat_count, cue);
    let mut cue = DjCue::new(0, UnitInterval::clamped(AUDIBLE_EDGE_IMPORTANCE));
    cue.mix_out = UnitInterval::one();
    cue.cut_safe = UnitInterval::one();
    push_neighborhood(&mut candidates, audible_end, input.beat_count, cue);
    if let Some(intro_end) = input.intro_end_beat {
        let mut cue = DjCue::new(0, UnitInterval::clamped(STRUCTURE_EDGE_IMPORTANCE));
        cue.mix_in = UnitInterval::one();
        cue.cut_safe = UnitInterval::one();
        push_neighborhood(&mut candidates, intro_end, input.beat_count, cue);
    }
    if let Some(outro_start) = input.outro_start_beat {
        let mut cue = DjCue::new(0, UnitInterval::clamped(STRUCTURE_EDGE_IMPORTANCE));
        cue.mix_out = UnitInterval::one();
        cue.cut_safe = UnitInterval::one();
        push_neighborhood(&mut candidates, outro_start, input.beat_count, cue);
    }
    if let Some(structure) = input.structure {
        push_sections(&mut candidates, &structure.sections);
        push_boundaries(&mut candidates, &structure.phrase_boundaries);
    }
    assert(candidates@ =~= heuristic_candidates(*input));
    let bounded = bound_cue_candidates_with_limit(
        candidates,
        input.beat_count,
        MAX_CUE_CANDIDATES,
    );
    retain_span(&bounded, input.audible_start_beat, input.audible_end_beat)
}

fn push_sections(candidates: &mut Vec<DjCue>, sections: &Vec<Section>)
    ensures
        final(candidates)@ == with_sections(old(candidates)@, sections@, sections@.len() as int),
{
    let ghost start = candidates@;
    let mut i: usize = 0;
    while i < sections.len()
        invariant
            i <= sections@.len(),
            candidates@ == with_sections(start, sections@, i as int),
        decreases sections@.len() - i,
    {
        let section = &sections[i];
        let importance = UnitInterval::from(section.boundary_confidence);
        let safe: bool = section.has_label(SectionLabel::Intro) || section.has_label(
            SectionLabel::Build,
        ) || section.has_label(SectionLabel::Drop);
        let cue = DjCue::scored(
            section.start_beat,
            importance,
            UnitInterval::one(),
            UnitInterval::zero(),
            score_from_bool(safe),
            UnitInterval::one(),
            label_score(&section.labels, SectionLabel::Drop),
            label_score(&section.labels, SectionLabel::Build),
            CueProvenance::Heuristic,
        );
        proof {
            super::value::confidence_keeps_its_scalar(section.boundary_confidence);
            importance.lemma_same_bits(importance);
            assert(cue == section_start_cue(*section));
        }
        candidates.push(cue);
        if section.end_beat > section.start_beat {
            let mut end = cue;
            end.beat_index = section.end_beat;
            end.mix_in = UnitInterval::zero();
            end.mix_out = UnitInterval::one();
            end.cut_safe = UnitInterval::one();
            end.drop = UnitInterval::zero();
            end.build = UnitInterval::zero();
            candidates.push(end);
        }
        i += 1;
    }
}

fn push_boundaries(candidates: &mut Vec<DjCue>, boundaries: &Vec<PhraseBoundary>)
    ensures
        final(candidates)@ == old(candidates)@ + boundaries@.map_values(
            |boundary: PhraseBoundary| DjCue::of_phrase_boundary(boundary),
        ),
{
    let ghost start = candidates@;
    let mut i: usize = 0;
    while i < boundaries.len()
        invariant
            i <= boundaries@.len(),
            candidates@ == start + boundaries@.take(i as int).map_values(
                |boundary: PhraseBoundary| DjCue::of_phrase_boundary(boundary),
            ),
        decreases boundaries@.len() - i,
    {
        candidates.push(DjCue::from_phrase_boundary(boundaries[i]));
        i += 1;
    }
    assert(boundaries@.take(i as int) =~= boundaries@);
}

/// Generates candidates from phrase boundaries alone.
pub fn generate_heuristic_cues_from_boundaries(
    beat_count: usize,
    audible_start_beat: usize,
    audible_end_beat: usize,
    phrase_boundaries: &[PhraseBoundary],
) -> (r: Vec<DjCue>)
    ensures
        exists|structure: StructureAnalysis|
            structure.sections@.len() == 0 && structure.phrase_boundaries@ == phrase_boundaries@
                && #[trigger] is_heuristic_generation(
                r@,
                CueGenerationInput {
                    beat_count,
                    audible_start_beat,
                    audible_end_beat,
                    intro_end_beat: None,
                    outro_start_beat: None,
                    structure: Some(&structure),
                },
            ),
{
    let mut copy: Vec<PhraseBoundary> = Vec::new();
    let mut i: usize = 0;
    while i < phrase_boundaries.len()
        invariant
            i <= phrase_boundaries@.len(),
            copy@ == phrase_boundaries@.take(i as int),
        decreases phrase_boundaries@.len() - i,
    {
        copy.push(phrase_boundaries[i]);
        i += 1;
    }
    assert(phrase_boundaries@.take(i as int) =~= phrase_boundaries@);
    let structure = StructureAnalysis::new(Vec::new(), copy);
    let input = CueGenerationInput::new(beat_count, audible_start_beat, audible_end_beat)
        .with_structure(&structure);
    generate_heuristic_cues(&input)
}

/// The generated cues are no more than the search budget allows, lie in the
/// audible span and on the grid, and no two lie on one beat.
pub proof fn generated_cues_are_deduplicated_bounded_and_in_range(
    cues: Seq<DjCue>,
    input: CueGenerationInput,
)
    requires
        is_heuristic_generation(cues, input),
    ensures
        cues.len() <= MAX_CUE_CANDIDATES,
        forall|i: int|
            0 <= i < cues.len() ==> (#[trigger] cues[i]).beat_index < input.beat_count
                && input.audible_start_beat <= cues[i].beat_index < input.audible_end_beat,
        forall|i: int, j: int|
            0 <= i < j < cues.len() ==> cues[i].beat_index != cues[j].beat_index,
        in_rank_order(cues),
{
    if input.beat_count == 0 || input.audible_start_beat >= input.audible_end_beat {
    } else {
        let best = choose|best: Seq<DjCue>| #[trigger]
            is_bounded_selection(
                best,
                heuristic_candidates(input),
                input.beat_count,
                MAX_CUE_CANDIDATES,
            ) && cues == cues_in_span(best, input.audible_start_beat, input.audible_end_beat);
        lemma_selection_has_distinct_beats(
            best,
            heuristic_candidates(input),
            input.beat_count,
            MAX_CUE_CANDIDATES,
        );
        lemma_span_keeps_order(best, input.audible_start_beat, input.audible_end_beat);
        assert forall|i: int| 0 <= i < cues.len() implies (#[trigger] cues[i]).beat_index
            < input.beat_count && input.audible_start_beat <= cues[i].beat_index
            < input.audible_end_beat by {
            let x = choose|x: int| 0 <= x < best.len() && best[x] == cues[i];
            assert(best[x] == cues[i]);
        }
    }
}

proof fn lemma_selection_has_distinct_beats(
    selected: Seq<DjCue>,
    candidates: Seq<DjCue>,
    beat_count: usize,
    limit: usize,
)
    requires
        is_bounded_selection(selected, candidates, beat_count, limit),
    ensures
        forall|i: int, j: int|
            0 <= i < j < selected.len() ==> selected[i].beat_index != selected[j].beat_index,
{
    assert forall|i: int, j: int| 0 <= i < j < selected.len() implies selected[i].beat_index
        != selected[j].beat_index by {
        if selected[i].beat_index == selected[j].beat_index {
            lemma_group_unique(selected[i], selected[j], candidates, candidates.len() as int);
            assert(ranks_before(selected[i], selected[j]));
        }
    }
}

proof fn lemma_span_keeps_order(cues: Seq<DjCue>, start: usize, end: usize)
    requires
        in_rank_order(cues),
        forall|i: int, j: int|
            0 <= i < j < cues.len() ==> cues[i].beat_index != cues[j].beat_index,
    ensures
        cues_in_span(cues, start, end).len() <= cues.len(),
        in_rank_order(cues_in_span(cues, start, end)),
        forall|i: int, j: int|
            0 <= i < j < cues_in_span(cues, start, end).len() ==> cues_in_span(
                cues,
                start,
                end,
            )[i].beat_index != cues_in_span(cues, start, end)[j].beat_index,
        forall|i: int|
            0 <= i < cues_in_span(cues, start, end).len() ==> cues.contains(
                #[trigger] cues_in_span(cues, start, end)[i],
            ) && start <= cues_in_span(cues, start, end)[i].beat_index < end,
    decreases cues.len(),
{
    reveal(Seq::filter);
    if cues.len() > 0 {
        let front = cues.drop_last();
        lemma_span_keeps_order(front, start, end);
        let kept = cues_in_span(front, start, end);
        assert forall|i: int| 0 <= i < kept.len() implies cues.contains(#[trigger] kept[i])
            && ranks_before(kept[i], cues.last()) && kept[i].beat_index
            != cues.last().beat_index by {
            assert(front.contains(kept[i]));
            let x = choose|x: int| 0 <= x < front.len() && front[x] == kept[i];
            assert(cues[x] == kept[i]);
            assert(ranks_before(cues[x], cues[cues.len() - 1]));
        }
        assert(cues.contains(cues[cues.len() - 1]));
    }
}

/// A selection is determined by its candidates, its filter and its limit.
pub proof fn selection_is_unique(
    left: Seq<DjCue>,
    right: Seq<DjCue>,
    candidates: Seq<DjCue>,
    beat_count: usize,
    limit: usize,
)
    requires
        is_bounded_selection(left, candidates, beat_count, limit),
        is_bounded_selection(right, candidates, beat_count, limit),
    ensures
        left == right,
{
    lemma_selection_prefix(left, right, candidates, beat_count, limit, left.len() as int);
    lemma_selection_prefix(right, left, candidates, beat_count, limit, right.len() as int);
    assert(left =~= right);
}

proof fn lemma_selection_prefix(
    left: Seq<DjCue>,
    right: Seq<DjCue>,
    candidates: Seq<DjCue>,
    beat_count: usize,
    limit: usize,
    n: int,
)
    requires
        is_bounded_selection(left, candidates, beat_count, limit),
        is_bounded_selection(right, candidates, beat_count, limit),
        0 <= n <= left.len(),
    ensures
        n <= right.len(),
        forall|i: int| 0 <= i < n ==> left[i] == right[i],
    decreases n,
{
    if n > 0 {
        lemma_selection_prefix(left, right, candidates, beat_count, limit, n - 1);
        let cue = left[n - 1];
        assert(stands_for_group(cue, candidates, candidates.len() as int));
        if right.contains(cue) {
            let x = choose|x: int| 0 <= x < right.len() && right[x] == cue;
            if x < n - 1 {
                assert(left[x] == right[x]);
                assert(ranks_before(left[x], left[n - 1]));
            }
            if x > n - 1 {
                let other = right[n - 1];
                assert(ranks_before(other, cue));
                assert(stands_for_group(other, candidates, candidates.len() as int));
                if left.contains(other) {
                    let y = choose|y: int| 0 <= y < left.len() && left[y] == other;
                    if y < n - 1 {
                        assert(ranks_before(right[y], right[n - 1]));
                    } else if y > n - 1 {
                        assert(ranks_before(left[n - 1], left[y]));
                    }
                } else {
                    assert(ranks_before(left[n - 1], other));
                }
            }
        } else {
            assert(all_rank_before(right, cue));
            if n - 1 < right.len() {
                let other = right[n - 1];
                assert(ranks_before(other, cue));
                assert(stands_for_group(other, candidates, candidates.len() as int));
                if left.contains(other) {
                    let y = choose|y: int| 0 <= y < left.len() && left[y] == other;
                    if y < n - 1 {
                        assert(ranks_before(right[y], right[n - 1]));
                    } else if y > n - 1 {
                        assert(ranks_before(left[n - 1], left[y]));
                    }
                } else {
                    assert(ranks_before(left[n - 1], other));
                }
            }
        }
    }
}

/// Merging loses no evidence: on every beat with a valid candidate the merge has a
/// cue whose every score is at least that of the candidate.
pub proof fn merging_keeps_the_strongest(
    merged: Seq<DjCue>,
    candidates: Seq<DjCue>,
    j: int,
    which: CueScore,
) -> (i: int)
    requires
        is_cue_merge(merged, candidates),
        0 <= j < candidates.len(),
        candidates[j].importance.wf(),
    ensures
        0 <= i < merged.len(),
        merged[i].beat_index == candidates[j].beat_index,
        candidates[j].score(which).key() <= merged[i].score(which).key(),
{
    let n = candidates.len() as int;
    let beat = candidates[j].beat_index;
    assert(has_cue_at(merged, beat));
    let i = choose|i: int| 0 <= i < merged.len() && (#[trigger] merged[i]).beat_index == beat;
    assert(is_group_score(candidates, n, beat, which, merged[i].score(which)));
    assert(in_group(candidates, n, beat, j));
    i
}

/// A human cue survives the way to a beat and back: it moves to the nearest beat
/// and keeps its source. Its kind stays where the beat's evidence can tell it:
/// an unlabeled cue stays unlabeled, a break comes back as a phrase boundary and a
/// vocal mark as a safe cut.
pub proof fn human_cue_round_trip(human: HumanCue, cue: DjCue, beat_times: Seq<Duration>)
    requires
        is_dj_cue_of(Some(cue), human, beat_times),
    ensures
        cue.provenance.spec_human_source() == Some(human.source),
        human_cue_of(cue, beat_times, human.source) == Some(
            HumanCue {
                time: beat_times[cue.beat_index as int],
                source: human.source,
                kind: match human.kind {
                    HumanCueKind::Cue => HumanCueKind::Unlabeled,
                    HumanCueKind::Break => HumanCueKind::PhraseBoundary,
                    HumanCueKind::Vocal => HumanCueKind::CutSafe,
                    kind => kind,
                },
            },
        ),
        is_nearest_beat(beat_times, human.time, cue.beat_index as int),
{
    UnitInterval::lemma_named();
    UnitInterval::lemma_of_bits(VOCAL_CUT_SAFETY);
}

/// A human cue is imported with full importance and speaks for its own kind only: each
/// score is one for the kinds that mean it and zero for all others, but for a vocal, where
/// a cut is half safe.
pub proof fn kinds_speak_for_their_own_scores(
    beat_index: usize,
    source: HumanCueSource,
    kind: HumanCueKind,
)
    ensures
        ({
            let cue = cue_of_kind(beat_index, source, kind);
            let scored = |means: bool|
                if means {
                    UnitInterval::one()
                } else {
                    UnitInterval::zero()
                };
            &&& cue.beat_index == beat_index
            &&& cue.importance == UnitInterval::one()
            &&& cue.provenance == CueProvenance::Imported(source)
            &&& cue.mix_in == scored(kind is MixIn)
            &&& cue.mix_out == scored(kind is MixOut)
            &&& cue.drop == scored(kind is Drop)
            &&& cue.build == UnitInterval::zero()
            &&& cue.phrase_boundary == scored(
                kind is PhraseBoundary || kind is Break || kind is Drop,
            )
            &&& kind is Vocal ==> cue.cut_safe.bits() == 0x3F00_0000
            &&& !(kind is Vocal) ==> cue.cut_safe == scored(kind is CutSafe)
        }),
{
    UnitInterval::lemma_of_bits(VOCAL_CUT_SAFETY);
}

/// A cue is handed back as the first of these that it has a score for: mix-in, mix-out,
/// drop, build (a break), cut-safe, phrase boundary; without any it has no label.
pub proof fn cues_are_labelled_by_their_first_score(cue: DjCue)
    ensures
        ({
            let kind = kind_of_cue(cue);
            let scored = |score: UnitInterval| score.key() != 0;
            let mixes = scored(cue.mix_in) || scored(cue.mix_out);
            &&& kind == HumanCueKind::MixIn <==> scored(cue.mix_in)
            &&& kind == HumanCueKind::MixOut <==> !scored(cue.mix_in) && scored(cue.mix_out)
            &&& kind == HumanCueKind::Drop <==> !mixes && scored(cue.drop)
            &&& kind == HumanCueKind::Break <==> !mixes && !scored(cue.drop) && scored(cue.build)
            &&& kind == HumanCueKind::CutSafe <==> !mixes && !scored(cue.drop) && !scored(cue.build)
                && scored(cue.cut_safe)
            &&& kind == HumanCueKind::PhraseBoundary <==> !mixes && !scored(cue.drop) && !scored(
                cue.build,
            ) && !scored(cue.cut_safe) && scored(cue.phrase_boundary)
            &&& kind == HumanCueKind::Unlabeled <==> !mixes && !scored(cue.drop) && !scored(cue.build)
                && !scored(cue.cut_safe) && !scored(cue.phrase_boundary)
        }),
{
}

/// A cue is handed back at the time of its beat with the source asked for, and not at all
/// past the last beat.
pub proof fn cues_stand_at_their_beat(
    cue: DjCue,
    beat_times: Seq<Duration>,
    source: HumanCueSource,
)
    ensures
        human_cue_of(cue, beat_times, source) is Some <==> cue.beat_index < beat_times.len(),
        human_cue_of(cue, beat_times, source) matches Some(human) ==> {
            &&& human.time == beat_times[cue.beat_index as int]
            &&& human.source == source
            &&& human.kind == kind_of_cue(cue)
        },
{
}

/// A phrase boundary gives a cue on its beat, as important as it is strong, that says where
/// it was found; an imported boundary counts as found by a heuristic.
pub proof fn phrase_boundaries_give_their_cue(boundary: PhraseBoundary)
    ensures
        ({
            let cue = DjCue::of_phrase_boundary(boundary);
            &&& cue.beat_index == boundary.beat_index
            &&& cue.importance == boundary.strength
            &&& cue.phrase_boundary == UnitInterval::one()
            &&& cue.mix_in == UnitInterval::zero() && cue.mix_out == UnitInterval::zero()
            &&& cue.cut_safe == UnitInterval::zero()
            &&& cue.drop == UnitInterval::zero() && cue.build == UnitInterval::zero()
            &&& cue.provenance == CueProvenance::Detected <==> boundary.source
                == PhraseBoundarySource::Detected
            &&& cue.provenance == CueProvenance::PeriodicPrior <==> boundary.source
                == PhraseBoundarySource::PeriodicPrior
            &&& cue.provenance == CueProvenance::Heuristic <==> boundary.source
                == PhraseBoundarySource::Heuristic || boundary.source
                == PhraseBoundarySource::Imported
        }),
{
}

/// Each score of a cue is read by its own name, and a role is played by a cue whose score
/// for it is not zero.
pub proof fn scores_are_read_by_name(cue: DjCue)
    ensures
        cue.score(CueScore::Importance) == cue.importance,
        cue.score(CueScore::MixIn) == cue.mix_in,
        cue.score(CueScore::MixOut) == cue.mix_out,
        cue.score(CueScore::CutSafe) == cue.cut_safe,
        cue.score(CueScore::PhraseBoundary) == cue.phrase_boundary,
        cue.score(CueScore::Drop) == cue.drop,
        cue.score(CueScore::Build) == cue.build,
        cue.plays(CueRole::MixIn) <==> cue.mix_in.key() != 0,
        cue.plays(CueRole::MixOut) <==> cue.mix_out.key() != 0,
{
}

/// The stronger of two scores is one of them and below neither, the first where they are
/// the same.
pub proof fn stronger_scores_are_below_neither(left: UnitInterval, right: UnitInterval)
    ensures
        stronger(left, right) == left || stronger(left, right) == right,
        left.key() <= stronger(left, right).key(),
        right.key() <= stronger(left, right).key(),
        left.key() == right.key() ==> stronger(left, right) == left,
{
}

/// Two origins that agree stay what they are, an import outlasts any other, the first of
/// two imports the second, and any other two are mixed.
pub proof fn imports_outlast_other_origins(left: CueProvenance, right: CueProvenance)
    ensures
        left == right ==> joint_provenance(left, right) == left,
        left is Imported ==> joint_provenance(left, right) == left,
        !(left is Imported) && right is Imported ==> joint_provenance(left, right) == right,
        left != right && !(left is Imported) && !(right is Imported) ==> joint_provenance(
            left,
            right,
        ) == CueProvenance::Mixed,
{
}

/// The more important cue ranks first, of two as important the earlier one.
pub proof fn important_then_early_cues_rank_first(left: DjCue, right: DjCue)
    ensures
        left.importance.key() > right.importance.key() ==> ranks_before(left, right),
        left.importance.key() < right.importance.key() ==> !ranks_before(left, right),
        left.importance.key() == right.importance.key() ==> (ranks_before(left, right)
            <==> left.beat_index < right.beat_index),
{
}

proof fn lemma_cue_added(
    candidates: Seq<DjCue>,
    template: DjCue,
    beat: int,
    beat_count: usize,
    cue: DjCue,
)
    requires
        0 <= beat,
    ensures
        with_cue_at(candidates, template, beat, beat_count).contains(cue) <==> {
            ||| candidates.contains(cue)
            ||| beat < beat_count && cue == (DjCue { beat_index: beat as usize, ..template })
        },
{
    let all = with_cue_at(candidates, template, beat, beat_count);
    if candidates.contains(cue) {
        let i = choose|i: int| 0 <= i < candidates.len() && candidates[i] == cue;
        assert(all[i] == cue);
    }
    if beat < beat_count {
        assert(all[candidates.len() as int] == (DjCue { beat_index: beat as usize, ..template }));
    }
    if all.contains(cue) {
        let i = choose|i: int| 0 <= i < all.len() && all[i] == cue;
        if i < candidates.len() {
            assert(candidates[i] == cue);
        }
    }
}

/// Around an edge the cue is added at its beat and at the beats next to it, as far as there
/// are such beats, and nothing else is added or lost.
pub proof fn neighborhoods_are_three_beats_wide(
    candidates: Seq<DjCue>,
    template: DjCue,
    center: usize,
    beat_count: usize,
    cue: DjCue,
)
    ensures
        with_neighborhood(candidates, template, center, beat_count).contains(cue) <==> {
            ||| candidates.contains(cue)
            ||| {
                &&& center - 1 <= cue.beat_index <= center + 1
                &&& cue.beat_index < beat_count
                &&& cue == (DjCue { beat_index: cue.beat_index, ..template })
            }
        },
{
    let before = if center == 0 {
        0
    } else {
        center - 1
    };
    let first = with_cue_at(candidates, template, before, beat_count);
    let second = with_cue_at(first, template, center as int, beat_count);
    lemma_cue_added(candidates, template, before, beat_count, cue);
    lemma_cue_added(first, template, center as int, beat_count, cue);
    lemma_cue_added(second, template, center + 1, beat_count, cue);
}

/// The score of a label is that of its first occurrence, and zero without one.
pub proof fn labels_score_by_their_first_occurrence(
    labels: Seq<SectionLabelScore>,
    label: SectionLabel,
    from: int,
)
    requires
        0 <= from <= labels.len(),
    ensures
        forall|i: int|
            {
                &&& from <= i < labels.len()
                &&& (#[trigger] labels[i]).label == label
                &&& forall|k: int| from <= k < i ==> (#[trigger] labels[k]).label != label
            } ==> first_label_score(labels, label, from) == labels[i].score,
        (forall|k: int| from <= k < labels.len() ==> (#[trigger] labels[k]).label != label)
            ==> first_label_score(labels, label, from) == UnitInterval::zero(),
    decreases labels.len() - from,
{
    if from < labels.len() {
        labels_score_by_their_first_occurrence(labels, label, from + 1);
    }
}

/// A section is mixed in at its start and out at its end. Both are phrase boundaries and as
/// important as the section's boundary is sure; a cut is safe at every end, and at the
/// start of an intro, a build or a drop.
pub proof fn sections_are_mixed_in_and_out(section: Section)
    ensures
        ({
            let start = section_start_cue(section);
            let end = section_end_cue(section);
            let safe = section.labelled(SectionLabel::Intro) || section.labelled(
                SectionLabel::Build,
            ) || section.labelled(SectionLabel::Drop);
            &&& start.beat_index == section.start_beat && end.beat_index == section.end_beat
            &&& start.mix_in == UnitInterval::one() && start.mix_out == UnitInterval::zero()
            &&& end.mix_out == UnitInterval::one() && end.mix_in == UnitInterval::zero()
            &&& start.importance == end.importance && start.importance.bits()
                == section.boundary_confidence.bits()
            &&& start.phrase_boundary == UnitInterval::one() && end.phrase_boundary
                == UnitInterval::one()
            &&& safe ==> start.cut_safe == UnitInterval::one()
            &&& !safe ==> start.cut_safe == UnitInterval::zero()
            &&& end.cut_safe == UnitInterval::one()
            &&& start.drop == first_label_score(section.labels@, SectionLabel::Drop, 0)
            &&& start.build == first_label_score(section.labels@, SectionLabel::Build, 0)
            &&& end.drop == UnitInterval::zero() && end.build == UnitInterval::zero()
            &&& start.provenance == CueProvenance::Heuristic && end.provenance
                == CueProvenance::Heuristic
        }),
{
    UnitInterval::lemma_of_bits(section.boundary_confidence.bits());
}

/// Sections add the cue of their start, and that of their end unless they are empty, and
/// nothing else.
pub proof fn sections_add_their_two_cues(
    candidates: Seq<DjCue>,
    sections: Seq<Section>,
    n: int,
    cue: DjCue,
)
    requires
        0 <= n <= sections.len(),
    ensures
        with_sections(candidates, sections, n).contains(cue) <==> {
            ||| candidates.contains(cue)
            ||| exists|k: int|
                0 <= k < n && (cue == section_start_cue(#[trigger] sections[k])
                    || sections[k].start_beat < sections[k].end_beat && cue == section_end_cue(
                    sections[k],
                ))
        },
    decreases n,
{
    if n > 0 {
        sections_add_their_two_cues(candidates, sections, n - 1, cue);
        let rest = with_sections(candidates, sections, n - 1);
        let all = with_sections(candidates, sections, n);
        let section = sections[n - 1];
        assert(all[rest.len() as int] == section_start_cue(section));
        if section.end_beat > section.start_beat {
            assert(all[rest.len() as int + 1] == section_end_cue(section));
        }
        if rest.contains(cue) {
            let i = choose|i: int| 0 <= i < rest.len() && rest[i] == cue;
            assert(all[i] == cue);
        }
        if all.contains(cue) {
            let i = choose|i: int| 0 <= i < all.len() && all[i] == cue;
            if i < rest.len() {
                assert(rest[i] == cue);
            } else {
                assert(cue == section_start_cue(sections[n - 1]) || cue == section_end_cue(
                    sections[n - 1],
                ));
            }
        }
    }
}

/// Where the track is first heard it is mixed in, with an importance of 0.7, where it ceases
/// to be heard mixed out, and at the end of the intro and the start of the outro the same
/// with 0.8 and a safe cut.
pub proof fn edges_are_mixed_by_their_side(mix_in: bool, cut_safe: bool)
    ensures
        ({
            let audible = audible_edge_cue(mix_in, cut_safe);
            let structure = structure_edge_cue(mix_in);
            let scored = |means: bool|
                if means {
                    UnitInterval::one()
                } else {
                    UnitInterval::zero()
                };
            &&& audible.importance.bits() == 0x3F33_3333
            &&& structure.importance.bits() == 0x3F4C_CCCD
            &&& audible.mix_in == scored(mix_in) && audible.mix_out == scored(!mix_in)
            &&& structure.mix_in == scored(mix_in) && structure.mix_out == scored(!mix_in)
            &&& audible.cut_safe == scored(cut_safe) && structure.cut_safe == UnitInterval::one()
            &&& audible.phrase_boundary == UnitInterval::zero() && structure.phrase_boundary
                == UnitInterval::zero()
            &&& audible.drop == UnitInterval::zero() && audible.build == UnitInterval::zero()
            &&& structure.drop == UnitInterval::zero() && structure.build == UnitInterval::zero()
            &&& audible.provenance == CueProvenance::Heuristic && structure.provenance
                == CueProvenance::Heuristic
        }),
{
    UnitInterval::lemma_of_bits(AUDIBLE_EDGE_IMPORTANCE);
    UnitInterval::lemma_of_bits(STRUCTURE_EDGE_IMPORTANCE);
}

/// Without structure the candidates are just the neighbors of the edges: of the first
/// audible beat, mixed in, of the last one, mixed out with a safe cut, of the end of the
/// intro and of the start of the outro where they are known.
pub proof fn plain_candidates_stand_at_the_edges(input: CueGenerationInput, cue: DjCue)
    requires
        input.structure is None,
        input.audible_start_beat < input.audible_end_beat,
    ensures
        heuristic_candidates(input).contains(cue) <==> {
            let beat = cue.beat_index;
            let at = |template: DjCue, center: int|
                center - 1 <= beat <= center + 1 && beat < input.beat_count && cue == (DjCue {
                    beat_index: beat,
                    ..template
                });
            ||| at(audible_edge_cue(true, false), input.audible_start_beat as int)
            ||| at(audible_edge_cue(false, true), input.audible_end_beat - 1)
            ||| input.intro_end_beat is Some && at(
                structure_edge_cue(true),
                input.intro_end_beat->0 as int,
            )
            ||| input.outro_start_beat is Some && at(
                structure_edge_cue(false),
                input.outro_start_beat->0 as int,
            )
        },
{
    let n = input.beat_count;
    let start = with_neighborhood(
        Seq::empty(),
        audible_edge_cue(true, false),
        input.audible_start_beat,
        n,
    );
    let end = with_neighborhood(
        start,
        audible_edge_cue(false, true),
        (input.audible_end_beat - 1) as usize,
        n,
    );
    neighborhoods_are_three_beats_wide(
        Seq::empty(),
        audible_edge_cue(true, false),
        input.audible_start_beat,
        n,
        cue,
    );
    neighborhoods_are_three_beats_wide(
        start,
        audible_edge_cue(false, true),
        (input.audible_end_beat - 1) as usize,
        n,
        cue,
    );
    let intro = match input.intro_end_beat {
        Some(beat) => with_neighborhood(end, structure_edge_cue(true), beat, n),
        None => end,
    };
    if let Some(beat) = input.intro_end_beat {
        neighborhoods_are_three_beats_wide(end, structure_edge_cue(true), beat, n, cue);
    }
    if let Some(beat) = input.outro_start_beat {
        neighborhoods_are_three_beats_wide(intro, structure_edge_cue(false), beat, n, cue);
    }
}

/// The cues of a span are those from its start up to before its end.
pub proof fn spans_hold_the_cues_before_their_end(
    cues: Seq<DjCue>,
    start: usize,
    end: usize,
    cue: DjCue,
)
    ensures
        cues_in_span(cues, start, end).contains(cue) <==> cues.contains(cue) && start
            <= cue.beat_index < end,
{
    let inside = |cue: DjCue| start <= cue.beat_index < end;
    let found = cues.filter(inside);
    assert(found == cues_in_span(cues, start, end));
    if found.contains(cue) {
        let i = choose|i: int| 0 <= i < found.len() && found[i] == cue;
        cues.lemma_filter_pred(inside, i);
        cues.lemma_filter_contains_rev(inside, cue);
    }
    if cues.contains(cue) && inside(cue) {
        let i = choose|i: int| 0 <= i < cues.len() && cues[i] == cue;
        cues.lemma_filter_contains(inside, i);
    }
}

/// The beat nearest to a time is as near as any other and the first of those as near; a
/// beat at that very time is it.
pub proof fn nearest_beats_are_the_first_as_near(
    beat_times: Seq<Duration>,
    time: Duration,
    index: int,
    other: int,
)
    requires
        is_nearest_beat(beat_times, time, index),
        0 <= other < beat_times.len(),
    ensures
        ({
            let far = |k: int|
                if beat_times[k]@ >= time@ {
                    beat_times[k]@ - time@
                } else {
                    time@ - beat_times[k]@
                };
            &&& far(index) <= far(other)
            &&& far(index) == far(other) ==> index <= other
            &&& beat_times[other] == time ==> beat_times[index] == time
        }),
        is_nearest_beat(beat_times, time, other) ==> other == index,
{
    let here = spec_distance(beat_times[index]@, time@);
    let there = spec_distance(beat_times[other]@, time@);
    assert(here <= there);
}

/// At most 96 candidates are kept, and 8 of them for a role.
pub proof fn candidates_are_limited()
    ensures
        MAX_CUE_CANDIDATES == 96,
        MAX_ROLE_CUES == 8,
{
}

/// A merged cue has, for each score, that of a valid candidate on its beat, and none there
/// has a greater one. It is imported just where one of them is; otherwise it keeps what all
/// of them agree on or is mixed.
pub proof fn merged_cues_stand_for_their_beat(
    merged: DjCue,
    candidates: Seq<DjCue>,
    which: CueScore,
    j: int,
)
    requires
        stands_for_group(merged, candidates, candidates.len() as int),
        0 <= j < candidates.len(),
        candidates[j].beat_index == merged.beat_index,
        candidates[j].importance.wf(),
    ensures
        candidates[j].score(which).key() <= merged.score(which).key(),
        candidates[j].provenance is Imported ==> merged.provenance is Imported,
        merged.provenance is Imported || merged.provenance == candidates[j].provenance
            || merged.provenance == CueProvenance::Mixed,
{
    let n = candidates.len() as int;
    let beat = merged.beat_index;
    assert(in_group(candidates, n, beat, j));
    assert(is_group_score(candidates, n, beat, which, merged.score(which)));
    if candidates[j].provenance is Imported {
        assert(human_in_group(candidates, n, beat, j));
    }
}

/// A selection is ranked, holds only accepted cues of the merge, no more than its limit, and
/// leaves one out only where it is full of cues that rank before it.
pub proof fn selections_leave_out_the_least(
    selected: Seq<DjCue>,
    candidates: Seq<DjCue>,
    accept: spec_fn(DjCue) -> bool,
    limit: int,
    cue: DjCue,
)
    requires
        is_selection(selected, candidates, accept, limit),
        stands_for_group(cue, candidates, candidates.len() as int),
        accept(cue),
    ensures
        selected.len() <= limit,
        forall|i: int| 0 <= i < selected.len() ==> accept(#[trigger] selected[i]),
        selected.contains(cue) || selected.len() == limit && forall|i: int|
            0 <= i < selected.len() ==> ranks_before(#[trigger] selected[i], cue),
        forall|i: int, j: int|
            0 <= i < j < selected.len() ==> ranks_before(
                #[trigger] selected[i],
                #[trigger] selected[j],
            ),
{
    assert forall|i: int| 0 <= i < selected.len() implies accept(#[trigger] selected[i]) by {
        assert(stands_for_group(selected[i], candidates, candidates.len() as int));
    }
}

} // verus!
