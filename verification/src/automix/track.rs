//! What was measured on one track, and what can be read off it directly.

use vstd::prelude::*;

use crate::scalar;
use crate::time::{spec_max, spec_min, Duration, MAX_NANOS};

verus! {

/// Markers below this confidence carry no phase (0.35).
pub const MIN_PHASE_MARKER_CONFIDENCE: u32 = 0x3EB3_3333;

/// Downbeats below this confidence are not acted upon (0.6).
pub const MIN_ACTIONABLE_DOWNBEAT_CONFIDENCE: u32 = 0x3F19_999A;

/// How many trusted markers establish a phase.
pub const MIN_MARKER_BACKED_KICK_MARKERS: usize = 8;

/// The least beat confidence that trusted markers can make up for (0.45).
pub const MIN_MARKER_BACKED_BEAT_CONFIDENCE: u32 = 0x3EE6_6666;

/// The share of trusted markers that makes up for a low beat confidence (0.55).
pub const MIN_MARKER_BACKED_KICK_COVERAGE: u32 = 0x3F0C_CCCD;

/// The slowest tempo that is trusted (20 beats per minute).
pub const MIN_TRUSTED_BPM: u32 = 0x41A0_0000;

/// The fastest tempo that is trusted (300 beats per minute).
pub const MAX_TRUSTED_BPM: u32 = 0x4396_0000;

/// The number eight.
pub const EIGHT_BITS: u32 = 0x4100_0000;

/// The number one half.
pub const HALF_BITS: u32 = 0x3F00_0000;

/// Scores of harmonic compatibility: the same key.
pub const SAME_KEY: u32 = 0x3F80_0000;

/// The relative major or minor key (0.95).
pub const RELATIVE_KEY: u32 = 0x3F73_3333;

/// A fifth apart in the same mode (0.85).
pub const FIFTH_APART: u32 = 0x3F59_999A;

/// The same tonic in the other mode (0.65).
pub const PARALLEL_KEY: u32 = 0x3F26_6666;

/// Any other pair of keys (0.2).
pub const CLASHING_KEY: u32 = 0x3E4C_CCCD;

#[derive(Clone, Copy, Debug, PartialEq, Eq, Structural)]
pub enum KeyMode {
    Major,
    Minor,
}

/// A musical key; `tonic` is the pitch class where C is 0 and B is 11.
#[derive(Clone, Copy, Debug, PartialEq, Eq, Structural)]
pub struct MusicalKey {
    pub tonic: u8,
    pub mode: KeyMode,
    /// Bits of the confidence.
    pub confidence: u32,
}

/// A lightweight beat grid inferred from tempo and onset accents.
#[derive(Clone, Copy, Debug, PartialEq, Eq, Structural)]
pub struct BeatGrid {
    pub first_downbeat: Duration,
    pub beat_interval: Duration,
    pub beats_per_bar: u8,
    /// Bits of the confidence.
    pub downbeat_confidence: u32,
}

/// Length of a phrase in bars.
#[derive(Clone, Copy, Debug, PartialEq, Eq, PartialOrd, Ord, Structural)]
pub enum PhraseLength {
    FourBars,
    EightBars,
    SixteenBars,
}

impl PhraseLength {
    /// The number of bars.
    pub open spec fn spec_bars(self) -> u32 {
        match self {
            PhraseLength::FourBars => 4,
            PhraseLength::EightBars => 8,
            PhraseLength::SixteenBars => 16,
        }
    }

    /// The number of bars.
    pub fn bars(self) -> (r: u32)
        ensures
            r == self.spec_bars(),
    {
        match self {
            PhraseLength::FourBars => 4,
            PhraseLength::EightBars => 8,
            PhraseLength::SixteenBars => 16,
        }
    }
}

/// An inferred phrase boundary.
#[derive(Clone, Copy, Debug, PartialEq, Eq, Structural)]
pub struct PhraseCue {
    pub position: Duration,
    pub length: PhraseLength,
}

/// The spans of four, eight and sixteen bars at the tempo of a track.
#[derive(Clone, Copy, Debug, PartialEq, Eq, Structural)]
pub struct PhraseSpans {
    pub four: Duration,
    pub eight: Duration,
    pub sixteen: Duration,
}

impl PhraseSpans {
    /// The span of a phrase of the given length.
    pub open spec fn spec_of(self, length: PhraseLength) -> Duration {
        match length {
            PhraseLength::FourBars => self.four,
            PhraseLength::EightBars => self.eight,
            PhraseLength::SixteenBars => self.sixteen,
        }
    }
}

/// How many markers of a track are trusted.
#[derive(Clone, Copy, Debug, PartialEq, Eq, Structural)]
pub struct KickCoverage {
    pub trusted: usize,
    pub markers: usize,
}

/// Settings of the planner; the two factors are bits.
#[derive(Clone, Copy, Debug, PartialEq, Eq, Structural)]
pub struct AutoMixConfig {
    pub enabled: bool,
    pub crossfade: Duration,
    pub max_tempo_adjustment: u32,
    pub min_beat_confidence: u32,
}

/// What was measured on one track. Confidences, tempo and levels are the bits of
/// single-precision numbers.
#[derive(Clone, Debug)]
pub struct TrackAnalysis {
    pub duration: Duration,
    pub audible_start: Duration,
    pub audible_end: Duration,
    pub intro_end: Option<Duration>,
    pub intro_confidence: u32,
    pub outro_start: Option<Duration>,
    pub outro_confidence: u32,
    /// Quantized vocal activity probability at `vocal_activity_rate` Hz.
    pub vocal_activity: Vec<u8>,
    /// Quantized confidence for each vocal activity sample.
    pub vocal_activity_confidences: Vec<u8>,
    pub vocal_activity_rate: u8,
    /// Quantized full-band RMS profile used to score transition energy.
    pub energy_profile: Vec<u8>,
    pub energy_profile_rate: u8,
    pub bpm: Option<u32>,
    pub beat_confidence: u32,
    pub first_beat: Option<Duration>,
    /// Detected beat onsets used to follow local tempo changes during a transition.
    pub beat_markers: Vec<Duration>,
    /// Per-marker confidence that the onset is a low-frequency kick.
    pub beat_marker_confidences: Vec<u32>,
    pub first_downbeat: Option<Duration>,
    pub downbeat_confidence: u32,
    pub musical_key: Option<MusicalKey>,
    /// Unweighted full-band RMS level. This is dBFS, not LUFS.
    pub rms_dbfs: Option<u32>,
    pub sample_peak_dbfs: Option<u32>,
    /// ITU-R BS.1770 integrated programme loudness in LUFS.
    pub integrated_lufs: Option<u32>,
    /// Maximum oversampled true peak in dBTP across all source channels.
    pub true_peak_dbtp: Option<u32>,
}

/// Whether a tempo lies in the trusted range, both ends included.
pub open spec fn spec_bpm_is_trusted(bpm: u32) -> bool {
    scalar::spec_at_most(MIN_TRUSTED_BPM, bpm) && scalar::spec_at_most(bpm, MAX_TRUSTED_BPM)
}

/// Whether a tempo lies in the trusted range, both ends included. Only then does
/// it give a beat interval.
pub fn bpm_is_trusted(bpm: u32) -> (r: bool)
    ensures
        r == spec_bpm_is_trusted(bpm),
{
    scalar::at_most(MIN_TRUSTED_BPM, bpm) && scalar::at_most(bpm, MAX_TRUSTED_BPM)
}

/// How many of the first `count` confidences are those of trusted markers.
pub open spec fn trusted_among(confidences: Seq<u32>, count: int) -> int
    decreases count,
{
    if count <= 0 {
        0
    } else {
        trusted_among(confidences, count - 1) + if confidence_is_trusted(confidences[count - 1]) {
            1int
        } else {
            0int
        }
    }
}

/// Whether a marker of this confidence is trusted: a number between zero and
/// one, and not below the least confidence that carries a phase.
pub open spec fn confidence_is_trusted(confidence: u32) -> bool {
    scalar::spec_in_unit(confidence) && scalar::spec_at_most(
        MIN_PHASE_MARKER_CONFIDENCE,
        confidence,
    )
}

fn is_trusted_confidence(confidence: u32) -> (r: bool)
    ensures
        r == confidence_is_trusted(confidence),
{
    scalar::in_unit(confidence) && scalar::at_most(MIN_PHASE_MARKER_CONFIDENCE, confidence)
}

proof fn lemma_trusted_among_grows(confidences: Seq<u32>, low: int, high: int)
    requires
        0 <= low <= high,
    ensures
        trusted_among(confidences, low) <= trusted_among(confidences, high),
    decreases high - low,
{
    if low < high {
        lemma_trusted_among_grows(confidences, low, high - 1);
    }
}

/// The position of the boundary number `index` of a periodic grid.
pub open spec fn grid_point(first: int, span: int, index: int) -> int {
    first + index * span
}

/// Whether a position is a boundary of the grid at or after its first.
pub open spec fn on_grid(position: int, first: int, span: int) -> bool {
    exists|index: int| index >= 0 && position == #[trigger] grid_point(first, span, index)
}

impl TrackAnalysis {
    /// A track of which only the length is known.
    pub fn unanalyzed(duration: Duration) -> (r: Self)
        ensures
            r.duration == duration,
            r.audible_start@ == 0,
            r.audible_end == duration,
            r.intro_end is None && r.intro_confidence == 0,
            r.outro_start is None && r.outro_confidence == 0,
            r.vocal_activity@.len() == 0 && r.vocal_activity_confidences@.len() == 0,
            r.vocal_activity_rate == 0,
            r.energy_profile@.len() == 0 && r.energy_profile_rate == 0,
            r.bpm is None && r.beat_confidence == 0 && r.first_beat is None,
            r.beat_markers@.len() == 0 && r.beat_marker_confidences@.len() == 0,
            r.first_downbeat is None && r.downbeat_confidence == 0,
            r.musical_key is None,
            r.rms_dbfs is None && r.sample_peak_dbfs is None,
            r.integrated_lufs is None && r.true_peak_dbtp is None,
    {
        TrackAnalysis {
            duration,
            audible_start: Duration::zero(),
            audible_end: duration,
            intro_end: None,
            intro_confidence: 0,
            outro_start: None,
            outro_confidence: 0,
            vocal_activity: Vec::new(),
            vocal_activity_confidences: Vec::new(),
            vocal_activity_rate: 0,
            energy_profile: Vec::new(),
            energy_profile_rate: 0,
            bpm: None,
            beat_confidence: 0,
            first_beat: None,
            beat_markers: Vec::new(),
            beat_marker_confidences: Vec::new(),
            first_downbeat: None,
            downbeat_confidence: 0,
            musical_key: None,
            rms_dbfs: None,
            sample_peak_dbfs: None,
            integrated_lufs: None,
            true_peak_dbtp: None,
        }
    }

    /// Whether the marker at the index is trusted.
    pub open spec fn trusted(&self, index: int) -> bool {
        0 <= index < self.beat_marker_confidences@.len() && confidence_is_trusted(
            self.beat_marker_confidences@[index],
        )
    }

    /// Whether the track has the grid that its tempo and downbeat give.
    pub open spec fn has_grid(&self) -> bool {
        &&& self.first_downbeat is Some
        &&& self.bpm is Some
        &&& scalar::spec_is_finite(self.bpm->0)
        &&& scalar::spec_less(0, self.bpm->0)
        &&& !scalar::spec_at_most(self.beat_confidence, 0)
    }

    /// Whether the downbeat of the track may be acted upon.
    pub open spec fn downbeat_is_actionable(&self) -> bool {
        scalar::spec_is_finite(self.downbeat_confidence) && scalar::spec_at_most(
            MIN_ACTIONABLE_DOWNBEAT_CONFIDENCE,
            self.downbeat_confidence,
        )
    }

    /// Whether the downbeat of the track may be acted upon.
    pub fn actionable_downbeat_confidence(&self) -> (r: bool)
        ensures
            r == self.downbeat_is_actionable(),
    {
        scalar::is_finite(self.downbeat_confidence) && scalar::at_most(
            MIN_ACTIONABLE_DOWNBEAT_CONFIDENCE,
            self.downbeat_confidence,
        )
    }

    /// Whether the downbeat of the track is too unsure to align to. A confidence
    /// that is no number is not below the least one.
    pub open spec fn spec_downbeat_is_unsure(&self) -> bool {
        scalar::spec_less(self.downbeat_confidence, MIN_ACTIONABLE_DOWNBEAT_CONFIDENCE)
    }

    /// Whether the downbeat of the track is too unsure to align to.
    pub fn downbeat_is_unsure(&self) -> (r: bool)
        ensures
            r == self.spec_downbeat_is_unsure(),
    {
        scalar::less(self.downbeat_confidence, MIN_ACTIONABLE_DOWNBEAT_CONFIDENCE)
    }

    /// The four-four grid of the track, given the interval of its tempo, which
    /// is `None` for a tempo outside the trusted range.
    pub fn beat_grid(&self, interval: Option<Duration>) -> (r: Option<BeatGrid>)
        ensures
            r is Some <==> self.has_grid() && interval is Some,
            r matches Some(grid) ==> grid == (BeatGrid {
                first_downbeat: self.first_downbeat->0,
                beat_interval: interval->0,
                beats_per_bar: 4,
                downbeat_confidence: self.downbeat_confidence,
            }),
    {
        if let (Some(first_downbeat), Some(bpm)) = (self.first_downbeat, self.bpm) {
            if scalar::at_most(bpm, 0) || !scalar::is_finite(bpm) || scalar::at_most(
                self.beat_confidence,
                0,
            ) {
                return None;
            }
            if let Some(beat_interval) = interval {
                return Some(
                    BeatGrid {
                        first_downbeat,
                        beat_interval,
                        beats_per_bar: 4,
                        downbeat_confidence: self.downbeat_confidence,
                    },
                );
            }
        }
        None
    }

    /// How many markers are trusted. A confidence belongs to one observation:
    /// when the two lists differ in length, no marker counts.
    pub fn trusted_kick_coverage(&self) -> (r: KickCoverage)
        ensures
            self.beat_markers@.len() == 0 || self.beat_marker_confidences@.len()
                != self.beat_markers@.len() ==> r == (KickCoverage { trusted: 0, markers: 0 }),
            self.beat_markers@.len() > 0 && self.beat_marker_confidences@.len()
                == self.beat_markers@.len() ==> r.markers == self.beat_markers@.len() && r.trusted
                == trusted_among(self.beat_marker_confidences@, r.markers as int),
            r.trusted <= r.markers,
    {
        if self.beat_markers.len() == 0 || self.beat_marker_confidences.len()
            != self.beat_markers.len() {
            return KickCoverage { trusted: 0, markers: 0 };
        }
        let mut trusted: usize = 0;
        let mut i: usize = 0;
        while i < self.beat_marker_confidences.len()
            invariant
                i <= self.beat_marker_confidences.len(),
                trusted == trusted_among(self.beat_marker_confidences@, i as int),
                trusted <= i,
            decreases self.beat_marker_confidences@.len() - i,
        {
            if is_trusted_confidence(self.beat_marker_confidences[i]) {
                trusted += 1;
            }
            i += 1;
        }
        KickCoverage { trusted, markers: self.beat_markers.len() }
    }

    /// The confidence of a marker, where it has one between zero and one.
    pub fn marker_confidence(&self, index: usize) -> (r: Option<u32>)
        ensures
            r == if index < self.beat_marker_confidences@.len() && scalar::spec_in_unit(
                self.beat_marker_confidences@[index as int],
            ) {
                Some(self.beat_marker_confidences@[index as int])
            } else {
                None
            },
    {
        if index < self.beat_marker_confidences.len() {
            let confidence = self.beat_marker_confidences[index];
            if scalar::in_unit(confidence) {
                return Some(confidence);
            }
        }
        None
    }

    /// Whether the marker at the index is trusted.
    pub fn marker_is_trusted(&self, index: usize) -> (r: bool)
        ensures
            r == self.trusted(index as int),
    {
        index < self.beat_marker_confidences.len() && is_trusted_confidence(
            self.beat_marker_confidences[index],
        )
    }

    /// Whether enough markers are trusted to establish a local phase: one trusted
    /// pickup is enough to choose a start, but not for this.
    pub fn has_trusted_marker_evidence(&self) -> (r: bool)
        ensures
            r == (trusted_among(
                self.beat_marker_confidences@,
                spec_min(
                    self.beat_markers@.len() as int,
                    self.beat_marker_confidences@.len() as int,
                ),
            ) >= MIN_MARKER_BACKED_KICK_MARKERS),
    {
        let end: usize = if self.beat_markers.len() <= self.beat_marker_confidences.len() {
            self.beat_markers.len()
        } else {
            self.beat_marker_confidences.len()
        };
        let mut trusted: usize = 0;
        let mut i: usize = 0;
        while i < end
            invariant
                i <= end,
                end == spec_min(
                    self.beat_markers@.len() as int,
                    self.beat_marker_confidences@.len() as int,
                ),
                trusted == trusted_among(self.beat_marker_confidences@, i as int),
                trusted < MIN_MARKER_BACKED_KICK_MARKERS,
            decreases end - i,
        {
            if is_trusted_confidence(self.beat_marker_confidences[i]) {
                trusted += 1;
                if trusted >= MIN_MARKER_BACKED_KICK_MARKERS {
                    proof {
                        lemma_trusted_among_grows(
                            self.beat_marker_confidences@,
                            i + 1,
                            end as int,
                        );
                    }
                    return true;
                }
            }
            i += 1;
        }
        false
    }

    /// Whether the tempo is sure enough to align to: the beat confidence reaches
    /// the asked one, or it is moderate and trusted markers back it.
    pub open spec fn tempo_is_confident(
        &self,
        min_beat_confidence: u32,
        coverage: u32,
        backed: u32,
    ) -> bool {
        ||| scalar::spec_is_finite(self.beat_confidence) && scalar::spec_at_most(
            min_beat_confidence,
            self.beat_confidence,
        )
        ||| {
            &&& !scalar::spec_less(self.beat_confidence, MIN_MARKER_BACKED_BEAT_CONFIDENCE)
            &&& self.beat_markers@.len() >= MIN_MARKER_BACKED_KICK_MARKERS
            &&& self.beat_marker_confidences@.len() == self.beat_markers@.len()
            &&& scalar::spec_is_finite(coverage)
            &&& scalar::spec_at_most(EIGHT_BITS, backed)
            &&& scalar::spec_at_most(MIN_MARKER_BACKED_KICK_COVERAGE, coverage)
        }
    }

    /// Whether the tempo is sure enough to align to. `coverage` is the share of
    /// trusted markers, `backed` that share times the number of markers.
    pub fn tempo_alignment_confident(
        &self,
        min_beat_confidence: u32,
        coverage: u32,
        backed: u32,
    ) -> (r: bool)
        ensures
            r == self.tempo_is_confident(min_beat_confidence, coverage, backed),
    {
        if scalar::is_finite(self.beat_confidence) && scalar::at_most(
            min_beat_confidence,
            self.beat_confidence,
        ) {
            return true;
        }
        if scalar::less(self.beat_confidence, MIN_MARKER_BACKED_BEAT_CONFIDENCE)
            || self.beat_markers.len() < MIN_MARKER_BACKED_KICK_MARKERS
            || self.beat_marker_confidences.len() != self.beat_markers.len() {
            return false;
        }
        scalar::is_finite(coverage) && scalar::at_most(EIGHT_BITS, backed) && scalar::at_most(
            MIN_MARKER_BACKED_KICK_COVERAGE,
            coverage,
        )
    }

    /// The peak that a guard goes by: the true peak where it is a finite number,
    /// else the sample peak.
    pub fn peak_dbfs(&self) -> (r: Option<u32>)
        ensures
            r == if self.true_peak_dbtp is Some && scalar::spec_is_finite(self.true_peak_dbtp->0) {
                self.true_peak_dbtp
            } else {
                self.sample_peak_dbfs
            },
    {
        if let Some(peak) = self.true_peak_dbtp {
            if scalar::is_finite(peak) {
                return Some(peak);
            }
        }
        self.sample_peak_dbfs
    }

    /// Whether the track has an energy profile.
    pub fn has_energy_profile(&self) -> (r: bool)
        ensures
            r == (self.energy_profile_rate > 0 && self.energy_profile@.len() > 0),
    {
        self.energy_profile_rate > 0 && self.energy_profile.len() > 0
    }

    /// Whether a cue is one of the track's phrase boundaries in its audible part.
    pub open spec fn is_phrase_cue(&self, spans: PhraseSpans, cue: PhraseCue) -> bool {
        &&& spans.spec_of(cue.length)@ > 0
        &&& self.audible_start@ <= cue.position@ <= self.audible_end@
        &&& on_grid(cue.position@, self.first_downbeat->0@, spans.spec_of(cue.length)@)
    }

    /// The inferred boundaries of four, eight and sixteen bars in the audible
    /// part, by position and, at one position, by length. They exist only where
    /// the track has a grid and its downbeat is sure enough.
    ///
    /// The caller gives the beat interval and the spans of the three lengths. Where
    /// there are boundaries, one span past either end of the audible part must still
    /// be a span of time.
    pub fn phrase_cues(&self, interval: Option<Duration>, spans: PhraseSpans) -> (r: Vec<PhraseCue>)
        requires
            self.has_grid() && interval is Some && !self.spec_downbeat_is_unsure() ==> {
                &&& self.audible_end@ + spans.four@ <= MAX_NANOS
                &&& self.audible_end@ + spans.eight@ <= MAX_NANOS
                &&& self.audible_end@ + spans.sixteen@ <= MAX_NANOS
                &&& self.audible_start@ + spans.four@ <= MAX_NANOS
                &&& self.audible_start@ + spans.eight@ <= MAX_NANOS
                &&& self.audible_start@ + spans.sixteen@ <= MAX_NANOS
            },
        ensures
            !(self.has_grid() && interval is Some) || self.spec_downbeat_is_unsure() ==> r@.len()
                == 0,
            self.has_grid() && interval is Some && !self.spec_downbeat_is_unsure() ==> {
                &&& forall|cue: PhraseCue| #[trigger]
                    r@.contains(cue) <==> self.is_phrase_cue(spans, cue)
                &&& cues_are_ordered(r@)
            },
    {
        let grid = match self.beat_grid(interval) {
            Some(grid) => grid,
            None => {
                return Vec::new();
            },
        };
        if self.downbeat_is_unsure() {
            return Vec::new();
        }
        let first = grid.first_downbeat;
        let four = boundaries_between(
            first,
            spans.four,
            self.audible_start,
            self.audible_end,
            PhraseLength::FourBars,
        );
        let eight = boundaries_between(
            first,
            spans.eight,
            self.audible_start,
            self.audible_end,
            PhraseLength::EightBars,
        );
        let sixteen = boundaries_between(
            first,
            spans.sixteen,
            self.audible_start,
            self.audible_end,
            PhraseLength::SixteenBars,
        );
        let short = merge_cues(&four, &eight);
        let r = merge_cues(&short, &sixteen);
        proof {
            assert forall|cue: PhraseCue| #[trigger] r@.contains(cue) <==> self.is_phrase_cue(
                spans,
                cue,
            ) by {
                assert(r@.contains(cue) <==> short@.contains(cue) || sixteen@.contains(cue));
                assert(short@.contains(cue) <==> four@.contains(cue) || eight@.contains(cue));
            }
        }
        r
    }
}

/// Whether one cue stands before the other: by position, then by length.
pub open spec fn cue_before(left: PhraseCue, right: PhraseCue) -> bool {
    left.position@ < right.position@ || left.position@ == right.position@
        && left.length.spec_bars() < right.length.spec_bars()
}

/// Whether cues stand in order, each before the next.
pub open spec fn cues_are_ordered(cues: Seq<PhraseCue>) -> bool {
    forall|i: int, j: int|
        0 <= i < j < cues.len() ==> cue_before(#[trigger] cues[i], #[trigger] cues[j])
}

proof fn lemma_next_grid_point(first: int, span: int, index: int)
    ensures
        grid_point(first, span, index) + span == grid_point(first, span, index + 1),
{
    assert(first + index * span + span == first + (index + 1) * span) by (nonlinear_arith);
}

proof fn lemma_grid_points_grow(first: int, span: int, low: int, high: int)
    requires
        span > 0,
        low <= high,
    ensures
        grid_point(first, span, low) <= grid_point(first, span, high),
        low < high ==> grid_point(first, span, low) < grid_point(first, span, high),
{
    assert(low * span <= high * span) by (nonlinear_arith)
        requires
            span > 0,
            low <= high,
    ;
    if low < high {
        assert(low * span < high * span) by (nonlinear_arith)
            requires
                span > 0,
                low < high,
        ;
    }
}

/// The boundaries of one phrase length between two positions.
fn boundaries_between(
    first: Duration,
    span: Duration,
    start: Duration,
    end: Duration,
    length: PhraseLength,
) -> (r: Vec<PhraseCue>)
    requires
        end@ + span@ <= MAX_NANOS,
        start@ + span@ <= MAX_NANOS,
    ensures
        cues_are_ordered(r@),
        forall|cue: PhraseCue| #[trigger]
            r@.contains(cue) <==> cue.length == length && span@ > 0 && start@ <= cue.position@
                <= end@ && on_grid(cue.position@, first@, span@),
        forall|i: int| 0 <= i < r@.len() ==> (#[trigger] r@[i]).length == length,
{
    let mut cues: Vec<PhraseCue> = Vec::new();
    if span.is_zero() {
        return cues;
    }
    let mut position = first;
    let ghost mut index: int = 0;
    proof {
        assert(0 * span@ == 0) by (nonlinear_arith);
    }
    while position.shorter(start)
        invariant
            span@ > 0,
            start@ + span@ <= MAX_NANOS,
            index >= 0,
            position@ == grid_point(first@, span@, index),
            index > 0 ==> grid_point(first@, span@, index - 1) < start@,
        decreases spec_max(start@ - position@, 0),
    {
        proof {
            lemma_next_grid_point(first@, span@, index);
            index = index + 1;
        }
        position = Duration { nanos: position.nanos + span.nanos };
    }
    let ghost skipped = index;
    while position.within(end)
        invariant
            span@ > 0,
            end@ + span@ <= MAX_NANOS,
            0 <= skipped <= index,
            position@ == grid_point(first@, span@, index),
            position@ >= start@,
            skipped > 0 ==> grid_point(first@, span@, skipped - 1) < start@,
            cues@.len() == index - skipped,
            forall|i: int|
                0 <= i < cues@.len() ==> (#[trigger] cues@[i]).length == length
                    && cues@[i].position@ == grid_point(first@, span@, skipped + i)
                    && start@ <= cues@[i].position@ <= end@,
        decreases spec_max(end@ + 1 - position@, 0),
    {
        cues.push(PhraseCue { position, length });
        proof {
            lemma_next_grid_point(first@, span@, index);
            index = index + 1;
        }
        position = Duration { nanos: position.nanos + span.nanos };
    }
    proof {
        assert forall|i: int, j: int| 0 <= i < j < cues@.len() implies cue_before(
            #[trigger] cues@[i],
            #[trigger] cues@[j],
        ) by {
            lemma_grid_points_grow(first@, span@, skipped + i, skipped + j);
        }
        assert forall|cue: PhraseCue| #[trigger]
            cues@.contains(cue) <==> cue.length == length && span@ > 0 && start@ <= cue.position@
                <= end@ && on_grid(cue.position@, first@, span@) by {
            if cues@.contains(cue) {
                let i = choose|i: int| 0 <= i < cues@.len() && cues@[i] == cue;
                assert(cue.position@ == grid_point(first@, span@, skipped + i));
            }
            if cue.length == length && start@ <= cue.position@ <= end@ && on_grid(
                cue.position@,
                first@,
                span@,
            ) {
                let k = choose|k: int|
                    k >= 0 && cue.position@ == #[trigger] grid_point(first@, span@, k);
                if k < skipped {
                    lemma_grid_points_grow(first@, span@, k, skipped - 1);
                }
                if k >= index {
                    lemma_grid_points_grow(first@, span@, index, k);
                }
                assert(cues@[k - skipped].position@ == cue.position@);
                assert(cues@[k - skipped] == cue);
            }
        }
    }
    cues
}

/// Merges cues of shorter phrases with those of one longer length.
fn merge_cues(left: &Vec<PhraseCue>, right: &Vec<PhraseCue>) -> (r: Vec<PhraseCue>)
    requires
        cues_are_ordered(left@),
        cues_are_ordered(right@),
        forall|i: int, j: int|
            0 <= i < left@.len() && 0 <= j < right@.len() ==> (#[trigger] left@[i]).length.spec_bars()
                < (#[trigger] right@[j]).length.spec_bars(),
    ensures
        cues_are_ordered(r@),
        forall|cue: PhraseCue| #[trigger]
            r@.contains(cue) <==> left@.contains(cue) || right@.contains(cue),
        forall|i: int|
            0 <= i < r@.len() ==> left@.contains(#[trigger] r@[i]) || right@.contains(r@[i]),
{
    let mut merged: Vec<PhraseCue> = Vec::new();
    let mut i: usize = 0;
    let mut j: usize = 0;
    while i < left.len() || j < right.len()
        invariant
            i <= left.len(),
            j <= right.len(),
            cues_are_ordered(left@),
            cues_are_ordered(right@),
            forall|a: int, b: int|
                0 <= a < left@.len() && 0 <= b < right@.len() ==> (
                #[trigger] left@[a]).length.spec_bars() < (
                #[trigger] right@[b]).length.spec_bars(),
            cues_are_ordered(merged@),
            forall|k: int|
                0 <= k < merged@.len() ==> left@.contains(#[trigger] merged@[k])
                    || right@.contains(merged@[k]),
            forall|k: int, a: int|
                0 <= k < merged@.len() && i <= a < left@.len() ==> cue_before(
                    #[trigger] merged@[k],
                    #[trigger] left@[a],
                ),
            forall|k: int, b: int|
                0 <= k < merged@.len() && j <= b < right@.len() ==> cue_before(
                    #[trigger] merged@[k],
                    #[trigger] right@[b],
                ),
            forall|a: int| 0 <= a < i ==> merged@.contains(#[trigger] left@[a]),
            forall|b: int| 0 <= b < j ==> merged@.contains(#[trigger] right@[b]),
        decreases left@.len() - i + right@.len() - j,
    {
        let ghost before = merged@;
        if j >= right.len() || (i < left.len() && left[i].position.within(right[j].position)) {
            let cue = left[i];
            merged.push(cue);
            i += 1;
            proof {
                assert(left@.contains(cue));
                assert(merged@[before.len() as int] == cue);
                assert forall|k: int| 0 <= k < before.len() implies merged@[k] == before[k] by {}
                lemma_push_keeps(before, cue);
            }
        } else {
            let cue = right[j];
            merged.push(cue);
            j += 1;
            proof {
                assert(right@.contains(cue));
                assert(merged@[before.len() as int] == cue);
                assert forall|k: int| 0 <= k < before.len() implies merged@[k] == before[k] by {}
                lemma_push_keeps(before, cue);
            }
        }
    }
    proof {
        assert forall|cue: PhraseCue| #[trigger]
            merged@.contains(cue) <==> left@.contains(cue) || right@.contains(cue) by {
            if left@.contains(cue) {
                let a = choose|a: int| 0 <= a < left@.len() && left@[a] == cue;
                assert(merged@.contains(left@[a]));
            }
            if right@.contains(cue) {
                let b = choose|b: int| 0 <= b < right@.len() && right@[b] == cue;
                assert(merged@.contains(right@[b]));
            }
        }
    }
    merged
}

proof fn lemma_push_keeps(cues: Seq<PhraseCue>, cue: PhraseCue)
    ensures
        cues.push(cue).contains(cue),
        forall|other: PhraseCue| cues.contains(other) ==> #[trigger] cues.push(cue).contains(other),
{
    assert(cues.push(cue)[cues.len() as int] == cue);
    assert forall|other: PhraseCue| cues.contains(other) implies #[trigger] cues.push(
        cue,
    ).contains(other) by {
        let k = choose|k: int| 0 <= k < cues.len() && cues[k] == other;
        assert(cues.push(cue)[k] == other);
    }
}

/// The score of two keys whose tonics are below twelve.
pub open spec fn key_score(outgoing: MusicalKey, incoming: MusicalKey) -> u32 {
    if outgoing.tonic == incoming.tonic && outgoing.mode == incoming.mode {
        SAME_KEY
    } else if relative_keys(outgoing, incoming) || relative_keys(incoming, outgoing) {
        RELATIVE_KEY
    } else if outgoing.mode == incoming.mode && (fifth_above(outgoing, incoming) || fifth_above(
        incoming,
        outgoing,
    )) {
        FIFTH_APART
    } else if outgoing.tonic == incoming.tonic {
        PARALLEL_KEY
    } else {
        CLASHING_KEY
    }
}

/// Whether the second key is the relative minor of the first, a major key.
pub open spec fn relative_keys(major: MusicalKey, minor: MusicalKey) -> bool {
    major.mode == KeyMode::Major && minor.mode == KeyMode::Minor && minor.tonic == (major.tonic + 9)
        % 12
}

/// Whether the tonic of the second key is a fifth above that of the first.
pub open spec fn fifth_above(low: MusicalKey, high: MusicalKey) -> bool {
    high.tonic == (low.tonic + 7) % 12
}

/// The harmonic compatibility of two tracks.
pub open spec fn spec_harmonic_compatibility(
    outgoing: TrackAnalysis,
    incoming: TrackAnalysis,
) -> Option<u32> {
    if outgoing.musical_key is Some && incoming.musical_key is Some && !scalar::spec_less(
        outgoing.musical_key->0.confidence,
        HALF_BITS,
    ) && !scalar::spec_less(incoming.musical_key->0.confidence, HALF_BITS)
        && outgoing.musical_key->0.tonic < 12 && incoming.musical_key->0.tonic < 12 {
        Some(key_score(outgoing.musical_key->0, incoming.musical_key->0))
    } else {
        None
    }
}

/// The harmonic compatibility of two tracks whose keys are known with at least
/// half confidence: the same key, the relative key, a fifth apart, the same
/// tonic, or neither.
pub fn harmonic_compatibility(outgoing: &TrackAnalysis, incoming: &TrackAnalysis) -> (r: Option<
    u32,
>)
    ensures
        r == spec_harmonic_compatibility(*outgoing, *incoming),
{
    if let (Some(left), Some(right)) = (outgoing.musical_key, incoming.musical_key) {
        if scalar::less(left.confidence, HALF_BITS) || scalar::less(right.confidence, HALF_BITS)
            || left.tonic >= 12 || right.tonic >= 12 {
            return None;
        }
        let score: u32 = if left.tonic == right.tonic && left.mode == right.mode {
            SAME_KEY
        } else if left.mode == KeyMode::Major && right.mode == KeyMode::Minor && right.tonic == (
        left.tonic + 9) % 12 || right.mode == KeyMode::Major && left.mode == KeyMode::Minor
            && left.tonic == (right.tonic + 9) % 12 {
            RELATIVE_KEY
        } else if left.mode == right.mode && (right.tonic == (left.tonic + 7) % 12 || left.tonic
            == (right.tonic + 7) % 12) {
            FIFTH_APART
        } else if left.tonic == right.tonic {
            PARALLEL_KEY
        } else {
            CLASHING_KEY
        };
        return Some(score);
    }
    None
}

/// Whether keys are known to clash: the score is below one half.
pub open spec fn spec_keys_clash(harmonic: Option<u32>) -> bool {
    harmonic is Some && scalar::spec_less(harmonic->0, HALF_BITS)
}

/// Whether keys are known to clash: the score is below one half.
pub fn keys_clash(harmonic: Option<u32>) -> (r: bool)
    ensures
        r == spec_keys_clash(harmonic),
{
    match harmonic {
        Some(score) => scalar::less(score, HALF_BITS),
        None => false,
    }
}

/// The order in which two tracks are joined does not change how their keys go
/// together, and two tracks clash exactly where their keys are known and neither
/// equal, relative, a fifth apart nor of one tonic.
pub proof fn harmony_is_symmetric(outgoing: TrackAnalysis, incoming: TrackAnalysis)
    ensures
        spec_harmonic_compatibility(outgoing, incoming) == spec_harmonic_compatibility(
            incoming,
            outgoing,
        ),
        spec_keys_clash(spec_harmonic_compatibility(outgoing, incoming)) <==>
            spec_harmonic_compatibility(outgoing, incoming) == Some(CLASHING_KEY),
{
}

/// Two keys are scored by the interval between their tonics, in semitones around the
/// octave: 1 for one key, 0.95 for a major key and the minor key nine above it, 0.85
/// for five or seven in one mode, 0.65 for one tonic in two modes, and 0.2 for all
/// others. Keys that are missing, out of range or known with less than half confidence
/// have no score.
pub proof fn keys_are_scored_by_their_interval(outgoing: TrackAnalysis, incoming: TrackAnalysis)
    ensures
        ({
            let score = spec_harmonic_compatibility(outgoing, incoming);
            let left = outgoing.musical_key->0;
            let right = incoming.musical_key->0;
            let interval = (right.tonic - left.tonic) % 12;
            let scored = outgoing.musical_key is Some && incoming.musical_key is Some && left.tonic
                <= 11 && right.tonic <= 11 && !scalar::spec_less(left.confidence, 0x3F00_0000)
                && !scalar::spec_less(right.confidence, 0x3F00_0000);
            &&& score is Some <==> scored
            &&& scored && left.mode == right.mode ==> {
                &&& score == Some(0x3F80_0000u32) <==> interval == 0
                &&& score == Some(0x3F59_999Au32) <==> interval == 5 || interval == 7
                &&& score == Some(0x3E4C_CCCDu32) <==> interval != 0 && interval != 5 && interval
                    != 7
            }
            &&& scored && left.mode == KeyMode::Major && right.mode == KeyMode::Minor ==> {
                &&& score == Some(0x3F73_3333u32) <==> interval == 9
                &&& score == Some(0x3F26_6666u32) <==> interval == 0
                &&& score == Some(0x3E4C_CCCDu32) <==> interval != 0 && interval != 9
            }
            &&& scored && left.mode == KeyMode::Minor && right.mode == KeyMode::Major ==> {
                &&& score == Some(0x3F73_3333u32) <==> interval == 3
                &&& score == Some(0x3F26_6666u32) <==> interval == 0
                &&& score == Some(0x3E4C_CCCDu32) <==> interval != 0 && interval != 3
            }
        }),
{
}

/// Keys clash just where their score is below one half, and where there is a score.
pub proof fn clashing_keys_score_below_half(harmonic: Option<u32>)
    ensures
        harmonic is None ==> !spec_keys_clash(harmonic),
        harmonic matches Some(score) ==> (spec_keys_clash(harmonic) <==> scalar::spec_less(
            score,
            0x3F00_0000,
        )),
{
}

pub(crate) proof fn lemma_trusted_among_fits(confidences: Seq<u32>, count: int)
    requires
        0 <= count,
    ensures
        0 <= trusted_among(confidences, count) <= count,
    decreases count,
{
    if count > 0 {
        lemma_trusted_among_fits(confidences, count - 1);
    }
}

/// A marker is trusted just where its confidence is at least 0.35 and at most one, and
/// each such marker is counted once.
pub proof fn trusted_markers_are_counted(confidences: Seq<u32>, count: int)
    requires
        0 <= count < confidences.len(),
    ensures
        ({
            let here = confidences[count];
            let counted = trusted_among(confidences, count + 1) - trusted_among(
                confidences,
                count,
            );
            let trusted = scalar::spec_at_most(0, here) && scalar::spec_at_most(here, 0x3F80_0000)
                && scalar::spec_at_most(0x3EB3_3333, here);
            &&& trusted_among(confidences, 0) == 0
            &&& trusted ==> counted == 1
            &&& !trusted ==> counted == 0
        }),
{
}

/// A tempo is trusted from 20 to 300 beats per minute, both ends included.
pub proof fn tempos_are_trusted_in_range(bpm: u32)
    ensures
        spec_bpm_is_trusted(bpm) <==> !(!scalar::spec_at_most(0x41A0_0000, bpm)
            || !scalar::spec_at_most(bpm, 0x4396_0000)),
        spec_bpm_is_trusted(0x41A0_0000),
        spec_bpm_is_trusted(0x4396_0000),
{
}

/// Phrases last 4, 8 or 16 bars, and each length has the span of its own.
pub proof fn phrases_have_their_own_span(spans: PhraseSpans)
    ensures
        PhraseLength::FourBars.spec_bars() == 4,
        PhraseLength::EightBars.spec_bars() == 8,
        PhraseLength::SixteenBars.spec_bars() == 16,
        spans.spec_of(PhraseLength::FourBars) == spans.four,
        spans.spec_of(PhraseLength::EightBars) == spans.eight,
        spans.spec_of(PhraseLength::SixteenBars) == spans.sixteen,
{
}

/// A downbeat can be acted upon from a confidence of 0.6 on, is unsure below it, and is
/// never both.
pub proof fn downbeats_are_acted_upon_from_their_confidence(track: TrackAnalysis)
    ensures
        track.downbeat_is_actionable() <==> scalar::spec_is_finite(track.downbeat_confidence)
            && scalar::spec_at_most(0x3F19_999A, track.downbeat_confidence),
        track.spec_downbeat_is_unsure() <==> scalar::spec_less(
            track.downbeat_confidence,
            0x3F19_999A,
        ),
        !(track.downbeat_is_actionable() && track.spec_downbeat_is_unsure()),
{
}

/// A track has a grid of beats only where its first downbeat and a positive finite tempo
/// are known and its beats have some confidence.
pub proof fn grids_need_downbeat_tempo_and_confidence(track: TrackAnalysis)
    ensures
        track.has_grid() ==> track.first_downbeat is Some && track.bpm is Some,
        track.bpm matches Some(bpm) ==> {
            let sound = scalar::spec_is_finite(bpm) && scalar::spec_less(0, bpm);
            &&& !sound ==> !track.has_grid()
            &&& sound && track.first_downbeat is Some ==> (track.has_grid()
                <==> !scalar::spec_at_most(track.beat_confidence, 0))
        },
{
}

/// A tempo is confident by its own confidence, or from a confidence of 0.45 on by eight
/// backed markers, each with its confidence, that cover 0.55 of the beats.
pub proof fn tempos_are_confident_by_themselves_or_by_markers(
    track: TrackAnalysis,
    minimum: u32,
    coverage: u32,
    backed: u32,
)
    ensures
        ({
            let alone = scalar::spec_is_finite(track.beat_confidence) && scalar::spec_at_most(
                minimum,
                track.beat_confidence,
            );
            let confident = track.tempo_is_confident(minimum, coverage, backed);
            &&& alone ==> confident
            &&& confident && !alone ==> {
                &&& !scalar::spec_less(track.beat_confidence, 0x3EE6_6666)
                &&& track.beat_markers@.len() >= 8
                &&& track.beat_marker_confidences@.len() == track.beat_markers@.len()
                &&& scalar::spec_at_most(0x4100_0000, backed)
                &&& scalar::spec_is_finite(coverage)
                &&& scalar::spec_at_most(0x3F0C_CCCD, coverage)
            }
            &&& !scalar::spec_less(track.beat_confidence, 0x3EE6_6666)
                && track.beat_markers@.len() >= 8 && track.beat_marker_confidences@.len()
                == track.beat_markers@.len() && scalar::spec_at_most(0x4100_0000, backed)
                && scalar::spec_is_finite(coverage) && scalar::spec_at_most(0x3F0C_CCCD, coverage)
                ==> confident
        }),
{
}

/// A phrase cue lies in what is heard of the track, a whole number of phrase spans after
/// its first downbeat, and every such position is one; without a span there are none.
pub proof fn phrase_cues_are_whole_spans_after_the_downbeat(
    track: TrackAnalysis,
    spans: PhraseSpans,
    cue: PhraseCue,
    phrases: nat,
)
    requires
        track.first_downbeat is Some,
    ensures
        ({
            let span = match cue.length {
                PhraseLength::FourBars => spans.four@,
                PhraseLength::EightBars => spans.eight@,
                PhraseLength::SixteenBars => spans.sixteen@,
            };
            &&& span == 0 ==> !track.is_phrase_cue(spans, cue)
            &&& cue.position@ < track.first_downbeat->0@ ==> !track.is_phrase_cue(spans, cue)
            &&& cue.position@ < track.audible_start@ || track.audible_end@ < cue.position@
                ==> !track.is_phrase_cue(spans, cue)
            &&& span > 0 && track.audible_start@ <= cue.position@ <= track.audible_end@
                && cue.position@ == track.first_downbeat->0@ + phrases * span
                ==> track.is_phrase_cue(spans, cue)
        }),
{
    let first = track.first_downbeat->0@;
    let span = spans.spec_of(cue.length)@;
    assert(grid_point(first, span, phrases as int) == first + phrases * span);
    if span > 0 && cue.position@ < first {
        assert forall|index: int| index >= 0 implies #[trigger] grid_point(first, span, index)
            >= first by {
            assert(index * span >= 0) by (nonlinear_arith)
                requires
                    index >= 0,
                    span > 0,
            ;
        }
    }
}

/// Cues come in the order of their positions, of two at one position the shorter first.
pub proof fn cues_come_by_position_and_length(left: PhraseCue, right: PhraseCue)
    ensures
        left.position@ < right.position@ ==> cue_before(left, right) && !cue_before(right, left),
        left.position == right.position && left.length == right.length ==> !cue_before(
            left,
            right,
        ),
        left.position == right.position && left.length is FourBars && !(right.length is FourBars)
            ==> cue_before(left, right),
        left.position == right.position && left.length is EightBars && right.length is SixteenBars
            ==> cue_before(left, right),
        cue_before(left, right) ==> !cue_before(right, left),
{
}

/// A marker is trusted by its own confidence, from 0.35 to one, and one without a
/// confidence is not.
pub proof fn markers_are_trusted_by_their_confidence(track: TrackAnalysis, index: int)
    ensures
        index < 0 || index >= track.beat_marker_confidences@.len() ==> !track.trusted(index),
        0 <= index < track.beat_marker_confidences@.len() ==> (track.trusted(index)
            <==> 0x3EB3_3333 <= track.beat_marker_confidences@[index] <= 0x3F80_0000),
{
}

/// In a list of ordered cues each comes no later than those after it, and of two at one
/// position the shorter first, so that none is there twice.
pub proof fn ordered_cues_go_forward(cues: Seq<PhraseCue>, i: int, j: int)
    requires
        cues_are_ordered(cues),
        0 <= i < j < cues.len(),
    ensures
        cues[i].position@ <= cues[j].position@,
        cues[i].position@ == cues[j].position@ ==> cues[i].length.spec_bars()
            < cues[j].length.spec_bars(),
{
}

} // verus!
