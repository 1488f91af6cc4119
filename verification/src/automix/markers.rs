//! Trusted beat markers: the nearest one, the last before and the first after a
//! position, and their place in a bar or phrase.

use vstd::prelude::*;

use super::positions::{is_sorted_set_of, sort_and_dedup_positions};
use super::track::TrackAnalysis;
use crate::scalar;
use crate::time::{spec_distance, spec_max, spec_min, Duration};

verus! {

/// How far a beat is looked for next to a position (eight seconds).
pub const MAX_SHORTER_TRANSITION_SEARCH_NANOS: u128 = 8_000_000_000;

/// How far a beat may stand from where it is expected (35 milliseconds).
pub const MAX_BEATMATCH_PHASE_ERROR_NANOS: u128 = 35_000_000;

/// How many incoming cues are looked at.
pub const MAX_INCOMING_CUE_CANDIDATES: usize = 96;

/// Where the grid of a tempo puts a position.
#[derive(Clone, Copy, Debug, PartialEq, Eq, Structural)]
pub enum GridPlace {
    /// The grid decides: this position.
    Fixed(Duration),
    /// A whole number of beats past the first one, which is so long ago.
    Counted { first: Duration, elapsed: Duration, interval: Duration },
}

impl TrackAnalysis {
    /// Where the grid of the tempo puts a position past its first beat; `None` up to
    /// the first beat, or where the tempo is not positive.
    pub open spec fn past_first_beat(&self, position: Duration, interval: Option<Duration>) -> Option<
        GridPlace,
    > {
        if self.first_beat is None || self.bpm is None {
            Some(GridPlace::Fixed(position))
        } else if scalar::spec_at_most(self.bpm->0, 0) || position@ <= self.first_beat->0@ {
            None
        } else {
            match interval {
                None => Some(GridPlace::Fixed(position)),
                Some(interval) => Some(
                    GridPlace::Counted {
                        first: self.first_beat->0,
                        elapsed: Duration { nanos: (position@ - self.first_beat->0@) as u128 },
                        interval,
                    },
                ),
            }
        }
    }

    fn grid_place(&self, position: Duration, interval: Option<Duration>) -> (r: Option<GridPlace>)
        ensures
            r == self.past_first_beat(position, interval),
    {
        match (self.first_beat, self.bpm) {
            (Some(first), Some(bpm)) => if scalar::at_most(bpm, 0) || position.within(first) {
                None
            } else {
                match interval {
                    None => Some(GridPlace::Fixed(position)),
                    Some(interval) => {
                        let elapsed = position.saturating_sub(first);
                        assert(elapsed == (Duration {
                            nanos: (position@ - first@) as u128,
                        }));
                        Some(GridPlace::Counted { first, elapsed, interval })
                    },
                }
            },
            _ => Some(GridPlace::Fixed(position)),
        }
    }

    /// Where the grid of the tempo puts the last beat up to a position: the earlier
    /// of the position and the first beat where the grid does not reach it.
    pub fn grid_place_before(&self, position: Duration, interval: Option<Duration>) -> (r:
        GridPlace)
        ensures
            match self.past_first_beat(position, interval) {
                Some(place) => r == place,
                None => r matches GridPlace::Fixed(at) && at@ == spec_min(
                    self.first_beat->0@,
                    position@,
                ),
            },
    {
        match self.grid_place(position, interval) {
            Some(place) => place,
            None => GridPlace::Fixed(
                match self.first_beat {
                    Some(first) => first.min(position),
                    None => position,
                },
            ),
        }
    }

    /// Where the grid of the tempo puts the first beat from a position on: the later
    /// of the position and the first beat where the grid does not reach it.
    pub fn grid_place_after(&self, position: Duration, interval: Option<Duration>) -> (r: GridPlace)
        ensures
            match self.past_first_beat(position, interval) {
                Some(place) => r == place,
                None => r matches GridPlace::Fixed(at) && at@ == spec_max(
                    self.first_beat->0@,
                    position@,
                ),
            },
    {
        match self.grid_place(position, interval) {
            Some(place) => place,
            None => GridPlace::Fixed(
                match self.first_beat {
                    Some(first) => first.max(position),
                    None => position,
                },
            ),
        }
    }

    /// How many downbeats of a region are looked at besides its trusted markers.
    pub fn cue_slots_left(&self, start: Duration, end: Duration) -> (r: usize)
        ensures
            r == MAX_INCOMING_CUE_CANDIDATES - self.trusted_between(
                start,
                end,
                spec_min(self.beat_markers@.len() as int, MAX_INCOMING_CUE_CANDIDATES as int),
            ).len(),
    {
        let markers = self.trusted_beat_markers_between_limited(
            start,
            end,
            MAX_INCOMING_CUE_CANDIDATES,
        );
        proof {
            self.lemma_trusted_between_len(
                start,
                end,
                spec_min(self.beat_markers@.len() as int, MAX_INCOMING_CUE_CANDIDATES as int),
            );
        }
        MAX_INCOMING_CUE_CANDIDATES - markers.len()
    }

    /// Whether a marker exists at the index and is trusted.
    pub open spec fn trusted_marker(&self, index: int) -> bool {
        0 <= index < self.beat_markers@.len() && self.trusted(index)
    }

    /// How far the marker at the index stands from a position.
    pub open spec fn marker_distance(&self, index: int, position: Duration) -> int {
        spec_distance(self.beat_markers@[index]@, position@)
    }

    /// Whether the marker at the index is the trusted one nearest to a position,
    /// and the first such.
    pub open spec fn is_nearest_trusted(&self, index: int, position: Duration) -> bool {
        &&& self.trusted_marker(index)
        &&& forall|other: int| #[trigger]
            self.trusted_marker(other) ==> self.marker_distance(index, position)
                <= self.marker_distance(other, position)
        &&& forall|other: int|
            other < index && #[trigger] self.trusted_marker(other) ==> self.marker_distance(
                index,
                position,
            ) < self.marker_distance(other, position)
    }

    /// Whether some trusted marker stands within a tolerance of a position.
    pub open spec fn trusted_within(&self, position: Duration, tolerance: Duration) -> bool {
        exists|index: int| #[trigger]
            self.trusted_marker(index) && self.marker_distance(index, position) <= tolerance@
    }

    /// The position of the trusted marker nearest to a position, the first such,
    /// where it stands within a tolerance.
    pub open spec fn marker_near(&self, position: Duration, tolerance: Duration) -> Option<Duration> {
        if self.trusted_within(position, tolerance) {
            Some(self.beat_markers@[choose|index: int| self.is_nearest_trusted(index, position)])
        } else {
            None
        }
    }

    /// The trusted marker that anchors a phase at a position: the nearest, where
    /// it stands within the tolerance.
    pub fn marker_anchor_index(&self, position: Duration, tolerance: Duration) -> (r: Option<usize>)
        ensures
            r is Some <==> self.trusted_within(position, tolerance),
            r matches Some(index) ==> self.is_nearest_trusted(index as int, position)
                && self.marker_distance(index as int, position) <= tolerance@,
    {
        let mut nearest: Option<usize> = None;
        let mut i: usize = 0;
        while i < self.beat_markers.len()
            invariant
                i <= self.beat_markers@.len(),
                nearest is None ==> forall|other: int|
                    other < i ==> !#[trigger] self.trusted_marker(other),
                nearest matches Some(index) ==> {
                    &&& index < i
                    &&& self.trusted_marker(index as int)
                    &&& forall|other: int|
                        other < i && #[trigger] self.trusted_marker(other) ==> self.marker_distance(
                            index as int,
                            position,
                        ) <= self.marker_distance(other, position)
                    &&& forall|other: int|
                        other < index && #[trigger] self.trusted_marker(other)
                            ==> self.marker_distance(index as int, position)
                            < self.marker_distance(other, position)
                },
            decreases self.beat_markers@.len() - i,
        {
            if self.marker_is_trusted(i) {
                assert(self.trusted_marker(i as int));
                let closer = match nearest {
                    None => true,
                    Some(index) => self.beat_markers[i].abs_diff(position).shorter(
                        self.beat_markers[index].abs_diff(position),
                    ),
                };
                if closer {
                    nearest = Some(i);
                }
            } else {
                assert(!self.trusted_marker(i as int));
            }
            i += 1;
        }
        match nearest {
            Some(index) => {
                assert(self.is_nearest_trusted(index as int, position));
                if self.beat_markers[index].abs_diff(position).within(tolerance) {
                    assert(self.trusted_marker(index as int));
                    Some(index)
                } else {
                    None
                }
            },
            None => None,
        }
    }

    /// The position of the trusted marker nearest to a position, where it stands
    /// within the tolerance.
    pub fn trusted_marker_near(&self, position: Duration, tolerance: Duration) -> (r: Option<
        Duration,
    >)
        ensures
            r == self.marker_near(position, tolerance),
            r matches Some(marker) ==> spec_distance(marker@, position@) <= tolerance@
                && self.is_trusted_position(marker),
    {
        match self.marker_anchor_index(position, tolerance) {
            Some(index) => {
                proof {
                    assert(self.trusted_marker(index as int));
                    assert forall|other: int| #[trigger]
                        self.is_nearest_trusted(other, position) implies other == index by {
                        assert(self.trusted_marker(other) && self.trusted_marker(index as int));
                    }
                }
                Some(self.beat_markers[index])
            },
            None => None,
        }
    }

    /// The trusted marker that a position snaps to: the nearest, where it stands
    /// within the tolerance of the tempo.
    pub fn snap_to_nearest_beat(&self, position: Duration, tolerance: Duration) -> (r: Option<
        Duration,
    >)
        ensures
            r == self.marker_near(position, tolerance),
            r matches Some(marker) ==> spec_distance(marker@, position@) <= tolerance@
                && self.is_trusted_position(marker),
    {
        self.trusted_marker_near(position, tolerance)
    }

    /// Whether some trusted marker stands within a tolerance of a position.
    pub fn has_trusted_marker_near(&self, position: Duration, tolerance: Duration) -> (r: bool)
        ensures
            r == self.trusted_within(position, tolerance),
    {
        self.trusted_marker_near(position, tolerance).is_some()
    }

    /// Whether a position is that of a trusted marker.
    pub open spec fn is_trusted_position(&self, position: Duration) -> bool {
        exists|index: int| #[trigger]
            self.trusted_marker(index) && self.beat_markers@[index] == position
    }

    /// Whether a position is that of a trusted marker.
    pub fn trusted_marker_position(&self, position: Duration) -> (r: bool)
        ensures
            r == self.is_trusted_position(position),
    {
        let mut i: usize = 0;
        while i < self.beat_markers.len()
            invariant
                i <= self.beat_markers@.len(),
                forall|other: int|
                    other < i && #[trigger] self.trusted_marker(other) ==> self.beat_markers@[other]
                        != position,
            decreases self.beat_markers@.len() - i,
        {
            if self.beat_markers[i] == position && self.marker_is_trusted(i) {
                assert(self.trusted_marker(i as int));
                return true;
            }
            i += 1;
        }
        false
    }

    /// Whether a position is that of the last trusted marker up to another.
    pub open spec fn is_last_trusted_up_to(&self, marker: Duration, position: Duration) -> bool {
        &&& self.is_trusted_position(marker)
        &&& marker@ <= position@
        &&& forall|other: int| #[trigger]
            self.trusted_marker(other) && self.beat_markers@[other]@ <= position@
                ==> self.beat_markers@[other]@ <= marker@
    }

    /// Whether a position is that of the first trusted marker from another on.
    pub open spec fn is_first_trusted_from(&self, marker: Duration, position: Duration) -> bool {
        &&& self.is_trusted_position(marker)
        &&& marker@ >= position@
        &&& forall|other: int| #[trigger]
            self.trusted_marker(other) && self.beat_markers@[other]@ >= position@
                ==> self.beat_markers@[other]@ >= marker@
    }

    /// The last trusted marker up to the position, where it is no more than eight
    /// seconds away, else the beat of the global grid.
    pub fn align_to_beat(&self, position: Duration, fallback: Duration) -> (r: Duration)
        ensures
            (exists|marker: Duration| #[trigger]
                self.is_last_trusted_up_to(marker, position) && position@ - marker@
                    <= MAX_SHORTER_TRANSITION_SEARCH_NANOS) ==> self.is_last_trusted_up_to(
                r,
                position,
            ),
            !(exists|marker: Duration| #[trigger]
                self.is_last_trusted_up_to(marker, position) && position@ - marker@
                    <= MAX_SHORTER_TRANSITION_SEARCH_NANOS) ==> r == fallback,
    {
        let mut last: Option<Duration> = None;
        let mut i: usize = 0;
        while i < self.beat_markers.len()
            invariant
                i <= self.beat_markers@.len(),
                last is None ==> forall|other: int|
                    other < i && #[trigger] self.trusted_marker(other)
                        ==> self.beat_markers@[other]@ > position@,
                last matches Some(marker) ==> {
                    &&& self.is_trusted_position(marker)
                    &&& marker@ <= position@
                    &&& forall|other: int|
                        other < i && #[trigger] self.trusted_marker(other)
                            && self.beat_markers@[other]@ <= position@
                            ==> self.beat_markers@[other]@ <= marker@
                },
            decreases self.beat_markers@.len() - i,
        {
            let marker = self.beat_markers[i];
            if marker.within(position) && self.marker_is_trusted(i) {
                assert(self.trusted_marker(i as int));
                let later = match last {
                    None => true,
                    Some(best) => best.within(marker),
                };
                if later {
                    last = Some(marker);
                }
            }
            i += 1;
        }
        match last {
            Some(marker) => {
                assert(self.is_last_trusted_up_to(marker, position));
                assert forall|other: Duration| #[trigger]
                    self.is_last_trusted_up_to(other, position) implies other == marker by {
                    let k = choose|k: int| #[trigger]
                        self.trusted_marker(k) && self.beat_markers@[k] == other;
                    let m = choose|m: int| #[trigger]
                        self.trusted_marker(m) && self.beat_markers@[m] == marker;
                    assert(self.trusted_marker(k) && self.trusted_marker(m));
                }
                if marker.abs_diff(position).within(
                    Duration { nanos: MAX_SHORTER_TRANSITION_SEARCH_NANOS },
                ) {
                    marker
                } else {
                    fallback
                }
            },
            None => {
                assert forall|other: Duration| !#[trigger] self.is_last_trusted_up_to(
                    other,
                    position,
                ) by {
                    if self.is_last_trusted_up_to(other, position) {
                        let k = choose|k: int| #[trigger]
                            self.trusted_marker(k) && self.beat_markers@[k] == other;
                        assert(self.trusted_marker(k));
                    }
                }
                fallback
            },
        }
    }

    /// The first trusted marker from the position on, where it is no more than
    /// eight seconds away, else the beat of the global grid; never past the
    /// audible end.
    pub fn align_to_beat_at_or_after(&self, position: Duration, fallback: Duration) -> (r: Duration)
        ensures
            forall|marker: Duration| #[trigger]
                self.is_first_trusted_from(marker, position) && marker@ - position@
                    <= MAX_SHORTER_TRANSITION_SEARCH_NANOS ==> r@ == spec_min(
                    marker@,
                    self.audible_end@,
                ),
            !(exists|marker: Duration| #[trigger]
                self.is_first_trusted_from(marker, position) && marker@ - position@
                    <= MAX_SHORTER_TRANSITION_SEARCH_NANOS) ==> r@ == spec_min(
                fallback@,
                self.audible_end@,
            ),
    {
        let mut first: Option<Duration> = None;
        let mut i: usize = 0;
        while i < self.beat_markers.len()
            invariant
                i <= self.beat_markers@.len(),
                first is None ==> forall|other: int|
                    other < i && #[trigger] self.trusted_marker(other)
                        ==> self.beat_markers@[other]@ < position@,
                first matches Some(marker) ==> {
                    &&& self.is_trusted_position(marker)
                    &&& marker@ >= position@
                    &&& forall|other: int|
                        other < i && #[trigger] self.trusted_marker(other)
                            && self.beat_markers@[other]@ >= position@
                            ==> self.beat_markers@[other]@ >= marker@
                },
            decreases self.beat_markers@.len() - i,
        {
            let marker = self.beat_markers[i];
            if position.within(marker) && self.marker_is_trusted(i) {
                assert(self.trusted_marker(i as int));
                let earlier = match first {
                    None => true,
                    Some(best) => marker.shorter(best),
                };
                if earlier {
                    first = Some(marker);
                }
            }
            i += 1;
        }
        let chosen = match first {
            Some(marker) => {
                assert(self.is_first_trusted_from(marker, position));
                assert forall|other: Duration| #[trigger]
                    self.is_first_trusted_from(other, position) implies other == marker by {
                    let k = choose|k: int| #[trigger]
                        self.trusted_marker(k) && self.beat_markers@[k] == other;
                    let m = choose|m: int| #[trigger]
                        self.trusted_marker(m) && self.beat_markers@[m] == marker;
                    assert(self.trusted_marker(k) && self.trusted_marker(m));
                }
                if marker.abs_diff(position).within(
                    Duration { nanos: MAX_SHORTER_TRANSITION_SEARCH_NANOS },
                ) {
                    marker
                } else {
                    fallback
                }
            },
            None => {
                assert forall|other: Duration| !#[trigger] self.is_first_trusted_from(
                    other,
                    position,
                ) by {
                    if self.is_first_trusted_from(other, position) {
                        let k = choose|k: int| #[trigger]
                            self.trusted_marker(k) && self.beat_markers@[k] == other;
                        assert(self.trusted_marker(k));
                    }
                }
                fallback
            },
        };
        chosen.min(self.audible_end)
    }

    /// The trusted markers of a region among the first `count` markers, in their
    /// order.
    pub open spec fn trusted_between(
        &self,
        start: Duration,
        end: Duration,
        count: int,
    ) -> Seq<Duration>
        decreases count,
    {
        if count <= 0 {
            Seq::empty()
        } else {
            let rest = self.trusted_between(start, end, count - 1);
            let marker = self.beat_markers@[count - 1];
            if self.trusted_marker(count - 1) && start@ <= marker@ <= end@ {
                rest.push(marker)
            } else {
                rest
            }
        }
    }

    /// The trusted markers of a region, at most `limit` of them, among the
    /// markers that are looked at for incoming cues.
    pub fn trusted_beat_markers_between_limited(
        &self,
        start: Duration,
        end: Duration,
        limit: usize,
    ) -> (r: Vec<Duration>)
        ensures
            ({
                let all = self.trusted_between(
                    start,
                    end,
                    spec_min(self.beat_markers@.len() as int, MAX_INCOMING_CUE_CANDIDATES as int),
                );
                r@ == all.take(spec_min(all.len() as int, limit as int))
            }),
    {
        let mut markers: Vec<Duration> = Vec::new();
        let end_index: usize = if self.beat_markers.len() <= MAX_INCOMING_CUE_CANDIDATES {
            self.beat_markers.len()
        } else {
            MAX_INCOMING_CUE_CANDIDATES
        };
        let ghost all = self.trusted_between(start, end, end_index as int);
        if limit == 0 {
            assert(all.take(0) =~= markers@);
            return markers;
        }
        let mut i: usize = 0;
        while i < end_index
            invariant
                i <= end_index <= self.beat_markers@.len(),
                end_index == spec_min(
                    self.beat_markers@.len() as int,
                    MAX_INCOMING_CUE_CANDIDATES as int,
                ),
                all == self.trusted_between(start, end, end_index as int),
                markers@ == self.trusted_between(start, end, i as int),
                markers@.len() < limit,
            decreases end_index - i,
        {
            let beat = self.beat_markers[i];
            if start.within(beat) && beat.within(end) && self.marker_is_trusted(i) {
                assert(self.trusted_marker(i as int));
                markers.push(beat);
                assert(markers@ == self.trusted_between(start, end, i + 1));
                if markers.len() >= limit {
                    proof {
                        self.lemma_trusted_between_prefix(start, end, i + 1, end_index as int);
                    }
                    return markers;
                }
            }
            i += 1;
        }
        assert(all.take(all.len() as int) =~= all);
        markers
    }

    proof fn lemma_trusted_between_prefix(
        &self,
        start: Duration,
        end: Duration,
        low: int,
        high: int,
    )
        requires
            0 <= low <= high,
        ensures
            self.trusted_between(start, end, low).len() <= self.trusted_between(
                start,
                end,
                high,
            ).len(),
            self.trusted_between(start, end, high).take(
                self.trusted_between(start, end, low).len() as int,
            ) == self.trusted_between(start, end, low),
        decreases high - low,
    {
        let short = self.trusted_between(start, end, low);
        if low < high {
            self.lemma_trusted_between_prefix(start, end, low, high - 1);
            assert(self.trusted_between(start, end, high).take(short.len() as int)
                =~= self.trusted_between(start, end, high - 1).take(short.len() as int));
        } else {
            assert(short.take(short.len() as int) =~= short);
        }
    }

    /// Whether a marker opens a bar or phrase of so many beats, counted from the
    /// trusted marker at the first downbeat. The count goes by the observed
    /// markers and not by an extrapolated clock, which would drift.
    pub open spec fn opens_cycle(&self, index: int, cycle_beats: u32, tolerance: Duration) -> bool {
        &&& cycle_beats > 0
        &&& self.trusted(index)
        &&& self.first_downbeat is Some
        &&& exists|origin: int| #[trigger]
            self.is_nearest_trusted(origin, self.first_downbeat->0) && self.marker_distance(
                origin,
                self.first_downbeat->0,
            ) <= tolerance@ && spec_distance(index, origin) % cycle_beats as int == 0
    }

    /// Whether a marker opens a bar or phrase of so many beats, counted from the
    /// trusted marker at the first downbeat.
    pub fn marker_is_near_cycle_boundary(
        &self,
        marker_index: usize,
        cycle_beats: u32,
        tolerance: Duration,
    ) -> (r: bool)
        ensures
            r == self.opens_cycle(marker_index as int, cycle_beats, tolerance),
    {
        if cycle_beats == 0 || !self.marker_is_trusted(marker_index) {
            return false;
        }
        let first_downbeat = match self.first_downbeat {
            Some(first) => first,
            None => {
                return false;
            },
        };
        match self.marker_anchor_index(first_downbeat, tolerance) {
            Some(origin) => {
                let apart: usize = if marker_index >= origin {
                    marker_index - origin
                } else {
                    origin - marker_index
                };
                proof {
                    assert forall|other: int| #[trigger]
                        self.is_nearest_trusted(other, first_downbeat) implies other == origin by {
                        assert(self.is_nearest_trusted(origin as int, first_downbeat));
                        assert(self.trusted_marker(other) && self.trusted_marker(origin as int));
                    }
                    assert(apart as int == spec_distance(marker_index as int, origin as int));
                }
                apart as u64 % cycle_beats as u64 == 0
            },
            None => {
                proof {
                    assert forall|other: int| #[trigger]
                        self.is_nearest_trusted(other, first_downbeat)
                            implies self.marker_distance(other, first_downbeat) > tolerance@ by {
                        assert(self.trusted_marker(other));
                    }
                }
                false
            },
        }
    }

    /// The cues at which the incoming track may start in a region: its trusted
    /// markers, and those downbeats of its grid next to which a trusted marker
    /// stands, in order. No cue is made up from the tempo alone.
    pub fn incoming_cue_positions_between(
        &self,
        start: Duration,
        end: Duration,
        downbeats: &Vec<Duration>,
    ) -> (r: Vec<Duration>)
        ensures
            end@ < start@ ==> r@.len() == 0,
            end@ >= start@ ==> is_sorted_set_of(
                r@,
                self.cue_positions(start, end, downbeats@),
            ),
    {
        if end.shorter(start) {
            return Vec::new();
        }
        let mut candidates = self.trusted_beat_markers_between_limited(
            start,
            end,
            MAX_INCOMING_CUE_CANDIDATES,
        );
        let ghost markers = candidates@;
        proof {
            self.lemma_trusted_between_len(
                start,
                end,
                spec_min(self.beat_markers@.len() as int, MAX_INCOMING_CUE_CANDIDATES as int),
            );
            assert(markers =~= self.trusted_between(
                start,
                end,
                spec_min(self.beat_markers@.len() as int, MAX_INCOMING_CUE_CANDIDATES as int),
            ));
        }
        let remaining: usize = MAX_INCOMING_CUE_CANDIDATES - candidates.len();
        let looked_at: usize = if downbeats.len() <= remaining {
            downbeats.len()
        } else {
            remaining
        };
        let tolerance = Duration { nanos: MAX_BEATMATCH_PHASE_ERROR_NANOS };
        let mut i: usize = 0;
        assert(markers + self.marked_downbeats(downbeats@, 0) =~= markers);
        while i < looked_at
            invariant
                i <= looked_at <= downbeats@.len(),
                tolerance@ == MAX_BEATMATCH_PHASE_ERROR_NANOS,
                candidates@ == markers + self.marked_downbeats(downbeats@, i as int),
            decreases looked_at - i,
        {
            let downbeat = downbeats[i];
            if self.has_trusted_marker_near(downbeat, tolerance) {
                candidates.push(downbeat);
            }
            assert(candidates@ =~= markers + self.marked_downbeats(downbeats@, i + 1));
            i += 1;
        }
        sort_and_dedup_positions(&candidates)
    }

    /// Those of the first `count` downbeats next to which a trusted marker
    /// stands.
    pub open spec fn marked_downbeats(&self, downbeats: Seq<Duration>, count: int) -> Seq<Duration>
        decreases count,
    {
        if count <= 0 {
            Seq::empty()
        } else {
            let rest = self.marked_downbeats(downbeats, count - 1);
            if self.trusted_within(
                downbeats[count - 1],
                Duration { nanos: MAX_BEATMATCH_PHASE_ERROR_NANOS },
            ) {
                rest.push(downbeats[count - 1])
            } else {
                rest
            }
        }
    }

    /// The incoming cues of a region, before they are put in order: markers
    /// first, then as many downbeats as the limit leaves room to look at.
    pub open spec fn cue_positions(
        &self,
        start: Duration,
        end: Duration,
        downbeats: Seq<Duration>,
    ) -> Seq<Duration> {
        let markers = self.trusted_between(
            start,
            end,
            spec_min(self.beat_markers@.len() as int, MAX_INCOMING_CUE_CANDIDATES as int),
        );
        markers + self.marked_downbeats(
            downbeats,
            spec_min(downbeats.len() as int, MAX_INCOMING_CUE_CANDIDATES - markers.len()),
        )
    }

    proof fn lemma_trusted_between_len(&self, start: Duration, end: Duration, count: int)
        requires
            0 <= count,
        ensures
            self.trusted_between(start, end, count).len() <= count,
        decreases count,
    {
        if count > 0 {
            self.lemma_trusted_between_len(start, end, count - 1);
        }
    }
}

/// A trusted marker that stands exactly at a position is the one that the
/// position snaps to, whatever the tolerance.
pub proof fn trusted_position_snaps_to_itself(
    track: TrackAnalysis,
    position: Duration,
    index: int,
)
    requires
        track.is_trusted_position(position),
        track.is_nearest_trusted(index, position),
    ensures
        track.beat_markers@[index] == position,
{
    let k = choose|k: int| #[trigger]
        track.trusted_marker(k) && track.beat_markers@[k] == position;
    assert(track.trusted_marker(k));
}

/// Without a first beat or a tempo a position stays where it is. With them one up to the
/// first beat has no place, and a later one is counted from there as long as the interval
/// is known.
pub proof fn positions_are_counted_from_the_first_beat(
    track: TrackAnalysis,
    position: Duration,
    interval: Option<Duration>,
)
    ensures
        ({
            let place = track.past_first_beat(position, interval);
            let known = track.first_beat is Some && track.bpm is Some;
            let counts = known && !scalar::spec_at_most(track.bpm->0, 0)
                && track.first_beat->0@ < position@;
            &&& !known ==> place == Some(GridPlace::Fixed(position))
            &&& known && scalar::spec_at_most(track.bpm->0, 0) ==> place is None
            &&& known && position@ <= track.first_beat->0@ ==> place is None
            &&& counts && interval is None ==> place == Some(GridPlace::Fixed(position))
            &&& counts && interval is Some ==> {
                &&& place matches Some(GridPlace::Counted { first, elapsed, interval: beat })
                &&& Some(first) == track.first_beat
                &&& first@ + elapsed@ == position@
                &&& Some(beat) == interval
            }
        }),
{
}

/// Whether a trusted marker is the nearest to a position of the first ones, and nearer
/// than each trusted one before it.
spec fn is_nearest_of_first(
    track: TrackAnalysis,
    position: Duration,
    count: int,
    index: int,
) -> bool {
    &&& 0 <= index < count
    &&& track.trusted_marker(index)
    &&& forall|other: int|
        other < count && #[trigger] track.trusted_marker(other) ==> track.marker_distance(
            index,
            position,
        ) <= track.marker_distance(other, position)
    &&& forall|other: int|
        other < index && #[trigger] track.trusted_marker(other) ==> track.marker_distance(
            index,
            position,
        ) < track.marker_distance(other, position)
}

proof fn lemma_nearest_of_first(
    track: TrackAnalysis,
    position: Duration,
    count: int,
    some: int,
) -> (best: int)
    requires
        0 <= some < count <= track.beat_markers@.len(),
        track.trusted_marker(some),
    ensures
        is_nearest_of_first(track, position, count, best),
    decreases count,
{
    if exists|k: int| k < count - 1 && #[trigger] track.trusted_marker(k) {
        let k = choose|k: int| k < count - 1 && #[trigger] track.trusted_marker(k);
        let best = lemma_nearest_of_first(track, position, count - 1, k);
        if track.trusted_marker(count - 1) && track.marker_distance(count - 1, position)
            < track.marker_distance(best, position) {
            count - 1
        } else {
            best
        }
    } else {
        some
    }
}

/// The marker near a position is a trusted one within the tolerance, and no trusted marker
/// is nearer; there is one just where some trusted marker lies within the tolerance.
pub proof fn markers_near_a_position_are_the_nearest(
    track: TrackAnalysis,
    position: Duration,
    tolerance: Duration,
    other: int,
)
    requires
        0 <= other < track.beat_markers@.len(),
        track.trusted(other),
    ensures
        ({
            let near = track.marker_near(position, tolerance);
            let far = |marker: Duration|
                if marker@ >= position@ {
                    marker@ - position@
                } else {
                    position@ - marker@
                };
            &&& near is None ==> far(track.beat_markers@[other]) > tolerance@
            &&& near matches Some(marker) ==> {
                &&& far(marker) <= tolerance@
                &&& far(marker) <= far(track.beat_markers@[other])
                &&& exists|k: int|
                    0 <= k < track.beat_markers@.len() && track.trusted(k)
                        && #[trigger] track.beat_markers@[k] == marker
            }
        }),
{
    assert(track.trusted_marker(other));
    if track.trusted_within(position, tolerance) {
        let best = lemma_nearest_of_first(
            track,
            position,
            track.beat_markers@.len() as int,
            other,
        );
        assert(track.is_nearest_trusted(best, position));
        let chosen = choose|index: int| track.is_nearest_trusted(index, position);
        assert(track.is_nearest_trusted(chosen, position));
        let within = choose|index: int| #[trigger]
            track.trusted_marker(index) && track.marker_distance(index, position) <= tolerance@;
        assert(track.trusted_marker(within));
        assert(track.beat_markers@[chosen] == track.marker_near(position, tolerance)->0);
    }
}

/// The trusted markers between two positions are those that are trusted and lie between
/// them, both ends included.
pub proof fn trusted_markers_between_are_all_of_them(
    track: TrackAnalysis,
    start: Duration,
    end: Duration,
    count: int,
    found: Duration,
)
    requires
        0 <= count <= track.beat_markers@.len(),
    ensures
        track.trusted_between(start, end, count).contains(found) <==> {
            &&& start@ <= found@ <= end@
            &&& exists|k: int|
                0 <= k < count && track.trusted(k) && #[trigger] track.beat_markers@[k] == found
        },
    decreases count,
{
    if count > 0 {
        trusted_markers_between_are_all_of_them(track, start, end, count - 1, found);
        let rest = track.trusted_between(start, end, count - 1);
        let all = track.trusted_between(start, end, count);
        let marker = track.beat_markers@[count - 1];
        if all.contains(found) {
            let i = choose|i: int| 0 <= i < all.len() && all[i] == found;
            if i < rest.len() {
                assert(rest[i] == found);
            } else {
                assert(marker == found);
            }
        }
        if start@ <= found@ <= end@ && exists|k: int|
            0 <= k < count && track.trusted(k) && #[trigger] track.beat_markers@[k] == found {
            let k = choose|k: int|
                0 <= k < count && track.trusted(k) && #[trigger] track.beat_markers@[k] == found;
            if k < count - 1 {
                assert(rest.contains(found));
                let i = choose|i: int| 0 <= i < rest.len() && rest[i] == found;
                assert(all[i] == found);
            } else {
                assert(all[all.len() - 1] == found);
            }
        }
    }
}

/// A marker opens a cycle only where it is trusted and a whole number of cycles away, in
/// markers, from one that is trusted and nearest to the first downbeat, within the
/// tolerance; a cycle without beats is never opened.
pub proof fn cycles_open_on_the_downbeat(
    track: TrackAnalysis,
    index: int,
    cycle_beats: u32,
    tolerance: Duration,
    origin: int,
)
    requires
        track.first_downbeat is Some,
        track.is_nearest_trusted(origin, track.first_downbeat->0),
    ensures
        ({
            let opens = track.opens_cycle(index, cycle_beats, tolerance);
            let far = track.marker_distance(origin, track.first_downbeat->0);
            let apart = if index >= origin {
                index - origin
            } else {
                origin - index
            };
            &&& cycle_beats == 0 ==> !opens
            &&& !track.trusted(index) ==> !opens
            &&& far > tolerance@ ==> !opens
            &&& cycle_beats > 0 && track.trusted(index) && far <= tolerance@ ==> (opens <==> apart
                % cycle_beats as int == 0)
        }),
{
    assert forall|other: int| #[trigger]
        track.is_nearest_trusted(other, track.first_downbeat->0) implies other == origin by {
        assert(track.trusted_marker(other));
        assert(track.trusted_marker(origin));
    }
}

/// The marked downbeats are those within 35 milliseconds of a trusted marker.
pub proof fn marked_downbeats_are_near_markers(
    track: TrackAnalysis,
    downbeats: Seq<Duration>,
    count: int,
    found: Duration,
)
    requires
        0 <= count <= downbeats.len(),
    ensures
        track.marked_downbeats(downbeats, count).contains(found) <==> {
            &&& track.trusted_within(found, Duration { nanos: 35_000_000 })
            &&& exists|k: int| 0 <= k < count && #[trigger] downbeats[k] == found
        },
    decreases count,
{
    if count > 0 {
        marked_downbeats_are_near_markers(track, downbeats, count - 1, found);
        let rest = track.marked_downbeats(downbeats, count - 1);
        let all = track.marked_downbeats(downbeats, count);
        if all.contains(found) {
            let i = choose|i: int| 0 <= i < all.len() && all[i] == found;
            if i < rest.len() {
                assert(rest[i] == found);
            } else {
                assert(downbeats[count - 1] == found);
            }
        }
        if track.trusted_within(found, Duration { nanos: 35_000_000 }) && exists|k: int|
            0 <= k < count && #[trigger] downbeats[k] == found {
            let k = choose|k: int| 0 <= k < count && #[trigger] downbeats[k] == found;
            if k < count - 1 {
                assert(rest.contains(found));
                let i = choose|i: int| 0 <= i < rest.len() && rest[i] == found;
                assert(all[i] == found);
            } else {
                assert(all[all.len() - 1] == found);
            }
        }
    }
}

/// The last trusted marker up to a position is not after it and no trusted one lies between
/// them; the first from it on is not before it and no trusted one lies between them.
pub proof fn trusted_neighbors_have_none_between(
    track: TrackAnalysis,
    marker: Duration,
    position: Duration,
    other: int,
)
    requires
        0 <= other < track.beat_markers@.len(),
        track.trusted(other),
    ensures
        track.is_last_trusted_up_to(marker, position) ==> marker@ <= position@ && !(marker@
            < track.beat_markers@[other]@ <= position@),
        track.is_first_trusted_from(marker, position) ==> position@ <= marker@ && !(position@
            <= track.beat_markers@[other]@ < marker@),
{
    assert(track.trusted_marker(other));
}

/// The cues between two positions are the trusted markers there, and after them the
/// downbeats near one, never more than 96 in all.
pub proof fn cue_positions_are_markers_then_downbeats(
    track: TrackAnalysis,
    start: Duration,
    end: Duration,
    downbeats: Seq<Duration>,
    at: int,
)
    requires
        0 <= at < track.cue_positions(start, end, downbeats).len(),
    ensures
        ({
            let cues = track.cue_positions(start, end, downbeats);
            &&& cues.len() <= 96
            &&& start@ <= cues[at]@ <= end@ && track.is_trusted_position(cues[at])
                || downbeats.contains(cues[at]) && track.trusted_within(
                cues[at],
                Duration { nanos: 35_000_000 },
            )
        }),
{
    let count = spec_min(track.beat_markers@.len() as int, 96);
    let markers = track.trusted_between(start, end, count);
    track.lemma_trusted_between_len(start, end, count);
    let taken = spec_min(downbeats.len() as int, 96 - markers.len());
    let marked = track.marked_downbeats(downbeats, taken);
    lemma_marked_len(track, downbeats, taken);
    let cues = track.cue_positions(start, end, downbeats);
    if at < markers.len() {
        trusted_markers_between_are_all_of_them(track, start, end, count, cues[at]);
        assert(markers[at] == cues[at]);
        assert(markers.contains(cues[at]));
        let k = choose|k: int|
            0 <= k < count && track.trusted(k) && #[trigger] track.beat_markers@[k] == cues[at];
        assert(track.trusted_marker(k));
    } else {
        marked_downbeats_are_near_markers(track, downbeats, taken, cues[at]);
        assert(marked[at - markers.len()] == cues[at]);
        assert(marked.contains(cues[at]));
        let k = choose|k: int| 0 <= k < taken && #[trigger] downbeats[k] == cues[at];
        assert(downbeats[k] == cues[at]);
    }
}

proof fn lemma_marked_len(track: TrackAnalysis, downbeats: Seq<Duration>, count: int)
    requires
        0 <= count,
    ensures
        track.marked_downbeats(downbeats, count).len() <= count,
    decreases count,
{
    if count > 0 {
        lemma_marked_len(track, downbeats, count - 1);
    }
}

} // verus!
