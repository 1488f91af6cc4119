//! When to prepare and to start an overlap of two tracks.

use vstd::prelude::*;

use crate::time::{spec_min, Duration};

verus! {

/// Playback-relative timing for preparing and starting an adaptive transition.
#[derive(Clone, Copy, Debug, PartialEq, Eq, Structural)]
pub struct TransitionTiming {
    /// Start resolving the next track at this position in the outgoing track.
    pub prefetch_after: Duration,
    /// Start the overlap at this position in the outgoing track.
    pub transition_after: Duration,
    pub fade_duration: Duration,
}

/// The longest fade that takes at most half of either track and is no longer
/// than the preferred one.
pub open spec fn longest_fade(outgoing: int, incoming: int, preferred: int) -> int {
    spec_min(spec_min(preferred, outgoing / 2), incoming / 2)
}

/// Chooses a safe overlap from the actual lengths of both tracks.
///
/// At most half of either track is consumed by the fade. Prefetch starts one
/// fade window before the overlap, which ends with the outgoing track.
pub fn plan_transition_timing(
    outgoing_duration: Duration,
    incoming_duration: Duration,
    preferred_fade: Duration,
) -> (r: Option<TransitionTiming>)
    ensures
        r is Some <==> longest_fade(outgoing_duration@, incoming_duration@, preferred_fade@) > 0,
        r matches Some(timing) ==> {
            &&& timing.fade_duration@ == longest_fade(
                outgoing_duration@,
                incoming_duration@,
                preferred_fade@,
            )
            &&& timing.transition_after@ + timing.fade_duration@ == outgoing_duration@
            &&& timing.prefetch_after@ + timing.fade_duration@ == timing.transition_after@
            &&& 2 * timing.fade_duration@ <= outgoing_duration@
            &&& 2 * timing.fade_duration@ <= incoming_duration@
            &&& timing.fade_duration@ <= preferred_fade@
        },
{
    let fade_duration = preferred_fade.min(outgoing_duration.divide(2)).min(
        incoming_duration.divide(2),
    );
    if fade_duration.is_zero() {
        return None;
    }
    let transition_after = outgoing_duration.saturating_sub(fade_duration);
    Some(
        TransitionTiming {
            prefetch_after: transition_after.saturating_sub(fade_duration),
            transition_after,
            fade_duration,
        },
    )
}

/// The fade is the longest of those that take at most half of either track and are no
/// longer than the preferred one: it is such a fade, and no other is longer.
pub proof fn fades_take_half_of_a_track_at_most(
    outgoing: int,
    incoming: int,
    preferred: int,
    other: int,
)
    requires
        0 <= outgoing,
        0 <= incoming,
        0 <= preferred,
    ensures
        ({
            let fade = longest_fade(outgoing, incoming, preferred);
            &&& 0 <= fade <= preferred
            &&& 2 * fade <= outgoing
            &&& 2 * fade <= incoming
            &&& other <= preferred && 2 * other <= outgoing && 2 * other <= incoming ==> other
                <= fade
        }),
{
}

} // verus!
