//! Small vocabularies of the transition planner.

use vstd::prelude::*;

verus! {

/// How two tracks are joined.
#[derive(Clone, Copy, Debug, PartialEq, Eq, Structural)]
pub enum TransitionKind {
    BeatMatched,
    Crossfade,
    Gapless,
}

} // verus!
