//! Adapter seams for earlier analysis types.

use vstd::prelude::*;

verus! {

/// Minimal one-way adapter contract for a legacy value.
pub trait LegacyAdapter<Legacy>: Sized {
    fn from_legacy(value: &Legacy) -> Option<Self>;
}

/// Named contract for complete legacy track records.
pub trait LegacyTrackAnalysisAdapter<Legacy>: Sized {
    fn from_legacy_track(value: &Legacy) -> Option<Self>;
}

/// Named contract for legacy components such as vocal and energy profiles.
pub trait LegacyComponentAdapter<Legacy>: Sized {
    fn from_legacy_component(value: &Legacy) -> Option<Self>;
}

/// Placeholder for callers that have no legacy representation in scope. It
/// carries no data.
#[derive(Clone, Copy, Debug, PartialEq, Eq, Structural)]
pub struct LegacyAnalysisPlaceholder;

impl Default for LegacyAnalysisPlaceholder {
    fn default() -> (r: Self)
        ensures
            r == LegacyAnalysisPlaceholder,
    {
        LegacyAnalysisPlaceholder
    }
}

impl<Legacy> LegacyAdapter<Legacy> for LegacyAnalysisPlaceholder {
    fn from_legacy(_value: &Legacy) -> (r: Option<Self>)
        ensures
            r == Some(LegacyAnalysisPlaceholder),
    {
        Some(LegacyAnalysisPlaceholder)
    }
}

} // verus!
