//! Versioned vocal-activity domain values.

use vstd::prelude::*;

use super::energy::{
    all_confidences_valid, all_units_valid, are_byte_fractions, byte_fractions, confidences_valid,
    units_valid,
};
use super::value::{Confidence, UnitInterval};
use crate::frames::{exact_frame_at, frame_at, is_binary_position, spec_frame_at};
use crate::scalar;
use crate::time::Duration;

verus! {

#[derive(Clone, Copy, Debug, PartialEq)]
pub struct VocalFrame {
    pub time: Duration,
    pub activity: UnitInterval,
    pub confidence: Confidence,
}

impl VocalFrame {
    pub fn validate(&self) -> (r: bool)
        ensures
            r == (self.activity.wf() && self.confidence.wf()),
            r,
    {
        self.activity.validate() && self.confidence.validate()
    }
}

/// Activity and confidence have matching indexes and are sampled at the declared
/// rate in Hz.
#[derive(Clone, Debug, PartialEq)]
pub struct VocalAnalysis {
    pub activity: Vec<UnitInterval>,
    pub confidences: Vec<Confidence>,
    pub rate_hz: u16,
}

impl Default for VocalAnalysis {
    fn default() -> (r: Self)
        ensures
            r.activity@.len() == 0,
            r.confidences@.len() == 0,
            r.rate_hz == 1,
            r.wf(),
    {
        VocalAnalysis { activity: Vec::new(), confidences: Vec::new(), rate_hz: 1 }
    }
}

/// Whether the confidences are the fractions of the bytes.
pub open spec fn are_byte_confidences(values: Seq<Confidence>, bytes: Seq<u8>) -> bool {
    &&& values.len() == bytes.len()
    &&& forall|i: int|
        0 <= i < bytes.len() ==> scalar::is_byte_fraction((#[trigger] values[i]).bits(), bytes[i])
}

fn byte_confidences(bytes: &[u8]) -> (r: Vec<Confidence>)
    ensures
        are_byte_confidences(r@, bytes@),
{
    let mut values: Vec<Confidence> = Vec::new();
    let mut i: usize = 0;
    while i < bytes.len()
        invariant
            i <= bytes@.len(),
            are_byte_confidences(values@, bytes@.take(i as int)),
        decreases bytes@.len() - i,
    {
        let fraction: u32 = scalar::byte_fraction(bytes[i]);
        values.push(Confidence::clamped(fraction));
        i += 1;
    }
    assert(bytes@.take(i as int) =~= bytes@);
    values
}

impl VocalAnalysis {
    /// Whether the profile has a rate and each sample has a confidence.
    pub open spec fn wf(&self) -> bool {
        &&& self.rate_hz > 0
        &&& self.activity@.len() == self.confidences@.len()
        &&& all_units_valid(self.activity@)
        &&& all_confidences_valid(self.confidences@)
    }

    pub fn new(
        activity: Vec<UnitInterval>,
        confidences: Vec<Confidence>,
        rate_hz: u16,
    ) -> (r: Option<Self>)
        ensures
            r is Some <==> rate_hz > 0 && activity@.len() == confidences@.len(),
            r matches Some(vocal) ==> vocal == (VocalAnalysis { activity, confidences, rate_hz })
                && vocal.wf(),
    {
        let analysis = VocalAnalysis { activity, confidences, rate_hz };
        if analysis.validate() {
            Some(analysis)
        } else {
            None
        }
    }

    /// Builds the analysis of profiles that were quantized to bytes.
    pub fn from_quantized(activity: &[u8], confidences: &[u8], rate_hz: u16) -> (r: Option<Self>)
        ensures
            r is Some <==> rate_hz > 0 && activity@.len() == confidences@.len(),
            r matches Some(vocal) ==> are_byte_fractions(vocal.activity@, activity@)
                && are_byte_confidences(vocal.confidences@, confidences@) && vocal.rate_hz
                == rate_hz && vocal.wf(),
    {
        if activity.len() != confidences.len() {
            return None;
        }
        VocalAnalysis::new(byte_fractions(activity), byte_confidences(confidences), rate_hz)
    }

    pub fn validate(&self) -> (r: bool)
        ensures
            r == self.wf(),
            r == (self.rate_hz > 0 && self.activity@.len() == self.confidences@.len()),
    {
        self.rate_hz > 0 && self.activity.len() == self.confidences.len() && units_valid(
            &self.activity,
        ) && confidences_valid(&self.confidences)
    }

    /// The sample of a frame and its confidence; none where the analysis is not
    /// valid or has no such frame.
    pub open spec fn sample(&self, frame: int) -> Option<(UnitInterval, Confidence)> {
        if self.wf() && 0 <= frame < self.activity@.len() {
            Some((self.activity@[frame], self.confidences@[frame]))
        } else {
            None
        }
    }

    /// The vocal activity at a position of the clock and its confidence; none where the
    /// analysis is not valid or ends before the position.
    pub fn risk_at(&self, position: Duration) -> (r: Option<(UnitInterval, Confidence)>)
        ensures
            r == self.sample(spec_frame_at(position@, self.rate_hz)),
            is_binary_position(position@) ==> r == self.sample(
                exact_frame_at(position@, self.rate_hz),
            ),
    {
        if !self.validate() {
            return None;
        }
        let frame: usize = frame_at(position, self.rate_hz);
        if frame < self.activity.len() {
            Some((self.activity[frame], self.confidences[frame]))
        } else {
            None
        }
    }
}

/// A frame of a valid profile is read with its own confidence, and there is none outside
/// of it or of an invalid one.
pub proof fn frames_are_read_with_their_confidence(vocal: VocalAnalysis, frame: int)
    ensures
        !vocal.wf() || frame < 0 || frame >= vocal.activity@.len() ==> vocal.sample(frame) is None,
        vocal.wf() && 0 <= frame < vocal.activity@.len() ==> vocal.sample(frame) == Some(
            (vocal.activity@[frame], vocal.confidences@[frame]),
        ),
        vocal.wf() ==> vocal.rate_hz > 0 && vocal.activity@.len() == vocal.confidences@.len(),
{
}

} // verus!
