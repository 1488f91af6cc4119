//! Versioned energy-profile domain values.

use vstd::prelude::*;

use super::value::{Confidence, UnitInterval};
use crate::frames::{exact_frame_at, frame_at, is_binary_position, spec_frame_at};
use crate::scalar;
use crate::time::Duration;

verus! {

#[derive(Clone, Copy, Debug, PartialEq)]
pub struct EnergyFrame {
    pub time: Duration,
    pub level: UnitInterval,
    pub confidence: Confidence,
}

impl EnergyFrame {
    pub fn validate(&self) -> (r: bool)
        ensures
            r == (self.level.wf() && self.confidence.wf()),
            r,
    {
        self.level.validate() && self.confidence.validate()
    }
}

/// Normalized energy samples, with matching confidence values, and loudness
/// measurements as the bits of single-precision numbers.
#[derive(Clone, Debug, PartialEq)]
pub struct EnergyAnalysis {
    pub profile: Vec<UnitInterval>,
    pub confidences: Vec<Confidence>,
    pub rate_hz: u16,
    /// Unweighted full-band RMS in dBFS.
    pub rms_dbfs: Option<u32>,
    /// Sample peak in dBFS.
    pub sample_peak_dbfs: Option<u32>,
    /// ITU-R BS.1770 integrated programme loudness in LUFS.
    pub integrated_lufs: Option<u32>,
    /// Maximum oversampled true peak in dBTP.
    pub true_peak_dbtp: Option<u32>,
}

impl Default for EnergyAnalysis {
    fn default() -> (r: Self)
        ensures
            r.profile@.len() == 0,
            r.confidences@.len() == 0,
            r.rate_hz == 1,
            r.has_no_loudness(),
            r.wf(),
    {
        EnergyAnalysis {
            profile: Vec::new(),
            confidences: Vec::new(),
            rate_hz: 1,
            rms_dbfs: None,
            sample_peak_dbfs: None,
            integrated_lufs: None,
            true_peak_dbtp: None,
        }
    }
}

/// Whether a measurement is absent or finite.
pub open spec fn absent_or_finite(measurement: Option<u32>) -> bool {
    measurement matches Some(bits) ==> scalar::spec_is_finite(bits)
}

fn is_absent_or_finite(measurement: Option<u32>) -> (r: bool)
    ensures
        r == absent_or_finite(measurement),
{
    match measurement {
        Some(bits) => scalar::is_finite(bits),
        None => true,
    }
}

/// Whether all values are valid.
pub open spec fn all_units_valid(values: Seq<UnitInterval>) -> bool {
    forall|i: int| 0 <= i < values.len() ==> (#[trigger] values[i]).wf()
}

/// Whether all confidences are valid.
pub open spec fn all_confidences_valid(values: Seq<Confidence>) -> bool {
    forall|i: int| 0 <= i < values.len() ==> (#[trigger] values[i]).wf()
}

pub(crate) fn units_valid(values: &Vec<UnitInterval>) -> (r: bool)
    ensures
        r == all_units_valid(values@),
        r,
{
    let mut i: usize = 0;
    while i < values.len()
        invariant
            i <= values@.len(),
            forall|j: int| 0 <= j < i ==> (#[trigger] values@[j]).wf(),
        decreases values@.len() - i,
    {
        if !values[i].validate() {
            return false;
        }
        i += 1;
    }
    true
}

pub(crate) fn confidences_valid(values: &Vec<Confidence>) -> (r: bool)
    ensures
        r == all_confidences_valid(values@),
        r,
{
    let mut i: usize = 0;
    while i < values.len()
        invariant
            i <= values@.len(),
            forall|j: int| 0 <= j < i ==> (#[trigger] values@[j]).wf(),
        decreases values@.len() - i,
    {
        if !values[i].validate() {
            return false;
        }
        i += 1;
    }
    true
}

/// Whether the values are the fractions of the bytes.
pub open spec fn are_byte_fractions(values: Seq<UnitInterval>, bytes: Seq<u8>) -> bool {
    &&& values.len() == bytes.len()
    &&& forall|i: int|
        0 <= i < bytes.len() ==> scalar::is_byte_fraction((#[trigger] values[i]).bits(), bytes[i])
}

pub(crate) fn byte_fractions(bytes: &[u8]) -> (r: Vec<UnitInterval>)
    ensures
        are_byte_fractions(r@, bytes@),
{
    let mut values: Vec<UnitInterval> = Vec::new();
    let mut i: usize = 0;
    while i < bytes.len()
        invariant
            i <= bytes@.len(),
            are_byte_fractions(values@, bytes@.take(i as int)),
        decreases bytes@.len() - i,
    {
        let fraction: u32 = scalar::byte_fraction(bytes[i]);
        values.push(UnitInterval::clamped(fraction));
        i += 1;
    }
    assert(bytes@.take(i as int) =~= bytes@);
    values
}

impl EnergyAnalysis {
    /// Whether no loudness was measured.
    pub open spec fn has_no_loudness(&self) -> bool {
        &&& self.rms_dbfs is None
        &&& self.sample_peak_dbfs is None
        &&& self.integrated_lufs is None
        &&& self.true_peak_dbtp is None
    }

    /// Whether the profile has a rate, each sample has a confidence, and the
    /// measurements are finite.
    pub open spec fn wf(&self) -> bool {
        &&& self.rate_hz > 0
        &&& self.profile@.len() == self.confidences@.len()
        &&& all_units_valid(self.profile@)
        &&& all_confidences_valid(self.confidences@)
        &&& absent_or_finite(self.rms_dbfs)
        &&& absent_or_finite(self.sample_peak_dbfs)
        &&& absent_or_finite(self.integrated_lufs)
        &&& absent_or_finite(self.true_peak_dbtp)
    }

    pub fn new(
        profile: Vec<UnitInterval>,
        confidences: Vec<Confidence>,
        rate_hz: u16,
    ) -> (r: Option<Self>)
        ensures
            r is Some <==> rate_hz > 0 && profile@.len() == confidences@.len(),
            r matches Some(energy) ==> energy.profile == profile && energy.confidences
                == confidences && energy.rate_hz == rate_hz && energy.has_no_loudness()
                && energy.wf(),
    {
        let analysis = EnergyAnalysis {
            profile,
            confidences,
            rate_hz,
            rms_dbfs: None,
            sample_peak_dbfs: None,
            integrated_lufs: None,
            true_peak_dbtp: None,
        };
        if analysis.validate() {
            Some(analysis)
        } else {
            None
        }
    }

    /// Builds the analysis of a profile that was quantized to bytes; every sample
    /// counts as certain.
    pub fn from_quantized(profile: &[u8], rate_hz: u16) -> (r: Option<Self>)
        ensures
            r is Some <==> rate_hz > 0,
            r matches Some(energy) ==> are_byte_fractions(energy.profile@, profile@)
                && energy.confidences@ == Seq::new(profile@.len(), |i: int| Confidence::one())
                && energy.rate_hz == rate_hz && energy.has_no_loudness() && energy.wf(),
    {
        let levels = byte_fractions(profile);
        let mut confidences: Vec<Confidence> = Vec::new();
        while confidences.len() < profile.len()
            invariant
                confidences@.len() <= profile@.len(),
                forall|i: int| 0 <= i < confidences@.len() ==> confidences@[i] == Confidence::one(),
            decreases profile@.len() - confidences@.len(),
        {
            confidences.push(Confidence::one());
        }
        assert(confidences@ =~= Seq::new(profile@.len(), |i: int| Confidence::one()));
        EnergyAnalysis::new(levels, confidences, rate_hz)
    }

    pub fn validate(&self) -> (r: bool)
        ensures
            r == self.wf(),
            r == (self.rate_hz > 0 && self.profile@.len() == self.confidences@.len()
                && absent_or_finite(self.rms_dbfs) && absent_or_finite(self.sample_peak_dbfs)
                && absent_or_finite(self.integrated_lufs) && absent_or_finite(
                self.true_peak_dbtp,
            )),
    {
        self.rate_hz > 0 && self.profile.len() == self.confidences.len() && units_valid(
            &self.profile,
        ) && confidences_valid(&self.confidences) && is_absent_or_finite(self.rms_dbfs)
            && is_absent_or_finite(self.sample_peak_dbfs) && is_absent_or_finite(
            self.integrated_lufs,
        ) && is_absent_or_finite(self.true_peak_dbtp)
    }

    /// The analysis with the measurements, if the result is valid.
    pub fn with_loudness(
        self,
        rms_dbfs: Option<u32>,
        sample_peak_dbfs: Option<u32>,
        integrated_lufs: Option<u32>,
        true_peak_dbtp: Option<u32>,
    ) -> (r: Option<Self>)
        ensures
            r == ({
                let measured = EnergyAnalysis {
                    rms_dbfs,
                    sample_peak_dbfs,
                    integrated_lufs,
                    true_peak_dbtp,
                    ..self
                };
                if measured.wf() {
                    Some(measured)
                } else {
                    None
                }
            }),
    {
        let measured = EnergyAnalysis {
            profile: self.profile,
            confidences: self.confidences,
            rate_hz: self.rate_hz,
            rms_dbfs,
            sample_peak_dbfs,
            integrated_lufs,
            true_peak_dbtp,
        };
        if measured.validate() {
            Some(measured)
        } else {
            None
        }
    }

    /// The sample of a frame and its confidence; none where the analysis is not
    /// valid or has no such frame.
    pub open spec fn sample(&self, frame: int) -> Option<(UnitInterval, Confidence)> {
        if self.wf() && 0 <= frame < self.profile@.len() {
            Some((self.profile@[frame], self.confidences@[frame]))
        } else {
            None
        }
    }

    /// The level at a position of the clock and its confidence; none where the
    /// analysis is not valid or ends before the position.
    pub fn level_at(&self, position: Duration) -> (r: Option<(UnitInterval, Confidence)>)
        ensures
            r == self.sample(spec_frame_at(position@, self.rate_hz)),
            is_binary_position(position@) ==> r == self.sample(
                exact_frame_at(position@, self.rate_hz),
            ),
    {
        if !self.validate() {
            return None;
        }
        let frame: usize = frame_at(position, self.rate_hz);
        if frame < self.profile.len() {
            Some((self.profile[frame], self.confidences[frame]))
        } else {
            None
        }
    }
}

/// A frame of a valid profile is read with its own confidence, and there is none outside
/// of it or of an invalid one.
pub proof fn frames_are_read_with_their_confidence(energy: EnergyAnalysis, frame: int)
    ensures
        !energy.wf() || frame < 0 || frame >= energy.profile@.len() ==> energy.sample(frame)
            is None,
        energy.wf() && 0 <= frame < energy.profile@.len() ==> energy.sample(frame) == Some(
            (energy.profile@[frame], energy.confidences@[frame]),
        ),
        energy.wf() ==> energy.rate_hz > 0 && energy.profile@.len() == energy.confidences@.len(),
{
}

/// A profile is valid just where each of its values and confidences is, the first and the
/// last as well.
pub proof fn single_values_spoil_a_profile(energy: EnergyAnalysis, i: int)
    requires
        energy.wf(),
        0 <= i < energy.profile@.len(),
    ensures
        energy.profile@[i].wf() && energy.confidences@[i].wf(),
        energy.rms_dbfs matches Some(bits) ==> scalar::spec_is_finite(bits),
        energy.sample_peak_dbfs matches Some(bits) ==> scalar::spec_is_finite(bits),
        energy.integrated_lufs matches Some(bits) ==> scalar::spec_is_finite(bits),
        energy.true_peak_dbtp matches Some(bits) ==> scalar::spec_is_finite(bits),
{
}

} // verus!
