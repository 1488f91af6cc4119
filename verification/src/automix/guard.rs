//! Peaks and gains of a mix: which measurements are believed, and when a mix has to
//! be attenuated. All numbers are bits.

use vstd::prelude::*;

use crate::scalar;

verus! {

/// Peak measurements used to protect the two-deck mix only when the source peaks
/// make the unmodified transition curve unsafe.
#[derive(Clone, Copy, Debug, PartialEq, Eq, Structural)]
pub struct AutoMixPeakGuard {
    /// Outgoing source peak after its already-applied base gain.
    pub outgoing_peak: u32,
    /// Incoming source peak after its retained/base gain.
    pub incoming_peak: u32,
}

/// Whether a number is finite and not negative.
pub open spec fn is_level(bits: u32) -> bool {
    scalar::spec_is_finite(bits) && scalar::spec_at_most(0, bits)
}

/// A peak as it is believed: what is no level counts as full scale.
pub open spec fn believed_peak(peak: u32) -> u32 {
    if is_level(peak) {
        peak
    } else {
        scalar::ONE_BITS
    }
}

/// A peak as it is believed: what is no level counts as full scale.
pub fn finite_peak_or_conservative(peak: u32) -> (r: u32)
    ensures
        r == believed_peak(peak),
{
    if scalar::is_finite(peak) && scalar::at_most(0, peak) {
        peak
    } else {
        scalar::ONE_BITS
    }
}

/// A gain as it is applied: what is no level mutes.
pub fn finite_nonnegative_gain(gain: u32) -> (r: u32)
    ensures
        r == if is_level(gain) {
            gain
        } else {
            0
        },
{
    if scalar::is_finite(gain) && scalar::at_most(0, gain) {
        gain
    } else {
        0
    }
}

/// A linear peak: full scale where none was measured or the measurement, in
/// decibels or turned into a level, is not a usable number.
pub fn measured_peak(peak_dbfs: Option<u32>, linear: u32) -> (r: u32)
    ensures
        r == if peak_dbfs is Some && scalar::spec_is_finite(peak_dbfs->0) && is_level(linear) {
            linear
        } else {
            scalar::ONE_BITS
        },
{
    match peak_dbfs {
        Some(peak) => if scalar::is_finite(peak) && scalar::is_finite(linear) && scalar::at_most(
            0,
            linear,
        ) {
            linear
        } else {
            scalar::ONE_BITS
        },
        None => scalar::ONE_BITS,
    }
}

/// How far a mix has come: between zero and one, and zero where it is no number.
pub fn finite_mix_progress(progress: u32) -> (r: u32)
    ensures
        r == if scalar::spec_is_nan(progress) || scalar::spec_less(progress, 0) {
            0
        } else if scalar::spec_less(scalar::ONE_BITS, progress) {
            scalar::ONE_BITS
        } else {
            progress
        },
        scalar::spec_in_unit(r),
{
    if scalar::is_nan(progress) || scalar::less(progress, 0) {
        0
    } else if scalar::less(scalar::ONE_BITS, progress) {
        scalar::ONE_BITS
    } else {
        progress
    }
}

impl Default for AutoMixPeakGuard {
    fn default() -> (r: Self)
        ensures
            r.outgoing_peak == scalar::ONE_BITS,
            r.incoming_peak == scalar::ONE_BITS,
    {
        AutoMixPeakGuard::unity()
    }
}

impl AutoMixPeakGuard {
    /// A guard for two peaks.
    pub fn new(outgoing_peak: u32, incoming_peak: u32) -> (r: Self)
        ensures
            r.outgoing_peak == outgoing_peak,
            r.incoming_peak == incoming_peak,
    {
        AutoMixPeakGuard { outgoing_peak, incoming_peak }
    }

    /// Conservative guard for analyses that do not contain peak measurements.
    pub fn unity() -> (r: Self)
        ensures
            r.outgoing_peak == scalar::ONE_BITS,
            r.incoming_peak == scalar::ONE_BITS,
    {
        AutoMixPeakGuard { outgoing_peak: scalar::ONE_BITS, incoming_peak: scalar::ONE_BITS }
    }

    /// A guard for two measured peaks; what is no level counts as full scale.
    pub fn from_measured(outgoing_peak: u32, incoming_peak: u32) -> (r: Self)
        ensures
            r.outgoing_peak == believed_peak(outgoing_peak),
            r.incoming_peak == believed_peak(incoming_peak),
            is_level(r.outgoing_peak) && is_level(r.incoming_peak),
    {
        AutoMixPeakGuard {
            outgoing_peak: finite_peak_or_conservative(outgoing_peak),
            incoming_peak: finite_peak_or_conservative(incoming_peak),
        }
    }
}

/// What is done to the gains of a mix.
#[derive(Clone, Copy, Debug, PartialEq, Eq, Structural)]
pub enum GuardStep {
    /// The gains stay as they are.
    Keep,
    /// Both gains become zero.
    Mute,
    /// Both gains are divided by the peak.
    Attenuate,
}

/// What is done to the gains of a mix with a predicted peak: nothing at either end
/// of the overlap or while the peak stays below full scale.
pub fn guard_step(progress: u32, predicted_peak: u32) -> (r: GuardStep)
    ensures
        r == if scalar::spec_at_most(progress, 0) || scalar::spec_at_most(
            scalar::ONE_BITS,
            progress,
        ) || scalar::spec_is_nan(predicted_peak) || scalar::spec_at_most(
            predicted_peak,
            scalar::ONE_BITS,
        ) {
            GuardStep::Keep
        } else if scalar::spec_is_infinite(predicted_peak) {
            GuardStep::Mute
        } else {
            GuardStep::Attenuate
        },
{
    if scalar::at_most(progress, 0) || scalar::at_most(scalar::ONE_BITS, progress)
        || scalar::is_nan(predicted_peak) || scalar::at_most(predicted_peak, scalar::ONE_BITS) {
        GuardStep::Keep
    } else if scalar::is_infinite(predicted_peak) {
        GuardStep::Mute
    } else {
        GuardStep::Attenuate
    }
}

/// What a weak phrase boundary costs a transition: nothing at sixteen bars, 0.04 at
/// eight, 0.1 at four, 0.14 at any other number and 0.16 without one.
pub fn phrase_strength_penalty(phrase_boundary_bars: Option<u8>) -> (r: u32)
    ensures
        r == match phrase_boundary_bars {
            Some(bars) => if bars == 16 {
                0u32
            } else if bars == 8 {
                0x3D23_D70A
            } else if bars == 4 {
                0x3DCC_CCCD
            } else {
                0x3E0F_5C29
            },
            None => 0x3E23_D70A,
        },
{
    match phrase_boundary_bars {
        Some(bars) => if bars == 16 {
            0
        } else if bars == 8 {
            0x3D23_D70A
        } else if bars == 4 {
            0x3DCC_CCCD
        } else {
            0x3E0F_5C29
        },
        None => 0x3E23_D70A,
    }
}

/// A peak that is a level is believed, any other is taken for full scale.
pub proof fn odd_peaks_are_full_scale(peak: u32)
    ensures
        scalar::spec_is_finite(peak) && scalar::spec_at_most(0, peak) ==> believed_peak(peak)
            == peak,
        !scalar::spec_is_finite(peak) || !scalar::spec_at_most(0, peak) ==> believed_peak(peak)
            == 0x3F80_0000,
{
}

} // verus!
