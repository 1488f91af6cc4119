//! Bounded scalar values used by the versioned analysis model.
//!
//! Model output is wrapped before it enters the domain. This keeps malformed
//! values and accidental out-of-range scores out of cached analysis records:
//! the type invariant below holds of every value that a program can make.
//! Scalars cross the boundary as the bits of a single-precision number.

use vstd::prelude::*;

use crate::scalar;

verus! {

/// The bits that clamping an arbitrary scalar into the unit interval gives.
pub open spec fn clamped_bits(bits: u32) -> u32 {
    if scalar::spec_is_nan(bits) || scalar::spec_is_negative(bits) {
        0
    } else if scalar::spec_at_most(scalar::ONE_BITS, bits) {
        scalar::ONE_BITS
    } else {
        bits
    }
}

fn clamp_bits(bits: u32) -> (r: u32)
    ensures
        r == clamped_bits(bits),
        scalar::spec_in_unit(r),
{
    if scalar::is_nan(bits) {
        0
    } else if scalar::is_negative(bits) {
        0
    } else if scalar::is_infinite(bits) || scalar::at_most(scalar::ONE_BITS, bits) {
        scalar::ONE_BITS
    } else {
        bits
    }
}

/// A finite scalar between zero and one, both included.
#[derive(Clone, Copy, Debug)]
pub struct UnitInterval {
    bits: u32,
}

impl UnitInterval {
    /// The bits of the wrapped scalar.
    pub closed spec fn bits(self) -> u32 {
        self.bits
    }

    /// An integer that orders these values as their scalars.
    pub open spec fn key(self) -> int {
        scalar::key(self.bits())
    }

    /// Whether the scalar lies in the unit interval.
    #[verifier::type_invariant]
    pub closed spec fn wf(self) -> bool {
        scalar::spec_in_unit(self.bits)
    }

    /// The value whose scalar has the bits.
    pub closed spec fn of_bits(bits: u32) -> UnitInterval {
        UnitInterval { bits }
    }

    /// The value zero.
    pub closed spec fn spec_zero() -> UnitInterval {
        UnitInterval { bits: 0 }
    }

    /// The value one.
    pub closed spec fn spec_one() -> UnitInterval {
        UnitInterval { bits: scalar::ONE_BITS }
    }

    /// The value zero.
    #[verifier::when_used_as_spec(spec_zero)]
    pub fn zero() -> (r: Self)
        ensures
            r == UnitInterval::spec_zero(),
            r.bits() == 0,
            r.wf(),
    {
        UnitInterval { bits: 0 }
    }

    /// The value one.
    #[verifier::when_used_as_spec(spec_one)]
    pub fn one() -> (r: Self)
        ensures
            r == UnitInterval::spec_one(),
            r.bits() == scalar::ONE_BITS,
            r.wf(),
    {
        UnitInterval { bits: scalar::ONE_BITS }
    }

    /// Creates a value only when the scalar is finite and in the unit interval.
    pub fn new(value: u32) -> (r: Option<Self>)
        ensures
            r is Some <==> scalar::spec_in_unit(value),
            r matches Some(v) ==> v == UnitInterval::of_bits(value) && v.bits() == value && v.wf(),
    {
        if scalar::in_unit(value) {
            Some(UnitInterval { bits: value })
        } else {
            None
        }
    }

    /// Another name of [`Self::new`].
    pub fn try_new(value: u32) -> (r: Option<Self>)
        ensures
            r is Some <==> scalar::spec_in_unit(value),
            r matches Some(v) ==> v == UnitInterval::of_bits(value) && v.bits() == value && v.wf(),
    {
        Self::new(value)
    }

    /// Returns the wrapped scalar.
    pub fn get(self) -> (r: u32)
        ensures
            r == self.bits(),
            scalar::spec_in_unit(r),
    {
        proof {
            use_type_invariant(&self);
        }
        self.bits
    }

    /// Explicitly clamps an arbitrary scalar into the unit interval.
    ///
    /// What is not a number, and every scalar with a sign, is mapped to zero;
    /// one and above, infinity among them, to one.
    pub fn clamped(value: u32) -> (r: Self)
        ensures
            r == UnitInterval::of_bits(clamped_bits(value)),
            r.bits() == clamped_bits(value),
            r.wf(),
    {
        let bits: u32 = clamp_bits(value);
        UnitInterval { bits }
    }

    /// Another name of [`Self::clamped`].
    pub fn clamp(value: u32) -> (r: Self)
        ensures
            r == UnitInterval::of_bits(clamped_bits(value)),
            r.bits() == clamped_bits(value),
            r.wf(),
    {
        Self::clamped(value)
    }

    /// Another name of [`Self::clamped`].
    pub fn new_clamped(value: u32) -> (r: Self)
        ensures
            r == UnitInterval::of_bits(clamped_bits(value)),
            r.bits() == clamped_bits(value),
            r.wf(),
    {
        Self::clamped(value)
    }

    /// Another name of [`Self::clamped`].
    pub fn from_clamped(value: u32) -> (r: Self)
        ensures
            r == UnitInterval::of_bits(clamped_bits(value)),
            r.bits() == clamped_bits(value),
            r.wf(),
    {
        Self::clamped(value)
    }

    /// Whether the scalar is zero, of either sign.
    pub fn is_zero(self) -> (r: bool)
        ensures
            r == (self.key() == 0),
    {
        self.bits == 0 || self.bits == scalar::SIGN_BIT
    }

    /// Whether the scalar is one.
    pub fn is_one(self) -> (r: bool)
        ensures
            r == (self.bits() == scalar::ONE_BITS),
    {
        self.bits == scalar::ONE_BITS
    }

    /// Whether the scalar is finite and in the unit interval.
    pub fn validate(&self) -> (r: bool)
        ensures
            r == self.wf(),
            r,
    {
        proof {
            use_type_invariant(&*self);
        }
        scalar::in_unit(self.bits)
    }

    /// Whether this scalar is less than the other.
    pub fn less(self, other: Self) -> (r: bool)
        ensures
            r == (self.key() < other.key()),
    {
        proof {
            use_type_invariant(&self);
            use_type_invariant(&other);
        }
        scalar::less(self.bits, other.bits)
    }

    /// A valid value lies between zero and one.
    pub proof fn lemma_wf(self)
        ensures
            self.wf() <==> scalar::spec_in_unit(self.bits()),
    {
    }

    /// The bits of the two named values.
    pub proof fn lemma_named()
        ensures
            UnitInterval::spec_zero().bits() == 0,
            UnitInterval::spec_one().bits() == scalar::ONE_BITS,
            UnitInterval::spec_zero().wf(),
            UnitInterval::spec_one().wf(),
    {
    }

    /// The bits of a value given by its bits.
    pub proof fn lemma_of_bits(bits: u32)
        ensures
            UnitInterval::of_bits(bits).bits() == bits,
    {
    }

    /// Values are equal when their bits are.
    pub proof fn lemma_same_bits(self, other: Self)
        ensures
            self.bits() == other.bits() <==> self == other,
            UnitInterval::of_bits(self.bits()) == self,
    {
    }

    /// Clamping a scalar that already lies in the unit interval, and has no
    /// sign, keeps it; clamping twice is clamping once.
    pub proof fn clamping_is_idempotent(value: u32)
        ensures
            clamped_bits(clamped_bits(value)) == clamped_bits(value),
            scalar::spec_in_unit(clamped_bits(value)),
            scalar::spec_in_unit(value) && !scalar::spec_is_negative(value) ==> clamped_bits(value)
                == value,
    {
    }
}

impl Default for UnitInterval {
    fn default() -> (r: Self)
        ensures
            r == UnitInterval::spec_zero(),
            r.bits() == 0,
    {
        Self::zero()
    }
}

impl PartialEq for UnitInterval {
    fn eq(&self, other: &Self) -> (r: bool) {
        proof {
            use_type_invariant(&*self);
            use_type_invariant(&*other);
        }
        scalar::same(self.bits, other.bits)
    }
}

impl vstd::std_specs::cmp::PartialEqSpecImpl for UnitInterval {
    open spec fn obeys_eq_spec() -> bool {
        true
    }

    open spec fn eq_spec(&self, other: &Self) -> bool {
        self.key() == other.key()
    }
}

/// A bounded score emitted by an analysis model.
#[derive(Clone, Copy, Debug)]
pub struct ModelScore {
    bits: u32,
}

impl ModelScore {
    /// The bits of the wrapped scalar.
    pub closed spec fn bits(self) -> u32 {
        self.bits
    }

    /// An integer that orders these values as their scalars.
    pub open spec fn key(self) -> int {
        scalar::key(self.bits())
    }

    /// Whether the scalar lies in the unit interval.
    #[verifier::type_invariant]
    pub closed spec fn wf(self) -> bool {
        scalar::spec_in_unit(self.bits)
    }

    /// The value whose scalar has the bits.
    pub closed spec fn of_bits(bits: u32) -> ModelScore {
        ModelScore { bits }
    }

    /// The value zero.
    pub closed spec fn spec_zero() -> ModelScore {
        ModelScore { bits: 0 }
    }

    /// The value one.
    pub closed spec fn spec_one() -> ModelScore {
        ModelScore { bits: scalar::ONE_BITS }
    }

    /// The value zero.
    #[verifier::when_used_as_spec(spec_zero)]
    pub fn zero() -> (r: Self)
        ensures
            r == ModelScore::spec_zero(),
            r.bits() == 0,
            r.wf(),
    {
        ModelScore { bits: 0 }
    }

    /// The value one.
    #[verifier::when_used_as_spec(spec_one)]
    pub fn one() -> (r: Self)
        ensures
            r == ModelScore::spec_one(),
            r.bits() == scalar::ONE_BITS,
            r.wf(),
    {
        ModelScore { bits: scalar::ONE_BITS }
    }

    /// Creates a value only when the scalar is finite and in the unit interval.
    pub fn new(value: u32) -> (r: Option<Self>)
        ensures
            r is Some <==> scalar::spec_in_unit(value),
            r matches Some(v) ==> v == ModelScore::of_bits(value) && v.bits() == value && v.wf(),
    {
        if scalar::in_unit(value) {
            Some(ModelScore { bits: value })
        } else {
            None
        }
    }

    /// Another name of [`Self::new`].
    pub fn try_new(value: u32) -> (r: Option<Self>)
        ensures
            r is Some <==> scalar::spec_in_unit(value),
            r matches Some(v) ==> v == ModelScore::of_bits(value) && v.bits() == value && v.wf(),
    {
        Self::new(value)
    }

    /// Returns the wrapped scalar.
    pub fn get(self) -> (r: u32)
        ensures
            r == self.bits(),
            scalar::spec_in_unit(r),
    {
        proof {
            use_type_invariant(&self);
        }
        self.bits
    }

    /// Explicitly clamps an arbitrary scalar into the unit interval.
    ///
    /// What is not a number, and every scalar with a sign, is mapped to zero;
    /// one and above, infinity among them, to one.
    pub fn clamped(value: u32) -> (r: Self)
        ensures
            r == ModelScore::of_bits(clamped_bits(value)),
            r.bits() == clamped_bits(value),
            r.wf(),
    {
        let bits: u32 = clamp_bits(value);
        ModelScore { bits }
    }

    /// Another name of [`Self::clamped`].
    pub fn clamp(value: u32) -> (r: Self)
        ensures
            r == ModelScore::of_bits(clamped_bits(value)),
            r.bits() == clamped_bits(value),
            r.wf(),
    {
        Self::clamped(value)
    }

    /// Another name of [`Self::clamped`].
    pub fn new_clamped(value: u32) -> (r: Self)
        ensures
            r == ModelScore::of_bits(clamped_bits(value)),
            r.bits() == clamped_bits(value),
            r.wf(),
    {
        Self::clamped(value)
    }

    /// Another name of [`Self::clamped`].
    pub fn from_clamped(value: u32) -> (r: Self)
        ensures
            r == ModelScore::of_bits(clamped_bits(value)),
            r.bits() == clamped_bits(value),
            r.wf(),
    {
        Self::clamped(value)
    }

    /// Whether the scalar is zero, of either sign.
    pub fn is_zero(self) -> (r: bool)
        ensures
            r == (self.key() == 0),
    {
        self.bits == 0 || self.bits == scalar::SIGN_BIT
    }

    /// Whether the scalar is one.
    pub fn is_one(self) -> (r: bool)
        ensures
            r == (self.bits() == scalar::ONE_BITS),
    {
        self.bits == scalar::ONE_BITS
    }

    /// Whether the scalar is finite and in the unit interval.
    pub fn validate(&self) -> (r: bool)
        ensures
            r == self.wf(),
            r,
    {
        proof {
            use_type_invariant(&*self);
        }
        scalar::in_unit(self.bits)
    }

    /// Whether this scalar is less than the other.
    pub fn less(self, other: Self) -> (r: bool)
        ensures
            r == (self.key() < other.key()),
    {
        proof {
            use_type_invariant(&self);
            use_type_invariant(&other);
        }
        scalar::less(self.bits, other.bits)
    }

    /// A valid value lies between zero and one.
    pub proof fn lemma_wf(self)
        ensures
            self.wf() <==> scalar::spec_in_unit(self.bits()),
    {
    }

    /// The bits of the two named values.
    pub proof fn lemma_named()
        ensures
            ModelScore::spec_zero().bits() == 0,
            ModelScore::spec_one().bits() == scalar::ONE_BITS,
            ModelScore::spec_zero().wf(),
            ModelScore::spec_one().wf(),
    {
    }

    /// The bits of a value given by its bits.
    pub proof fn lemma_of_bits(bits: u32)
        ensures
            ModelScore::of_bits(bits).bits() == bits,
    {
    }

    /// Values are equal when their bits are.
    pub proof fn lemma_same_bits(self, other: Self)
        ensures
            self.bits() == other.bits() <==> self == other,
            ModelScore::of_bits(self.bits()) == self,
    {
    }

    /// Clamping a scalar that already lies in the unit interval, and has no
    /// sign, keeps it; clamping twice is clamping once.
    pub proof fn clamping_is_idempotent(value: u32)
        ensures
            clamped_bits(clamped_bits(value)) == clamped_bits(value),
            scalar::spec_in_unit(clamped_bits(value)),
            scalar::spec_in_unit(value) && !scalar::spec_is_negative(value) ==> clamped_bits(value)
                == value,
    {
    }
}

impl Default for ModelScore {
    fn default() -> (r: Self)
        ensures
            r == ModelScore::spec_zero(),
            r.bits() == 0,
    {
        Self::zero()
    }
}

impl PartialEq for ModelScore {
    fn eq(&self, other: &Self) -> (r: bool) {
        proof {
            use_type_invariant(&*self);
            use_type_invariant(&*other);
        }
        scalar::same(self.bits, other.bits)
    }
}

impl vstd::std_specs::cmp::PartialEqSpecImpl for ModelScore {
    open spec fn obeys_eq_spec() -> bool {
        true
    }

    open spec fn eq_spec(&self, other: &Self) -> bool {
        self.key() == other.key()
    }
}

/// Confidence in an analysis observation.
#[derive(Clone, Copy, Debug)]
pub struct Confidence {
    bits: u32,
}

impl Confidence {
    /// The bits of the wrapped scalar.
    pub closed spec fn bits(self) -> u32 {
        self.bits
    }

    /// An integer that orders these values as their scalars.
    pub open spec fn key(self) -> int {
        scalar::key(self.bits())
    }

    /// Whether the scalar lies in the unit interval.
    #[verifier::type_invariant]
    pub closed spec fn wf(self) -> bool {
        scalar::spec_in_unit(self.bits)
    }

    /// The value whose scalar has the bits.
    pub closed spec fn of_bits(bits: u32) -> Confidence {
        Confidence { bits }
    }

    /// The value zero.
    pub closed spec fn spec_zero() -> Confidence {
        Confidence { bits: 0 }
    }

    /// The value one.
    pub closed spec fn spec_one() -> Confidence {
        Confidence { bits: scalar::ONE_BITS }
    }

    /// The value zero.
    #[verifier::when_used_as_spec(spec_zero)]
    pub fn zero() -> (r: Self)
        ensures
            r == Confidence::spec_zero(),
            r.bits() == 0,
            r.wf(),
    {
        Confidence { bits: 0 }
    }

    /// The value one.
    #[verifier::when_used_as_spec(spec_one)]
    pub fn one() -> (r: Self)
        ensures
            r == Confidence::spec_one(),
            r.bits() == scalar::ONE_BITS,
            r.wf(),
    {
        Confidence { bits: scalar::ONE_BITS }
    }

    /// Creates a value only when the scalar is finite and in the unit interval.
    pub fn new(value: u32) -> (r: Option<Self>)
        ensures
            r is Some <==> scalar::spec_in_unit(value),
            r matches Some(v) ==> v == Confidence::of_bits(value) && v.bits() == value && v.wf(),
    {
        if scalar::in_unit(value) {
            Some(Confidence { bits: value })
        } else {
            None
        }
    }

    /// Another name of [`Self::new`].
    pub fn try_new(value: u32) -> (r: Option<Self>)
        ensures
            r is Some <==> scalar::spec_in_unit(value),
            r matches Some(v) ==> v == Confidence::of_bits(value) && v.bits() == value && v.wf(),
    {
        Self::new(value)
    }

    /// Returns the wrapped scalar.
    pub fn get(self) -> (r: u32)
        ensures
            r == self.bits(),
            scalar::spec_in_unit(r),
    {
        proof {
            use_type_invariant(&self);
        }
        self.bits
    }

    /// Explicitly clamps an arbitrary scalar into the unit interval.
    ///
    /// What is not a number, and every scalar with a sign, is mapped to zero;
    /// one and above, infinity among them, to one.
    pub fn clamped(value: u32) -> (r: Self)
        ensures
            r == Confidence::of_bits(clamped_bits(value)),
            r.bits() == clamped_bits(value),
            r.wf(),
    {
        let bits: u32 = clamp_bits(value);
        Confidence { bits }
    }

    /// Another name of [`Self::clamped`].
    pub fn clamp(value: u32) -> (r: Self)
        ensures
            r == Confidence::of_bits(clamped_bits(value)),
            r.bits() == clamped_bits(value),
            r.wf(),
    {
        Self::clamped(value)
    }

    /// Another name of [`Self::clamped`].
    pub fn new_clamped(value: u32) -> (r: Self)
        ensures
            r == Confidence::of_bits(clamped_bits(value)),
            r.bits() == clamped_bits(value),
            r.wf(),
    {
        Self::clamped(value)
    }

    /// Another name of [`Self::clamped`].
    pub fn from_clamped(value: u32) -> (r: Self)
        ensures
            r == Confidence::of_bits(clamped_bits(value)),
            r.bits() == clamped_bits(value),
            r.wf(),
    {
        Self::clamped(value)
    }

    /// Whether the scalar is zero, of either sign.
    pub fn is_zero(self) -> (r: bool)
        ensures
            r == (self.key() == 0),
    {
        self.bits == 0 || self.bits == scalar::SIGN_BIT
    }

    /// Whether the scalar is one.
    pub fn is_one(self) -> (r: bool)
        ensures
            r == (self.bits() == scalar::ONE_BITS),
    {
        self.bits == scalar::ONE_BITS
    }

    /// Whether the scalar is finite and in the unit interval.
    pub fn validate(&self) -> (r: bool)
        ensures
            r == self.wf(),
            r,
    {
        proof {
            use_type_invariant(&*self);
        }
        scalar::in_unit(self.bits)
    }

    /// Whether this scalar is less than the other.
    pub fn less(self, other: Self) -> (r: bool)
        ensures
            r == (self.key() < other.key()),
    {
        proof {
            use_type_invariant(&self);
            use_type_invariant(&other);
        }
        scalar::less(self.bits, other.bits)
    }

    /// A valid value lies between zero and one.
    pub proof fn lemma_wf(self)
        ensures
            self.wf() <==> scalar::spec_in_unit(self.bits()),
    {
    }

    /// The bits of the two named values.
    pub proof fn lemma_named()
        ensures
            Confidence::spec_zero().bits() == 0,
            Confidence::spec_one().bits() == scalar::ONE_BITS,
            Confidence::spec_zero().wf(),
            Confidence::spec_one().wf(),
    {
    }

    /// The bits of a value given by its bits.
    pub proof fn lemma_of_bits(bits: u32)
        ensures
            Confidence::of_bits(bits).bits() == bits,
    {
    }

    /// Values are equal when their bits are.
    pub proof fn lemma_same_bits(self, other: Self)
        ensures
            self.bits() == other.bits() <==> self == other,
            Confidence::of_bits(self.bits()) == self,
    {
    }

    /// Clamping a scalar that already lies in the unit interval, and has no
    /// sign, keeps it; clamping twice is clamping once.
    pub proof fn clamping_is_idempotent(value: u32)
        ensures
            clamped_bits(clamped_bits(value)) == clamped_bits(value),
            scalar::spec_in_unit(clamped_bits(value)),
            scalar::spec_in_unit(value) && !scalar::spec_is_negative(value) ==> clamped_bits(value)
                == value,
    {
    }
}

impl Default for Confidence {
    fn default() -> (r: Self)
        ensures
            r == Confidence::spec_zero(),
            r.bits() == 0,
    {
        Self::zero()
    }
}

impl PartialEq for Confidence {
    fn eq(&self, other: &Self) -> (r: bool) {
        proof {
            use_type_invariant(&*self);
            use_type_invariant(&*other);
        }
        scalar::same(self.bits, other.bits)
    }
}

impl vstd::std_specs::cmp::PartialEqSpecImpl for Confidence {
    open spec fn obeys_eq_spec() -> bool {
        true
    }

    open spec fn eq_spec(&self, other: &Self) -> bool {
        self.key() == other.key()
    }
}

/// Observed support for an analysis hypothesis.
#[derive(Clone, Copy, Debug)]
pub struct Support {
    bits: u32,
}

impl Support {
    /// The bits of the wrapped scalar.
    pub closed spec fn bits(self) -> u32 {
        self.bits
    }

    /// An integer that orders these values as their scalars.
    pub open spec fn key(self) -> int {
        scalar::key(self.bits())
    }

    /// Whether the scalar lies in the unit interval.
    #[verifier::type_invariant]
    pub closed spec fn wf(self) -> bool {
        scalar::spec_in_unit(self.bits)
    }

    /// The value whose scalar has the bits.
    pub closed spec fn of_bits(bits: u32) -> Support {
        Support { bits }
    }

    /// The value zero.
    pub closed spec fn spec_zero() -> Support {
        Support { bits: 0 }
    }

    /// The value one.
    pub closed spec fn spec_one() -> Support {
        Support { bits: scalar::ONE_BITS }
    }

    /// The value zero.
    #[verifier::when_used_as_spec(spec_zero)]
    pub fn zero() -> (r: Self)
        ensures
            r == Support::spec_zero(),
            r.bits() == 0,
            r.wf(),
    {
        Support { bits: 0 }
    }

    /// The value one.
    #[verifier::when_used_as_spec(spec_one)]
    pub fn one() -> (r: Self)
        ensures
            r == Support::spec_one(),
            r.bits() == scalar::ONE_BITS,
            r.wf(),
    {
        Support { bits: scalar::ONE_BITS }
    }

    /// Creates a value only when the scalar is finite and in the unit interval.
    pub fn new(value: u32) -> (r: Option<Self>)
        ensures
            r is Some <==> scalar::spec_in_unit(value),
            r matches Some(v) ==> v == Support::of_bits(value) && v.bits() == value && v.wf(),
    {
        if scalar::in_unit(value) {
            Some(Support { bits: value })
        } else {
            None
        }
    }

    /// Another name of [`Self::new`].
    pub fn try_new(value: u32) -> (r: Option<Self>)
        ensures
            r is Some <==> scalar::spec_in_unit(value),
            r matches Some(v) ==> v == Support::of_bits(value) && v.bits() == value && v.wf(),
    {
        Self::new(value)
    }

    /// Returns the wrapped scalar.
    pub fn get(self) -> (r: u32)
        ensures
            r == self.bits(),
            scalar::spec_in_unit(r),
    {
        proof {
            use_type_invariant(&self);
        }
        self.bits
    }

    /// Explicitly clamps an arbitrary scalar into the unit interval.
    ///
    /// What is not a number, and every scalar with a sign, is mapped to zero;
    /// one and above, infinity among them, to one.
    pub fn clamped(value: u32) -> (r: Self)
        ensures
            r == Support::of_bits(clamped_bits(value)),
            r.bits() == clamped_bits(value),
            r.wf(),
    {
        let bits: u32 = clamp_bits(value);
        Support { bits }
    }

    /// Another name of [`Self::clamped`].
    pub fn clamp(value: u32) -> (r: Self)
        ensures
            r == Support::of_bits(clamped_bits(value)),
            r.bits() == clamped_bits(value),
            r.wf(),
    {
        Self::clamped(value)
    }

    /// Another name of [`Self::clamped`].
    pub fn new_clamped(value: u32) -> (r: Self)
        ensures
            r == Support::of_bits(clamped_bits(value)),
            r.bits() == clamped_bits(value),
            r.wf(),
    {
        Self::clamped(value)
    }

    /// Another name of [`Self::clamped`].
    pub fn from_clamped(value: u32) -> (r: Self)
        ensures
            r == Support::of_bits(clamped_bits(value)),
            r.bits() == clamped_bits(value),
            r.wf(),
    {
        Self::clamped(value)
    }

    /// Whether the scalar is zero, of either sign.
    pub fn is_zero(self) -> (r: bool)
        ensures
            r == (self.key() == 0),
    {
        self.bits == 0 || self.bits == scalar::SIGN_BIT
    }

    /// Whether the scalar is one.
    pub fn is_one(self) -> (r: bool)
        ensures
            r == (self.bits() == scalar::ONE_BITS),
    {
        self.bits == scalar::ONE_BITS
    }

    /// Whether the scalar is finite and in the unit interval.
    pub fn validate(&self) -> (r: bool)
        ensures
            r == self.wf(),
            r,
    {
        proof {
            use_type_invariant(&*self);
        }
        scalar::in_unit(self.bits)
    }

    /// Whether this scalar is less than the other.
    pub fn less(self, other: Self) -> (r: bool)
        ensures
            r == (self.key() < other.key()),
    {
        proof {
            use_type_invariant(&self);
            use_type_invariant(&other);
        }
        scalar::less(self.bits, other.bits)
    }

    /// A valid value lies between zero and one.
    pub proof fn lemma_wf(self)
        ensures
            self.wf() <==> scalar::spec_in_unit(self.bits()),
    {
    }

    /// The bits of the two named values.
    pub proof fn lemma_named()
        ensures
            Support::spec_zero().bits() == 0,
            Support::spec_one().bits() == scalar::ONE_BITS,
            Support::spec_zero().wf(),
            Support::spec_one().wf(),
    {
    }

    /// The bits of a value given by its bits.
    pub proof fn lemma_of_bits(bits: u32)
        ensures
            Support::of_bits(bits).bits() == bits,
    {
    }

    /// Values are equal when their bits are.
    pub proof fn lemma_same_bits(self, other: Self)
        ensures
            self.bits() == other.bits() <==> self == other,
            Support::of_bits(self.bits()) == self,
    {
    }

    /// Clamping a scalar that already lies in the unit interval, and has no
    /// sign, keeps it; clamping twice is clamping once.
    pub proof fn clamping_is_idempotent(value: u32)
        ensures
            clamped_bits(clamped_bits(value)) == clamped_bits(value),
            scalar::spec_in_unit(clamped_bits(value)),
            scalar::spec_in_unit(value) && !scalar::spec_is_negative(value) ==> clamped_bits(value)
                == value,
    {
    }
}

impl Default for Support {
    fn default() -> (r: Self)
        ensures
            r == Support::spec_zero(),
            r.bits() == 0,
    {
        Self::zero()
    }
}

impl PartialEq for Support {
    fn eq(&self, other: &Self) -> (r: bool) {
        proof {
            use_type_invariant(&*self);
            use_type_invariant(&*other);
        }
        scalar::same(self.bits, other.bits)
    }
}

impl vstd::std_specs::cmp::PartialEqSpecImpl for Support {
    open spec fn obeys_eq_spec() -> bool {
        true
    }

    open spec fn eq_spec(&self, other: &Self) -> bool {
        self.key() == other.key()
    }
}

impl From<Confidence> for UnitInterval {
    fn from(value: Confidence) -> (r: UnitInterval) {
        proof {
            use_type_invariant(&value);
        }
        UnitInterval { bits: value.bits }
    }
}

impl vstd::std_specs::convert::FromSpecImpl<Confidence> for UnitInterval {
    open spec fn obeys_from_spec() -> bool {
        true
    }

    closed spec fn from_spec(value: Confidence) -> UnitInterval {
        UnitInterval { bits: value.bits }
    }
}

/// A confidence becomes a unit interval with the same scalar.
pub proof fn confidence_keeps_its_scalar(value: Confidence)
    ensures
        <UnitInterval as vstd::std_specs::convert::FromSpec<Confidence>>::from_spec(value).bits()
            == value.bits(),
{
}

/// Clamping keeps what lies between zero and one, takes everything above one, infinity as
/// well, to one, and what has a sign or is no number to zero.
pub proof fn clamping_goes_to_the_nearest_end(bits: u32)
    ensures
        bits <= 0x3F80_0000 ==> clamped_bits(bits) == bits,
        0x3F80_0000 < bits <= 0x7F80_0000 ==> clamped_bits(bits) == 0x3F80_0000,
        0x7F80_0000 < bits ==> clamped_bits(bits) == 0,
{
}

} // verus!
