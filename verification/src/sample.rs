//! Measurements: finite binary64 numbers held by their bit pattern.

use vstd::prelude::*;

verus! {

/// Mask of the magnitude (exponent and fraction) of a binary64 bit pattern.
pub const MAGNITUDE_MASK: u64 = 0x7fff_ffff_ffff_ffff;

/// Exponent field of a binary64 bit pattern whose value is infinite or not a
/// number.
pub const EXPONENT_ALL_ONES: u64 = 0x7ff;

/// Bit pattern of the number one.
pub const ONE_BITS: u64 = 0x3ff0_0000_0000_0000;

/// Whether `bits` is the pattern of a finite number: its exponent field is
/// not all ones.
pub open spec fn finite_bits(bits: u64) -> bool {
    (bits >> 52) & EXPONENT_ALL_ONES != EXPONENT_ALL_ONES
}

/// The integer by which a bit pattern is ordered: the magnitude bits, negated
/// when the sign bit is set.
///
/// On the patterns of finite numbers this key is strictly monotone in the
/// number, and both zeros have key `0`.
pub open spec fn key_of_bits(bits: u64) -> int {
    if bits >> 63 == 0 {
        (bits & MAGNITUDE_MASK) as int
    } else {
        -((bits & MAGNITUDE_MASK) as int)
    }
}

/// One measurement: a finite binary64 number.
#[derive(Clone, Copy, Debug, PartialEq, Eq, Structural)]
pub struct Sample {
    bits: u64,
}

impl Sample {
    #[verifier::type_invariant]
    spec fn well_formed(self) -> bool {
        finite_bits(self.bits)
    }

    /// The bit pattern of the measurement.
    pub closed spec fn bits(self) -> u64 {
        self.bits
    }

    /// The integer by which the measurement is ordered.
    pub open spec fn key(self) -> int {
        key_of_bits(self.bits())
    }

    /// Two measurements with the same bit pattern are the same measurement.
    pub proof fn lemma_bits_determine(a: Sample, b: Sample)
        requires
            a.bits() == b.bits(),
        ensures
            a == b,
    {
    }

    /// The measurement with the given bit pattern, or `None` where the
    /// pattern is that of an infinity or of a NaN.
    pub fn from_bits(bits: u64) -> (sample: Option<Sample>)
        ensures
            sample is Some <==> finite_bits(bits),
            sample matches Some(s) ==> s.bits() == bits,
    {
        if (bits >> 52) & EXPONENT_ALL_ONES != EXPONENT_ALL_ONES {
            Some(Sample { bits })
        } else {
            None
        }
    }

    /// The measurement one.
    pub fn one() -> (sample: Sample)
        ensures
            sample.bits() == ONE_BITS,
    {
        assert(finite_bits(ONE_BITS)) by (bit_vector);
        Sample { bits: ONE_BITS }
    }

    /// The bit pattern of the measurement, which is that of a finite number.
    pub fn to_bits(&self) -> (bits: u64)
        ensures
            bits == self.bits(),
            finite_bits(bits),
    {
        proof {
            use_type_invariant(self);
        }
        self.bits
    }

    /// The integer by which the measurement is ordered.
    pub fn order_key(&self) -> (key: i64)
        ensures
            key == self.key(),
    {
        let bits: u64 = self.bits;
        let magnitude: u64 = bits & MAGNITUDE_MASK;
        assert(magnitude <= 0x7fff_ffff_ffff_ffff) by (bit_vector)
            requires
                magnitude == bits & MAGNITUDE_MASK,
        ;
        if bits >> 63 == 0 {
            magnitude as i64
        } else {
            -(magnitude as i64)
        }
    }

    /// Whether the measurement is zero, of either sign.
    pub fn is_zero(&self) -> (zero: bool)
        ensures
            zero == (self.key() == 0),
            zero == (self.bits() & MAGNITUDE_MASK == 0),
    {
        proof {
            lemma_key_injective(self.bits, 0);
            assert(0u64 & MAGNITUDE_MASK == 0) by (bit_vector);
            assert(0u64 >> 63 == 0) by (bit_vector);
        }
        self.order_key() == 0
    }

    /// Whether `self` is ordered before `other`.
    pub fn less_than(&self, other: &Sample) -> (less: bool)
        ensures
            less == (self.key() < other.key()),
    {
        self.order_key() < other.order_key()
    }
}

/// Two bit patterns have the same key exactly when they are equal or both
/// are a zero.
pub proof fn lemma_key_injective(a: u64, b: u64)
    ensures
        key_of_bits(a) == key_of_bits(b) <==> (a == b || (a & MAGNITUDE_MASK == 0 && b
            & MAGNITUDE_MASK == 0)),
{
    assert((a >> 63 == 0 || a >> 63 == 1) && (b >> 63 == 0 || b >> 63 == 1)) by (bit_vector);
    assert((a >> 63 == b >> 63 && a & MAGNITUDE_MASK == b & MAGNITUDE_MASK) ==> a == b)
        by (bit_vector);
}

} // verus!
