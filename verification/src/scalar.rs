//! Single and double precision numbers held by their bits.
//!
//! A binary32 pattern is a sign bit above thirty-one bits of magnitude, and the
//! magnitude orders numbers of one sign. That is all the code needs of a
//! number: which of two is smaller, and whether it is a number at all.

use vstd::arithmetic::power2::{
    lemma2_to64, lemma_pow2_adds, lemma_pow2_pos, lemma_pow2_strictly_increases, pow2,
};
use vstd::prelude::*;

verus! {

/// The magnitude of positive infinity; every larger magnitude is a NaN.
pub const INFINITE_MAGNITUDE: u32 = 0x7f80_0000;

/// The weight of the sign bit.
pub const SIGN: u32 = 0x8000_0000;

/// A binary32 number, as `f32::to_bits` gives it.
#[derive(Clone, Copy, Debug, PartialEq, Eq, Structural)]
pub struct Scalar {
    pub bits: u32,
}

/// A binary64 number, as `f64::to_bits` gives it: a sign bit above sixty-three bits
/// of magnitude.
#[derive(Clone, Copy, Debug, PartialEq, Eq, Structural)]
pub struct Wide {
    pub bits: u64,
}

/// The bits of `0.0`.
pub const ZERO: u32 = 0;

/// The bits of `1.0`.
pub const ONE: u32 = 0x3f80_0000;

/// The bits of `0.5`.
pub const HALF: u32 = 0x3f00_0000;

/// The bits of `2.0`.
pub const TWO: u32 = 0x4000_0000;

/// The magnitude of positive infinity in double precision.
pub const INFINITE_WIDE: u64 = 0x7ff0_0000_0000_0000;

/// The weight of the sign bit in double precision.
pub const WIDE_SIGN: u64 = 0x8000_0000_0000_0000;

/// The bits of `0.0` in double precision.
pub const WIDE_ZERO: u64 = 0;

/// The bits of `0.5` in double precision.
pub const WIDE_HALF: u64 = 0x3fe0_0000_0000_0000;

/// The bits of `1.0` in double precision.
pub const WIDE_ONE: u64 = 0x3ff0_0000_0000_0000;

impl Wide {
    pub open spec fn spec_magnitude(self) -> int {
        if self.bits >= WIDE_SIGN {
            self.bits - WIDE_SIGN
        } else {
            self.bits as int
        }
    }

    pub open spec fn spec_is_nan(self) -> bool {
        self.spec_magnitude() > INFINITE_WIDE
    }

    /// Where the number stands among all numbers; both zeros stand at 0.
    pub open spec fn rank(self) -> int {
        if self.bits >= WIDE_SIGN {
            -self.spec_magnitude()
        } else {
            self.spec_magnitude()
        }
    }

    /// `self < other` as numbers.
    pub open spec fn below(self, other: Wide) -> bool {
        !self.spec_is_nan() && !other.spec_is_nan() && self.rank() < other.rank()
    }

    pub open spec fn spec_clamp(self, lo: Wide, hi: Wide) -> Wide {
        if self.below(lo) {
            lo
        } else if hi.below(self) {
            hi
        } else {
            self
        }
    }

    /// The magnitude, and whether the sign bit is set.
    fn magnitude(self) -> (r: (u64, bool))
        ensures
            r.0 == self.spec_magnitude(),
            r.1 == (self.bits >= WIDE_SIGN),
    {
        if self.bits >= WIDE_SIGN {
            (self.bits - WIDE_SIGN, true)
        } else {
            (self.bits, false)
        }
    }

    pub fn lt(self, other: Wide) -> (r: bool)
        ensures
            r == self.below(other),
    {
        let (a, a_negative): (u64, bool) = self.magnitude();
        let (b, b_negative): (u64, bool) = other.magnitude();
        if a > INFINITE_WIDE || b > INFINITE_WIDE {
            return false;
        }
        match (a_negative, b_negative) {
            (false, false) => a < b,
            (true, true) => b < a,
            (true, false) => a > 0 || b > 0,
            (false, true) => false,
        }
    }

    /// The nearest number in `[lo, hi]`; a NaN stays a NaN.
    pub fn clamp(self, lo: Wide, hi: Wide) -> (r: Wide)
        ensures
            r == self.spec_clamp(lo, hi),
    {
        if self.lt(lo) {
            lo
        } else if hi.lt(self) {
            hi
        } else {
            self
        }
    }
}

impl Scalar {
    pub open spec fn spec_magnitude(self) -> int {
        if self.bits >= SIGN {
            self.bits - SIGN
        } else {
            self.bits as int
        }
    }

    pub open spec fn spec_is_nan(self) -> bool {
        self.spec_magnitude() > INFINITE_MAGNITUDE
    }

    pub open spec fn spec_is_finite(self) -> bool {
        self.spec_magnitude() < INFINITE_MAGNITUDE
    }

    /// Where the number stands among all numbers; both zeros stand at 0.
    pub open spec fn rank(self) -> int {
        if self.bits >= SIGN {
            -self.spec_magnitude()
        } else {
            self.spec_magnitude()
        }
    }

    /// `self < other` as numbers.
    pub open spec fn below(self, other: Scalar) -> bool {
        !self.spec_is_nan() && !other.spec_is_nan() && self.rank() < other.rank()
    }

    /// `self <= other` as numbers.
    pub open spec fn at_most(self, other: Scalar) -> bool {
        !self.spec_is_nan() && !other.spec_is_nan() && self.rank() <= other.rank()
    }

    /// `self == other` as numbers: a NaN equals nothing, the zeros are equal.
    pub open spec fn equals(self, other: Scalar) -> bool {
        !self.spec_is_nan() && !other.spec_is_nan() && self.rank() == other.rank()
    }

    pub open spec fn spec_clamp(self, lo: Scalar, hi: Scalar) -> Scalar {
        if self.below(lo) {
            lo
        } else if hi.below(self) {
            hi
        } else {
            self
        }
    }

    pub open spec fn spec_min(self, other: Scalar) -> Scalar {
        if self.spec_is_nan() || other.below(self) {
            other
        } else {
            self
        }
    }

    pub open spec fn spec_max(self, other: Scalar) -> Scalar {
        if self.spec_is_nan() || self.below(other) {
            other
        } else {
            self
        }
    }

    pub open spec fn spec_negated(self) -> Scalar {
        if self.bits >= SIGN {
            Scalar { bits: (self.bits - SIGN) as u32 }
        } else {
            Scalar { bits: (self.bits + SIGN) as u32 }
        }
    }

    fn magnitude(self) -> (r: u32)
        ensures
            r == self.spec_magnitude(),
    {
        if self.bits >= SIGN {
            self.bits - SIGN
        } else {
            self.bits
        }
    }

    fn signed_rank(self) -> (r: i64)
        ensures
            r == self.rank(),
    {
        let m: i64 = self.magnitude() as i64;
        if self.bits >= SIGN {
            -m
        } else {
            m
        }
    }

    pub fn is_nan(self) -> (r: bool)
        ensures
            r == self.spec_is_nan(),
    {
        self.magnitude() > INFINITE_MAGNITUDE
    }

    pub fn is_finite(self) -> (r: bool)
        ensures
            r == self.spec_is_finite(),
    {
        self.magnitude() < INFINITE_MAGNITUDE
    }

    pub fn lt(self, other: Scalar) -> (r: bool)
        ensures
            r == self.below(other),
    {
        !self.is_nan() && !other.is_nan() && self.signed_rank() < other.signed_rank()
    }

    pub fn le(self, other: Scalar) -> (r: bool)
        ensures
            r == self.at_most(other),
    {
        !self.is_nan() && !other.is_nan() && self.signed_rank() <= other.signed_rank()
    }

    pub fn eq_number(self, other: Scalar) -> (r: bool)
        ensures
            r == self.equals(other),
    {
        !self.is_nan() && !other.is_nan() && self.signed_rank() == other.signed_rank()
    }

    /// The nearest number in `[lo, hi]`; a NaN stays a NaN.
    pub fn clamp(self, lo: Scalar, hi: Scalar) -> (r: Scalar)
        requires
            lo.at_most(hi),
        ensures
            r == self.spec_clamp(lo, hi),
    {
        if self.lt(lo) {
            lo
        } else if hi.lt(self) {
            hi
        } else {
            self
        }
    }

    /// The smaller of the two; a NaN gives way to the other.
    pub fn min(self, other: Scalar) -> (r: Scalar)
        ensures
            r == self.spec_min(other),
    {
        if self.is_nan() || other.lt(self) {
            other
        } else {
            self
        }
    }

    /// The larger of the two; a NaN gives way to the other.
    pub fn max(self, other: Scalar) -> (r: Scalar)
        ensures
            r == self.spec_max(other),
    {
        if self.is_nan() || self.lt(other) {
            other
        } else {
            self
        }
    }

    /// The same magnitude with the other sign.
    pub fn negated(self) -> (r: Scalar)
        ensures
            r == self.spec_negated(),
    {
        if self.bits >= SIGN {
            Scalar { bits: self.bits - SIGN }
        } else {
            Scalar { bits: self.bits + SIGN }
        }
    }
}

/// The bits of a number below its exponent.
pub const FRACTION: u32 = 0x0080_0000;

/// A magnitude counted in the smallest one above nought.
pub open spec fn units_of(magnitude: int) -> int {
    let exponent = magnitude / FRACTION as int;
    let fraction = magnitude % FRACTION as int;
    if exponent == 0 {
        fraction
    } else {
        (fraction + FRACTION) * pow2((exponent - 1) as nat)
    }
}

impl Scalar {
    /// The number itself, counted in the smallest one above nought.
    pub open spec fn units(self) -> int {
        if self.bits >= SIGN {
            -units_of(self.spec_magnitude())
        } else {
            units_of(self.spec_magnitude())
        }
    }
}

proof fn units_grow(a: int, b: int)
    requires
        0 <= a <= b,
    ensures
        0 <= units_of(a) <= units_of(b),
{
    let (e, f) = (a / FRACTION as int, a % FRACTION as int);
    let (g, h) = (b / FRACTION as int, b % FRACTION as int);
    assert(0 <= e <= g);
    if e > 0 {
        lemma_pow2_pos((e - 1) as nat);
    }
    if g > 0 {
        lemma_pow2_pos((g - 1) as nat);
        assert((h + FRACTION) * pow2((g - 1) as nat) >= FRACTION * pow2((g - 1) as nat)
            >= FRACTION) by (nonlinear_arith)
            requires
                h >= 0,
                pow2((g - 1) as nat) >= 1,
        ;
    }
    if e == g {
        if e > 0 {
            assert(f <= h);
            assert((f + FRACTION) * pow2((e - 1) as nat) <= (h + FRACTION) * pow2(
                (e - 1) as nat,
            )) by (nonlinear_arith)
                requires
                    f <= h,
                    pow2((e - 1) as nat) >= 1,
            ;
            assert(0 <= (f + FRACTION) * pow2((e - 1) as nat)) by (nonlinear_arith)
                requires
                    f >= 0,
                    pow2((e - 1) as nat) >= 1,
            ;
        }
    } else if e > 0 {
        // One exponent more is worth twice any fraction.
        lemma_pow2_adds(1, (e - 1) as nat);
        assert(pow2(1) == 2) by {
            lemma2_to64();
        }
        if e < g - 1 {
            lemma_pow2_strictly_increases(e as nat, (g - 1) as nat);
        }
        assert(pow2(e as nat) == 2 * pow2((e - 1) as nat));
        assert(0 <= (f + FRACTION) * pow2((e - 1) as nat) <= FRACTION * pow2((g - 1) as nat))
            by (nonlinear_arith)
            requires
                0 <= f < FRACTION,
                pow2((e - 1) as nat) >= 1,
                pow2((g - 1) as nat) >= 2 * pow2((e - 1) as nat),
        ;
    }
}

/// What stands higher among all numbers is larger.
pub proof fn order_is_that_of_units(a: Scalar, b: Scalar)
    requires
        a.at_most(b),
    ensures
        a.units() <= b.units(),
{
    let (m, n) = (a.spec_magnitude(), b.spec_magnitude());
    units_grow(0, m);
    units_grow(0, n);
    if m <= n {
        units_grow(m, n);
    } else {
        units_grow(n, m);
    }
}

/// Whatever is clamped into `[lo, hi]` lies in it, unless it is a NaN.
pub proof fn clamped_lies_between(x: Scalar, lo: Scalar, hi: Scalar)
    requires
        lo.at_most(hi),
    ensures
        x.spec_is_nan() ==> x.spec_clamp(lo, hi) == x,
        !x.spec_is_nan() ==> lo.at_most(x.spec_clamp(lo, hi)) && x.spec_clamp(lo, hi).at_most(hi),
{
}

/// Clamping twice into one interval changes nothing the second time.
pub proof fn clamp_is_idempotent(x: Scalar, lo: Scalar, hi: Scalar)
    requires
        lo.at_most(hi),
    ensures
        x.spec_clamp(lo, hi).spec_clamp(lo, hi) == x.spec_clamp(lo, hi),
{
}

} // verus!
