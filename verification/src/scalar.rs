//! Floating-point numbers as bit patterns.
//!
//! A [`Scalar`] is an IEEE-754 binary64 number, a [`Single`] a binary32 number,
//! each held as its bit pattern. The order of binary64 numbers and the
//! operations that only touch the sign are defined here, against the number
//! that a pattern stands for.
use vstd::arithmetic::power2::*;
use vstd::prelude::*;

verus! {

/// The bit that holds the sign.
pub const SIGN_BIT: u64 = 0x8000_0000_0000_0000;

/// The bit pattern of positive infinity.
pub const INFINITY_BITS: u64 = 0x7ff0_0000_0000_0000;

/// The number of fractions under one exponent.
pub const FRACTIONS: u64 = 0x10_0000_0000_0000;

/// An IEEE-754 binary64 number, by its bit pattern.
#[derive(Clone, Copy, Debug, PartialEq, Eq, Structural)]
pub struct Scalar {
    pub bits: u64,
}

/// An IEEE-754 binary32 number, by its bit pattern.
#[derive(Clone, Copy, Debug, PartialEq, Eq, Structural)]
pub struct Single {
    pub bits: u32,
}

/// The magnitude that exponent and fraction `m` stand for, in units of the
/// smallest positive number (two to the power of -1074). Infinity counts as the
/// number that would follow the largest finite one.
pub open spec fn magnitude_of(m: nat) -> nat {
    let exponent = m / (FRACTIONS as nat);
    let fraction = m % (FRACTIONS as nat);
    if exponent == 0 {
        fraction
    } else {
        (FRACTIONS as nat + fraction) * pow2((exponent - 1) as nat)
    }
}

/// A larger exponent and fraction stands for a larger magnitude.
proof fn lemma_magnitude_increases(a: nat, b: nat)
    requires
        a < b,
    ensures
        magnitude_of(a) < magnitude_of(b),
{
    let n = FRACTIONS as nat;
    let ea = a / n;
    let eb = b / n;
    let fa = a % n;
    let fb = b % n;
    assert(ea <= eb);
    if ea == eb {
        assert(fa < fb);
        if ea > 0 {
            let p = pow2((ea - 1) as nat);
            lemma_pow2_pos((ea - 1) as nat);
            assert((n + fa) * p < (n + fb) * p) by (nonlinear_arith)
                requires
                    fa < fb,
                    p > 0,
            ;
        }
    } else {
        let q = pow2((eb - 1) as nat);
        lemma_pow2_pos((eb - 1) as nat);
        assert((n + fb) * q >= n * q) by (nonlinear_arith)
            requires
                fb >= 0,
                q > 0,
        ;
        assert(n * q >= n) by (nonlinear_arith)
            requires
                q > 0,
                n >= 0,
        ;
        if ea > 0 {
            let p = pow2((ea - 1) as nat);
            lemma_pow2_pos((ea - 1) as nat);
            lemma_pow2_unfold(ea);
            if ea < eb - 1 {
                lemma_pow2_strictly_increases(ea, (eb - 1) as nat);
            }
            assert(q >= 2 * p);
            assert((n + fa) * p < n * q) by (nonlinear_arith)
                requires
                    fa < n,
                    p > 0,
                    q >= 2 * p,
            ;
        }
    }
}

/// Among positive numbers, the order is that of the patterns.
pub proof fn smaller_patterns_are_smaller_numbers(a: Scalar, b: Scalar)
    requires
        a.bits < b.bits <= INFINITY_BITS,
    ensures
        a.less(b),
        !b.less(a),
{
    lemma_magnitude_increases(a.bits as nat, b.bits as nat);
}

/// The other sign gives the opposite number, and twice the other sign gives the
/// number back. Without its sign a number has its distance from zero.
pub proof fn signs_are_mirrored(s: Scalar)
    ensures
        s.opposite().value() == -s.value(),
        s.opposite().opposite() == s,
        s.opposite() != s,
        s.opposite().nan() == s.nan(),
        s.without_sign().value() >= 0,
        s.without_sign().value() == s.value() || s.without_sign().value() == -s.value(),
        s.opposite().without_sign() == s.without_sign(),
{
}

/// The larger of two numbers is one of them and no smaller than either. What is
/// not a number gives way.
pub proof fn max_is_an_upper_bound(a: Scalar, b: Scalar)
    ensures
        Scalar::spec_max(a, b) == a || Scalar::spec_max(a, b) == b,
        !a.nan() ==> a.at_most(Scalar::spec_max(a, b)),
        !b.nan() ==> b.at_most(Scalar::spec_max(a, b)),
        Scalar::spec_max(a, b).nan() <==> a.nan() && b.nan(),
{
}

/// A number that is moved into an interval lies in it, and one that lies in it is
/// not moved. What lies below goes to the lower end, what lies above to the upper.
pub proof fn clamping_keeps_what_lies_inside(x: Scalar, low: Scalar, high: Scalar)
    requires
        low.at_most(high),
        !x.nan(),
    ensures
        low.at_most(Scalar::spec_clamp(x, low, high)),
        Scalar::spec_clamp(x, low, high).at_most(high),
        low.at_most(x) && x.at_most(high) ==> Scalar::spec_clamp(x, low, high) == x,
        x.value() < low.value() ==> Scalar::spec_clamp(x, low, high) == low,
        x.value() > high.value() ==> Scalar::spec_clamp(x, low, high) == high,
{
}

impl Scalar {
    /// Whether the sign bit is set.
    pub open spec fn negative(self) -> bool {
        self.bits >= SIGN_BIT
    }

    /// Exponent and fraction: the pattern without its sign bit.
    pub open spec fn magnitude_bits(self) -> nat {
        if self.bits >= SIGN_BIT {
            (self.bits - SIGN_BIT) as nat
        } else {
            self.bits as nat
        }
    }

    /// Whether the pattern stands for no number.
    pub open spec fn nan(self) -> bool {
        self.magnitude_bits() > INFINITY_BITS
    }

    /// Whether the pattern stands for a number that is not infinite.
    pub open spec fn finite(self) -> bool {
        self.magnitude_bits() < INFINITY_BITS
    }

    /// The number that the pattern stands for, in units of the smallest
    /// positive number.
    pub open spec fn value(self) -> int {
        if self.negative() {
            -(magnitude_of(self.magnitude_bits()) as int)
        } else {
            magnitude_of(self.magnitude_bits()) as int
        }
    }

    /// Whether both are numbers and the first is less than the second.
    pub open spec fn less(self, other: Scalar) -> bool {
        !self.nan() && !other.nan() && self.value() < other.value()
    }

    /// Whether both are numbers and the first is at most the second.
    pub open spec fn at_most(self, other: Scalar) -> bool {
        !self.nan() && !other.nan() && self.value() <= other.value()
    }

    /// Whether both are numbers, and the same one. The two zeros are.
    pub open spec fn same_number(self, other: Scalar) -> bool {
        !self.nan() && !other.nan() && self.value() == other.value()
    }

    /// The pattern with the other sign.
    pub open spec fn opposite(self) -> Scalar {
        if self.negative() {
            Scalar { bits: (self.bits - SIGN_BIT) as u64 }
        } else {
            Scalar { bits: (self.bits + SIGN_BIT) as u64 }
        }
    }

    /// The pattern with the sign bit cleared.
    pub open spec fn without_sign(self) -> Scalar {
        Scalar { bits: self.magnitude_bits() as u64 }
    }

    /// Positive zero.
    pub open spec fn spec_zero() -> Scalar {
        Scalar { bits: 0 }
    }

    /// One.
    pub open spec fn spec_one() -> Scalar {
        Scalar { bits: 0x3ff0_0000_0000_0000 }
    }

    /// The larger of two numbers, the first where they are equal; if one is not a
    /// number, the other.
    pub open spec fn spec_max(a: Scalar, b: Scalar) -> Scalar {
        if a.nan() || a.less(b) {
            b
        } else {
            a
        }
    }

    /// `x`, moved to the nearer end of the interval where it lies outside.
    pub open spec fn spec_clamp(x: Scalar, low: Scalar, high: Scalar) -> Scalar {
        if x.less(low) {
            low
        } else if high.less(x) {
            high
        } else {
            x
        }
    }

    /// The number with this bit pattern.
    pub fn from_bits(bits: u64) -> (r: Scalar)
        ensures
            r.bits == bits,
    {
        Scalar { bits }
    }

    /// Positive zero.
    pub fn zero() -> (r: Scalar)
        ensures
            r == Scalar::spec_zero(),
            r.value() == 0,
            !r.nan(),
    {
        Scalar { bits: 0 }
    }

    /// One.
    pub fn one() -> (r: Scalar)
        ensures
            r == Scalar::spec_one(),
    {
        Scalar { bits: 0x3ff0_0000_0000_0000 }
    }

    /// Whether this is not a number.
    pub fn is_nan(&self) -> (r: bool)
        ensures
            r == self.nan(),
    {
        self.abs().bits > INFINITY_BITS
    }

    /// The number with the opposite sign.
    pub fn neg(&self) -> (r: Scalar)
        ensures
            r == self.opposite(),
            r.nan() == self.nan(),
            r.value() == -self.value(),
    {
        if self.bits >= SIGN_BIT {
            Scalar { bits: self.bits - SIGN_BIT }
        } else {
            Scalar { bits: self.bits + SIGN_BIT }
        }
    }

    /// The absolute value.
    pub fn abs(&self) -> (r: Scalar)
        ensures
            r == self.without_sign(),
            r.nan() == self.nan(),
            r.value() == (if self.value() < 0 { -self.value() } else { self.value() }),
    {
        if self.bits >= SIGN_BIT {
            Scalar { bits: self.bits - SIGN_BIT }
        } else {
            Scalar { bits: self.bits }
        }
    }

    /// `self < other`.
    pub fn lt(&self, other: &Scalar) -> (r: bool)
        ensures
            r == self.less(*other),
    {
        let a = self.abs();
        let b = other.abs();
        proof {
            if a.bits < b.bits {
                lemma_magnitude_increases(a.bits as nat, b.bits as nat);
            }
            if b.bits < a.bits {
                lemma_magnitude_increases(b.bits as nat, a.bits as nat);
            }
            if a.bits > 0 {
                lemma_magnitude_increases(0, a.bits as nat);
            }
            if b.bits > 0 {
                lemma_magnitude_increases(0, b.bits as nat);
            }
        }
        if a.bits > INFINITY_BITS || b.bits > INFINITY_BITS {
            false
        } else if self.bits >= SIGN_BIT {
            if other.bits >= SIGN_BIT {
                b.bits < a.bits
            } else {
                a.bits > 0 || b.bits > 0
            }
        } else if other.bits >= SIGN_BIT {
            false
        } else {
            a.bits < b.bits
        }
    }

    /// `self <= other`.
    pub fn le(&self, other: &Scalar) -> (r: bool)
        ensures
            r == self.at_most(*other),
    {
        if self.is_nan() || other.is_nan() {
            false
        } else {
            !other.lt(self)
        }
    }

    /// `self == other`, as numbers.
    pub fn eq_value(&self, other: &Scalar) -> (r: bool)
        ensures
            r == self.same_number(*other),
    {
        self.le(other) && other.le(self)
    }

    /// The larger of the two numbers; if one is not a number, the other.
    pub fn max(&self, other: &Scalar) -> (r: Scalar)
        ensures
            r == Scalar::spec_max(*self, *other),
    {
        if self.is_nan() || self.lt(other) {
            *other
        } else {
            *self
        }
    }

    /// The number of the interval from `low` to `high` that is nearest.
    pub fn clamp(&self, low: &Scalar, high: &Scalar) -> (r: Scalar)
        requires
            low.at_most(*high),
        ensures
            r == Scalar::spec_clamp(*self, *low, *high),
            !self.nan() ==> low.at_most(r) && r.at_most(*high),
    {
        if self.lt(low) {
            *low
        } else if high.lt(self) {
            *high
        } else {
            *self
        }
    }
}

} // verus!
