//! Fixed-point numbers with saturating arithmetic.
//!
//! Every coordinate, size, mass, velocity, acceleration, force component and
//! clock reading of the simulation is a [`Scalar`]: a signed count of
//! millionths of a unit. Arithmetic never wraps and never fails. A result
//! that would leave the representable range stops at the nearest bound, and
//! products and quotients round toward zero. The same inputs therefore give
//! the same outputs on every machine.

use vstd::prelude::*;

verus! {

/// Raw steps per unit: a `Scalar` counts millionths.
pub const SCALE: i64 = 1_000_000;

/// The raw value of one half.
pub const HALF: i64 = 500_000;

/// Whether `v` is a raw value that a `Scalar` can hold.
pub open spec fn fits(v: int) -> bool {
    i64::MIN <= v <= i64::MAX
}

/// The representable raw value nearest to `v`.
pub open spec fn clamp(v: int) -> int {
    if v < i64::MIN {
        i64::MIN as int
    } else if v > i64::MAX {
        i64::MAX as int
    } else {
        v
    }
}

/// `n / d` rounded toward zero, for a positive `d`.
pub open spec fn toward_zero(n: int, d: int) -> int {
    if n >= 0 {
        n / d
    } else {
        -((-n) / d)
    }
}

/// `n / d` rounded toward zero, for any `d` but zero.
pub open spec fn quotient(n: int, d: int) -> int {
    if d > 0 {
        toward_zero(n, d)
    } else {
        toward_zero(-n, -d)
    }
}

/// The saturating sum of two raw values.
pub open spec fn plus(a: int, b: int) -> int {
    clamp(a + b)
}

/// The saturating difference of two raw values.
pub open spec fn minus(a: int, b: int) -> int {
    clamp(a - b)
}

/// The saturating fixed-point product of two raw values.
pub open spec fn times(a: int, b: int) -> int {
    clamp(toward_zero(a * b, SCALE as int))
}

/// The saturating fixed-point quotient of two raw values, for `b != 0`.
pub open spec fn over(a: int, b: int) -> int {
    clamp(quotient(a * SCALE, b))
}

/// The smaller of two raw values.
pub open spec fn lesser(a: int, b: int) -> int {
    if a <= b {
        a
    } else {
        b
    }
}

/// The larger of two raw values.
pub open spec fn greater(a: int, b: int) -> int {
    if a >= b {
        a
    } else {
        b
    }
}

/// A signed fixed-point number with six decimal places.
#[derive(Clone, Copy, Debug, PartialEq, Eq, Structural)]
pub struct Scalar {
    /// The number in millionths.
    pub raw: i64,
}

impl View for Scalar {
    type V = int;

    open spec fn view(&self) -> int {
        self.raw as int
    }
}

/// The representable raw value nearest to `v`.
fn narrow(v: i128) -> (r: i64)
    ensures
        r == clamp(v as int),
{
    if v > i64::MAX as i128 {
        i64::MAX
    } else if v < i64::MIN as i128 {
        i64::MIN
    } else {
        v as i64
    }
}

/// The product of two raw values has room in 128 bits.
proof fn lemma_product_bounds(a: int, b: int)
    by (nonlinear_arith)
    requires
        fits(a),
        fits(b),
    ensures
        -0x4000_0000_0000_0000_0000_0000_0000_0000 <= a * b
            <= 0x4000_0000_0000_0000_0000_0000_0000_0000,
{
}

impl Scalar {
    /// The number that counts `raw` millionths.
    pub fn from_raw(raw: i64) -> (r: Scalar)
        ensures
            r@ == raw,
    {
        Scalar { raw }
    }

    /// The whole number `units`.
    pub fn from_units(units: i32) -> (r: Scalar)
        ensures
            r@ == units * SCALE,
    {
        let wide: i64 = units as i64;
        Scalar { raw: wide * SCALE }
    }

    /// Zero.
    pub fn zero() -> (r: Scalar)
        ensures
            r@ == 0,
    {
        Scalar { raw: 0 }
    }

    /// One half.
    pub fn half() -> (r: Scalar)
        ensures
            r@ == HALF,
    {
        Scalar { raw: HALF }
    }

    /// `self + rhs`, stopping at the bounds of the range.
    pub fn plus(self, rhs: Scalar) -> (r: Scalar)
        ensures
            r@ == plus(self@, rhs@),
    {
        let wide: i128 = self.raw as i128 + rhs.raw as i128;
        Scalar { raw: narrow(wide) }
    }

    /// `self - rhs`, stopping at the bounds of the range.
    pub fn minus(self, rhs: Scalar) -> (r: Scalar)
        ensures
            r@ == minus(self@, rhs@),
    {
        let wide: i128 = self.raw as i128 - rhs.raw as i128;
        Scalar { raw: narrow(wide) }
    }

    /// `self * rhs`, rounded toward zero and stopping at the bounds of the
    /// range.
    pub fn times(self, rhs: Scalar) -> (r: Scalar)
        ensures
            r@ == times(self@, rhs@),
    {
        proof {
            lemma_product_bounds(self@, rhs@);
        }
        let wide: i128 = (self.raw as i128) * (rhs.raw as i128);
        let scaled: i128 = wide / (SCALE as i128);
        Scalar { raw: narrow(scaled) }
    }

    /// `self / rhs`, rounded toward zero and stopping at the bounds of the
    /// range.
    pub fn over(self, rhs: Scalar) -> (r: Scalar)
        requires
            rhs@ != 0,
        ensures
            r@ == over(self@, rhs@),
    {
        let scale: i128 = SCALE as i128;
        let wide: i128 = (self.raw as i128) * scale;
        let scaled: i128 = if rhs.raw > 0 {
            wide / (rhs.raw as i128)
        } else {
            (-wide) / (-(rhs.raw as i128))
        };
        Scalar { raw: narrow(scaled) }
    }

    /// The smaller of `self` and `rhs`.
    pub fn lesser(self, rhs: Scalar) -> (r: Scalar)
        ensures
            r@ == lesser(self@, rhs@),
    {
        if self.raw <= rhs.raw {
            self
        } else {
            rhs
        }
    }

    /// The larger of `self` and `rhs`.
    pub fn greater(self, rhs: Scalar) -> (r: Scalar)
        ensures
            r@ == greater(self@, rhs@),
    {
        if self.raw >= rhs.raw {
            self
        } else {
            rhs
        }
    }
}

} // verus!
