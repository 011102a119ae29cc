//! Exact rational numbers for glyph geometry.
//!
//! The rendering rules (fit-scale, scaled bearings, fractional font metrics)
//! are stated over exact rationals rather than approximate machine reals, so
//! every geometric computation in the library is exact and provable.

use vstd::prelude::*;

verus! {

/// A rational number `num / den` with a strictly positive denominator.
#[derive(Clone, Copy, Debug, PartialEq, Eq, Structural)]
pub struct Frac {
    pub num: i64,
    pub den: i64,
}

/// Mathematical value of a fraction, as a pair: `frac_eq` compares them.
pub open spec fn frac_eq(a: Frac, b: Frac) -> bool {
    a.num * b.den == b.num * a.den
}

/// A fraction is well formed when its denominator is positive.
impl Frac {
    pub open spec fn wf(self) -> bool {
        self.den > 0
    }

    /// True when the fraction equals the integer 1.
    pub open spec fn is_one(self) -> bool {
        self.num == self.den
    }

    /// The whole number `n`, as a fraction.
    pub fn from_int(n: i64) -> (r: Frac)
        ensures
            r.wf(),
            r.num == n,
            r.den == 1,
    {
        Frac { num: n, den: 1 }
    }

    /// The fraction 1/1.
    pub fn one() -> (r: Frac)
        ensures
            r.wf(),
            r.is_one(),
            r.num == 1,
            r.den == 1,
    {
        Frac { num: 1, den: 1 }
    }
}

/// Truncation toward zero, the rounding applied when a fractional pixel
/// position is placed on the integer pixel grid.
pub open spec fn spec_trunc(f: Frac) -> int {
    if f.num >= 0 {
        (f.num as int) / (f.den as int)
    } else {
        -((-f.num) as int / (f.den as int))
    }
}

impl Frac {
    /// Exact sum of two fractions.
    pub fn add(&self, other: &Frac) -> (r: Frac)
        requires
            self.wf(),
            other.wf(),
            i64::MIN <= self.num * other.den + other.num * self.den <= i64::MAX,
            self.den * other.den <= i64::MAX,
        ensures
            r.wf(),
            r.num == self.num * other.den + other.num * self.den,
            r.den == self.den * other.den,
    {
        proof {
            lemma_i64_products_fit_i128(self.num, other.den, other.num, self.den);
        }
        let num: i128 = (self.num as i128) * (other.den as i128) + (other.num as i128)
            * (self.den as i128);
        let den: i128 = (self.den as i128) * (other.den as i128);
        proof {
            assert((self.num as i128) * (other.den as i128) == self.num * other.den);
            assert((other.num as i128) * (self.den as i128) == other.num * self.den);
            assert((self.den as i128) * (other.den as i128) == self.den * other.den);
            assert(self.den * other.den > 0) by (nonlinear_arith)
                requires
                    self.den > 0,
                    other.den > 0,
            ;
        }
        Frac { num: num as i64, den: den as i64 }
    }

    /// Exact difference of two fractions.
    pub fn sub(&self, other: &Frac) -> (r: Frac)
        requires
            self.wf(),
            other.wf(),
            i64::MIN <= self.num * other.den - other.num * self.den <= i64::MAX,
            self.den * other.den <= i64::MAX,
        ensures
            r.wf(),
            r.num == self.num * other.den - other.num * self.den,
            r.den == self.den * other.den,
    {
        proof {
            lemma_i64_products_fit_i128(self.num, other.den, other.num, self.den);
        }
        let num: i128 = (self.num as i128) * (other.den as i128) - (other.num as i128)
            * (self.den as i128);
        let den: i128 = (self.den as i128) * (other.den as i128);
        proof {
            assert((self.num as i128) * (other.den as i128) == self.num * other.den);
            assert((other.num as i128) * (self.den as i128) == other.num * self.den);
            assert((self.den as i128) * (other.den as i128) == self.den * other.den);
            assert(self.den * other.den > 0) by (nonlinear_arith)
                requires
                    self.den > 0,
                    other.den > 0,
            ;
        }
        Frac { num: num as i64, den: den as i64 }
    }

    /// Exact sum of two fractions over a common denominator.
    pub fn add_same_den(&self, other: &Frac) -> (r: Frac)
        requires
            self.wf(),
            other.wf(),
            self.den == other.den,
            i64::MIN <= self.num + other.num <= i64::MAX,
        ensures
            r.wf(),
            r.num == self.num + other.num,
            r.den == self.den,
    {
        Frac { num: self.num + other.num, den: self.den }
    }

    /// The fraction rounded toward zero onto the integer grid.
    pub fn trunc(&self) -> (r: i64)
        requires
            self.wf(),
            self.num > i64::MIN,
        ensures
            r == spec_trunc(*self),
    {
        if self.num >= 0 {
            self.num / self.den
        } else {
            proof {
                assert((-self.num) as int / (self.den as int) >= 0 && (-self.num) as int / (
                self.den as int) <= -self.num) by (nonlinear_arith)
                    requires
                        self.num < 0,
                        self.den > 0,
                ;
            }
            -((-self.num) / self.den)
        }
    }
}

/// Products of two `i64` values stay well inside `i128`.
proof fn lemma_i64_products_fit_i128(a: i64, b: i64, c: i64, d: i64)
    ensures
        -0x4000_0000_0000_0000_0000_0000_0000_0000 <= (a as i128) * (b as i128)
            <= 0x4000_0000_0000_0000_0000_0000_0000_0000,
        -0x4000_0000_0000_0000_0000_0000_0000_0000 <= (c as i128) * (d as i128)
            <= 0x4000_0000_0000_0000_0000_0000_0000_0000,
{
    assert(-0x4000_0000_0000_0000_0000_0000_0000_0000 <= (a as i128) * (b as i128)
        <= 0x4000_0000_0000_0000_0000_0000_0000_0000) by (nonlinear_arith)
        requires
            -0x8000_0000_0000_0000 <= a <= 0x7fff_ffff_ffff_ffff,
            -0x8000_0000_0000_0000 <= b <= 0x7fff_ffff_ffff_ffff,
    ;
    assert(-0x4000_0000_0000_0000_0000_0000_0000_0000 <= (c as i128) * (d as i128)
        <= 0x4000_0000_0000_0000_0000_0000_0000_0000) by (nonlinear_arith)
        requires
            -0x8000_0000_0000_0000 <= c <= 0x7fff_ffff_ffff_ffff,
            -0x8000_0000_0000_0000 <= d <= 0x7fff_ffff_ffff_ffff,
    ;
}

/// Exact equality of the values of two fractions.
pub fn frac_value_eq(a: &Frac, b: &Frac) -> (r: bool)
    requires
        a.wf(),
        b.wf(),
    ensures
        r == frac_eq(*a, *b),
{
    proof {
        assert((a.num as i128) * (b.den as i128) <= i128::MAX
            && (a.num as i128) * (b.den as i128) >= i128::MIN) by (nonlinear_arith)
            requires
                -0x8000_0000_0000_0000 <= a.num <= 0x7fff_ffff_ffff_ffff,
                -0x8000_0000_0000_0000 <= b.den <= 0x7fff_ffff_ffff_ffff,
        ;
        assert((b.num as i128) * (a.den as i128) <= i128::MAX
            && (b.num as i128) * (a.den as i128) >= i128::MIN) by (nonlinear_arith)
            requires
                -0x8000_0000_0000_0000 <= b.num <= 0x7fff_ffff_ffff_ffff,
                -0x8000_0000_0000_0000 <= a.den <= 0x7fff_ffff_ffff_ffff,
        ;
    }
    let lhs: i128 = (a.num as i128) * (b.den as i128);
    let rhs: i128 = (b.num as i128) * (a.den as i128);
    lhs == rhs
}

} // verus!
