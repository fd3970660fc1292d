//! Exact rational numbers with statically bounded numerator and denominator.
//!
//! League averages, ratings and indexes are quotients of integers, so the
//! engine represents them as exact fractions. The bound on the components is
//! chosen so that the cross products used to compare two fractions always fit
//! in an `i128`.

use vstd::prelude::*;

verus! {

/// Upper bound (2^62) on `|num|` and `den` of a well-formed `Rational`:
/// cross products stay below 2^124, well inside `i128`.
pub const RATIONAL_BOUND: i128 = 0x4000_0000_0000_0000;

/// An exact fraction `num / den`. Well-formed values keep `den` positive, so
/// ordering is decided by cross multiplication.
#[derive(Clone, Copy, Debug, PartialEq, Eq, Structural)]
pub struct Rational {
    pub num: i128,
    pub den: i128,
}

impl Rational {
    /// Components bounded so that comparisons cannot overflow.
    pub open spec fn wf(self) -> bool {
        1 <= self.den <= RATIONAL_BOUND && -RATIONAL_BOUND <= self.num <= RATIONAL_BOUND
    }

    pub open spec fn zero_spec() -> Rational {
        Rational { num: 0, den: 1 }
    }

    /// The exact zero, used for indexes whose league average is too small.
    pub fn zero() -> (r: Rational)
        ensures
            r == Rational::zero_spec(),
            r.wf(),
    {
        Rational { num: 0, den: 1 }
    }

    /// Exact comparison: `self < other` as fractions.
    pub fn lt(&self, other: &Rational) -> (r: bool)
        requires
            self.wf(),
            other.wf(),
        ensures
            r == ratio_lt(*self, *other),
    {
        proof {
            lemma_product_in_bound(self.num as int, other.den as int, RATIONAL_BOUND as int);
            lemma_product_in_bound(other.num as int, self.den as int, RATIONAL_BOUND as int);
        }
        self.num * other.den < other.num * self.den
    }

    /// Exact comparison: `self` and `other` denote the same fraction.
    pub fn eqv(&self, other: &Rational) -> (r: bool)
        requires
            self.wf(),
            other.wf(),
        ensures
            r == ratio_eqv(*self, *other),
    {
        proof {
            lemma_product_in_bound(self.num as int, other.den as int, RATIONAL_BOUND as int);
            lemma_product_in_bound(other.num as int, self.den as int, RATIONAL_BOUND as int);
        }
        self.num * other.den == other.num * self.den
    }
}

/// `a <= b` as fractions, assuming positive denominators.
pub open spec fn ratio_le(a: Rational, b: Rational) -> bool {
    a.num * b.den <= b.num * a.den
}

/// `a < b` as fractions, assuming positive denominators.
pub open spec fn ratio_lt(a: Rational, b: Rational) -> bool {
    a.num * b.den < b.num * a.den
}

/// `a == b` as fractions, assuming positive denominators.
pub open spec fn ratio_eqv(a: Rational, b: Rational) -> bool {
    a.num * b.den == b.num * a.den
}

/// `|x| <= b` and `0 <= y <= b` bound the product by `b * b`.
pub proof fn lemma_product_in_bound(x: int, y: int, b: int) by (nonlinear_arith)
    requires
        -b <= x <= b,
        0 <= y <= b,
    ensures
        -(b * b) <= x * y <= b * b,
{
}

/// `|x| <= bx` and `|y| <= by` bound the product by `bx * by`.
pub proof fn lemma_product_bounds(x: int, y: int, bx: int, by: int) by (nonlinear_arith)
    requires
        -bx <= x <= bx,
        -by <= y <= by,
        0 <= bx,
        0 <= by,
    ensures
        -(bx * by) <= x * y <= bx * by,
{
}

/// Transitivity of `<` on fractions with positive denominators.
pub proof fn lemma_ratio_lt_trans(a: Rational, b: Rational, c: Rational) by (nonlinear_arith)
    requires
        a.wf(),
        b.wf(),
        c.wf(),
        ratio_lt(a, b),
        ratio_lt(b, c),
    ensures
        ratio_lt(a, c),
{
}

/// Transitivity of fraction equivalence.
pub proof fn lemma_ratio_eqv_trans(a: Rational, b: Rational, c: Rational) by (nonlinear_arith)
    requires
        a.wf(),
        b.wf(),
        c.wf(),
        ratio_eqv(a, b),
        ratio_eqv(b, c),
    ensures
        ratio_eqv(a, c),
{
}

/// Equivalent fractions compare equally against any third fraction.
pub proof fn lemma_ratio_eqv_le(a: Rational, b: Rational, c: Rational) by (nonlinear_arith)
    requires
        a.wf(),
        b.wf(),
        c.wf(),
        ratio_eqv(a, b),
    ensures
        ratio_le(a, c) == ratio_le(b, c),
        ratio_le(c, a) == ratio_le(c, b),
        ratio_lt(a, c) == ratio_lt(b, c),
        ratio_lt(c, a) == ratio_lt(c, b),
{
}

} // verus!
