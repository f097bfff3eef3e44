//! Exact rational values.
//!
//! Evaluation is performed on rational numbers held as a 64-bit numerator and
//! a positive 64-bit denominator.  Results are not reduced; two values are
//! compared as rationals by cross-multiplication.  An operation whose exact
//! result does not fit this representation reports overflow instead of
//! producing a rounded value.

use vstd::prelude::*;

verus! {

/// The mathematical model of a value: a fraction of unbounded integers
/// with a positive denominator.
pub struct Rat {
    pub n: int,
    pub d: int,
}

/// Well-formed model: the denominator is positive.
pub open spec fn rat_wf(r: Rat) -> bool {
    r.d >= 1
}

/// Both components fit the symmetric 64-bit range used by the executable
/// representation.
pub open spec fn fits_i64(x: int) -> bool {
    -(i64::MAX as int) <= x <= i64::MAX as int
}

/// The whole fraction is representable.
pub open spec fn rat_fits(r: Rat) -> bool {
    fits_i64(r.n) && fits_i64(r.d)
}

/// Exact sum: `a/b + c/d == (a*d + c*b) / (b*d)`.
pub open spec fn rat_add(x: Rat, y: Rat) -> Rat {
    Rat { n: x.n * y.d + y.n * x.d, d: x.d * y.d }
}

/// Exact difference.
pub open spec fn rat_sub(x: Rat, y: Rat) -> Rat {
    Rat { n: x.n * y.d - y.n * x.d, d: x.d * y.d }
}

/// Exact product.
pub open spec fn rat_mul(x: Rat, y: Rat) -> Rat {
    Rat { n: x.n * y.n, d: x.d * y.d }
}

/// Exact quotient, with the sign moved to the numerator so the denominator
/// stays positive.  Meaningful only for `y.n != 0`.
pub open spec fn rat_div(x: Rat, y: Rat) -> Rat {
    if y.n < 0 {
        Rat { n: -(x.n * y.d), d: -(x.d * y.n) }
    } else {
        Rat { n: x.n * y.d, d: x.d * y.n }
    }
}

/// Equality of the represented rational numbers.
pub open spec fn rat_eq(x: Rat, y: Rat) -> bool {
    x.n * y.d == y.n * x.d
}

/// A product of two values from the symmetric 64-bit range stays within
/// this bound, which in turn fits comfortably in 128 bits (even doubled).
pub proof fn lemma_i64_prod_bound(a: int, b: int)
    requires
        -(i64::MAX as int) <= a <= i64::MAX as int,
        -(i64::MAX as int) <= b <= i64::MAX as int,
    ensures
        -0x3FFF_FFFF_FFFF_FFFF_0000_0000_0000_0001 <= a * b <= 0x3FFF_FFFF_FFFF_FFFF_0000_0000_0000_0001,
{
    assert(-0x3FFF_FFFF_FFFF_FFFF_0000_0000_0000_0001 <= a * b
        <= 0x3FFF_FFFF_FFFF_FFFF_0000_0000_0000_0001) by (nonlinear_arith)
        requires
            -(i64::MAX as int) <= a <= i64::MAX as int,
            -(i64::MAX as int) <= b <= i64::MAX as int,
    ;
}

/// A product of a positive and a non-zero factor is non-zero, and its sign
/// follows the non-zero factor's.
pub proof fn lemma_pos_mul_sign(a: int, b: int)
    requires
        a >= 1,
        b != 0,
    ensures
        b > 0 ==> a * b >= 1,
        b < 0 ==> a * b <= -1,
{
    assert((b > 0 ==> a * b >= 1) && (b < 0 ==> a * b <= -1)) by (nonlinear_arith)
        requires
            a >= 1,
            b != 0,
    ;
}

/// An exact rational value: `num / den`, with `den >= 1` and `num`
/// in the symmetric range (so negation never overflows).
#[derive(Clone, Copy, Debug, PartialEq, Eq, Structural)]
pub struct Rational {
    pub num: i64,
    pub den: i64,
}

impl View for Rational {
    type V = Rat;

    open spec fn view(&self) -> Rat {
        Rat { n: self.num as int, d: self.den as int }
    }
}

impl Rational {
    /// Well-formed value: positive denominator, both components in the
    /// symmetric range.
    pub open spec fn wf(self) -> bool {
        rat_wf(self@) && rat_fits(self@)
    }

    /// Builds `num / den`.
    pub fn new(num: i64, den: i64) -> (r: Rational)
        requires
            den >= 1,
            num > i64::MIN,
        ensures
            r.wf(),
            r@ == (Rat { n: num as int, d: den as int }),
    {
        Rational { num, den }
    }

    /// Builds the whole number `n`.
    pub fn from_integer(n: i64) -> (r: Rational)
        requires
            n > i64::MIN,
        ensures
            r.wf(),
            r@ == (Rat { n: n as int, d: 1 }),
    {
        Rational { num: n, den: 1 }
    }

    /// The numerator.
    pub fn numerator(&self) -> (n: i64)
        ensures
            n == self@.n,
    {
        self.num
    }

    /// The denominator.
    pub fn denominator(&self) -> (d: i64)
        ensures
            d == self@.d,
    {
        self.den
    }

    /// Whether this value is zero.
    pub fn is_zero(&self) -> (z: bool)
        ensures
            z == (self@.n == 0),
    {
        self.num == 0
    }

    /// Whether this and `other` represent the same rational number, by
    /// cross-multiplication.
    pub fn same_value(&self, other: &Rational) -> (e: bool)
        requires
            self.wf(),
            other.wf(),
        ensures
            e == rat_eq(self@, other@),
    {
        proof {
            lemma_i64_prod_bound(self@.n, other@.d);
            lemma_i64_prod_bound(other@.n, self@.d);
        }
        let l: i128 = (self.num as i128) * (other.den as i128);
        let r: i128 = (other.num as i128) * (self.den as i128);
        l == r
    }

    /// Exact addition; `None` when the exact result leaves the 64-bit range.
    pub fn checked_add(&self, other: &Rational) -> (r: Option<Rational>)
        requires
            self.wf(),
            other.wf(),
        ensures
            rat_fits(rat_add(self@, other@)) ==> (r matches Some(v)
                && v.wf() && v@ == rat_add(self@, other@)),
            !rat_fits(rat_add(self@, other@)) ==> r is None,
    {
        proof {
            lemma_i64_prod_bound(self@.n, other@.d);
            lemma_i64_prod_bound(other@.n, self@.d);
            lemma_i64_prod_bound(self@.d, other@.d);
            lemma_pos_mul_sign(self@.d, other@.d);
        }
        let n: i128 = (self.num as i128) * (other.den as i128)
            + (other.num as i128) * (self.den as i128);
        let d: i128 = (self.den as i128) * (other.den as i128);
        Self::pack(n, d)
    }

    /// Exact subtraction; `None` on overflow.
    pub fn checked_sub(&self, other: &Rational) -> (r: Option<Rational>)
        requires
            self.wf(),
            other.wf(),
        ensures
            rat_fits(rat_sub(self@, other@)) ==> (r matches Some(v)
                && v.wf() && v@ == rat_sub(self@, other@)),
            !rat_fits(rat_sub(self@, other@)) ==> r is None,
    {
        proof {
            lemma_i64_prod_bound(self@.n, other@.d);
            lemma_i64_prod_bound(other@.n, self@.d);
            lemma_i64_prod_bound(self@.d, other@.d);
            lemma_pos_mul_sign(self@.d, other@.d);
        }
        let n: i128 = (self.num as i128) * (other.den as i128)
            - (other.num as i128) * (self.den as i128);
        let d: i128 = (self.den as i128) * (other.den as i128);
        Self::pack(n, d)
    }

    /// Exact multiplication; `None` on overflow.
    pub fn checked_mul(&self, other: &Rational) -> (r: Option<Rational>)
        requires
            self.wf(),
            other.wf(),
        ensures
            rat_fits(rat_mul(self@, other@)) ==> (r matches Some(v)
                && v.wf() && v@ == rat_mul(self@, other@)),
            !rat_fits(rat_mul(self@, other@)) ==> r is None,
    {
        proof {
            lemma_i64_prod_bound(self@.n, other@.n);
            lemma_i64_prod_bound(self@.d, other@.d);
            lemma_pos_mul_sign(self@.d, other@.d);
        }
        let n: i128 = (self.num as i128) * (other.num as i128);
        let d: i128 = (self.den as i128) * (other.den as i128);
        Self::pack(n, d)
    }

    /// Exact division by a non-zero value; `None` on overflow.
    pub fn checked_div(&self, other: &Rational) -> (r: Option<Rational>)
        requires
            self.wf(),
            other.wf(),
            other@.n != 0,
        ensures
            rat_fits(rat_div(self@, other@)) ==> (r matches Some(v)
                && v.wf() && v@ == rat_div(self@, other@)),
            !rat_fits(rat_div(self@, other@)) ==> r is None,
    {
        proof {
            lemma_i64_prod_bound(self@.n, other@.d);
            lemma_i64_prod_bound(self@.d, other@.n);
            lemma_pos_mul_sign(self@.d, other@.n);
        }
        let n0: i128 = (self.num as i128) * (other.den as i128);
        let d0: i128 = (self.den as i128) * (other.num as i128);
        if d0 < 0 {
            Self::pack(-n0, -d0)
        } else {
            Self::pack(n0, d0)
        }
    }

    /// Narrows an exact 128-bit fraction back to the 64-bit representation.
    fn pack(n: i128, d: i128) -> (r: Option<Rational>)
        requires
            1 <= d,
        ensures
            fits_i64(n as int) && fits_i64(d as int) ==> (r matches Some(v)
                && v.wf() && v@ == (Rat { n: n as int, d: d as int })),
            !(fits_i64(n as int) && fits_i64(d as int)) ==> r is None,
    {
        let max: i128 = i64::MAX as i128;
        if -max <= n && n <= max && d <= max {
            Some(Rational { num: n as i64, den: d as i64 })
        } else {
            None
        }
    }
}

} // verus!
