//! Exact non-negative rational numbers over 128-bit numerator and
//! denominator.  Prices, fees and fee rates are all carried as values of
//! this type; comparisons are exact via 256-bit cross multiplication, and
//! products are checked rather than truncated.

use vstd::prelude::*;

verus! {

use crate::arith::{mul_wide, wide_ge};

/// A non-negative rational number `num / den` with `den > 0`.
#[derive(Clone, Copy, Debug, PartialEq, Eq, Structural)]
pub struct Rat {
    pub num: u128,
    pub den: u128,
}

impl Rat {
    /// Well-formedness: the denominator is positive.
    pub open spec fn wf(self) -> bool {
        self.den > 0
    }

    /// The rational `n / 1`.
    pub fn from_int(n: u128) -> (r: Rat)
        ensures
            r.wf(),
            r.num == n,
            r.den == 1,
    {
        Rat { num: n, den: 1 }
    }

    /// Exact comparison `self >= other`, by 256-bit cross multiplication.
    pub fn ge(&self, other: &Rat) -> (r: bool)
        requires
            self.wf(),
            other.wf(),
        ensures
            r == (self.num * other.den >= other.num * self.den),
    {
        let left = mul_wide(self.num, other.den);
        let right = mul_wide(other.num, self.den);
        wide_ge(left, right)
    }

    /// Exact product, or `None` when a component does not fit in 128 bits.
    pub fn checked_mul(&self, other: &Rat) -> (r: Option<Rat>)
        requires
            self.wf(),
            other.wf(),
        ensures
            r is Some <==> (self.num * other.num <= u128::MAX && self.den * other.den
                <= u128::MAX),
            r is Some ==> r->Some_0 == (Rat {
                num: (self.num * other.num) as u128,
                den: (self.den * other.den) as u128,
            }) && r->Some_0.wf(),
    {
        let num = self.num.checked_mul(other.num);
        let den = self.den.checked_mul(other.den);
        match (num, den) {
            (Some(num), Some(den)) => {
                proof {
                    assert(self.den * other.den > 0) by (nonlinear_arith)
                        requires
                            self.den > 0,
                            other.den > 0,
                    ;
                }
                Some(Rat { num, den })
            },
            _ => None,
        }
    }

    /// Exact quotient `self / other`, or `None` when `other` is zero or a
    /// component of the result does not fit in 128 bits.
    pub fn checked_div(&self, other: &Rat) -> (r: Option<Rat>)
        requires
            self.wf(),
            other.wf(),
        ensures
            r is Some <==> (other.num > 0 && self.num * other.den <= u128::MAX && self.den
                * other.num <= u128::MAX),
            r is Some ==> r->Some_0 == (Rat {
                num: (self.num * other.den) as u128,
                den: (self.den * other.num) as u128,
            }) && r->Some_0.wf(),
    {
        if other.num == 0 {
            return None;
        }
        let num = self.num.checked_mul(other.den);
        let den = self.den.checked_mul(other.num);
        match (num, den) {
            (Some(num), Some(den)) => {
                proof {
                    assert(self.den * other.num > 0) by (nonlinear_arith)
                        requires
                            self.den > 0,
                            other.num > 0,
                    ;
                }
                Some(Rat { num, den })
            },
            _ => None,
        }
    }
}

} // verus!
