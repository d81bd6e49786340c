//! Exact 256-bit arithmetic helpers: a full-width product of two `u128`
//! values and a comparison of such products.  These are the primitives that
//! make rational-number comparisons exact, with no possibility of overflow.

use vstd::prelude::*;

verus! {

use vstd::arithmetic::div_mod::lemma_fundamental_div_mod;

/// The base used to split a `u128` into two 64-bit halves.
pub const HALF_BASE: u128 = 0x1_0000_0000_0000_0000;

/// The mathematical value of a 256-bit quantity given as high and low
/// 128-bit limbs.
pub open spec fn wide(hi: u128, lo: u128) -> int {
    hi * (u128::MAX as int + 1) + lo
}

/// Full 256-bit product of two 128-bit integers, returned as (high, low)
/// limbs.  The result is exact: no truncation and no overflow.
pub fn mul_wide(a: u128, b: u128) -> (r: (u128, u128))
    ensures
        wide(r.0, r.1) == a * b,
{
    let al: u128 = a % HALF_BASE;
    let ah: u128 = a / HALF_BASE;
    let bl: u128 = b % HALF_BASE;
    let bh: u128 = b / HALF_BASE;
    proof {
        lemma_fundamental_div_mod(a as int, HALF_BASE as int);
        lemma_fundamental_div_mod(b as int, HALF_BASE as int);
        assert(ah < HALF_BASE && bh < HALF_BASE) by (nonlinear_arith)
            requires
                a == HALF_BASE * ah + al,
                b == HALF_BASE * bh + bl,
                0 <= al,
                0 <= bl,
                0 <= ah,
                0 <= bh,
                a <= HALF_BASE * HALF_BASE - 1,
                b <= HALF_BASE * HALF_BASE - 1,
        ;
        assert(al * bl <= (HALF_BASE - 1) * (HALF_BASE - 1)
            && al * bh <= (HALF_BASE - 1) * (HALF_BASE - 1)
            && ah * bl <= (HALF_BASE - 1) * (HALF_BASE - 1)
            && ah * bh <= (HALF_BASE - 1) * (HALF_BASE - 1)) by (nonlinear_arith)
            requires
                0 <= al <= HALF_BASE - 1,
                0 <= ah <= HALF_BASE - 1,
                0 <= bl <= HALF_BASE - 1,
                0 <= bh <= HALF_BASE - 1,
        ;
    }
    let ll: u128 = al * bl;
    let lh: u128 = al * bh;
    let hl: u128 = ah * bl;
    let hh: u128 = ah * bh;
    proof {
        lemma_fundamental_div_mod(ll as int, HALF_BASE as int);
        assert(ll / HALF_BASE <= HALF_BASE - 1) by (nonlinear_arith)
            requires
                ll == HALF_BASE * (ll / HALF_BASE) + ll % HALF_BASE,
                0 <= ll % HALF_BASE,
                0 <= ll / HALF_BASE,
                ll <= (HALF_BASE - 1) * (HALF_BASE - 1),
        ;
    }
    let t: u128 = ll / HALF_BASE + hl % HALF_BASE + lh % HALF_BASE;
    let lo: u128 = (t % HALF_BASE) * HALF_BASE + ll % HALF_BASE;
    proof {
        lemma_fundamental_div_mod(hl as int, HALF_BASE as int);
        lemma_fundamental_div_mod(lh as int, HALF_BASE as int);
        lemma_fundamental_div_mod(t as int, HALF_BASE as int);
        let full: int = u128::MAX as int + 1;
        let hi_i: int = hh + hl / HALF_BASE + lh / HALF_BASE + t / HALF_BASE;
        assert(hi_i * full + lo == a * b) by (nonlinear_arith)
            requires
                full == HALF_BASE * HALF_BASE,
                hi_i == hh + hl / HALF_BASE + lh / HALF_BASE + t / HALF_BASE,
                lo == (t % HALF_BASE) * HALF_BASE + ll % HALF_BASE,
                a == HALF_BASE * ah + al,
                b == HALF_BASE * bh + bl,
                ll == al * bl,
                lh == al * bh,
                hl == ah * bl,
                hh == ah * bh,
                ll == HALF_BASE * (ll / HALF_BASE) + ll % HALF_BASE,
                hl == HALF_BASE * (hl / HALF_BASE) + hl % HALF_BASE,
                lh == HALF_BASE * (lh / HALF_BASE) + lh % HALF_BASE,
                t == HALF_BASE * (t / HALF_BASE) + t % HALF_BASE,
                t == ll / HALF_BASE + hl % HALF_BASE + lh % HALF_BASE,
        ;
        assert(hi_i <= full - 1) by (nonlinear_arith)
            requires
                full == HALF_BASE * HALF_BASE,
                hi_i * full + lo == a * b,
                0 <= lo,
                0 <= a <= full - 1,
                0 <= b <= full - 1,
        ;
        assert(hi_i <= u128::MAX);
    }
    let hi: u128 = hh + hl / HALF_BASE + lh / HALF_BASE + t / HALF_BASE;
    (hi, lo)
}

/// Compares two 256-bit values given as (high, low) limb pairs.
pub fn wide_ge(x: (u128, u128), y: (u128, u128)) -> (r: bool)
    ensures
        r == (wide(x.0, x.1) >= wide(y.0, y.1)),
{
    x.0 > y.0 || (x.0 == y.0 && x.1 >= y.1)
}

} // verus!
