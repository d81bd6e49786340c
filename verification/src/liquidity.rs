//! On-chain liquidity as a closed sum over pool kinds plus passthrough
//! limit orders.  Liquidity is read-only input to compilation.

use vstd::prelude::*;

verus! {

use crate::orders::LimitOrder;
use crate::rational::Rat;

/// A constant-product pool over a normalized token pair.
#[derive(Clone, Copy, Debug, PartialEq, Eq)]
pub struct ConstantProductOrder {
    /// The two pool tokens, in normalized order.
    pub tokens: (u128, u128),
    /// Reserve balances, keyed positionally by `tokens`.
    pub reserves: (u128, u128),
    /// Fee rate as an exact rational.
    pub fee: Rat,
}

/// Per-token state of a weighted pool.
#[derive(Clone, Copy, Debug, PartialEq, Eq, Structural)]
pub struct WeightedTokenState {
    pub balance: u128,
    pub weight: Rat,
}

/// A weighted pool: per-token balances and weights.
#[derive(Clone, Debug, PartialEq, Eq)]
pub struct WeightedProductOrder {
    pub reserves: Vec<(u128, WeightedTokenState)>,
    pub fee: Rat,
}

/// Per-token state of a stable pool.
#[derive(Clone, Copy, Debug, PartialEq, Eq, Structural)]
pub struct StableTokenState {
    pub balance: u128,
    /// Exponent from which the token's scaling rate is derived.
    pub scaling_exponent: u8,
}

/// A stable pool: per-token balances and scaling exponents plus the
/// amplification parameter.
#[derive(Clone, Debug, PartialEq, Eq)]
pub struct StablePoolOrder {
    pub reserves: Vec<(u128, StableTokenState)>,
    pub fee: Rat,
    pub amplification_parameter: Rat,
}

/// One liquidity entry: a pool of one of the supported kinds, or a
/// passthrough limit order.
#[derive(Clone, Debug, PartialEq, Eq)]
pub enum Liquidity {
    ConstantProduct(ConstantProductOrder),
    BalancerWeighted(WeightedProductOrder),
    BalancerStable(StablePoolOrder),
    LimitOrder(LimitOrder),
}

impl ConstantProductOrder {
    /// Well-formedness: the token pair is normalized, hence distinct.
    pub open spec fn wf(self) -> bool {
        self.tokens.0 < self.tokens.1 && self.fee.wf()
    }
}

impl WeightedProductOrder {
    pub open spec fn wf(self) -> bool {
        &&& crate::table::distinct_keys(self.reserves@)
        &&& self.fee.wf()
        &&& forall|i: int|
            0 <= i < self.reserves@.len() ==> (#[trigger] self.reserves@[i]).1.weight.wf()
    }
}

impl StablePoolOrder {
    pub open spec fn wf(self) -> bool {
        &&& crate::table::distinct_keys(self.reserves@)
        &&& self.fee.wf()
        &&& self.amplification_parameter.wf()
    }
}

impl Liquidity {
    pub open spec fn wf(self) -> bool {
        match self {
            Liquidity::ConstantProduct(c) => c.wf(),
            Liquidity::BalancerWeighted(w) => w.wf(),
            Liquidity::BalancerStable(s) => s.wf(),
            Liquidity::LimitOrder(_) => true,
        }
    }

    /// Whether this entry is a passthrough limit order rather than a pool.
    pub open spec fn spec_is_limit_order(self) -> bool {
        self is LimitOrder
    }

    pub fn is_limit_order(&self) -> (r: bool)
        ensures
            r == self.spec_is_limit_order(),
    {
        match self {
            Liquidity::LimitOrder(_) => true,
            _ => false,
        }
    }
}

/// Whether the pool touches the unordered token pair `(a, b)`, in that
/// orientation.  Passthrough limit orders touch no pair: they provide no
/// pricing connectivity.
pub open spec fn pool_pair(l: Liquidity, a: u128, b: u128) -> bool {
    match l {
        Liquidity::ConstantProduct(c) => c.tokens == (a, b),
        Liquidity::BalancerWeighted(w) => exists|i: int, j: int|
            0 <= i < j < w.reserves@.len() && w.reserves@[i].0 == a && w.reserves@[j].0 == b,
        Liquidity::BalancerStable(s) => exists|i: int, j: int|
            0 <= i < j < s.reserves@.len() && s.reserves@[i].0 == a && s.reserves@[j].0 == b,
        Liquidity::LimitOrder(_) => false,
    }
}

/// Whether any pool in the liquidity list touches the pair `(a, b)`.
pub open spec fn liquidity_pair(liq: Seq<Liquidity>, a: u128, b: u128) -> bool {
    exists|k: int| 0 <= k < liq.len() && pool_pair(#[trigger] liq[k], a, b)
}

/// Pushes every token pair among the given reserve keys.
fn push_reserve_pairs(keys: &Vec<u128>, out: &mut Vec<(u128, u128)>)
    ensures
        forall|p: (u128, u128)| old(out)@.contains(p) ==> final(out)@.contains(p),
        forall|p: (u128, u128)| #[trigger]
            final(out)@.contains(p) ==> old(out)@.contains(p) || (exists|i: int, j: int|
                0 <= i < j < keys@.len() && keys@[i] == p.0 && keys@[j] == p.1),
        forall|i: int, j: int|
            0 <= i < j < keys@.len() ==> #[trigger] final(out)@.contains((keys@[i], keys@[j])),
{
    let n = keys.len();
    let mut i: usize = 0;
    while i < n
        invariant
            0 <= i <= n,
            n == keys@.len(),
            forall|p: (u128, u128)| old(out)@.contains(p) ==> out@.contains(p),
            forall|p: (u128, u128)| #[trigger]
                out@.contains(p) ==> old(out)@.contains(p) || (exists|ii: int, jj: int|
                    0 <= ii < jj < keys@.len() && keys@[ii] == p.0 && keys@[jj] == p.1),
            forall|ii: int, jj: int|
                0 <= ii < jj < keys@.len() && ii < i ==> #[trigger] out@.contains(
                    (keys@[ii], keys@[jj]),
                ),
        decreases n - i,
    {
        let mut j: usize = i + 1;
        while j < n
            invariant
                0 <= i < j <= n,
                n == keys@.len(),
                forall|p: (u128, u128)| old(out)@.contains(p) ==> out@.contains(p),
                forall|p: (u128, u128)| #[trigger]
                    out@.contains(p) ==> old(out)@.contains(p) || (exists|ii: int, jj: int|
                        0 <= ii < jj < keys@.len() && keys@[ii] == p.0 && keys@[jj] == p.1),
                forall|ii: int, jj: int|
                    0 <= ii < jj < keys@.len() && ii < i ==> #[trigger] out@.contains(
                        (keys@[ii], keys@[jj]),
                    ),
                forall|jj: int|
                    i < jj < j ==> #[trigger] out@.contains((keys@[i as int], keys@[jj])),
            decreases n - j,
        {
            let pair = (keys[i], keys[j]);
            let ghost prev = out@;
            out.push(pair);
            proof {
                assert forall|p: (u128, u128)| #[trigger]
                    out@.contains(p) implies prev.contains(p) || p == pair by {
                    crate::table::lemma_push_contains(prev, pair, p);
                }
                assert forall|p: (u128, u128)| prev.contains(p) implies out@.contains(p) by {
                    crate::table::lemma_push_contains(prev, pair, p);
                }
                assert(out@.contains(pair)) by {
                    crate::table::lemma_push_contains(prev, pair, pair);
                }
                assert forall|p: (u128, u128)| #[trigger]
                    out@.contains(p) implies old(out)@.contains(p) || (exists|ii: int, jj: int|
                    0 <= ii < jj < keys@.len() && keys@[ii] == p.0 && keys@[jj] == p.1) by {
                    if p == pair {
                        assert(0 <= (i as int) && (i as int) < (j as int) && (j as int)
                            < keys@.len() && keys@[i as int] == p.0 && keys@[j as int] == p.1);
                    }
                }
                assert forall|ii: int, jj: int|
                    0 <= ii < jj < keys@.len() && ii < i implies #[trigger] out@.contains(
                    (keys@[ii], keys@[jj]),
                ) by {
                    assert(prev.contains((keys@[ii], keys@[jj])));
                }
                assert forall|jj: int| i < jj < j + 1 implies #[trigger] out@.contains(
                    (keys@[i as int], keys@[jj]),
                ) by {
                    if jj < j {
                        assert(prev.contains((keys@[i as int], keys@[jj])));
                    } else {
                        assert((keys@[i as int], keys@[jj]) == pair);
                    }
                }
            }
            j = j + 1;
        }
        i = i + 1;
    }
}

/// Collects the token pairs touched by one liquidity entry.
fn push_pool_pairs(l: &Liquidity, out: &mut Vec<(u128, u128)>)
    ensures
        forall|p: (u128, u128)| #[trigger]
            final(out)@.contains(p) <==> old(out)@.contains(p) || pool_pair(*l, p.0, p.1),
{
    match l {
        Liquidity::ConstantProduct(c) => {
            let pair = c.tokens;
            let ghost prev = out@;
            out.push(pair);
            proof {
                assert forall|p: (u128, u128)| #[trigger]
                    out@.contains(p) <==> prev.contains(p) || p == pair by {
                    crate::table::lemma_push_contains(prev, pair, p);
                }
            }
        },
        Liquidity::BalancerWeighted(w) => {
            let keys = reserve_keys_weighted(w);
            push_reserve_pairs(&keys, out);
            proof {
                assert forall|p: (u128, u128)| #[trigger]
                    out@.contains(p) implies old(out)@.contains(p) || pool_pair(*l, p.0, p.1) by {
                    if !old(out)@.contains(p) {
                        let (ii, jj) = choose|ii: int, jj: int|
                            0 <= ii < jj < keys@.len() && keys@[ii] == p.0 && keys@[jj] == p.1;
                        assert(w.reserves@[ii].0 == p.0 && w.reserves@[jj].0 == p.1);
                    }
                }
                assert forall|p: (u128, u128)|
                    old(out)@.contains(p) || pool_pair(*l, p.0, p.1) implies #[trigger]
                    out@.contains(p) by {
                    if !old(out)@.contains(p) {
                        let (ii, jj) = choose|ii: int, jj: int|
                            0 <= ii < jj < w.reserves@.len() && w.reserves@[ii].0 == p.0
                                && w.reserves@[jj].0 == p.1;
                        assert(out@.contains((keys@[ii], keys@[jj])));
                        assert((keys@[ii], keys@[jj]) == p);
                    }
                }
            }
        },
        Liquidity::BalancerStable(s) => {
            let keys = reserve_keys_stable(s);
            push_reserve_pairs(&keys, out);
            proof {
                assert forall|p: (u128, u128)| #[trigger]
                    out@.contains(p) implies old(out)@.contains(p) || pool_pair(*l, p.0, p.1) by {
                    if !old(out)@.contains(p) {
                        let (ii, jj) = choose|ii: int, jj: int|
                            0 <= ii < jj < keys@.len() && keys@[ii] == p.0 && keys@[jj] == p.1;
                        assert(s.reserves@[ii].0 == p.0 && s.reserves@[jj].0 == p.1);
                    }
                }
                assert forall|p: (u128, u128)|
                    old(out)@.contains(p) || pool_pair(*l, p.0, p.1) implies #[trigger]
                    out@.contains(p) by {
                    if !old(out)@.contains(p) {
                        let (ii, jj) = choose|ii: int, jj: int|
                            0 <= ii < jj < s.reserves@.len() && s.reserves@[ii].0 == p.0
                                && s.reserves@[jj].0 == p.1;
                        assert(out@.contains((keys@[ii], keys@[jj])));
                        assert((keys@[ii], keys@[jj]) == p);
                    }
                }
            }
        },
        Liquidity::LimitOrder(_) => {},
    }
}

/// The reserve keys of a weighted pool, in table order.
fn reserve_keys_weighted(w: &WeightedProductOrder) -> (r: Vec<u128>)
    ensures
        r@.len() == w.reserves@.len(),
        forall|k: int| 0 <= k < r@.len() ==> r@[k] == w.reserves@[k].0,
{
    let mut keys: Vec<u128> = Vec::new();
    let n = w.reserves.len();
    let mut i: usize = 0;
    while i < n
        invariant
            0 <= i <= n,
            n == w.reserves@.len(),
            keys@.len() == i,
            forall|k: int| 0 <= k < i ==> keys@[k] == w.reserves@[k].0,
        decreases n - i,
    {
        keys.push(w.reserves[i].0);
        i = i + 1;
    }
    keys
}

/// The reserve keys of a stable pool, in table order.
fn reserve_keys_stable(s: &StablePoolOrder) -> (r: Vec<u128>)
    ensures
        r@.len() == s.reserves@.len(),
        forall|k: int| 0 <= k < r@.len() ==> r@[k] == s.reserves@[k].0,
{
    let mut keys: Vec<u128> = Vec::new();
    let n = s.reserves.len();
    let mut i: usize = 0;
    while i < n
        invariant
            0 <= i <= n,
            n == s.reserves@.len(),
            keys@.len() == i,
            forall|k: int| 0 <= k < i ==> keys@[k] == s.reserves@[k].0,
        decreases n - i,
    {
        keys.push(s.reserves[i].0);
        i = i + 1;
    }
    keys
}

/// Collects every token pair touched by any pool in the liquidity list.
pub fn all_pool_pairs(liquidity: &Vec<Liquidity>) -> (r: Vec<(u128, u128)>)
    ensures
        forall|p: (u128, u128)| #[trigger] r@.contains(p) <==> liquidity_pair(liquidity@, p.0, p.1),
{
    let mut out: Vec<(u128, u128)> = Vec::new();
    let n = liquidity.len();
    let mut k: usize = 0;
    while k < n
        invariant
            0 <= k <= n,
            n == liquidity@.len(),
            forall|p: (u128, u128)| #[trigger]
                out@.contains(p) <==> exists|m: int|
                    0 <= m < k && pool_pair(#[trigger] liquidity@[m], p.0, p.1),
        decreases n - k,
    {
        let ghost prev = out@;
        push_pool_pairs(&liquidity[k], &mut out);
        proof {
            assert forall|p: (u128, u128)| #[trigger]
                out@.contains(p) implies exists|m: int|
                0 <= m < k + 1 && pool_pair(#[trigger] liquidity@[m], p.0, p.1) by {
                if prev.contains(p) {
                    let m = choose|m: int| 0 <= m < k && pool_pair(#[trigger] liquidity@[m], p.0, p.1);
                    assert(0 <= m < k + 1 && pool_pair(liquidity@[m], p.0, p.1));
                } else {
                    assert(pool_pair(liquidity@[k as int], p.0, p.1));
                }
            }
            assert forall|p: (u128, u128)|
                (exists|m: int| 0 <= m < k + 1 && pool_pair(#[trigger] liquidity@[m], p.0, p.1))
                    implies #[trigger] out@.contains(p) by {
                let m = choose|m: int|
                    0 <= m < k + 1 && pool_pair(#[trigger] liquidity@[m], p.0, p.1);
                if m < k {
                    assert(prev.contains(p));
                }
            }
        }
        k = k + 1;
    }
    out
}

} // verus!
