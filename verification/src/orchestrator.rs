//! Decisions of the deadline-bounded solve pipeline: folding passthrough
//! limit orders into the order list, and budgeting the engine invocation
//! against the absolute deadline.  The surrounding driver performs the
//! external calls and feeds their results back to these functions.

use vstd::prelude::*;

verus! {

use crate::liquidity::Liquidity;
use crate::orders::LimitOrder;

/// Why a solve attempt failed before the engine was invoked.
#[derive(Clone, Copy, Debug, PartialEq, Eq, Structural)]
pub enum SolveError {
    /// The deadline had already passed when the engine was about to be
    /// invoked; carries the clock values.
    NoTimeLeft { now: u64, deadline: u64 },
}

/// The passthrough limit orders of a liquidity list, in order.
pub open spec fn spec_liquidity_limit_orders(liq: Seq<Liquidity>) -> Seq<LimitOrder>
    decreases liq.len(),
{
    if liq.len() == 0 {
        Seq::empty()
    } else {
        let rest = spec_liquidity_limit_orders(liq.drop_last());
        match liq.last() {
            Liquidity::LimitOrder(o) => rest.push(o),
            _ => rest,
        }
    }
}

proof fn lemma_liquidity_limit_orders_push(liq: Seq<Liquidity>, l: Liquidity)
    ensures
        spec_liquidity_limit_orders(liq.push(l)) == match l {
            Liquidity::LimitOrder(o) => spec_liquidity_limit_orders(liq).push(o),
            _ => spec_liquidity_limit_orders(liq),
        },
{
    assert(liq.push(l).drop_last() =~= liq);
    assert(liq.push(l).last() == l);
}

/// Appends every passthrough limit order of the liquidity list to the
/// order list: they are solved as orders but sourced as liquidity.
pub fn extend_orders_with_liquidity_limit_orders(
    orders: &mut Vec<LimitOrder>,
    liquidity: &Vec<Liquidity>,
)
    ensures
        final(orders)@ == old(orders)@ + spec_liquidity_limit_orders(liquidity@),
{
    let n = liquidity.len();
    let mut k: usize = 0;
    proof {
        assert(liquidity@.subrange(0, 0) =~= Seq::<Liquidity>::empty());
        assert(orders@ =~= old(orders)@ + spec_liquidity_limit_orders(
            liquidity@.subrange(0, 0),
        ));
    }
    while k < n
        invariant
            0 <= k <= n,
            n == liquidity@.len(),
            orders@ == old(orders)@ + spec_liquidity_limit_orders(
                liquidity@.subrange(0, k as int),
            ),
        decreases n - k,
    {
        let ghost prefix = liquidity@.subrange(0, k as int);
        match &liquidity[k] {
            Liquidity::LimitOrder(o) => {
                orders.push(*o);
            },
            _ => {},
        }
        proof {
            assert(liquidity@.subrange(0, k + 1) =~= prefix.push(liquidity@[k as int]));
            lemma_liquidity_limit_orders_push(prefix, liquidity@[k as int]);
            if liquidity@[k as int] is LimitOrder {
                assert(orders@ =~= old(orders)@ + spec_liquidity_limit_orders(
                    liquidity@.subrange(0, k + 1),
                ));
            }
        }
        k = k + 1;
    }
    proof {
        assert(liquidity@.subrange(0, n as int) =~= liquidity@);
    }
}

/// Computes the engine's time budget from the clock and the absolute
/// deadline.  A deadline already in the past yields the timeout-class
/// error, so the engine is never invoked with a negative budget.
pub fn engine_time_budget(now: u64, deadline: u64) -> (r: Result<u64, SolveError>)
    ensures
        r is Ok <==> now <= deadline,
        r is Ok ==> r->Ok_0 == deadline - now,
        r is Err ==> now > deadline && r->Err_0 == (SolveError::NoTimeLeft { now, deadline }),
{
    if now <= deadline {
        Ok(deadline - now)
    } else {
        Err(SolveError::NoTimeLeft { now, deadline })
    }
}

} // verus!
