//! Fee viability filter: removes orders whose full fee, converted to native
//! units at the sell-token price, cannot cover a minimum fraction of the
//! current gas price — unless the order is young enough to be exempt.

use vstd::prelude::*;

verus! {

use crate::orders::{ExternalPrices, Order};
use crate::rational::Rat;

/// Why a filter invocation failed as a whole.  Localized problems (a
/// missing price for one order's sell token) never surface here; they drop
/// that order only.
#[derive(Clone, Copy, Debug, PartialEq, Eq, Structural)]
pub enum FilterError {
    /// `now - min_age` underflowed the timestamp range; carries the values.
    InvalidAge { now: i64, min_age: i64 },
    /// The minimum-fee threshold `gas_price / surcharge_factor` could not
    /// be formed (zero surcharge factor or a component out of range).
    InvalidThreshold,
}

/// The order's full fee in native units: sell-token price times fee amount,
/// or `None` when the price is missing or the product is out of range.
pub open spec fn spec_native_full_fee(order: Order, prices: ExternalPrices) -> Option<Rat> {
    match prices.spec_price(order.sell_token) {
        Some(p) => if order.fee_amount * p.num <= u128::MAX {
            Some(Rat { num: (order.fee_amount * p.num) as u128, den: p.den })
        } else {
            None
        },
        None => None,
    }
}

/// Whether the filter retains an order: young orders are always retained;
/// older orders are retained exactly when their native fee converts and
/// reaches the minimum.
pub open spec fn keep_order(order: Order, prices: ExternalPrices, min_fee: Rat, min_creation: i64) -> bool {
    if order.creation_date >= min_creation {
        true
    } else {
        match spec_native_full_fee(order, prices) {
            Some(f) => f.num * min_fee.den >= min_fee.num * f.den,
            None => false,
        }
    }
}

/// The subsequence of orders the filter retains, in their original order.
pub open spec fn filtered_orders(
    s: Seq<Order>,
    prices: ExternalPrices,
    min_fee: Rat,
    min_creation: i64,
) -> Seq<Order>
    decreases s.len(),
{
    if s.len() == 0 {
        Seq::empty()
    } else {
        let rest = filtered_orders(s.drop_last(), prices, min_fee, min_creation);
        if keep_order(s.last(), prices, min_fee, min_creation) {
            rest.push(s.last())
        } else {
            rest
        }
    }
}

/// Appending an order to the input appends it to the output exactly when it
/// is kept.
proof fn lemma_filtered_push(
    s: Seq<Order>,
    o: Order,
    prices: ExternalPrices,
    min_fee: Rat,
    min_creation: i64,
)
    ensures
        filtered_orders(s.push(o), prices, min_fee, min_creation) == if keep_order(
            o,
            prices,
            min_fee,
            min_creation,
        ) {
            filtered_orders(s, prices, min_fee, min_creation).push(o)
        } else {
            filtered_orders(s, prices, min_fee, min_creation)
        },
{
    assert(s.push(o).drop_last() =~= s);
    assert(s.push(o).last() == o);
}

/// The filter's output holds exactly the kept orders: every kept input
/// order appears in the output, and every output order is a kept input
/// order.
pub proof fn lemma_filtered_characterization(
    s: Seq<Order>,
    prices: ExternalPrices,
    min_fee: Rat,
    min_creation: i64,
)
    ensures
        forall|i: int|
            0 <= i < s.len() && keep_order(#[trigger] s[i], prices, min_fee, min_creation)
                ==> filtered_orders(s, prices, min_fee, min_creation).contains(s[i]),
        forall|j: int|
            0 <= j < filtered_orders(s, prices, min_fee, min_creation).len() ==> s.contains(
                #[trigger] filtered_orders(s, prices, min_fee, min_creation)[j],
            ) && keep_order(
                filtered_orders(s, prices, min_fee, min_creation)[j],
                prices,
                min_fee,
                min_creation,
            ),
    decreases s.len(),
{
    let out = filtered_orders(s, prices, min_fee, min_creation);
    if s.len() > 0 {
        lemma_filtered_characterization(s.drop_last(), prices, min_fee, min_creation);
        let rest = filtered_orders(s.drop_last(), prices, min_fee, min_creation);
        assert forall|i: int|
            0 <= i < s.len() && keep_order(#[trigger] s[i], prices, min_fee, min_creation) implies out.contains(
            s[i],
        ) by {
            if i < s.len() - 1 {
                assert(s.drop_last()[i] == s[i]);
                assert(rest.contains(s[i]));
                let j = choose|j: int| 0 <= j < rest.len() && rest[j] == s[i];
                if keep_order(s.last(), prices, min_fee, min_creation) {
                    assert(out[j] == s[i]);
                } else {
                    assert(out[j] == s[i]);
                }
            } else {
                assert(out[out.len() - 1] == s.last());
            }
        }
        assert forall|j: int| 0 <= j < out.len() implies s.contains(#[trigger] out[j])
            && keep_order(out[j], prices, min_fee, min_creation) by {
            if j < rest.len() {
                assert(out[j] == rest[j]);
                assert(s.drop_last().contains(rest[j]));
                let i = choose|i: int| 0 <= i < s.drop_last().len() && s.drop_last()[i] == rest[j];
                assert(s[i] == rest[j]);
            } else {
                assert(out[j] == s.last());
                assert(s[s.len() - 1] == s.last());
            }
        }
    }
}

/// Every order created at or after the cutoff appears in the filter's
/// output, whatever its fee.
pub proof fn lemma_young_orders_retained(
    s: Seq<Order>,
    prices: ExternalPrices,
    min_fee: Rat,
    min_creation: i64,
)
    ensures
        forall|i: int|
            0 <= i < s.len() && (#[trigger] s[i]).creation_date >= min_creation
                ==> filtered_orders(s, prices, min_fee, min_creation).contains(s[i]),
{
    lemma_filtered_characterization(s, prices, min_fee, min_creation);
    assert forall|i: int|
        0 <= i < s.len() && (#[trigger] s[i]).creation_date >= min_creation implies filtered_orders(
        s,
        prices,
        min_fee,
        min_creation,
    ).contains(s[i]) by {
        assert(keep_order(s[i], prices, min_fee, min_creation));
    }
}

/// Age exemption: an order created at or after the cutoff is retained
/// regardless of its fee, even one whose fee fails to convert.
pub proof fn lemma_young_order_retained(
    order: Order,
    prices: ExternalPrices,
    min_fee: Rat,
    min_creation: i64,
)
    requires
        order.creation_date >= min_creation,
    ensures
        keep_order(order, prices, min_fee, min_creation),
{
}

/// An order older than the cutoff is retained exactly when its fee
/// converts to native units and reaches the minimum; a fee that fails to
/// convert drops the order.
pub proof fn lemma_old_order_retained_iff(
    order: Order,
    prices: ExternalPrices,
    min_fee: Rat,
    min_creation: i64,
)
    requires
        order.creation_date < min_creation,
    ensures
        keep_order(order, prices, min_fee, min_creation) <==> match spec_native_full_fee(
            order,
            prices,
        ) {
            Some(f) => f.num * min_fee.den >= min_fee.num * f.den,
            None => false,
        },
{
}

/// Computes an order's full fee amount in native units.
fn order_native_full_fee_amount(order: &Order, external_prices: &ExternalPrices) -> (r: Option<
    Rat,
>)
    requires
        external_prices.wf(),
    ensures
        r == spec_native_full_fee(*order, *external_prices),
        r is Some ==> r->Some_0.wf(),
{
    match external_prices.price(order.sell_token) {
        Some(p) => {
            proof {
                external_prices.lemma_price_wf(order.sell_token);
            }
            let fee = Rat::from_int(order.fee_amount);
            fee.checked_mul(p)
        },
        None => None,
    }
}

/// Whether the filter retains the order.
fn order_is_kept(
    order: &Order,
    external_prices: &ExternalPrices,
    min_fee: &Rat,
    min_creation: i64,
) -> (r: bool)
    requires
        external_prices.wf(),
        min_fee.wf(),
    ensures
        r == keep_order(*order, *external_prices, *min_fee, min_creation),
{
    if order.creation_date >= min_creation {
        return true;
    }
    match order_native_full_fee_amount(order, external_prices) {
        Some(f) => f.ge(min_fee),
        None => false,
    }
}

/// Removes, in place and preserving relative order, every order that is
/// older than `min_age` and whose fee in native units falls below
/// `gas_price / max_gas_surcharge_factor`.  Fails as a whole only when the
/// threshold cannot be formed or the age cutoff underflows; it then leaves
/// the orders untouched.
pub fn filter_orders_with_insufficient_fees(
    orders: &mut Vec<Order>,
    external_prices: &ExternalPrices,
    gas_price: &Rat,
    max_gas_surcharge_factor: &Rat,
    min_age: i64,
    now: i64,
) -> (r: Result<(), FilterError>)
    requires
        external_prices.wf(),
        gas_price.wf(),
        max_gas_surcharge_factor.wf(),
        min_age >= 0,
    ensures
        match r {
            Ok(_) => {
                &&& max_gas_surcharge_factor.num > 0
                &&& gas_price.num * max_gas_surcharge_factor.den <= u128::MAX
                &&& gas_price.den * max_gas_surcharge_factor.num <= u128::MAX
                &&& now - min_age >= i64::MIN
                &&& final(orders)@ == filtered_orders(
                    old(orders)@,
                    *external_prices,
                    Rat {
                        num: (gas_price.num * max_gas_surcharge_factor.den) as u128,
                        den: (gas_price.den * max_gas_surcharge_factor.num) as u128,
                    },
                    (now - min_age) as i64,
                )
            },
            Err(FilterError::InvalidThreshold) => {
                &&& !(max_gas_surcharge_factor.num > 0 && gas_price.num
                    * max_gas_surcharge_factor.den <= u128::MAX && gas_price.den
                    * max_gas_surcharge_factor.num <= u128::MAX)
                &&& final(orders)@ == old(orders)@
            },
            Err(FilterError::InvalidAge { now: e_now, min_age: e_min_age }) => {
                &&& max_gas_surcharge_factor.num > 0
                &&& gas_price.num * max_gas_surcharge_factor.den <= u128::MAX
                &&& gas_price.den * max_gas_surcharge_factor.num <= u128::MAX
                &&& now - min_age < i64::MIN
                &&& e_now == now
                &&& e_min_age == min_age
                &&& final(orders)@ == old(orders)@
            },
        },
{
    let min_native_full_fee = match gas_price.checked_div(max_gas_surcharge_factor) {
        Some(f) => f,
        None => {
            return Err(FilterError::InvalidThreshold);
        },
    };
    if now < i64::MIN + min_age {
        return Err(FilterError::InvalidAge { now, min_age });
    }
    let min_creation_time: i64 = now - min_age;
    let n = orders.len();
    let mut kept: Vec<Order> = Vec::new();
    let mut i: usize = 0;
    proof {
        assert(old(orders)@.subrange(0, 0) =~= Seq::<Order>::empty());
    }
    while i < n
        invariant
            0 <= i <= n,
            n == orders@.len(),
            orders@ == old(orders)@,
            external_prices.wf(),
            min_native_full_fee.wf(),
            kept@ == filtered_orders(
                old(orders)@.subrange(0, i as int),
                *external_prices,
                min_native_full_fee,
                min_creation_time,
            ),
        decreases n - i,
    {
        let order = orders[i];
        if order_is_kept(&order, external_prices, &min_native_full_fee, min_creation_time) {
            kept.push(order);
        }
        proof {
            let prefix = old(orders)@.subrange(0, i as int);
            assert(old(orders)@.subrange(0, i + 1) =~= prefix.push(old(orders)@[i as int]));
            lemma_filtered_push(
                prefix,
                old(orders)@[i as int],
                *external_prices,
                min_native_full_fee,
                min_creation_time,
            );
        }
        i = i + 1;
    }
    proof {
        assert(old(orders)@.subrange(0, n as int) =~= old(orders)@);
    }
    *orders = kept;
    Ok(())
}

} // verus!
