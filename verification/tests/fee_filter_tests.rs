use solver::fee_filter::{filter_orders_with_insufficient_fees, FilterError};
use solver::orders::{has_at_least_one_user_order, Exchange, ExternalPrices, LimitOrder, Order, OrderKind};
use solver::rational::Rat;

fn order(sell_token: u128, fee_amount: u128, creation_date: i64) -> Order {
    Order {
        sell_token,
        buy_token: 99,
        sell_amount: 1,
        buy_amount: 1,
        kind: OrderKind::Sell,
        partially_fillable: false,
        fee_amount,
        exchange: Exchange::GnosisProtocol,
        is_liquidity_order: false,
        creation_date,
    }
}

fn one_to_one_prices(token: u128) -> ExternalPrices {
    ExternalPrices {
        entries: vec![(token, Rat { num: 1, den: 1 })],
    }
}

// Gas price 100, surcharge factor 2: minimum native fee is 50.
fn gas_price() -> Rat {
    Rat { num: 100, den: 1 }
}

fn surcharge() -> Rat {
    Rat { num: 2, den: 1 }
}

const NOW: i64 = 1_000;
const MIN_AGE: i64 = 100;

#[test]
fn old_order_with_sufficient_fee_is_retained() {
    let prices = one_to_one_prices(1);
    let mut orders = vec![order(1, 50, 0)];
    filter_orders_with_insufficient_fees(&mut orders, &prices, &gas_price(), &surcharge(), MIN_AGE, NOW)
        .unwrap();
    assert_eq!(orders.len(), 1);
}

#[test]
fn old_order_with_insufficient_fee_is_dropped() {
    let prices = one_to_one_prices(1);
    let mut orders = vec![order(1, 49, 0)];
    filter_orders_with_insufficient_fees(&mut orders, &prices, &gas_price(), &surcharge(), MIN_AGE, NOW)
        .unwrap();
    assert_eq!(orders.len(), 0);
}

#[test]
fn young_order_is_retained_regardless_of_fee() {
    // Created exactly at the cutoff `now - min_age`, with zero fee and even
    // with a missing price: still retained.
    let prices = ExternalPrices { entries: vec![] };
    let mut orders = vec![order(1, 0, NOW - MIN_AGE)];
    filter_orders_with_insufficient_fees(&mut orders, &prices, &gas_price(), &surcharge(), MIN_AGE, NOW)
        .unwrap();
    assert_eq!(orders.len(), 1);
}

#[test]
fn old_order_with_missing_price_is_dropped() {
    let prices = ExternalPrices { entries: vec![] };
    let mut orders = vec![order(1, 1_000_000, 0)];
    filter_orders_with_insufficient_fees(&mut orders, &prices, &gas_price(), &surcharge(), MIN_AGE, NOW)
        .unwrap();
    assert_eq!(orders.len(), 0);
}

#[test]
fn old_order_with_unconvertible_fee_is_dropped() {
    // The fee times the price overflows the exact representation: treated
    // as failing the check, so the order is dropped, not retained.
    let prices = ExternalPrices {
        entries: vec![(1, Rat { num: u128::MAX, den: 1 })],
    };
    let mut orders = vec![order(1, 2, 0)];
    filter_orders_with_insufficient_fees(&mut orders, &prices, &gas_price(), &surcharge(), MIN_AGE, NOW)
        .unwrap();
    assert_eq!(orders.len(), 0);
}

#[test]
fn relative_order_is_preserved() {
    let prices = one_to_one_prices(1);
    let mut orders = vec![order(1, 80, 0), order(1, 10, 0), order(1, 60, 0)];
    filter_orders_with_insufficient_fees(&mut orders, &prices, &gas_price(), &surcharge(), MIN_AGE, NOW)
        .unwrap();
    assert_eq!(orders.len(), 2);
    assert_eq!(orders[0].fee_amount, 80);
    assert_eq!(orders[1].fee_amount, 60);
}

#[test]
fn zero_surcharge_factor_is_a_hard_error() {
    let prices = one_to_one_prices(1);
    let zero = Rat { num: 0, den: 1 };
    let mut orders = vec![order(1, 50, 0)];
    let err =
        filter_orders_with_insufficient_fees(&mut orders, &prices, &gas_price(), &zero, MIN_AGE, NOW)
            .unwrap_err();
    assert_eq!(err, FilterError::InvalidThreshold);
    // No partial filtering took place.
    assert_eq!(orders.len(), 1);
}

#[test]
fn age_cutoff_underflow_is_a_hard_error() {
    let prices = one_to_one_prices(1);
    let mut orders = vec![order(1, 50, 0)];
    let err = filter_orders_with_insufficient_fees(
        &mut orders,
        &prices,
        &gas_price(),
        &surcharge(),
        1,
        i64::MIN,
    )
    .unwrap_err();
    assert_eq!(
        err,
        FilterError::InvalidAge {
            now: i64::MIN,
            min_age: 1
        }
    );
    assert_eq!(orders.len(), 1);
}

fn limit_order(is_liquidity_order: bool) -> LimitOrder {
    LimitOrder {
        sell_token: 1,
        buy_token: 2,
        sell_amount: 1,
        buy_amount: 1,
        kind: OrderKind::Sell,
        partially_fillable: false,
        scaled_unsubsidized_fee: 0,
        unscaled_subsidized_fee: 0,
        is_liquidity_order,
        exchange: Exchange::GnosisProtocol,
    }
}

#[test]
fn batch_with_only_liquidity_orders_has_no_user_order() {
    assert!(!has_at_least_one_user_order(&vec![]));
    assert!(!has_at_least_one_user_order(&vec![limit_order(true), limit_order(true)]));
}

#[test]
fn batch_with_a_user_order_has_one() {
    assert!(has_at_least_one_user_order(&vec![limit_order(true), limit_order(false)]));
}
