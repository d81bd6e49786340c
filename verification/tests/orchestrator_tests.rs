use solver::liquidity::{ConstantProductOrder, Liquidity};
use solver::orchestrator::{engine_time_budget, extend_orders_with_liquidity_limit_orders, SolveError};
use solver::orders::{Exchange, LimitOrder, OrderKind};
use solver::rational::Rat;

fn limit_order(sell_token: u128, buy_token: u128) -> LimitOrder {
    LimitOrder {
        sell_token,
        buy_token,
        sell_amount: 1,
        buy_amount: 1,
        kind: OrderKind::Sell,
        partially_fillable: false,
        scaled_unsubsidized_fee: 0,
        unscaled_subsidized_fee: 0,
        is_liquidity_order: false,
        exchange: Exchange::GnosisProtocol,
    }
}

#[test]
fn past_deadline_fails_before_the_engine_is_invoked() {
    let mut engine_calls: usize = 0;
    let outcome = engine_time_budget(10, 9);
    if outcome.is_ok() {
        // The driver invokes the engine only with a budget in hand.
        engine_calls += 1;
    }
    assert_eq!(engine_calls, 0);
    assert_eq!(
        outcome.unwrap_err(),
        SolveError::NoTimeLeft {
            now: 10,
            deadline: 9
        }
    );
}

#[test]
fn deadline_not_yet_reached_gives_the_remaining_budget() {
    assert_eq!(engine_time_budget(10, 25).unwrap(), 15);
    assert_eq!(engine_time_budget(10, 10).unwrap(), 0);
}

#[test]
fn passthrough_limit_orders_are_appended_in_order() {
    let mut orders = vec![limit_order(1, 2)];
    let liquidity = vec![
        Liquidity::LimitOrder(limit_order(3, 4)),
        Liquidity::ConstantProduct(ConstantProductOrder {
            tokens: (5, 6),
            reserves: (1, 1),
            fee: Rat { num: 0, den: 1 },
        }),
        Liquidity::LimitOrder(limit_order(7, 8)),
    ];
    extend_orders_with_liquidity_limit_orders(&mut orders, &liquidity);
    assert_eq!(orders.len(), 3);
    assert_eq!(orders[0].sell_token, 1);
    assert_eq!(orders[1].sell_token, 3);
    assert_eq!(orders[2].sell_token, 7);
}
