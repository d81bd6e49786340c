use solver::compile::compile_model;
use solver::liquidity::{ConstantProductOrder, Liquidity, StablePoolOrder, StableTokenState};
use solver::model::{AmmParameters, SettledBatchAuctionModel, ExecutedAmmModel, ExecutedOrderModel, AmmExecution, ExecutionPlan, TokenInfo};
use solver::orders::{Exchange, ExternalPrices, LimitOrder, OrderKind};
use solver::rational::Rat;

fn base(x: u128) -> u128 {
    x * 10u128.pow(18)
}

fn sell_order(sell_token: u128, buy_token: u128, sell_amount: u128, buy_amount: u128) -> LimitOrder {
    LimitOrder {
        sell_token,
        buy_token,
        sell_amount,
        buy_amount,
        kind: OrderKind::Sell,
        partially_fillable: false,
        scaled_unsubsidized_fee: 0,
        unscaled_subsidized_fee: 0,
        is_liquidity_order: false,
        exchange: Exchange::GnosisProtocol,
    }
}

fn token_info(symbol: &str) -> TokenInfo {
    TokenInfo {
        decimals: Some(18),
        symbol: Some(symbol.to_string()),
    }
}

#[test]
fn end_to_end_sell_order_with_pool() {
    // One sell order: sell 2 units of S for at least 1 unit of B, plus one
    // constant-product pool over (S, B) with equal reserves and zero fee.
    let buy_token: u128 = 1337;
    let sell_token: u128 = 43110;
    let native_token: u128 = 0;

    let orders = vec![sell_order(sell_token, buy_token, base(2), base(1))];
    let liquidity = vec![Liquidity::ConstantProduct(ConstantProductOrder {
        tokens: (buy_token, sell_token),
        reserves: (base(100), base(100)),
        fee: Rat { num: 0, den: 1 },
    })];
    let token_infos = vec![(buy_token, token_info("CAT")), (sell_token, token_info("CAT"))];
    let buffers = vec![(buy_token, 42u128), (sell_token, 1337u128)];
    let gas_price = Rat { num: 100, den: 1 };
    let external_prices = ExternalPrices { entries: vec![] };

    let (model, context) = compile_model(
        0,
        orders,
        liquidity,
        &gas_price,
        &external_prices,
        &token_infos,
        &buffers,
        "mock_network_id".to_string(),
        native_token,
    );

    // Two-token table with the fetched metadata and buffers.
    assert_eq!(model.tokens.len(), 2);
    assert_eq!(model.tokens[0].0, buy_token);
    assert_eq!(model.tokens[0].1.internal_buffer, Some(42));
    assert_eq!(model.tokens[1].1.internal_buffer, Some(1337));
    assert_eq!(model.tokens[0].1.decimals, Some(18));
    assert_eq!(model.tokens[0].1.alias.as_deref(), Some("CAT"));

    // One-entry order table: the pool connects S and B to nothing beyond
    // themselves, but the order touches pool tokens, so it is only
    // included when one of its tokens is fee-connected.  With the
    // reference token outside the pool, nothing is connected, so the pool
    // pair alone decides: S and B are not reachable from token 0.
    assert_eq!(model.orders.len(), 0);

    // Re-run with the sell token as the reference token: now everything is
    // connected and the order table has one sell order.
    let orders = vec![sell_order(sell_token, buy_token, base(2), base(1))];
    let liquidity = vec![Liquidity::ConstantProduct(ConstantProductOrder {
        tokens: (buy_token, sell_token),
        reserves: (base(100), base(100)),
        fee: Rat { num: 0, den: 1 },
    })];
    let (model, context2) = compile_model(
        0,
        orders,
        liquidity,
        &gas_price,
        &external_prices,
        &token_infos,
        &buffers,
        "mock_network_id".to_string(),
        sell_token,
    );
    assert_eq!(model.orders.len(), 1);
    let (order_key, order_row) = &model.orders[0];
    assert_eq!(*order_key, 0);
    assert!(order_row.is_sell_order);
    assert_eq!(order_row.sell_amount, base(2));
    assert!(!order_row.mandatory);

    // One-entry pool table with reserves keyed by S and B.
    assert_eq!(model.amms.len(), 1);
    let (amm_key, amm_row) = &model.amms[0];
    assert_eq!(*amm_key, 0);
    match &amm_row.parameters {
        AmmParameters::ConstantProduct(p) => {
            assert_eq!(
                p.reserves,
                vec![(buy_token, base(100)), (sell_token, base(100))]
            );
        }
        _ => panic!("expected a constant-product parameter block"),
    }

    // Metadata is stamped.
    let metadata = model.metadata.as_ref().unwrap();
    assert_eq!(metadata.auction_id, Some(0));
    assert_eq!(metadata.environment.as_deref(), Some("mock_network_id"));
    assert_eq!(metadata.native_token, Some(sell_token));

    // Feed a solved response that fully fills the order at a favorable
    // rate; the settlement context row keyed by the order table maps back
    // to the original order.
    let settled = SettledBatchAuctionModel {
        orders: vec![(
            0,
            ExecutedOrderModel {
                exec_sell_amount: base(2),
                exec_buy_amount: base(2),
            },
        )],
        amms: vec![(
            0,
            ExecutedAmmModel {
                execution: vec![AmmExecution {
                    sell_token: buy_token,
                    buy_token: sell_token,
                    exec_sell_amount: base(2),
                    exec_buy_amount: base(2),
                    exec_plan: Some(ExecutionPlan {
                        sequence: 0,
                        position: 0,
                    }),
                }],
            },
        )],
        ref_token: Some(sell_token),
        prices: vec![(buy_token, base(1)), (sell_token, base(1))],
    };
    assert!(settled.has_execution_plan());
    let (executed_key, executed) = &settled.orders[0];
    assert_eq!(executed.exec_sell_amount, base(2));
    assert!(executed.exec_buy_amount > 0);
    let context_order = &context2.orders[*executed_key];
    assert_eq!(context_order.sell_amount, base(2));
    assert_eq!(context_order.sell_token, sell_token);
    // The first compile's context kept its inputs too.
    assert_eq!(context.orders.len(), 1);
}

#[test]
fn compiling_twice_yields_identical_models() {
    let native_token: u128 = 0;
    let orders = vec![sell_order(1, 2, base(2), base(1))];
    let liquidity = vec![Liquidity::ConstantProduct(ConstantProductOrder {
        tokens: (0, 1),
        reserves: (base(5), base(7)),
        fee: Rat { num: 3, den: 1000 },
    })];
    let token_infos = vec![(1, token_info("AAA")), (2, token_info("BBB"))];
    let buffers = vec![(1, 5u128)];
    let gas_price = Rat { num: 1_000_000_000, den: 1 };
    let external_prices = ExternalPrices {
        entries: vec![(1, Rat { num: 2, den: 1 })],
    };

    let (model1, context1) = compile_model(
        7,
        orders.clone(),
        liquidity.clone(),
        &gas_price,
        &external_prices,
        &token_infos,
        &buffers,
        "env".to_string(),
        native_token,
    );
    let (model2, context2) = compile_model(
        7,
        orders,
        liquidity,
        &gas_price,
        &external_prices,
        &token_infos,
        &buffers,
        "env".to_string(),
        native_token,
    );
    assert_eq!(model1, model2);
    assert_eq!(context1, context2);
}

#[test]
fn order_with_no_fee_connected_token_is_pruned() {
    // Pool (0, 1) connects tokens 0 and 1 to the reference token 0.  An
    // order between 5 and 6 has no fee-connected side and never appears in
    // the order table; the order between 1 and 5 stays.
    let native_token: u128 = 0;
    let orders = vec![
        sell_order(5, 6, base(1), base(1)),
        sell_order(1, 5, base(1), base(1)),
    ];
    let liquidity = vec![Liquidity::ConstantProduct(ConstantProductOrder {
        tokens: (0, 1),
        reserves: (base(5), base(5)),
        fee: Rat { num: 0, den: 1 },
    })];
    let (model, context) = compile_model(
        1,
        orders,
        liquidity,
        &Rat { num: 100, den: 1 },
        &ExternalPrices { entries: vec![] },
        &vec![],
        &vec![],
        "env".to_string(),
        native_token,
    );
    assert_eq!(model.orders.len(), 1);
    // The remaining row is keyed by the order's position in the context
    // list, in one-to-one correspondence with it.
    assert_eq!(model.orders[0].0, 1);
    assert_eq!(context.orders[model.orders[0].0].sell_token, 1);
}

#[test]
fn stable_pool_with_bad_exponent_is_dropped_alone() {
    let native_token: u128 = 0;
    let good = Liquidity::BalancerStable(StablePoolOrder {
        reserves: vec![
            (0, StableTokenState { balance: base(1), scaling_exponent: 18 }),
            (1, StableTokenState { balance: base(1), scaling_exponent: 0 }),
        ],
        fee: Rat { num: 1, den: 100 },
        amplification_parameter: Rat { num: 50, den: 1 },
    });
    let bad = Liquidity::BalancerStable(StablePoolOrder {
        reserves: vec![(2, StableTokenState { balance: base(1), scaling_exponent: 19 })],
        fee: Rat { num: 1, den: 100 },
        amplification_parameter: Rat { num: 50, den: 1 },
    });
    let (model, _context) = compile_model(
        1,
        vec![],
        vec![bad, good],
        &Rat { num: 100, den: 1 },
        &ExternalPrices { entries: vec![] },
        &vec![],
        &vec![],
        "env".to_string(),
        native_token,
    );
    // The bad pool (position 0) is dropped; the good one keeps position 1.
    assert_eq!(model.amms.len(), 1);
    assert_eq!(model.amms[0].0, 1);
    match &model.amms[0].1.parameters {
        AmmParameters::Stable(p) => {
            assert_eq!(p.scaling_rates, vec![(0, 1), (1, 10u128.pow(18))]);
        }
        _ => panic!("expected a stable parameter block"),
    }
}
