use solver::compile::order_models;
use solver::gas_model::GasModel;
use solver::graph::compute_fee_connected_tokens;
use solver::liquidity::{ConstantProductOrder, Liquidity};
use solver::orders::{Exchange, LimitOrder, OrderKind};
use solver::rational::Rat;

fn constant_product(a: u128, b: u128) -> Liquidity {
    let (lo, hi) = if a < b { (a, b) } else { (b, a) };
    Liquidity::ConstantProduct(ConstantProductOrder {
        tokens: (lo, hi),
        reserves: (0, 0),
        fee: Rat { num: 0, den: 1 },
    })
}

fn sell_order(sell_token: u128, buy_token: u128) -> LimitOrder {
    LimitOrder {
        sell_token,
        buy_token,
        sell_amount: 0,
        buy_amount: 0,
        kind: OrderKind::Sell,
        partially_fillable: false,
        scaled_unsubsidized_fee: 0,
        unscaled_subsidized_fee: 0,
        is_liquidity_order: false,
        exchange: Exchange::GnosisProtocol,
    }
}

fn as_sorted_set(mut v: Vec<u128>) -> Vec<u128> {
    v.sort();
    v
}

#[test]
fn remove_orders_without_native_connection_() {
    let native_token: u128 = 0;
    let tokens: [u128; 4] = [1, 2, 3, 4];

    let gas_model = GasModel {
        gas_price: Rat {
            num: 1_000_000_000,
            den: 1,
        },
        native_token,
    };

    let amms = vec![
        constant_product(native_token, tokens[0]),
        constant_product(tokens[0], tokens[1]),
    ];

    let orders: Vec<LimitOrder> = [
        (native_token, tokens[0]),
        (native_token, tokens[1]),
        (tokens[0], tokens[1]),
        (tokens[1], tokens[0]),
        (tokens[1], tokens[2]),
        (tokens[2], tokens[1]),
        (tokens[2], tokens[3]),
        (tokens[3], tokens[2]),
    ]
    .iter()
    .map(|tokens| sell_order(tokens.0, tokens.1))
    .collect();

    let fee_connected_tokens = compute_fee_connected_tokens(&amms, native_token);
    assert_eq!(
        as_sorted_set(fee_connected_tokens.clone()),
        vec![native_token, tokens[0], tokens[1]],
    );

    let order_models = order_models(&orders, &fee_connected_tokens, &gas_model);
    assert_eq!(order_models.len(), 6);
}

#[test]
fn closure_of_chain_is_exact() {
    // Pairs {(R, A), (A, B)}: the connected set is exactly {R, A, B}; the
    // disjoint pair (C, D) never enters it.
    let r: u128 = 0;
    let a: u128 = 1;
    let b: u128 = 2;
    let c: u128 = 10;
    let d: u128 = 11;
    let liquidity = vec![
        constant_product(r, a),
        constant_product(a, b),
        constant_product(c, d),
    ];
    let connected = compute_fee_connected_tokens(&liquidity, r);
    assert_eq!(as_sorted_set(connected), vec![r, a, b]);
}

#[test]
fn closure_is_independent_of_pair_order() {
    let r: u128 = 0;
    let a: u128 = 1;
    let b: u128 = 2;
    let c: u128 = 10;
    let d: u128 = 11;
    let forward = vec![
        constant_product(r, a),
        constant_product(a, b),
        constant_product(c, d),
    ];
    let backward = vec![
        constant_product(c, d),
        constant_product(a, b),
        constant_product(r, a),
    ];
    let from_forward = as_sorted_set(compute_fee_connected_tokens(&forward, r));
    let from_backward = as_sorted_set(compute_fee_connected_tokens(&backward, r));
    assert_eq!(from_forward, from_backward);
}

#[test]
fn passthrough_limit_orders_give_no_connectivity() {
    // A limit order between R and A is no pool pair: A stays unconnected.
    let r: u128 = 0;
    let a: u128 = 1;
    let liquidity = vec![Liquidity::LimitOrder(sell_order(r, a))];
    let connected = compute_fee_connected_tokens(&liquidity, r);
    assert_eq!(connected, vec![r]);
}
