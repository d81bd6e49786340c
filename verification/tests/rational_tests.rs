use solver::arith::{mul_wide, wide_ge};
use solver::buffers::{filter_buffers, is_transaction_failure, BufferRetrievalError, ExecutionError};
use solver::gas_model::{cost_amount, GasModel, GAS_PER_GP_ORDER};
use solver::rational::Rat;

#[test]
fn wide_product_is_exact() {
    assert_eq!(mul_wide(2, 3), (0, 6));
    // (2^128 - 1)^2 == (2^128 - 2) * 2^128 + 1.
    assert_eq!(mul_wide(u128::MAX, u128::MAX), (u128::MAX - 1, 1));
    assert_eq!(mul_wide(1 << 64, 1 << 64), (1, 0));
}

#[test]
fn wide_comparison_orders_by_value() {
    assert!(wide_ge((1, 0), (0, u128::MAX)));
    assert!(!wide_ge((0, u128::MAX), (1, 0)));
    assert!(wide_ge((3, 5), (3, 5)));
}

#[test]
fn rational_comparison_is_exact() {
    let half = Rat { num: 1, den: 2 };
    let third = Rat { num: 1, den: 3 };
    assert!(half.ge(&third));
    assert!(!third.ge(&half));
    // Equal values in different representations compare equal both ways.
    let two_sixths = Rat { num: 2, den: 6 };
    assert!(third.ge(&two_sixths));
    assert!(two_sixths.ge(&third));
    // Huge components stay exact.
    let a = Rat { num: u128::MAX, den: u128::MAX - 1 };
    let b = Rat { num: u128::MAX - 1, den: u128::MAX - 2 };
    assert!(b.ge(&a));
    assert!(!a.ge(&b));
}

#[test]
fn checked_multiplication_detects_overflow() {
    let a = Rat { num: u128::MAX, den: 1 };
    let two = Rat { num: 2, den: 1 };
    assert!(a.checked_mul(&two).is_none());
    let b = Rat { num: 6, den: 35 };
    let c = Rat { num: 7, den: 3 };
    assert_eq!(b.checked_mul(&c), Some(Rat { num: 42, den: 105 }));
}

#[test]
fn checked_division_rejects_zero() {
    let a = Rat { num: 3, den: 4 };
    let zero = Rat { num: 0, den: 1 };
    assert!(a.checked_div(&zero).is_none());
    let half = Rat { num: 1, den: 2 };
    assert_eq!(a.checked_div(&half), Some(Rat { num: 6, den: 4 }));
}

#[test]
fn cost_amount_rounds_down_and_saturates() {
    assert_eq!(cost_amount(10, &Rat { num: 3, den: 2 }), 15);
    assert_eq!(cost_amount(10, &Rat { num: 1, den: 3 }), 3);
    assert_eq!(cost_amount(2, &Rat { num: u128::MAX, den: 1 }), u128::MAX);
}

#[test]
fn order_cost_uses_the_gas_price() {
    let gas = GasModel {
        native_token: 0,
        gas_price: Rat { num: 200, den: 1 },
    };
    let cost = gas.gp_order_cost();
    assert_eq!(cost.amount, (GAS_PER_GP_ORDER as u128) * 200);
    assert_eq!(cost.token, 0);
}

#[test]
fn transaction_failures_are_classified() {
    assert!(is_transaction_failure(&ExecutionError::Failure));
    assert!(is_transaction_failure(&ExecutionError::Revert));
    assert!(is_transaction_failure(&ExecutionError::InvalidOpcode));
    assert!(!is_transaction_failure(&ExecutionError::Other));
}

#[test]
fn failed_buffer_fetches_drop_only_their_token() {
    let results = vec![
        (1u128, Ok(10u128)),
        (2, Err(BufferRetrievalError::Erc20(ExecutionError::Revert))),
        (3, Ok(30)),
        (4, Err(BufferRetrievalError::Other)),
    ];
    let buffers = filter_buffers(&results);
    assert_eq!(buffers, vec![(1, 10), (3, 30)]);
}
