//! Gas cost model: fixed per-category execution costs derived from the
//! current gas price, denominated in the native token.

use vstd::prelude::*;

verus! {

use crate::rational::Rat;

/// Gas units charged for settling one protocol order.
pub const GAS_PER_GP_ORDER: u64 = 66_315;

/// Gas units charged for settling one passthrough-exchange order.
pub const GAS_PER_ZEROEX_ORDER: u64 = 194_092;

/// Gas units charged for one constant-product pool interaction.
pub const GAS_PER_UNISWAP_SWAP: u64 = 94_696;

/// Gas units charged for one weighted or stable pool interaction.
pub const GAS_PER_BALANCER_SWAP: u64 = 120_000;

/// A cost in base units of a token (normally the native token).
#[derive(Clone, Copy, Debug, PartialEq, Eq, Structural)]
pub struct CostModel {
    pub amount: u128,
    pub token: u128,
}

/// The reference token and the current gas price in native units.
#[derive(Clone, Copy, Debug, PartialEq, Eq, Structural)]
pub struct GasModel {
    pub native_token: u128,
    pub gas_price: Rat,
}

/// `gas` units at the given price, rounded down to base units; saturates at
/// the representable maximum.
pub open spec fn spec_cost_amount(gas: u64, price: Rat) -> u128 {
    if gas * price.num <= u128::MAX {
        ((gas * price.num) / (price.den as int)) as u128
    } else {
        u128::MAX
    }
}

/// Computes `gas` units at the given price.
pub fn cost_amount(gas: u64, price: &Rat) -> (r: u128)
    requires
        price.wf(),
    ensures
        r == spec_cost_amount(gas, *price),
{
    match (gas as u128).checked_mul(price.num) {
        Some(p) => p / price.den,
        None => u128::MAX,
    }
}

impl GasModel {
    pub open spec fn wf(self) -> bool {
        self.gas_price.wf()
    }

    /// The cost charged for one protocol order.
    pub open spec fn spec_gp_order_cost(self) -> CostModel {
        CostModel {
            amount: spec_cost_amount(GAS_PER_GP_ORDER, self.gas_price),
            token: self.native_token,
        }
    }

    pub fn gp_order_cost(&self) -> (r: CostModel)
        requires
            self.wf(),
        ensures
            r == self.spec_gp_order_cost(),
    {
        CostModel { amount: cost_amount(GAS_PER_GP_ORDER, &self.gas_price), token: self.native_token }
    }

    /// The cost charged for one passthrough-exchange order.
    pub open spec fn spec_zeroex_order_cost(self) -> CostModel {
        CostModel {
            amount: spec_cost_amount(GAS_PER_ZEROEX_ORDER, self.gas_price),
            token: self.native_token,
        }
    }

    pub fn zeroex_order_cost(&self) -> (r: CostModel)
        requires
            self.wf(),
        ensures
            r == self.spec_zeroex_order_cost(),
    {
        CostModel {
            amount: cost_amount(GAS_PER_ZEROEX_ORDER, &self.gas_price),
            token: self.native_token,
        }
    }

    /// The cost charged for one constant-product pool interaction.
    pub open spec fn spec_uniswap_cost(self) -> CostModel {
        CostModel {
            amount: spec_cost_amount(GAS_PER_UNISWAP_SWAP, self.gas_price),
            token: self.native_token,
        }
    }

    pub fn uniswap_cost(&self) -> (r: CostModel)
        requires
            self.wf(),
        ensures
            r == self.spec_uniswap_cost(),
    {
        CostModel {
            amount: cost_amount(GAS_PER_UNISWAP_SWAP, &self.gas_price),
            token: self.native_token,
        }
    }

    /// The cost charged for one weighted or stable pool interaction.
    pub open spec fn spec_balancer_cost(self) -> CostModel {
        CostModel {
            amount: spec_cost_amount(GAS_PER_BALANCER_SWAP, self.gas_price),
            token: self.native_token,
        }
    }

    pub fn balancer_cost(&self) -> (r: CostModel)
        requires
            self.wf(),
        ensures
            r == self.spec_balancer_cost(),
    {
        CostModel {
            amount: cost_amount(GAS_PER_BALANCER_SWAP, &self.gas_price),
            token: self.native_token,
        }
    }
}

} // verus!
