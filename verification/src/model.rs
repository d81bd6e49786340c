//! The compiled, engine-facing optimization model: token table, order
//! table, pool table and auction metadata, plus the settlement context
//! needed to turn a solved model back into a settlement.

use vstd::prelude::*;

verus! {

use crate::gas_model::CostModel;
use crate::liquidity::Liquidity;
use crate::orders::LimitOrder;
use crate::rational::Rat;

/// Token metadata as fetched from the token info service.
#[derive(Clone, Debug, PartialEq, Eq)]
pub struct TokenInfo {
    pub decimals: Option<u8>,
    pub symbol: Option<String>,
}

/// One row of the compiled token table.
#[derive(Clone, Debug, PartialEq, Eq)]
pub struct TokenInfoModel {
    pub decimals: Option<u8>,
    pub alias: Option<String>,
    pub external_price: Option<Rat>,
    /// 1 for the reference token, 0 otherwise.
    pub normalize_priority: u64,
    pub internal_buffer: Option<u128>,
}

/// An order's fee, denominated in its sell token.
#[derive(Clone, Copy, Debug, PartialEq, Eq, Structural)]
pub struct FeeModel {
    pub amount: u128,
    pub token: u128,
}

/// One row of the compiled order table.
#[derive(Clone, Copy, Debug, PartialEq, Eq, Structural)]
pub struct OrderModel {
    pub sell_token: u128,
    pub buy_token: u128,
    pub sell_amount: u128,
    pub buy_amount: u128,
    pub allow_partial_fill: bool,
    pub is_sell_order: bool,
    pub fee: FeeModel,
    pub cost: CostModel,
    pub is_liquidity_order: bool,
    /// Reserved for future use; always false.
    pub mandatory: bool,
    pub has_atomic_execution: bool,
}

/// Reserves of a constant-product pool, keyed by token.
#[derive(Clone, Debug, PartialEq, Eq)]
pub struct ConstantProductPoolParameters {
    pub reserves: Vec<(u128, u128)>,
}

/// Balance and weight of one token of a weighted pool.
#[derive(Clone, Copy, Debug, PartialEq, Eq, Structural)]
pub struct WeightedPoolTokenData {
    pub balance: u128,
    pub weight: Rat,
}

/// Reserves of a weighted pool, keyed by token.
#[derive(Clone, Debug, PartialEq, Eq)]
pub struct WeightedProductPoolParameters {
    pub reserves: Vec<(u128, WeightedPoolTokenData)>,
}

/// Reserves, derived scaling rates and amplification parameter of a stable
/// pool.
#[derive(Clone, Debug, PartialEq, Eq)]
pub struct StablePoolParameters {
    pub reserves: Vec<(u128, u128)>,
    pub scaling_rates: Vec<(u128, u128)>,
    pub amplification_parameter: Rat,
}

/// The variant-tagged parameter block of one compiled pool.
#[derive(Clone, Debug, PartialEq, Eq)]
pub enum AmmParameters {
    ConstantProduct(ConstantProductPoolParameters),
    WeightedProduct(WeightedProductPoolParameters),
    Stable(StablePoolParameters),
}

/// One row of the compiled pool table.
#[derive(Clone, Debug, PartialEq, Eq)]
pub struct AmmModel {
    pub parameters: AmmParameters,
    pub fee: Rat,
    pub cost: CostModel,
    /// Reserved for future use; always false.
    pub mandatory: bool,
}

/// Auction metadata stamped onto the compiled model.
#[derive(Clone, Debug, PartialEq, Eq)]
pub struct MetadataModel {
    pub environment: Option<String>,
    pub auction_id: Option<u64>,
    pub gas_price: Option<Rat>,
    pub native_token: Option<u128>,
}

/// The complete compiled model handed to the optimization engine.  Order
/// and pool rows are keyed by their dense position among the compiled
/// inputs, not by indices into the caller's original lists.
#[derive(Clone, Debug, PartialEq, Eq)]
pub struct BatchAuctionModel {
    pub tokens: Vec<(u128, TokenInfoModel)>,
    pub orders: Vec<(usize, OrderModel)>,
    pub amms: Vec<(usize, AmmModel)>,
    pub metadata: Option<MetadataModel>,
}

/// The post-filter orders and liquidity needed to translate a solved model
/// back into a settlement.
#[derive(Clone, Debug, PartialEq, Eq)]
pub struct SettlementContext {
    pub orders: Vec<LimitOrder>,
    pub liquidity: Vec<Liquidity>,
}

/// Mathematical value of a pool parameter block, with reserve tables as
/// sequences.
pub enum AmmParametersView {
    ConstantProduct(Seq<(u128, u128)>),
    WeightedProduct(Seq<(u128, WeightedPoolTokenData)>),
    Stable { reserves: Seq<(u128, u128)>, scaling_rates: Seq<(u128, u128)>, amplification_parameter: Rat },
}

/// Mathematical value of one compiled pool row.
pub struct AmmModelView {
    pub parameters: AmmParametersView,
    pub fee: Rat,
    pub cost: CostModel,
    pub mandatory: bool,
}

impl View for AmmParameters {
    type V = AmmParametersView;

    open spec fn view(&self) -> AmmParametersView {
        match self {
            AmmParameters::ConstantProduct(p) => AmmParametersView::ConstantProduct(p.reserves@),
            AmmParameters::WeightedProduct(p) => AmmParametersView::WeightedProduct(p.reserves@),
            AmmParameters::Stable(p) => AmmParametersView::Stable {
                reserves: p.reserves@,
                scaling_rates: p.scaling_rates@,
                amplification_parameter: p.amplification_parameter,
            },
        }
    }
}

impl View for AmmModel {
    type V = AmmModelView;

    open spec fn view(&self) -> AmmModelView {
        AmmModelView {
            parameters: self.parameters@,
            fee: self.fee,
            cost: self.cost,
            mandatory: self.mandatory,
        }
    }
}

/// The pool table as a sequence of (position, view) rows.
pub open spec fn amms_view(s: Seq<(usize, AmmModel)>) -> Seq<(usize, AmmModelView)> {
    s.map_values(|e: (usize, AmmModel)| (e.0, e.1@))
}

/// One order's execution as reported by the engine.
#[derive(Clone, Copy, Debug, PartialEq, Eq, Structural)]
pub struct ExecutedOrderModel {
    pub exec_sell_amount: u128,
    pub exec_buy_amount: u128,
}

/// Sequencing and position of one pool interaction within a settlement.
#[derive(Clone, Copy, Debug, PartialEq, Eq, Structural)]
pub struct ExecutionPlan {
    pub sequence: u64,
    pub position: u64,
}

/// One pool interaction as reported by the engine.
#[derive(Clone, Copy, Debug, PartialEq, Eq, Structural)]
pub struct AmmExecution {
    pub sell_token: u128,
    pub buy_token: u128,
    pub exec_sell_amount: u128,
    pub exec_buy_amount: u128,
    pub exec_plan: Option<ExecutionPlan>,
}

/// One pool's executions as reported by the engine.
#[derive(Clone, Debug, PartialEq, Eq)]
pub struct ExecutedAmmModel {
    pub execution: Vec<AmmExecution>,
}

/// The engine's response: executed orders and pool interactions plus the
/// clearing prices it chose.
#[derive(Clone, Debug, PartialEq, Eq)]
pub struct SettledBatchAuctionModel {
    pub orders: Vec<(usize, ExecutedOrderModel)>,
    pub amms: Vec<(usize, ExecutedAmmModel)>,
    pub ref_token: Option<u128>,
    pub prices: Vec<(u128, u128)>,
}

impl SettledBatchAuctionModel {
    /// Whether the engine settled anything: some order was executed or some
    /// pool interaction was emitted.
    pub open spec fn spec_has_execution_plan(self) -> bool {
        self.orders@.len() > 0 || exists|i: int|
            0 <= i < self.amms@.len() && (#[trigger] self.amms@[i]).1.execution@.len() > 0
    }

    pub fn has_execution_plan(&self) -> (r: bool)
        ensures
            r == self.spec_has_execution_plan(),
    {
        if self.orders.len() > 0 {
            return true;
        }
        let n = self.amms.len();
        let mut i: usize = 0;
        while i < n
            invariant
                0 <= i <= n,
                n == self.amms@.len(),
                forall|j: int| 0 <= j < i ==> (#[trigger] self.amms@[j]).1.execution@.len() == 0,
            decreases n - i,
        {
            if self.amms[i].1.execution.len() > 0 {
                return true;
            }
            i = i + 1;
        }
        false
    }
}

} // verus!
