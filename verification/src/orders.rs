//! Orders as seen by this pipeline.  Tokens are identified by plain `u128`
//! ids assigned by the embedder; all amounts are integer base units and all
//! fees and prices are exact rationals.

use vstd::prelude::*;

verus! {

use crate::rational::Rat;

/// Whether the fixed side of an order is the sell side or the buy side.
#[derive(Clone, Copy, Debug, PartialEq, Eq, Structural)]
pub enum OrderKind {
    Sell,
    Buy,
}

/// Origin of an order: the settlement protocol itself or a passthrough
/// exchange.
#[derive(Clone, Copy, Debug, PartialEq, Eq, Structural)]
pub enum Exchange {
    GnosisProtocol,
    ZeroEx,
}

/// A user order as observed by the fee-viability filter.  Immutable once
/// observed; the creation timestamp is in seconds.
#[derive(Clone, Copy, Debug, PartialEq, Eq, Structural)]
pub struct Order {
    pub sell_token: u128,
    pub buy_token: u128,
    pub sell_amount: u128,
    pub buy_amount: u128,
    pub kind: OrderKind,
    pub partially_fillable: bool,
    /// Fee denominated in the sell token.
    pub fee_amount: u128,
    pub exchange: Exchange,
    pub is_liquidity_order: bool,
    pub creation_date: i64,
}

/// An order in the form handed to model compilation, with both fee views
/// carried as given inputs.
#[derive(Clone, Copy, Debug, PartialEq, Eq, Structural)]
pub struct LimitOrder {
    pub sell_token: u128,
    pub buy_token: u128,
    pub sell_amount: u128,
    pub buy_amount: u128,
    pub kind: OrderKind,
    pub partially_fillable: bool,
    pub scaled_unsubsidized_fee: u128,
    pub unscaled_subsidized_fee: u128,
    pub is_liquidity_order: bool,
    pub exchange: Exchange,
}

/// A batch is worth solving only if some entry is a genuine user order
/// rather than a liquidity order.
pub fn has_at_least_one_user_order(orders: &Vec<LimitOrder>) -> (r: bool)
    ensures
        r == exists|i: int| 0 <= i < orders@.len() && !orders@[i].is_liquidity_order,
{
    let n = orders.len();
    let mut i: usize = 0;
    while i < n
        invariant
            0 <= i <= n,
            n == orders@.len(),
            forall|j: int| 0 <= j < i ==> orders@[j].is_liquidity_order,
        decreases n - i,
    {
        if !orders[i].is_liquidity_order {
            return true;
        }
        i = i + 1;
    }
    false
}

/// External prices: for each token, its price in the reference numeraire as
/// an exact rational.
#[derive(Clone, Debug, PartialEq, Eq)]
pub struct ExternalPrices {
    pub entries: Vec<(u128, Rat)>,
}

impl ExternalPrices {
    /// Well-formedness: one entry per token, each price a valid rational.
    pub open spec fn wf(self) -> bool {
        &&& crate::table::distinct_keys(self.entries@)
        &&& forall|i: int| 0 <= i < self.entries@.len() ==> (#[trigger] self.entries@[i]).1.wf()
    }

    /// The price of a token, if one was supplied.
    pub open spec fn spec_price(self, token: u128) -> Option<Rat> {
        crate::table::lookup(self.entries@, token)
    }

    /// Looks up the price of a token.
    pub fn price(&self, token: u128) -> (r: Option<&Rat>)
        ensures
            match r {
                Some(p) => self.spec_price(token) == Some(*p),
                None => self.spec_price(token) is None,
            },
    {
        crate::table::table_get(&self.entries, token)
    }

    /// A found price is a valid rational.
    pub proof fn lemma_price_wf(self, token: u128)
        requires
            self.wf(),
            self.spec_price(token) is Some,
        ensures
            self.spec_price(token)->Some_0.wf(),
    {
        crate::table::lemma_lookup_entry(self.entries@, token);
    }
}

} // verus!
