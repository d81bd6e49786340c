//! Model compilation: transforms filtered orders and liquidity into the
//! token-indexed optimization model, consulting the fee-connectivity
//! closure, external prices, token metadata and buffer balances.

use vstd::prelude::*;

verus! {

use crate::gas_model::GasModel;
use crate::graph::{connected, pair_set};
use crate::liquidity::Liquidity;
use crate::model::{
    AmmModel, AmmModelView, AmmParameters, AmmParametersView, BatchAuctionModel,
    ConstantProductPoolParameters, FeeModel, MetadataModel, OrderModel, SettlementContext,
    StablePoolParameters, TokenInfo, TokenInfoModel, WeightedPoolTokenData,
    WeightedProductPoolParameters, amms_view,
};
use crate::orders::{Exchange, ExternalPrices, LimitOrder, OrderKind};
use crate::rational::Rat;

/// Whether the order references the token on either side.
pub open spec fn order_token(o: LimitOrder, t: u128) -> bool {
    o.sell_token == t || o.buy_token == t
}

/// Whether the liquidity entry references the token.
pub open spec fn liquidity_token(l: Liquidity, t: u128) -> bool {
    match l {
        Liquidity::ConstantProduct(c) => c.tokens.0 == t || c.tokens.1 == t,
        Liquidity::BalancerWeighted(w) => exists|i: int|
            0 <= i < w.reserves@.len() && (#[trigger] w.reserves@[i]).0 == t,
        Liquidity::BalancerStable(s) => exists|i: int|
            0 <= i < s.reserves@.len() && (#[trigger] s.reserves@[i]).0 == t,
        Liquidity::LimitOrder(o) => order_token(o, t),
    }
}

/// Whether any order or liquidity entry references the token.
pub open spec fn token_referenced(orders: Seq<LimitOrder>, liq: Seq<Liquidity>, t: u128) -> bool {
    (exists|i: int| 0 <= i < orders.len() && order_token(#[trigger] orders[i], t)) || (exists|
        k: int,
    |
        0 <= k < liq.len() && liquidity_token(#[trigger] liq[k], t))
}

/// Collects the tokens of one liquidity entry.
fn insert_liquidity_tokens(l: &Liquidity, tokens: &mut Vec<u128>)
    requires
        old(tokens)@.no_duplicates(),
    ensures
        final(tokens)@.no_duplicates(),
        forall|x: u128| #[trigger]
            final(tokens)@.contains(x) ==> old(tokens)@.contains(x) || liquidity_token(*l, x),
        forall|x: u128| #[trigger] old(tokens)@.contains(x) ==> final(tokens)@.contains(x),
        forall|x: u128| #[trigger] liquidity_token(*l, x) ==> final(tokens)@.contains(x),
{
    match l {
        Liquidity::ConstantProduct(c) => {
            crate::table::insert_token(tokens, c.tokens.0);
            crate::table::insert_token(tokens, c.tokens.1);
        },
        Liquidity::BalancerWeighted(w) => {
            let n = w.reserves.len();
            let mut i: usize = 0;
            while i < n
                invariant
                    0 <= i <= n,
                    n == w.reserves@.len(),
                    tokens@.no_duplicates(),
                    forall|x: u128|
                        tokens@.contains(x) <==> old(tokens)@.contains(x) || (exists|k: int|
                            0 <= k < i && (#[trigger] w.reserves@[k]).0 == x),
                decreases n - i,
            {
                crate::table::insert_token(tokens, w.reserves[i].0);
                i = i + 1;
            }
        },
        Liquidity::BalancerStable(s) => {
            let n = s.reserves.len();
            let mut i: usize = 0;
            while i < n
                invariant
                    0 <= i <= n,
                    n == s.reserves@.len(),
                    tokens@.no_duplicates(),
                    forall|x: u128|
                        tokens@.contains(x) <==> old(tokens)@.contains(x) || (exists|k: int|
                            0 <= k < i && (#[trigger] s.reserves@[k]).0 == x),
                decreases n - i,
            {
                crate::table::insert_token(tokens, s.reserves[i].0);
                i = i + 1;
            }
        },
        Liquidity::LimitOrder(o) => {
            crate::table::insert_token(tokens, o.sell_token);
            crate::table::insert_token(tokens, o.buy_token);
        },
    }
}

/// Token discovery: the union of every token referenced by any order or
/// liquidity entry, without duplicates.  The order of discovery carries no
/// meaning; only the set matters.
pub fn map_tokens_for_solver(orders: &Vec<LimitOrder>, liquidity: &Vec<Liquidity>) -> (r: Vec<
    u128,
>)
    ensures
        r@.no_duplicates(),
        forall|t: u128| r@.contains(t) <==> token_referenced(orders@, liquidity@, t),
{
    let mut tokens: Vec<u128> = Vec::new();
    let n = orders.len();
    let mut i: usize = 0;
    while i < n
        invariant
            0 <= i <= n,
            n == orders@.len(),
            tokens@.no_duplicates(),
            forall|x: u128|
                tokens@.contains(x) <==> exists|k: int|
                    0 <= k < i && order_token(#[trigger] orders@[k], x),
        decreases n - i,
    {
        crate::table::insert_token(&mut tokens, orders[i].sell_token);
        crate::table::insert_token(&mut tokens, orders[i].buy_token);
        proof {
            assert forall|x: u128| #[trigger]
                tokens@.contains(x) implies exists|k: int|
                0 <= k < i + 1 && order_token(#[trigger] orders@[k], x) by {
                if !(exists|k: int| 0 <= k < i && order_token(#[trigger] orders@[k], x)) {
                    assert(order_token(orders@[i as int], x));
                }
            }
        }
        i = i + 1;
    }
    let m = liquidity.len();
    let mut k: usize = 0;
    while k < m
        invariant
            0 <= k <= m,
            m == liquidity@.len(),
            tokens@.no_duplicates(),
            forall|x: u128|
                tokens@.contains(x) <==> (exists|j: int|
                    0 <= j < orders@.len() && order_token(#[trigger] orders@[j], x)) || (exists|
                    j: int,
                |
                    0 <= j < k && liquidity_token(#[trigger] liquidity@[j], x)),
        decreases m - k,
    {
        let ghost before = tokens@;
        insert_liquidity_tokens(&liquidity[k], &mut tokens);
        proof {
            assert forall|x: u128| #[trigger]
                tokens@.contains(x) implies (exists|j: int|
                0 <= j < orders@.len() && order_token(#[trigger] orders@[j], x)) || (exists|j: int|
                0 <= j < k + 1 && liquidity_token(#[trigger] liquidity@[j], x)) by {
                if !(exists|j: int| 0 <= j < orders@.len() && order_token(#[trigger] orders@[j], x))
                    && !(exists|j: int|
                    0 <= j < k && liquidity_token(#[trigger] liquidity@[j], x)) {
                    assert(liquidity_token(liquidity@[k as int], x));
                }
            }
            assert forall|x: u128|
                (exists|j: int| 0 <= j < orders@.len() && order_token(#[trigger] orders@[j], x))
                    || (exists|j: int|
                    0 <= j < k + 1 && liquidity_token(
                        #[trigger] liquidity@[j],
                        x,
                    )) implies #[trigger] tokens@.contains(x) by {
                assert(tokens@.contains(x) <==> before.contains(x) || liquidity_token(
                    liquidity@[k as int],
                    x,
                ));
                if exists|j: int| 0 <= j < orders@.len() && order_token(#[trigger] orders@[j], x) {
                    assert(before.contains(x));
                } else {
                    let j = choose|j: int|
                        0 <= j < k + 1 && liquidity_token(#[trigger] liquidity@[j], x);
                    if j < k {
                        assert(exists|jj: int|
                            0 <= jj < k && liquidity_token(#[trigger] liquidity@[jj], x));
                        assert(before.contains(x));
                    } else {
                        assert(liquidity_token(liquidity@[k as int], x));
                    }
                }
            }
        }
        k = k + 1;
    }
    tokens
}

/// The fee carried into the order table: liquidity orders use the unscaled
/// subsidized fee, user orders the scaled unsubsidized fee.
pub open spec fn spec_order_fee(o: LimitOrder) -> FeeModel {
    FeeModel {
        amount: if o.is_liquidity_order {
            o.unscaled_subsidized_fee
        } else {
            o.scaled_unsubsidized_fee
        },
        token: o.sell_token,
    }
}

pub fn order_fee(order: &LimitOrder) -> (r: FeeModel)
    ensures
        r == spec_order_fee(*order),
{
    let amount = if order.is_liquidity_order {
        order.unscaled_subsidized_fee
    } else {
        order.scaled_unsubsidized_fee
    };
    FeeModel { amount, token: order.sell_token }
}

/// One row of the order table.
pub open spec fn spec_order_model(o: LimitOrder, gas: GasModel) -> OrderModel {
    OrderModel {
        sell_token: o.sell_token,
        buy_token: o.buy_token,
        sell_amount: o.sell_amount,
        buy_amount: o.buy_amount,
        allow_partial_fill: o.partially_fillable,
        is_sell_order: o.kind is Sell,
        fee: spec_order_fee(o),
        cost: match o.exchange {
            Exchange::GnosisProtocol => gas.spec_gp_order_cost(),
            Exchange::ZeroEx => gas.spec_zeroex_order_cost(),
        },
        is_liquidity_order: o.is_liquidity_order,
        mandatory: false,
        has_atomic_execution: !(o.exchange is GnosisProtocol),
    }
}

/// An order enters the model only if at least one of its tokens is
/// fee-connected.
pub open spec fn order_included(o: LimitOrder, conn: Set<u128>) -> bool {
    conn.contains(o.sell_token) || conn.contains(o.buy_token)
}

/// The order table: rows keyed by position in the input order list, for
/// exactly the included orders.
pub open spec fn spec_order_models(orders: Seq<LimitOrder>, conn: Set<u128>, gas: GasModel) -> Seq<
    (usize, OrderModel),
>
    decreases orders.len(),
{
    if orders.len() == 0 {
        Seq::empty()
    } else {
        let rest = spec_order_models(orders.drop_last(), conn, gas);
        if order_included(orders.last(), conn) {
            rest.push(((orders.len() - 1) as usize, spec_order_model(orders.last(), gas)))
        } else {
            rest
        }
    }
}

proof fn lemma_order_models_push(orders: Seq<LimitOrder>, o: LimitOrder, conn: Set<u128>, gas: GasModel)
    ensures
        spec_order_models(orders.push(o), conn, gas) == if order_included(o, conn) {
            spec_order_models(orders, conn, gas).push(
                (orders.len() as usize, spec_order_model(o, gas)),
            )
        } else {
            spec_order_models(orders, conn, gas)
        },
{
    assert(orders.push(o).drop_last() =~= orders);
    assert(orders.push(o).last() == o);
}

/// Builds the order table from the given orders and fee-connected tokens.
pub fn order_models(
    orders: &Vec<LimitOrder>,
    fee_connected_tokens: &Vec<u128>,
    gas_model: &GasModel,
) -> (r: Vec<(usize, OrderModel)>)
    requires
        gas_model.wf(),
    ensures
        r@ == spec_order_models(orders@, fee_connected_tokens@.to_set(), *gas_model),
{
    let ghost conn = fee_connected_tokens@.to_set();
    let mut out: Vec<(usize, OrderModel)> = Vec::new();
    let n = orders.len();
    let mut i: usize = 0;
    proof {
        assert(orders@.subrange(0, 0) =~= Seq::<LimitOrder>::empty());
    }
    while i < n
        invariant
            0 <= i <= n,
            n == orders@.len(),
            gas_model.wf(),
            conn == fee_connected_tokens@.to_set(),
            out@ == spec_order_models(orders@.subrange(0, i as int), conn, *gas_model),
        decreases n - i,
    {
        let order = orders[i];
        let included = crate::table::contains_token(fee_connected_tokens, order.sell_token)
            || crate::table::contains_token(fee_connected_tokens, order.buy_token);
        if included {
            let cost = match order.exchange {
                Exchange::GnosisProtocol => gas_model.gp_order_cost(),
                Exchange::ZeroEx => gas_model.zeroex_order_cost(),
            };
            let model = OrderModel {
                sell_token: order.sell_token,
                buy_token: order.buy_token,
                sell_amount: order.sell_amount,
                buy_amount: order.buy_amount,
                allow_partial_fill: order.partially_fillable,
                is_sell_order: matches!(order.kind, OrderKind::Sell),
                fee: order_fee(&order),
                cost,
                is_liquidity_order: order.is_liquidity_order,
                mandatory: false,
                has_atomic_execution: !matches!(order.exchange, Exchange::GnosisProtocol),
            };
            out.push((i, model));
        }
        proof {
            let prefix = orders@.subrange(0, i as int);
            assert(orders@.subrange(0, i + 1) =~= prefix.push(orders@[i as int]));
            lemma_order_models_push(prefix, orders@[i as int], conn, *gas_model);
        }
        i = i + 1;
    }
    proof {
        assert(orders@.subrange(0, n as int) =~= orders@);
    }
    out
}

/// One row of the token table.
pub open spec fn spec_token_model(
    token: u128,
    info: TokenInfo,
    prices: ExternalPrices,
    buffers: Seq<(u128, u128)>,
    gas: GasModel,
) -> TokenInfoModel {
    TokenInfoModel {
        decimals: info.decimals,
        alias: info.symbol,
        external_price: prices.spec_price(token),
        normalize_priority: if token == gas.native_token {
            1
        } else {
            0
        },
        internal_buffer: crate::table::lookup(buffers, token),
    }
}

/// The token table, one row per fetched token info, in table order.
pub open spec fn spec_token_models(
    infos: Seq<(u128, TokenInfo)>,
    prices: ExternalPrices,
    buffers: Seq<(u128, u128)>,
    gas: GasModel,
) -> Seq<(u128, TokenInfoModel)>
    decreases infos.len(),
{
    if infos.len() == 0 {
        Seq::empty()
    } else {
        spec_token_models(infos.drop_last(), prices, buffers, gas).push(
            (infos.last().0, spec_token_model(infos.last().0, infos.last().1, prices, buffers, gas)),
        )
    }
}

proof fn lemma_token_models_push(
    infos: Seq<(u128, TokenInfo)>,
    e: (u128, TokenInfo),
    prices: ExternalPrices,
    buffers: Seq<(u128, u128)>,
    gas: GasModel,
)
    ensures
        spec_token_models(infos.push(e), prices, buffers, gas) == spec_token_models(
            infos,
            prices,
            buffers,
            gas,
        ).push((e.0, spec_token_model(e.0, e.1, prices, buffers, gas))),
{
    assert(infos.push(e).drop_last() =~= infos);
    assert(infos.push(e).last() == e);
}

/// Builds the token table: metadata, external price, buffer balance and
/// reference-token priority for each fetched token.
pub fn token_models(
    token_infos: &Vec<(u128, TokenInfo)>,
    external_prices: &ExternalPrices,
    buffers: &Vec<(u128, u128)>,
    gas_model: &GasModel,
) -> (r: Vec<(u128, TokenInfoModel)>)
    ensures
        r@ == spec_token_models(token_infos@, *external_prices, buffers@, *gas_model),
{
    let mut out: Vec<(u128, TokenInfoModel)> = Vec::new();
    let n = token_infos.len();
    let mut i: usize = 0;
    proof {
        assert(token_infos@.subrange(0, 0) =~= Seq::<(u128, TokenInfo)>::empty());
    }
    while i < n
        invariant
            0 <= i <= n,
            n == token_infos@.len(),
            out@ == spec_token_models(
                token_infos@.subrange(0, i as int),
                *external_prices,
                buffers@,
                *gas_model,
            ),
        decreases n - i,
    {
        let entry = &token_infos[i];
        let token = entry.0;
        let external_price = match external_prices.price(token) {
            Some(p) => Some(*p),
            None => None,
        };
        let alias = match &entry.1.symbol {
            Some(s) => Some(s.clone()),
            None => None,
        };
        let internal_buffer = match crate::table::table_get(buffers, token) {
            Some(b) => Some(*b),
            None => None,
        };
        let normalize_priority: u64 = if token == gas_model.native_token {
            1
        } else {
            0
        };
        let model = TokenInfoModel {
            decimals: entry.1.decimals,
            alias,
            external_price,
            normalize_priority,
            internal_buffer,
        };
        out.push((token, model));
        proof {
            let prefix = token_infos@.subrange(0, i as int);
            assert(token_infos@.subrange(0, i + 1) =~= prefix.push(token_infos@[i as int]));
            lemma_token_models_push(
                prefix,
                token_infos@[i as int],
                *external_prices,
                buffers@,
                *gas_model,
            );
        }
        i = i + 1;
    }
    proof {
        assert(token_infos@.subrange(0, n as int) =~= token_infos@);
    }
    out
}

/// Ten to the `n`.
pub open spec fn spec_pow10(n: nat) -> nat
    decreases n,
{
    if n == 0 {
        1
    } else {
        10 * spec_pow10((n - 1) as nat)
    }
}

proof fn lemma_pow10_increases(n: nat, m: nat)
    requires
        n <= m,
    ensures
        spec_pow10(n) <= spec_pow10(m),
    decreases m,
{
    if n < m {
        lemma_pow10_increases(n, (m - 1) as nat);
    }
}

/// Computes ten to the `n` for exponents up to 18.
fn pow10(n: u8) -> (r: u128)
    requires
        n <= 18,
    ensures
        r == spec_pow10(n as nat),
{
    proof {
        reveal_with_fuel(spec_pow10, 19);
        assert(spec_pow10(18) == 1_000_000_000_000_000_000);
    }
    let mut r: u128 = 1;
    let mut k: u8 = 0;
    while k < n
        invariant
            0 <= k <= n,
            n <= 18,
            r == spec_pow10(k as nat),
            spec_pow10(18) == 1_000_000_000_000_000_000,
        decreases n - k,
    {
        proof {
            lemma_pow10_increases((k + 1) as nat, 18);
        }
        r = r * 10;
        k = k + 1;
    }
    r
}

/// The scaling rate derived from a stored scaling exponent: ten to the
/// `18 - exponent`, or `None` for exponents above 18.
pub open spec fn spec_scaling_rate(exp: u8) -> Option<u128> {
    if exp <= 18 {
        Some((spec_pow10((18 - exp) as nat)) as u128)
    } else {
        None
    }
}

/// Derives a stable pool token's scaling rate from its scaling exponent.
pub fn compute_scaling_rate(exp: u8) -> (r: Option<u128>)
    ensures
        r == spec_scaling_rate(exp),
{
    if exp <= 18 {
        let p = pow10(18 - exp);
        proof {
            lemma_pow10_increases((18 - exp) as nat, 18);
            reveal_with_fuel(spec_pow10, 19);
            assert(spec_pow10(18) == 1_000_000_000_000_000_000);
        }
        Some(p)
    } else {
        None
    }
}

/// Every scaling exponent of the stable pool is derivable.
pub open spec fn stable_scaling_ok(s: crate::liquidity::StablePoolOrder) -> bool {
    forall|i: int| 0 <= i < s.reserves@.len() ==> (#[trigger] s.reserves@[i]).1.scaling_exponent
        <= 18
}

/// Converts one pool into its compiled row, if its parameters convert.
/// Passthrough limit orders do not convert: they are folded into the order
/// list by the orchestrator, never into the pool table.
pub open spec fn spec_amm_conversion(l: Liquidity, gas: GasModel) -> Option<AmmModelView> {
    match l {
        Liquidity::ConstantProduct(c) => Some(
            AmmModelView {
                parameters: AmmParametersView::ConstantProduct(
                    seq![(c.tokens.0, c.reserves.0), (c.tokens.1, c.reserves.1)],
                ),
                fee: c.fee,
                cost: gas.spec_uniswap_cost(),
                mandatory: false,
            },
        ),
        Liquidity::BalancerWeighted(w) => Some(
            AmmModelView {
                parameters: AmmParametersView::WeightedProduct(
                    w.reserves@.map_values(
                        |e: (u128, crate::liquidity::WeightedTokenState)|
                            (e.0, WeightedPoolTokenData { balance: e.1.balance, weight: e.1.weight }),
                    ),
                ),
                fee: w.fee,
                cost: gas.spec_balancer_cost(),
                mandatory: false,
            },
        ),
        Liquidity::BalancerStable(s) => if stable_scaling_ok(s) {
            Some(
                AmmModelView {
                    parameters: AmmParametersView::Stable {
                        reserves: s.reserves@.map_values(
                            |e: (u128, crate::liquidity::StableTokenState)| (e.0, e.1.balance),
                        ),
                        scaling_rates: s.reserves@.map_values(
                            |e: (u128, crate::liquidity::StableTokenState)|
                                (e.0, (spec_pow10((18 - e.1.scaling_exponent) as nat)) as u128),
                        ),
                        amplification_parameter: s.amplification_parameter,
                    },
                    fee: s.fee,
                    cost: gas.spec_balancer_cost(),
                    mandatory: false,
                },
            )
        } else {
            None
        },
        Liquidity::LimitOrder(_) => None,
    }
}

/// Converts one liquidity entry into a compiled pool row.
#[verifier::loop_isolation(false)]
fn convert_amm(l: &Liquidity, gas_model: &GasModel) -> (r: Option<AmmModel>)
    requires
        gas_model.wf(),
    ensures
        match r {
            Some(m) => spec_amm_conversion(*l, *gas_model) == Some(m@),
            None => spec_amm_conversion(*l, *gas_model) is None,
        },
{
    match l {
        Liquidity::ConstantProduct(c) => {
            let mut reserves: Vec<(u128, u128)> = Vec::new();
            reserves.push((c.tokens.0, c.reserves.0));
            reserves.push((c.tokens.1, c.reserves.1));
            proof {
                assert(reserves@ =~= seq![
                    (c.tokens.0, c.reserves.0),
                    (c.tokens.1, c.reserves.1),
                ]);
            }
            Some(
                AmmModel {
                    parameters: AmmParameters::ConstantProduct(
                        ConstantProductPoolParameters { reserves },
                    ),
                    fee: c.fee,
                    cost: gas_model.uniswap_cost(),
                    mandatory: false,
                },
            )
        },
        Liquidity::BalancerWeighted(w) => {
            let n = w.reserves.len();
            let mut data: Vec<(u128, WeightedPoolTokenData)> = Vec::new();
            let mut i: usize = 0;
            while i < n
                invariant
                    0 <= i <= n,
                    n == w.reserves@.len(),
                    data@.len() == i,
                    forall|j: int|
                        0 <= j < i ==> data@[j] == (
                            w.reserves@[j].0,
                            WeightedPoolTokenData {
                                balance: w.reserves@[j].1.balance,
                                weight: w.reserves@[j].1.weight,
                            },
                        ),
                decreases n - i,
            {
                let e = w.reserves[i];
                data.push(
                    (e.0, WeightedPoolTokenData { balance: e.1.balance, weight: e.1.weight }),
                );
                i = i + 1;
            }
            proof {
                assert(data@ =~= w.reserves@.map_values(
                    |e: (u128, crate::liquidity::WeightedTokenState)|
                        (e.0, WeightedPoolTokenData { balance: e.1.balance, weight: e.1.weight }),
                ));
            }
            Some(
                AmmModel {
                    parameters: AmmParameters::WeightedProduct(
                        WeightedProductPoolParameters { reserves: data },
                    ),
                    fee: w.fee,
                    cost: gas_model.balancer_cost(),
                    mandatory: false,
                },
            )
        },
        Liquidity::BalancerStable(s) => {
            let n = s.reserves.len();
            let mut reserves: Vec<(u128, u128)> = Vec::new();
            let mut scaling_rates: Vec<(u128, u128)> = Vec::new();
            let mut i: usize = 0;
            while i < n
                invariant
                    0 <= i <= n,
                    n == s.reserves@.len(),
                    reserves@.len() == i,
                    scaling_rates@.len() == i,
                    forall|j: int|
                        0 <= j < i ==> (#[trigger] s.reserves@[j]).1.scaling_exponent <= 18,
                    forall|j: int|
                        0 <= j < i ==> reserves@[j] == (s.reserves@[j].0, s.reserves@[j].1.balance),
                    forall|j: int|
                        0 <= j < i ==> scaling_rates@[j] == (
                            s.reserves@[j].0,
                            (spec_pow10((18 - s.reserves@[j].1.scaling_exponent) as nat)) as u128,
                        ),
                decreases n - i,
            {
                let e = s.reserves[i];
                match compute_scaling_rate(e.1.scaling_exponent) {
                    Some(rate) => {
                        reserves.push((e.0, e.1.balance));
                        scaling_rates.push((e.0, rate));
                    },
                    None => {
                        proof {
                            assert(s.reserves@[i as int].1.scaling_exponent > 18);
                            assert(!stable_scaling_ok(*s));
                            assert(*l is BalancerStable && l->BalancerStable_0 == *s);
                            assert(spec_amm_conversion(*l, *gas_model) is None);
                        }
                        return None;
                    },
                }
                i = i + 1;
            }
            proof {
                assert(reserves@ =~= s.reserves@.map_values(
                    |e: (u128, crate::liquidity::StableTokenState)| (e.0, e.1.balance),
                ));
                assert(scaling_rates@ =~= s.reserves@.map_values(
                    |e: (u128, crate::liquidity::StableTokenState)|
                        (e.0, (spec_pow10((18 - e.1.scaling_exponent) as nat)) as u128),
                ));
            }
            Some(
                AmmModel {
                    parameters: AmmParameters::Stable(
                        StablePoolParameters {
                            reserves,
                            scaling_rates,
                            amplification_parameter: s.amplification_parameter,
                        },
                    ),
                    fee: s.fee,
                    cost: gas_model.balancer_cost(),
                    mandatory: false,
                },
            )
        },
        Liquidity::LimitOrder(_) => None,
    }
}

/// The liquidity entries that are pools: passthrough limit orders removed,
/// relative order kept.
pub open spec fn spec_pools(liq: Seq<Liquidity>) -> Seq<Liquidity>
    decreases liq.len(),
{
    if liq.len() == 0 {
        Seq::empty()
    } else {
        let rest = spec_pools(liq.drop_last());
        if liq.last() is LimitOrder {
            rest
        } else {
            rest.push(liq.last())
        }
    }
}

proof fn lemma_pools_push(liq: Seq<Liquidity>, l: Liquidity)
    ensures
        spec_pools(liq.push(l)) == if l is LimitOrder {
            spec_pools(liq)
        } else {
            spec_pools(liq).push(l)
        },
{
    assert(liq.push(l).drop_last() =~= liq);
    assert(liq.push(l).last() == l);
}

/// The pool table: rows keyed by position among the pools, for exactly the
/// pools whose parameters convert.
pub open spec fn spec_amm_models(pools: Seq<Liquidity>, gas: GasModel) -> Seq<
    (usize, AmmModelView),
>
    decreases pools.len(),
{
    if pools.len() == 0 {
        Seq::empty()
    } else {
        let rest = spec_amm_models(pools.drop_last(), gas);
        match spec_amm_conversion(pools.last(), gas) {
            Some(v) => rest.push(((pools.len() - 1) as usize, v)),
            None => rest,
        }
    }
}

proof fn lemma_amm_models_push(pools: Seq<Liquidity>, l: Liquidity, gas: GasModel)
    ensures
        spec_amm_models(pools.push(l), gas) == match spec_amm_conversion(l, gas) {
            Some(v) => spec_amm_models(pools, gas).push((pools.len() as usize, v)),
            None => spec_amm_models(pools, gas),
        },
{
    assert(pools.push(l).drop_last() =~= pools);
    assert(pools.push(l).last() == l);
}

/// Builds the pool table.  A pool whose parameters fail to convert is
/// dropped from the table without aborting the rest.
pub fn amm_models(liquidity: &Vec<Liquidity>, gas_model: &GasModel) -> (r: Vec<(usize, AmmModel)>)
    requires
        gas_model.wf(),
    ensures
        amms_view(r@) == spec_amm_models(spec_pools(liquidity@), *gas_model),
{
    let mut out: Vec<(usize, AmmModel)> = Vec::new();
    let mut pool_index: usize = 0;
    let n = liquidity.len();
    let mut k: usize = 0;
    proof {
        assert(liquidity@.subrange(0, 0) =~= Seq::<Liquidity>::empty());
        assert(amms_view(out@) =~= spec_amm_models(
            spec_pools(liquidity@.subrange(0, 0)),
            *gas_model,
        ));
    }
    while k < n
        invariant
            0 <= k <= n,
            n == liquidity@.len(),
            gas_model.wf(),
            pool_index <= k,
            pool_index == spec_pools(liquidity@.subrange(0, k as int)).len(),
            amms_view(out@) == spec_amm_models(
                spec_pools(liquidity@.subrange(0, k as int)),
                *gas_model,
            ),
        decreases n - k,
    {
        let ghost prefix = liquidity@.subrange(0, k as int);
        let ghost pool_prefix = spec_pools(prefix);
        let l = &liquidity[k];
        if !l.is_limit_order() {
            let ghost out_before = out@;
            match convert_amm(l, gas_model) {
                Some(m) => {
                    out.push((pool_index, m));
                    proof {
                        assert(amms_view(out@) =~= amms_view(out_before).push(
                            (pool_index, m@),
                        ));
                    }
                },
                None => {},
            }
            pool_index = pool_index + 1;
        }
        proof {
            assert(liquidity@.subrange(0, k + 1) =~= prefix.push(liquidity@[k as int]));
            lemma_pools_push(prefix, liquidity@[k as int]);
            if !(liquidity@[k as int] is LimitOrder) {
                lemma_amm_models_push(pool_prefix, liquidity@[k as int], *gas_model);
            }
        }
        k = k + 1;
    }
    proof {
        assert(liquidity@.subrange(0, n as int) =~= liquidity@);
    }
    out
}

/// The set of tokens fee-connected to the reference token through the
/// liquidity graph.
pub open spec fn connected_token_set(liq: Seq<Liquidity>, root: u128) -> Set<u128> {
    Set::new(|t: u128| connected(pair_set(liq), root, t))
}

/// Compiles filtered orders and liquidity into the engine-facing model plus
/// the settlement context needed to reverse the transformation.  The
/// returned tables are a pure function of the inputs; the settlement
/// context carries the inputs through unchanged.
pub fn compile_model(
    auction_id: u64,
    orders: Vec<LimitOrder>,
    liquidity: Vec<Liquidity>,
    gas_price: &Rat,
    external_prices: &ExternalPrices,
    token_infos: &Vec<(u128, TokenInfo)>,
    buffers: &Vec<(u128, u128)>,
    environment: String,
    native_token: u128,
) -> (r: (BatchAuctionModel, SettlementContext))
    requires
        gas_price.wf(),
    ensures
        r.0.tokens@ == spec_token_models(
            token_infos@,
            *external_prices,
            buffers@,
            (GasModel { native_token, gas_price: *gas_price }),
        ),
        r.0.orders@ == spec_order_models(
            orders@,
            connected_token_set(liquidity@, native_token),
            (GasModel { native_token, gas_price: *gas_price }),
        ),
        amms_view(r.0.amms@) == spec_amm_models(
            spec_pools(liquidity@),
            (GasModel { native_token, gas_price: *gas_price }),
        ),
        r.0.metadata == Some(
            (MetadataModel {
                environment: Some(environment),
                auction_id: Some(auction_id),
                gas_price: Some(*gas_price),
                native_token: Some(native_token),
            }),
        ),
        r.1.orders@ == orders@,
        r.1.liquidity@ == liquidity@,
{
    let gas_model = GasModel { native_token, gas_price: *gas_price };
    let tokens = token_models(token_infos, external_prices, buffers, &gas_model);
    let fee_connected_tokens = crate::graph::compute_fee_connected_tokens(
        &liquidity,
        native_token,
    );
    proof {
        assert(fee_connected_tokens@.to_set() =~= connected_token_set(liquidity@, native_token));
    }
    let order_table = order_models(&orders, &fee_connected_tokens, &gas_model);
    let amm_table = amm_models(&liquidity, &gas_model);
    let metadata = MetadataModel {
        environment: Some(environment),
        auction_id: Some(auction_id),
        gas_price: Some(*gas_price),
        native_token: Some(native_token),
    };
    let model = BatchAuctionModel {
        tokens,
        orders: order_table,
        amms: amm_table,
        metadata: Some(metadata),
    };
    let context = SettlementContext { orders, liquidity };
    (model, context)
}

/// Compilation is deterministic: the token, order and pool tables are pure
/// functions of the inputs, so compiling the same orders, liquidity, prices
/// and gas model twice yields identical tables.
pub proof fn lemma_compile_deterministic(
    orders1: Seq<LimitOrder>,
    orders2: Seq<LimitOrder>,
    liq1: Seq<Liquidity>,
    liq2: Seq<Liquidity>,
    infos1: Seq<(u128, TokenInfo)>,
    infos2: Seq<(u128, TokenInfo)>,
    buffers1: Seq<(u128, u128)>,
    buffers2: Seq<(u128, u128)>,
    prices1: ExternalPrices,
    prices2: ExternalPrices,
    gas1: GasModel,
    gas2: GasModel,
)
    requires
        orders1 == orders2,
        liq1 == liq2,
        infos1 == infos2,
        buffers1 == buffers2,
        prices1 == prices2,
        gas1 == gas2,
    ensures
        spec_token_models(infos1, prices1, buffers1, gas1) == spec_token_models(
            infos2,
            prices2,
            buffers2,
            gas2,
        ),
        spec_order_models(orders1, connected_token_set(liq1, gas1.native_token), gas1)
            == spec_order_models(orders2, connected_token_set(liq2, gas2.native_token), gas2),
        spec_amm_models(spec_pools(liq1), gas1) == spec_amm_models(spec_pools(liq2), gas2),
{
}

/// The order table corresponds one-to-one with the included orders: every
/// row points at an included order of the input and carries its compiled
/// form, row keys strictly increase, and every included order has a row.
/// An order with neither token fee-connected never appears.
pub proof fn lemma_order_table_correspondence(
    orders: Seq<LimitOrder>,
    conn: Set<u128>,
    gas: GasModel,
)
    requires
        orders.len() <= usize::MAX,
    ensures
        forall|j: int|
            0 <= j < spec_order_models(orders, conn, gas).len() ==> {
                let e = #[trigger] spec_order_models(orders, conn, gas)[j];
                &&& 0 <= e.0 < orders.len()
                &&& order_included(orders[e.0 as int], conn)
                &&& e.1 == spec_order_model(orders[e.0 as int], gas)
            },
        forall|j1: int, j2: int|
            0 <= j1 < j2 < spec_order_models(orders, conn, gas).len() ==> (#[trigger]
            spec_order_models(orders, conn, gas)[j1]).0 < (#[trigger] spec_order_models(
                orders,
                conn,
                gas,
            )[j2]).0,
        forall|i: int|
            0 <= i < orders.len() && order_included(#[trigger] orders[i], conn) ==> exists|j: int|
                0 <= j < spec_order_models(orders, conn, gas).len() && (#[trigger]
                spec_order_models(orders, conn, gas)[j]).0 == i,
    decreases orders.len(),
{
    let out = spec_order_models(orders, conn, gas);
    if orders.len() > 0 {
        lemma_order_table_correspondence(orders.drop_last(), conn, gas);
        let rest = spec_order_models(orders.drop_last(), conn, gas);
        assert forall|j: int| 0 <= j < out.len() implies {
            let e = #[trigger] out[j];
            &&& 0 <= e.0 < orders.len()
            &&& order_included(orders[e.0 as int], conn)
            &&& e.1 == spec_order_model(orders[e.0 as int], gas)
        } by {
            if j < rest.len() {
                assert(out[j] == rest[j]);
                assert(orders.drop_last()[rest[j].0 as int] == orders[rest[j].0 as int]);
            } else {
                assert(out[j] == ((orders.len() - 1) as usize, spec_order_model(
                    orders.last(),
                    gas,
                )));
            }
        }
        assert forall|i: int|
            0 <= i < orders.len() && order_included(#[trigger] orders[i], conn) implies exists|
            j: int,
        |
            0 <= j < out.len() && (#[trigger] out[j]).0 == i by {
            if i < orders.len() - 1 {
                assert(orders.drop_last()[i] == orders[i]);
                let j = choose|j: int| 0 <= j < rest.len() && (#[trigger] rest[j]).0 == i;
                assert(out[j].0 == i);
            } else {
                assert(out[out.len() - 1].0 == i);
            }
        }
    }
}

} // verus!

