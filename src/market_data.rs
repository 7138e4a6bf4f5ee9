use vstd::prelude::*;

use std::collections::HashMap;

use crate::blueprint_matcher::{BlueprintMatch, MaterialWithName};
use crate::models::{MarketPrice, Material, Ratio};

verus! {

broadcast use vstd::std_specs::hash::group_hash_axioms;

/// The most lines that one priced list may hold.
pub const MAX_LINES: usize = 0x10_0000;

/// The largest magnitude of an amount that profit arithmetic accepts.
pub const MAX_AMOUNT: i128 = 0x2000_0000_0000_0000_0000_0000_0000_0000;

/// The largest magnitude of a profit whose margin can be computed.
pub const MAX_PROFIT: i128 = 0x0100_0000_0000_0000_0000_0000_0000_0000;

/// A missing requirement line with its cost at current prices.
#[derive(Debug, Clone)]
pub struct MissingMaterial {
    pub type_id: i32,
    pub name: String,
    pub needed: i32,
    pub available: i32,
    pub missing: i64,
    pub cost_to_buy: i128,
}

/// A blueprint's product with its feasibility and profitability. Amounts
/// are in hundredths of ISK; percentages are exact ratios.
#[derive(Debug, Clone)]
pub struct BuildableItem {
    pub product_type_id: i32,
    pub product_name: String,
    pub match_percentage: Ratio,
    pub can_build: bool,
    pub estimated_profit: i128,
    pub profit_margin: Ratio,
    pub product_price: i64,
    pub material_cost: i128,
    pub missing_materials: Vec<MissingMaterial>,
}

/// Cached prices by type id; a later entry for a type replaces an earlier one.
pub open spec fn price_map(prices: Seq<MarketPrice>) -> Map<i32, MarketPrice>
    decreases prices.len(),
{
    if prices.len() == 0 {
        Map::empty()
    } else {
        price_map(prices.drop_last()).insert(prices.last().type_id, prices.last())
    }
}

/// Sell price of `id`, zero where no price is known.
pub open spec fn sell_price(prices: Map<i32, MarketPrice>, id: i32) -> int {
    if prices.contains_key(id) && prices[id].sell_price is Some {
        prices[id].sell_price->Some_0 as int
    } else {
        0
    }
}

/// `price - material_costs - industry_cost`.
pub open spec fn profit_spec(price: int, material_costs: int, industry_cost: int) -> int {
    price - material_costs - industry_cost
}

/// `profit / price * 100`, and zero where the price is zero.
pub open spec fn margin_spec(profit: int, price: int) -> Ratio {
    if price == 0 {
        Ratio { numerator: 0, denominator: 1 }
    } else if price > 0 {
        Ratio { numerator: (profit * 100) as i128, denominator: price as i128 }
    } else {
        Ratio { numerator: (-profit * 100) as i128, denominator: -price as i128 }
    }
}

/// Value of `materials` at their sell prices.
pub open spec fn materials_value(materials: Seq<Material>, prices: Map<i32, MarketPrice>) -> int
    decreases materials.len(),
{
    if materials.len() == 0 {
        0
    } else {
        materials_value(materials.drop_last(), prices) + sell_price(prices, materials.last().type_id)
            * materials.last().quantity
    }
}

/// Cost of buying the missing quantities of `lines`.
pub open spec fn missing_cost(lines: Seq<MaterialWithName>, prices: Map<i32, MarketPrice>) -> int
    decreases lines.len(),
{
    if lines.len() == 0 {
        0
    } else {
        missing_cost(lines.drop_last(), prices) + sell_price(prices, lines.last().type_id)
            * lines.last().missing
    }
}

/// A match whose costs fit the arithmetic: a bounded number of lines, each
/// missing a quantity that a difference of two `i32` values can be.
pub open spec fn priceable(m: BlueprintMatch) -> bool {
    &&& m.missing_materials@.len() <= MAX_LINES
    &&& forall|k: int|
        0 <= k < m.missing_materials@.len() ==> 0 <= (#[trigger] m.missing_materials@[k]).missing
            <= 0xffff_ffff
}

/// `item` prices `m` at `prices` with the fixed `industry_cost`.
pub open spec fn item_spec(
    item: BuildableItem,
    m: BlueprintMatch,
    prices: Map<i32, MarketPrice>,
    industry_cost: int,
) -> bool {
    let material_cost = missing_cost(m.missing_materials@, prices) + industry_cost;
    let price = sell_price(prices, m.product.type_id);
    &&& item.product_type_id == m.product.type_id
    &&& item.product_name@ == m.product.name@
    &&& item.match_percentage == m.match_percentage
    &&& item.can_build == (m.satisfied_count == m.total_count)
    &&& item.product_price == price
    &&& item.material_cost == material_cost
    &&& item.estimated_profit == price - material_cost
    &&& item.profit_margin == margin_spec(price - material_cost, price)
    &&& item.missing_materials@.len() == m.missing_materials@.len()
    &&& forall|k: int|
        0 <= k < item.missing_materials@.len() ==> {
            let l = m.missing_materials@[k];
            let o = #[trigger] item.missing_materials@[k];
            &&& o.type_id == l.type_id
            &&& o.name@ == l.name@
            &&& o.needed == l.needed
            &&& o.available == l.available
            &&& o.missing == l.missing
            &&& o.cost_to_buy == sell_price(prices, l.type_id) * l.missing
        }
}

/// Profit of building: sell price less material and industry costs.
pub fn calculate_profit(product_sell_price: i128, material_costs: i128, industry_cost: i128) -> (r: i128)
    requires
        -MAX_AMOUNT <= product_sell_price <= MAX_AMOUNT,
        -MAX_AMOUNT <= material_costs <= MAX_AMOUNT,
        -MAX_AMOUNT <= industry_cost <= MAX_AMOUNT,
    ensures
        r == profit_spec(product_sell_price as int, material_costs as int, industry_cost as int),
{
    product_sell_price - material_costs - industry_cost
}

/// Profit margin in percent of the sell price; zero at a zero price.
pub fn calculate_profit_margin(profit: i128, product_sell_price: i128) -> (r: Ratio)
    requires
        -MAX_PROFIT <= profit <= MAX_PROFIT,
        -MAX_AMOUNT <= product_sell_price <= MAX_AMOUNT,
    ensures
        r == margin_spec(profit as int, product_sell_price as int),
        r.wf(),
{
    if product_sell_price == 0 {
        Ratio { numerator: 0, denominator: 1 }
    } else if product_sell_price > 0 {
        Ratio { numerator: profit * 100, denominator: product_sell_price }
    } else {
        Ratio { numerator: -profit * 100, denominator: -product_sell_price }
    }
}

/// Indexes cached prices by type id.
pub fn index_prices(prices: &Vec<MarketPrice>) -> (m: HashMap<i32, MarketPrice>)
    ensures
        m@ == price_map(prices@),
{
    let mut m: HashMap<i32, MarketPrice> = HashMap::new();
    let mut i: usize = 0;
    while i < prices.len()
        invariant
            i <= prices@.len(),
            m@ == price_map(prices@.subrange(0, i as int)),
        decreases prices@.len() - i,
    {
        proof {
            assert(prices@.subrange(0, i as int + 1).drop_last() =~= prices@.subrange(0, i as int));
        }
        let p = &prices[i];
        let copy = MarketPrice {
            type_id: p.type_id,
            region_id: p.region_id,
            sell_price: p.sell_price,
            buy_price: p.buy_price,
            daily_volume: p.daily_volume,
            updated_at: p.updated_at.clone(),
        };
        m.insert(p.type_id, copy);
        i = i + 1;
    }
    assert(prices@.subrange(0, prices@.len() as int) =~= prices@);
    m
}

/// Sell price of `type_id`, zero where none is cached.
pub fn get_sell_price(prices: &HashMap<i32, MarketPrice>, type_id: i32) -> (r: i64)
    ensures
        r == sell_price(prices@, type_id),
{
    match prices.get(&type_id) {
        Some(p) => match p.sell_price {
            Some(v) => v,
            None => 0,
        },
        None => 0,
    }
}

fn price_times(price: i64, quantity: i64) -> (r: i128)
    requires
        -0x1_0000_0000 <= quantity <= 0x1_0000_0000,
    ensures
        r == price * quantity,
        -0x1_0000_0000_0000_0000_0000_0000 <= r <= 0x1_0000_0000_0000_0000_0000_0000,
{
    assert(-0x1_0000_0000_0000_0000_0000_0000 <= price as i128 * quantity as i128 <= 0x1_0000_0000_0000_0000_0000_0000)
        by (nonlinear_arith)
        requires
            -0x8000_0000_0000_0000 <= price <= 0x7fff_ffff_ffff_ffff,
            -0x1_0000_0000 <= quantity <= 0x1_0000_0000,
    ;
    price as i128 * quantity as i128
}

/// Value of `materials` at cached sell prices, zero for unpriced types.
pub fn calculate_material_costs(materials: &Vec<Material>, prices: &HashMap<i32, MarketPrice>) -> (r: i128)
    requires
        materials@.len() <= MAX_LINES,
    ensures
        r == materials_value(materials@, prices@),
{
    let mut total: i128 = 0;
    let mut i: usize = 0;
    while i < materials.len()
        invariant
            i <= materials@.len(),
            materials@.len() <= MAX_LINES,
            total == materials_value(materials@.subrange(0, i as int), prices@),
            -i * 0x1_0000_0000_0000_0000_0000_0000 <= total <= i * 0x1_0000_0000_0000_0000_0000_0000,
        decreases materials@.len() - i,
    {
        proof {
            assert(materials@.subrange(0, i as int + 1).drop_last() =~= materials@.subrange(0, i as int));
        }
        let v = price_times(get_sell_price(prices, materials[i].type_id), materials[i].quantity as i64);
        total = total + v;
        i = i + 1;
    }
    assert(materials@.subrange(0, materials@.len() as int) =~= materials@);
    total
}

/// Prices one match.
pub fn evaluate_match(m: &BlueprintMatch, prices: &HashMap<i32, MarketPrice>, industry_cost: i64) -> (r: BuildableItem)
    requires
        priceable(*m),
    ensures
        item_spec(r, *m, prices@, industry_cost as int),
{
    let ghost ls = m.missing_materials@;
    let mut out: Vec<MissingMaterial> = Vec::new();
    let mut cost: i128 = 0;
    let mut i: usize = 0;
    while i < m.missing_materials.len()
        invariant
            i <= ls.len(),
            ls == m.missing_materials@,
            priceable(*m),
            out@.len() == i,
            cost == missing_cost(ls.subrange(0, i as int), prices@),
            -i * 0x1_0000_0000_0000_0000_0000_0000 <= cost <= i * 0x1_0000_0000_0000_0000_0000_0000,
            forall|k: int|
                0 <= k < i ==> {
                    let l = ls[k];
                    let o = #[trigger] out@[k];
                    &&& o.type_id == l.type_id
                    &&& o.name@ == l.name@
                    &&& o.needed == l.needed
                    &&& o.available == l.available
                    &&& o.missing == l.missing
                    &&& o.cost_to_buy == sell_price(prices@, l.type_id) * l.missing
                },
        decreases ls.len() - i,
    {
        proof {
            assert(ls.subrange(0, i as int + 1).drop_last() =~= ls.subrange(0, i as int));
        }
        let l = &m.missing_materials[i];
        assert(0 <= ls[i as int].missing <= 0xffff_ffff);
        let c = price_times(get_sell_price(prices, l.type_id), l.missing);
        cost = cost + c;
        out.push(
            MissingMaterial {
                type_id: l.type_id,
                name: l.name.clone(),
                needed: l.needed,
                available: l.available,
                missing: l.missing,
                cost_to_buy: c,
            },
        );
        i = i + 1;
    }
    assert(ls.subrange(0, ls.len() as int) =~= ls);
    let price = get_sell_price(prices, m.product.type_id);
    let material_cost = cost + industry_cost as i128;
    let profit = calculate_profit(price as i128, material_cost, 0);
    let margin = calculate_profit_margin(profit, price as i128);
    BuildableItem {
        product_type_id: m.product.type_id,
        product_name: m.product.name.clone(),
        match_percentage: m.match_percentage,
        can_build: m.satisfied_count == m.total_count,
        estimated_profit: profit,
        profit_margin: margin,
        product_price: price,
        material_cost,
        missing_materials: out,
    }
}

/// Prices each match, in order.
pub fn evaluate(matches: &Vec<BlueprintMatch>, prices: &HashMap<i32, MarketPrice>, industry_cost: i64) -> (r: Vec<BuildableItem>)
    requires
        forall|k: int| 0 <= k < matches@.len() ==> priceable(#[trigger] matches@[k]),
    ensures
        r@.len() == matches@.len(),
        forall|k: int| 0 <= k < r@.len() ==> item_spec(#[trigger] r@[k], matches@[k], prices@, industry_cost as int),
{
    let mut out: Vec<BuildableItem> = Vec::new();
    let mut i: usize = 0;
    while i < matches.len()
        invariant
            i <= matches@.len(),
            forall|k: int| 0 <= k < matches@.len() ==> priceable(#[trigger] matches@[k]),
            out@.len() == i,
            forall|k: int| 0 <= k < i ==> item_spec(#[trigger] out@[k], matches@[k], prices@, industry_cost as int),
        decreases matches@.len() - i,
    {
        let item = evaluate_match(&matches[i], prices, industry_cost);
        out.push(item);
        i = i + 1;
    }
    out
}


/// At a zero sell price the margin is zero, whatever the profit.
pub proof fn lemma_margin_zero_price(profit: int)
    ensures
        margin_spec(profit, 0).numerator == 0,
        margin_spec(profit, 0).wf(),
{
}

} // verus!
