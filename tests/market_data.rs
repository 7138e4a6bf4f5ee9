use std::collections::HashMap;

use salvo_backend::blueprint_matcher::{BlueprintMatch, MaterialWithName};
use salvo_backend::error::ApiError;
use salvo_backend::market::{plan_price_updates, PriceQuote, UpdateMarketPricesRequest, GLOBAL_REGION_ID};
use salvo_backend::market_data::{
    calculate_material_costs, calculate_profit, calculate_profit_margin, evaluate, get_sell_price,
    index_prices,
};
use salvo_backend::models::{Blueprint, EveType, MarketPrice, Material, Ratio};

fn price(type_id: i32, sell: Option<i64>) -> MarketPrice {
    MarketPrice {
        type_id,
        region_id: GLOBAL_REGION_ID,
        sell_price: sell,
        buy_price: None,
        daily_volume: None,
        updated_at: "2024-01-01T00:00:00Z".to_string(),
    }
}

#[test]
fn profit_margin_zero_price() {
    assert_eq!(calculate_profit_margin(12_345, 0), Ratio { numerator: 0, denominator: 1 });
    assert_eq!(calculate_profit_margin(-7, 0), Ratio { numerator: 0, denominator: 1 });
}

#[test]
fn profit_margin_exact() {
    let r = calculate_profit_margin(2_800, 5_000);
    assert_eq!(r.numerator * 10, 560 * r.denominator);
    let n = calculate_profit_margin(100, -400);
    assert!(n.denominator > 0);
    assert_eq!(n.numerator * 4, -100 * n.denominator);
}

#[test]
fn profit_subtracts_costs() {
    assert_eq!(calculate_profit(5_000, 1_200, 1_000), 2_800);
    assert_eq!(calculate_profit(0, 1_200, 1_000), -2_200);
}

#[test]
fn profitability_scenario() {
    // Product sells at 5,000 ISK; 12 units of a 100 ISK material are missing;
    // industry cost is 1,000 ISK. Amounts are in hundredths of ISK.
    let m = BlueprintMatch {
        blueprint: Blueprint { blueprint_type_id: 2001, product_type_id: 1001, manufacturing_time: None, max_production_limit: None },
        product: EveType { type_id: 1001, name: "Rifter".to_string() },
        match_percentage: Ratio { numerator: 0, denominator: 1 },
        missing_materials: vec![MaterialWithName { type_id: 34, name: "Tritanium".to_string(), needed: 12, available: 0, missing: 12 }],
        satisfied_count: 0,
        total_count: 1,
    };
    let prices = index_prices(&vec![price(1001, Some(500_000)), price(34, Some(10_000))]);
    let items = evaluate(&vec![m], &prices, 100_000);
    let item = &items[0];
    assert_eq!(item.missing_materials[0].cost_to_buy, 120_000);
    assert_eq!(item.material_cost, 220_000);
    assert_eq!(item.estimated_profit, 280_000);
    assert_eq!(item.product_price, 500_000);
    assert_eq!(item.profit_margin.numerator, 56 * item.profit_margin.denominator);
    assert!(!item.can_build);
}

#[test]
fn evaluate_unpriced_is_zero() {
    let m = BlueprintMatch {
        blueprint: Blueprint { blueprint_type_id: 2001, product_type_id: 1001, manufacturing_time: None, max_production_limit: None },
        product: EveType { type_id: 1001, name: "Rifter".to_string() },
        match_percentage: Ratio { numerator: 100, denominator: 1 },
        missing_materials: vec![],
        satisfied_count: 1,
        total_count: 1,
    };
    let items = evaluate(&vec![m], &HashMap::new(), 100_000);
    assert_eq!(items[0].product_price, 0);
    assert_eq!(items[0].estimated_profit, -100_000);
    assert_eq!(items[0].profit_margin, Ratio { numerator: 0, denominator: 1 });
    assert!(items[0].can_build);
}

#[test]
fn prices_later_entry_wins() {
    let prices = index_prices(&vec![price(34, Some(5)), price(35, None), price(34, Some(7))]);
    assert_eq!(get_sell_price(&prices, 34), 7);
    assert_eq!(get_sell_price(&prices, 35), 0);
    assert_eq!(get_sell_price(&prices, 36), 0);
}

#[test]
fn material_costs_sum() {
    let prices = index_prices(&vec![price(34, Some(5)), price(35, Some(11))]);
    let materials = vec![
        Material { type_id: 34, name: "Tritanium".to_string(), quantity: 25 },
        Material { type_id: 35, name: "Pyerite".to_string(), quantity: 10 },
        Material { type_id: 36, name: "Mexallon".to_string(), quantity: 4 },
    ];
    assert_eq!(calculate_material_costs(&materials, &prices), 125 + 110);
}

#[test]
fn price_updates_requested_ids() {
    let quotes = vec![
        PriceQuote { type_id: 34, sell: 500, buy: 400, volume: 0 },
        PriceQuote { type_id: 35, sell: 900, buy: 800, volume: 3 },
    ];
    let stamp = "2024-05-01T00:00:00Z".to_string();
    let request = UpdateMarketPricesRequest { type_ids: vec![35, 99, 34] };
    let rows = plan_price_updates(&request, &quotes, &stamp);
    assert_eq!(rows.len(), 2);
    assert_eq!(rows[0].type_id, 35);
    assert_eq!(rows[0].sell_price, Some(900));
    assert_eq!(rows[0].buy_price, Some(800));
    assert_eq!(rows[0].daily_volume, Some(3));
    assert_eq!(rows[0].region_id, GLOBAL_REGION_ID);
    assert_eq!(rows[0].updated_at, stamp);
    assert_eq!(rows[1].type_id, 34);
}

#[test]
fn price_updates_backfill_all() {
    let quotes = vec![
        PriceQuote { type_id: 34, sell: 500, buy: 400, volume: 0 },
        PriceQuote { type_id: 35, sell: 900, buy: 800, volume: 0 },
    ];
    let request = UpdateMarketPricesRequest { type_ids: vec![] };
    let rows = plan_price_updates(&request, &quotes, &"now".to_string());
    assert_eq!(rows.len(), 2);
    assert_eq!(rows[1].type_id, 35);
}

#[test]
fn error_status_codes() {
    assert_eq!(ApiError::UnknownType(1).status_code(), 404);
    assert_eq!(ApiError::UnknownSalvageItem("x".to_string()).status_code(), 404);
    assert_eq!(ApiError::InvalidInput("x".to_string()).status_code(), 400);
    assert_eq!(ApiError::ExternalApi("x".to_string()).status_code(), 502);
    assert_eq!(ApiError::Database("x".to_string()).status_code(), 500);
    assert!(!ApiError::Database("x".to_string()).is_public());
    assert!(ApiError::Internal("x".to_string()).is_public());
}
