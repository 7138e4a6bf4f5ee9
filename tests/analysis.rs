use salvo_backend::error::ApiError;
use salvo_backend::market_data::index_prices;
use salvo_backend::material_calculator::Efficiency;
use salvo_backend::models::{Blueprint, BlueprintMaterial, EveType, MarketPrice, MaterialReprocessing};
use salvo_backend::reference::ReferenceData;
use salvo_backend::salvage::{
    analyze_salvage, AnalyzeSalvageRequest, SalvageRequestItem, DEFAULT_INDUSTRY_COST,
};

const CIRCUIT: i32 = 25_600;
const PYERITE: i32 = 100;
const TRITANIUM: i32 = 200;
const RIFTER: i32 = 587;

fn reference() -> ReferenceData {
    ReferenceData {
        types: vec![
            EveType { type_id: CIRCUIT, name: "Tripped Power Circuit".to_string() },
            EveType { type_id: TRITANIUM, name: "Tritanium".to_string() },
            EveType { type_id: PYERITE, name: "Pyerite".to_string() },
            EveType { type_id: RIFTER, name: "Rifter".to_string() },
        ],
        yields: vec![
            MaterialReprocessing { id: 1, source_type_id: CIRCUIT, material_type_id: TRITANIUM, quantity: 5 },
            MaterialReprocessing { id: 2, source_type_id: CIRCUIT, material_type_id: PYERITE, quantity: 2 },
        ],
        blueprints: vec![Blueprint { blueprint_type_id: 691, product_type_id: RIFTER, manufacturing_time: Some(6000), max_production_limit: Some(300) }],
        requirements: vec![
            BlueprintMaterial { id: 1, blueprint_type_id: 691, material_type_id: TRITANIUM, quantity: 100 },
            BlueprintMaterial { id: 2, blueprint_type_id: 691, material_type_id: PYERITE, quantity: 50 },
        ],
    }
}

fn price(type_id: i32, sell: i64) -> MarketPrice {
    MarketPrice {
        type_id,
        region_id: 10000002,
        sell_price: Some(sell),
        buy_price: None,
        daily_volume: None,
        updated_at: String::new(),
    }
}

fn request(name: &str, quantity: i32, efficiency: Option<Efficiency>) -> AnalyzeSalvageRequest {
    AnalyzeSalvageRequest {
        salvage_items: vec![SalvageRequestItem { name: name.to_string(), quantity }],
        reprocessing_efficiency: efficiency,
    }
}

#[test]
fn analysis_end_to_end() {
    let prices = index_prices(&vec![price(TRITANIUM, 500), price(PYERITE, 1_000), price(RIFTER, 50_000_000)]);
    let resp = analyze_salvage(&reference(), &request("Tripped Power Circuit", 10, None), &prices, DEFAULT_INDUSTRY_COST).unwrap();
    assert_eq!(resp.reprocessing_efficiency_used.parts_per_million, 500_000);
    assert_eq!(resp.materials.len(), 2);
    assert_eq!((resp.materials[0].name.as_str(), resp.materials[0].quantity), ("Pyerite", 10));
    assert_eq!((resp.materials[1].name.as_str(), resp.materials[1].quantity), ("Tritanium", 25));
    assert_eq!(resp.materials[0].unit_price, Some(1_000));
    assert_eq!(resp.materials[0].total_value, 10_000);
    assert_eq!(resp.total_material_value, 10_000 + 12_500);
    assert_eq!(resp.buildable_items.len(), 1);
    let item = &resp.buildable_items[0];
    assert_eq!(item.product_name, "Rifter");
    assert!(!item.can_build);
    assert_eq!(item.match_percentage.numerator, 0);
    assert_eq!(item.missing_materials.len(), 2);
    assert_eq!(item.missing_materials[0].missing, 75);
    assert_eq!(item.missing_materials[0].cost_to_buy, 75 * 500);
    assert_eq!(item.missing_materials[1].missing, 40);
    assert_eq!(item.material_cost, 75 * 500 + 40 * 1_000 + DEFAULT_INDUSTRY_COST as i128);
    assert_eq!(item.estimated_profit, 50_000_000 - item.material_cost);
}

#[test]
fn analysis_enough_salvage_can_build() {
    let resp = analyze_salvage(
        &reference(),
        &request("Tripped Power Circuit", 40, Some(Efficiency { parts_per_million: 1_000_000 })),
        &index_prices(&vec![]),
        DEFAULT_INDUSTRY_COST,
    )
    .unwrap();
    let item = &resp.buildable_items[0];
    assert!(item.can_build);
    assert!(item.missing_materials.is_empty());
    assert_eq!(item.material_cost, DEFAULT_INDUSTRY_COST as i128);
    assert_eq!(item.profit_margin.numerator, 0);
}

#[test]
fn analysis_unknown_salvage_name() {
    let r = analyze_salvage(&reference(), &request("Melted Capacitor Console", 1, None), &index_prices(&vec![]), DEFAULT_INDUSTRY_COST);
    assert_eq!(r.unwrap_err(), ApiError::UnknownSalvageItem("Melted Capacitor Console".to_string()));
}

#[test]
fn analysis_negative_quantity() {
    let r = analyze_salvage(&reference(), &request("Tripped Power Circuit", -5, None), &index_prices(&vec![]), DEFAULT_INDUSTRY_COST);
    assert!(matches!(r, Err(ApiError::InvalidInput(_))));
}
