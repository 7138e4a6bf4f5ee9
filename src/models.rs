use vstd::prelude::*;

verus! {

/// A type of the reference data (item, material, salvage, blueprint product).
#[derive(Debug, Clone)]
pub struct EveType {
    pub type_id: i32,
    pub name: String,
}

/// One reprocessing yield row: one unit of `source_type_id` yields
/// `quantity` units of `material_type_id` at full efficiency.
#[derive(Debug, Clone)]
pub struct MaterialReprocessing {
    pub id: i32,
    pub source_type_id: i32,
    pub material_type_id: i32,
    pub quantity: i32,
}

/// A manufacturing blueprint.
#[derive(Debug, Clone, Copy, PartialEq, Eq)]
pub struct Blueprint {
    pub blueprint_type_id: i32,
    pub product_type_id: i32,
    pub manufacturing_time: Option<i32>,
    pub max_production_limit: Option<i32>,
}

/// One requirement row of a blueprint's bill of materials.
#[derive(Debug, Clone, Copy, PartialEq, Eq)]
pub struct BlueprintMaterial {
    pub id: i32,
    pub blueprint_type_id: i32,
    pub material_type_id: i32,
    pub quantity: i32,
}

/// Cached market price of a type. Prices are in hundredths of ISK.
#[derive(Debug, Clone)]
pub struct MarketPrice {
    pub type_id: i32,
    pub region_id: i32,
    pub sell_price: Option<i64>,
    pub buy_price: Option<i64>,
    pub daily_volume: Option<i32>,
    pub updated_at: String,
}

/// A material with a quantity, as produced by reprocessing.
#[derive(Debug, Clone)]
pub struct Material {
    pub type_id: i32,
    pub name: String,
    pub quantity: i32,
}

/// A salvage item on hand.
#[derive(Debug, Clone)]
pub struct SalvageInput {
    pub type_id: i32,
    pub name: String,
    pub quantity: i32,
}

/// An exact rational number `numerator / denominator`, with a positive
/// denominator.
#[derive(Debug, Clone, Copy, PartialEq, Eq)]
pub struct Ratio {
    pub numerator: i128,
    pub denominator: i128,
}

impl Ratio {
    pub open spec fn wf(&self) -> bool {
        self.denominator > 0
    }

    /// Whether the ratio equals the integer `k`.
    pub open spec fn spec_is_int(&self, k: int) -> bool {
        self.numerator == k * self.denominator
    }
}

} // verus!
