//! Salvage analysis core: reprocessing yields, blueprint matching and
//! profitability scoring over in-memory reference data.

pub mod error;
pub mod models;
pub mod reference;
pub mod material_calculator;
pub mod blueprint_matcher;
pub mod market_data;
pub mod salvage;
pub mod market;
