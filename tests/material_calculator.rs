use salvo_backend::error::ApiError;
use salvo_backend::material_calculator::{
    calculate_materials, calculate_reprocessing_efficiency, Efficiency, MAX_QUANTITY,
};
use salvo_backend::models::{EveType, MaterialReprocessing, SalvageInput};
use salvo_backend::reference::ReferenceData;

fn ty(type_id: i32, name: &str) -> EveType {
    EveType { type_id, name: name.to_string() }
}

fn row(id: i32, source: i32, material: i32, quantity: i32) -> MaterialReprocessing {
    MaterialReprocessing { id, source_type_id: source, material_type_id: material, quantity }
}

fn salvage(type_id: i32, name: &str, quantity: i32) -> SalvageInput {
    SalvageInput { type_id, name: name.to_string(), quantity }
}

const CIRCUIT: i32 = 25_600;
const PYERITE: i32 = 100;
const TRITANIUM: i32 = 200;

fn circuit_reference() -> ReferenceData {
    ReferenceData {
        types: vec![ty(CIRCUIT, "Tripped Power Circuit"), ty(TRITANIUM, "Tritanium"), ty(PYERITE, "Pyerite")],
        yields: vec![row(1, CIRCUIT, TRITANIUM, 5), row(2, CIRCUIT, PYERITE, 2)],
        blueprints: vec![],
        requirements: vec![],
    }
}

#[test]
fn material_calculator_test_reprocessing_efficiency_no_skills() {
    let efficiency = calculate_reprocessing_efficiency(0, 0, 0);
    assert_eq!(efficiency.parts_per_million as f64 / 1_000_000.0, 0.5);
}

#[test]
fn material_calculator_test_reprocessing_efficiency_max_skills() {
    let efficiency = calculate_reprocessing_efficiency(5, 5, 5);
    // 0.5 * 1.15 * 1.10 * 1.10 = 0.69575
    assert!((efficiency.parts_per_million as f64 / 1_000_000.0 - 0.69575).abs() < 0.0001);
}

#[test]
fn efficiency_exact_values() {
    assert_eq!(calculate_reprocessing_efficiency(0, 0, 0).parts_per_million, 500_000);
    assert_eq!(calculate_reprocessing_efficiency(5, 5, 5).parts_per_million, 695_750);
    assert_eq!(calculate_reprocessing_efficiency(5, 4, 3).parts_per_million, 658_260);
    assert_eq!(calculate_reprocessing_efficiency(1, 0, 0).parts_per_million, 515_000);
}

#[test]
fn reprocessing_circuit_scenario() {
    let reference = circuit_reference();
    let input = vec![salvage(CIRCUIT, "Tripped Power Circuit", 10)];
    let out = calculate_materials(&reference, &input, Efficiency { parts_per_million: 500_000 }).unwrap();
    assert_eq!(out.len(), 2);
    assert_eq!(out[0].type_id, PYERITE);
    assert_eq!(out[0].name, "Pyerite");
    assert_eq!(out[0].quantity, 10);
    assert_eq!(out[1].type_id, TRITANIUM);
    assert_eq!(out[1].name, "Tritanium");
    assert_eq!(out[1].quantity, 25);
}

#[test]
fn reprocessing_floors_each_row() {
    let reference = circuit_reference();
    let input = vec![salvage(CIRCUIT, "Tripped Power Circuit", 3)];
    // 5 * 0.69575 * 3 = 10.43625 and 2 * 0.69575 * 3 = 4.1745
    let out = calculate_materials(&reference, &input, calculate_reprocessing_efficiency(5, 5, 5)).unwrap();
    assert_eq!(out[0].quantity, 4);
    assert_eq!(out[1].quantity, 10);
}

#[test]
fn reprocessing_sums_across_inputs() {
    let mut reference = circuit_reference();
    reference.types.push(ty(300, "Burned Logic Circuit"));
    reference.yields.push(row(3, 300, TRITANIUM, 4));
    let input = vec![
        salvage(CIRCUIT, "Tripped Power Circuit", 10),
        salvage(300, "Burned Logic Circuit", 5),
        salvage(CIRCUIT, "Tripped Power Circuit", 2),
    ];
    let out = calculate_materials(&reference, &input, Efficiency { parts_per_million: 500_000 }).unwrap();
    assert_eq!(out.len(), 2);
    assert_eq!(out[0].type_id, PYERITE);
    assert_eq!(out[0].quantity, 10 + 2);
    assert_eq!(out[1].type_id, TRITANIUM);
    assert_eq!(out[1].quantity, 25 + 10 + 5);
}

#[test]
fn reprocessing_empty_input() {
    let reference = circuit_reference();
    let out = calculate_materials(&reference, &vec![], Efficiency { parts_per_million: 500_000 }).unwrap();
    assert!(out.is_empty());
}

#[test]
fn reprocessing_keeps_zero_totals() {
    let reference = circuit_reference();
    let input = vec![salvage(CIRCUIT, "Tripped Power Circuit", 0)];
    let out = calculate_materials(&reference, &input, Efficiency { parts_per_million: 500_000 }).unwrap();
    assert_eq!(out.len(), 2);
    assert_eq!(out[0].quantity, 0);
    assert_eq!(out[1].quantity, 0);
}

#[test]
fn reprocessing_caps_huge_totals() {
    let reference = circuit_reference();
    let input = vec![salvage(CIRCUIT, "Tripped Power Circuit", i32::MAX)];
    let out = calculate_materials(&reference, &input, Efficiency { parts_per_million: 1_000_000 }).unwrap();
    assert_eq!(out[1].quantity, MAX_QUANTITY);
}

#[test]
fn reprocessing_rejects_negative_quantity() {
    let reference = circuit_reference();
    let input = vec![salvage(CIRCUIT, "Tripped Power Circuit", -1)];
    let r = calculate_materials(&reference, &input, Efficiency { parts_per_million: 500_000 });
    assert!(matches!(r, Err(ApiError::InvalidInput(_))));
}

#[test]
fn reprocessing_rejects_negative_yield() {
    let mut reference = circuit_reference();
    reference.yields.push(row(9, 999, PYERITE, -3));
    let input = vec![salvage(CIRCUIT, "Tripped Power Circuit", 1)];
    let r = calculate_materials(&reference, &input, Efficiency { parts_per_million: 500_000 });
    assert!(matches!(r, Err(ApiError::InvalidInput(_))));
}

#[test]
fn reprocessing_unknown_material_type() {
    let mut reference = circuit_reference();
    reference.yields.push(row(3, CIRCUIT, 777, 1));
    let input = vec![salvage(CIRCUIT, "Tripped Power Circuit", 1)];
    let r = calculate_materials(&reference, &input, Efficiency { parts_per_million: 500_000 });
    assert_eq!(r.unwrap_err(), ApiError::UnknownType(777));
}
