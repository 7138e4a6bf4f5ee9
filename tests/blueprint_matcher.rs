use std::collections::HashMap;

use salvo_backend::blueprint_matcher::{can_build, match_blueprints};
use salvo_backend::error::ApiError;
use salvo_backend::models::{Blueprint, BlueprintMaterial, EveType, Material};
use salvo_backend::reference::ReferenceData;

const TRITANIUM: i32 = 34;
const PYERITE: i32 = 35;

fn ty(type_id: i32, name: &str) -> EveType {
    EveType { type_id, name: name.to_string() }
}

fn bp(blueprint_type_id: i32, product_type_id: i32) -> Blueprint {
    Blueprint { blueprint_type_id, product_type_id, manufacturing_time: None, max_production_limit: None }
}

fn req(id: i32, blueprint: i32, material: i32, quantity: i32) -> BlueprintMaterial {
    BlueprintMaterial { id, blueprint_type_id: blueprint, material_type_id: material, quantity }
}

fn mat(type_id: i32, name: &str, quantity: i32) -> Material {
    Material { type_id, name: name.to_string(), quantity }
}

fn base_types() -> Vec<EveType> {
    vec![ty(TRITANIUM, "Tritanium"), ty(PYERITE, "Pyerite"), ty(1001, "Rifter"), ty(1002, "Atron")]
}

#[test]
fn matcher_gap_scenario() {
    let reference = ReferenceData {
        types: base_types(),
        yields: vec![],
        blueprints: vec![bp(2001, 1001)],
        requirements: vec![req(1, 2001, TRITANIUM, 100), req(2, 2001, PYERITE, 50)],
    };
    let available = vec![mat(TRITANIUM, "Tritanium", 25), mat(PYERITE, "Pyerite", 10)];
    let out = match_blueprints(&reference, &available).unwrap();
    assert_eq!(out.len(), 1);
    let m = &out[0];
    assert_eq!(m.satisfied_count, 0);
    assert_eq!(m.total_count, 2);
    assert_eq!(m.match_percentage.numerator, 0);
    assert_eq!(m.missing_materials.len(), 2);
    let t = &m.missing_materials[0];
    assert_eq!((t.type_id, t.name.as_str(), t.needed, t.available, t.missing), (TRITANIUM, "Tritanium", 100, 25, 75));
    let p = &m.missing_materials[1];
    assert_eq!((p.type_id, p.name.as_str(), p.needed, p.available, p.missing), (PYERITE, "Pyerite", 50, 10, 40));
}

#[test]
fn matcher_skips_blueprint_without_requirements() {
    let reference = ReferenceData {
        types: base_types(),
        yields: vec![],
        blueprints: vec![bp(2001, 1001), bp(2002, 1002)],
        requirements: vec![req(1, 2001, TRITANIUM, 10)],
    };
    let out = match_blueprints(&reference, &vec![]).unwrap();
    assert_eq!(out.len(), 1);
    assert_eq!(out[0].blueprint.blueprint_type_id, 2001);
}

#[test]
fn matcher_full_match_is_hundred_percent() {
    let reference = ReferenceData {
        types: base_types(),
        yields: vec![],
        blueprints: vec![bp(2001, 1001)],
        requirements: vec![req(1, 2001, TRITANIUM, 10), req(2, 2001, PYERITE, 5)],
    };
    let available = vec![mat(TRITANIUM, "Tritanium", 10), mat(PYERITE, "Pyerite", 7)];
    let out = match_blueprints(&reference, &available).unwrap();
    assert_eq!(out[0].satisfied_count, 2);
    assert!(out[0].missing_materials.is_empty());
    assert_eq!(out[0].match_percentage.numerator, 100 * out[0].match_percentage.denominator);
}

#[test]
fn matcher_counts_lines_not_quantities() {
    let reference = ReferenceData {
        types: base_types(),
        yields: vec![],
        blueprints: vec![bp(2001, 1001)],
        requirements: vec![req(1, 2001, TRITANIUM, 99), req(2, 2001, PYERITE, 1)],
    };
    let available = vec![mat(TRITANIUM, "Tritanium", 99)];
    let out = match_blueprints(&reference, &available).unwrap();
    assert_eq!(out[0].match_percentage.numerator * 2, out[0].match_percentage.denominator * 100);
}

#[test]
fn matcher_orders_by_percentage_then_name() {
    let reference = ReferenceData {
        types: vec![
            ty(TRITANIUM, "Tritanium"),
            ty(PYERITE, "Pyerite"),
            ty(1001, "Rifter"),
            ty(1002, "Atron"),
            ty(1003, "Merlin"),
        ],
        yields: vec![],
        blueprints: vec![bp(2001, 1001), bp(2002, 1002), bp(2003, 1003)],
        requirements: vec![
            req(1, 2001, TRITANIUM, 10),
            req(2, 2002, PYERITE, 10),
            req(3, 2003, TRITANIUM, 1),
        ],
    };
    let available = vec![mat(TRITANIUM, "Tritanium", 10)];
    let out = match_blueprints(&reference, &available).unwrap();
    let names: Vec<&str> = out.iter().map(|m| m.product.name.as_str()).collect();
    assert_eq!(names, vec!["Merlin", "Rifter", "Atron"]);
}

#[test]
fn matcher_drops_unresolved_product() {
    let reference = ReferenceData {
        types: base_types(),
        yields: vec![],
        blueprints: vec![bp(2001, 9999), bp(2002, 1002)],
        requirements: vec![req(1, 2001, TRITANIUM, 10), req(2, 2002, TRITANIUM, 10)],
    };
    let out = match_blueprints(&reference, &vec![mat(TRITANIUM, "Tritanium", 10)]).unwrap();
    assert_eq!(out.len(), 1);
    assert_eq!(out[0].product.name, "Atron");
}

#[test]
fn matcher_unknown_missing_material() {
    let reference = ReferenceData {
        types: base_types(),
        yields: vec![],
        blueprints: vec![bp(2001, 1001)],
        requirements: vec![req(1, 2001, 4242, 10)],
    };
    let r = match_blueprints(&reference, &vec![]);
    assert_eq!(r.unwrap_err(), ApiError::UnknownType(4242));
}

#[test]
fn matcher_satisfied_material_needs_no_name() {
    let reference = ReferenceData {
        types: base_types(),
        yields: vec![],
        blueprints: vec![bp(2001, 1001)],
        requirements: vec![req(1, 2001, 4242, 10)],
    };
    let out = match_blueprints(&reference, &vec![mat(4242, "Unlisted", 10)]).unwrap();
    assert_eq!(out[0].satisfied_count, 1);
}

#[test]
fn can_build_checks_every_line() {
    let mut available: HashMap<i32, i32> = HashMap::new();
    available.insert(TRITANIUM, 100);
    available.insert(PYERITE, 10);
    let reqs = vec![req(1, 1, TRITANIUM, 100), req(2, 1, PYERITE, 10)];
    assert!(can_build(&available, &reqs));
    let short = vec![req(1, 1, TRITANIUM, 101)];
    assert!(!can_build(&available, &short));
    let absent = vec![req(1, 1, 36, 1)];
    assert!(!can_build(&available, &absent));
    assert!(can_build(&available, &[]));
}
