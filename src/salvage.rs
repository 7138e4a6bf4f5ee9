use vstd::prelude::*;

use std::collections::HashMap;

use crate::blueprint_matcher::{
    available_of, lemma_missing_lines_short, match_blueprints, match_spec, matches_spec,
    missing_line_spec, missing_lines, BlueprintMatch,
};
use crate::error::ApiError;
use crate::market_data::{
    calculate_material_costs, evaluate, get_sell_price, item_spec, materials_value, priceable,
    sell_price, BuildableItem, MAX_LINES,
};
use crate::material_calculator::{
    calculate_materials, inputs_valid, materials_spec, produces, Efficiency,
};
use crate::models::{MarketPrice, Material, SalvageInput};
use crate::reference::{
    has_type_id, lookup_type_by_name, requirements_of, ReferenceData,
};

verus! {

broadcast use vstd::std_specs::hash::group_hash_axioms;

/// Efficiency assumed when a request names none: one half.
pub const DEFAULT_EFFICIENCY_PPM: u32 = 500_000;

/// Industry cost added to every build, in hundredths of ISK.
pub const DEFAULT_INDUSTRY_COST: i64 = 100_000;

/// One salvage line of a request: an item by name and how many.
#[derive(Debug, Clone)]
pub struct SalvageRequestItem {
    pub name: String,
    pub quantity: i32,
}

/// A request to analyse salvage.
#[derive(Debug, Clone)]
pub struct AnalyzeSalvageRequest {
    pub salvage_items: Vec<SalvageRequestItem>,
    pub reprocessing_efficiency: Option<Efficiency>,
}

/// A recovered material with its value at the cached sell price.
#[derive(Debug, Clone)]
pub struct MaterialOutput {
    pub type_id: i32,
    pub name: String,
    pub quantity: i32,
    pub unit_price: Option<i64>,
    pub total_value: i128,
}

/// The result of an analysis.
#[derive(Debug, Clone)]
pub struct AnalyzeSalvageResponse {
    pub materials: Vec<MaterialOutput>,
    pub total_material_value: i128,
    pub buildable_items: Vec<BuildableItem>,
    pub reprocessing_efficiency_used: Efficiency,
}

/// Every salvage line names a known type.
pub open spec fn salvage_resolved(items: Seq<SalvageRequestItem>, reference: ReferenceData) -> bool {
    forall|i: int|
        0 <= i < items.len() ==> lookup_type_by_name(reference.types@, (#[trigger] items[i]).name@) is Some
}

/// The salvage inputs that the request lines resolve to.
pub open spec fn resolved_salvage(items: Seq<SalvageRequestItem>, reference: ReferenceData) -> Seq<SalvageInput> {
    Seq::new(
        items.len(),
        |i: int|
            SalvageInput {
                type_id: lookup_type_by_name(reference.types@, items[i].name@)->Some_0.type_id,
                name: lookup_type_by_name(reference.types@, items[i].name@)->Some_0.name,
                quantity: items[i].quantity,
            },
    )
}

/// The efficiency a request asks for, one half where it names none.
pub open spec fn requested_efficiency(request: AnalyzeSalvageRequest) -> Efficiency {
    match request.reprocessing_efficiency {
        Some(e) => e,
        None => Efficiency { parts_per_million: DEFAULT_EFFICIENCY_PPM },
    }
}

/// Cached unit sell price of `id`, if any.
pub open spec fn unit_price(prices: Map<i32, MarketPrice>, id: i32) -> Option<i64> {
    if prices.contains_key(id) {
        prices[id].sell_price
    } else {
        None
    }
}

/// `out` lists `mats` with their prices.
pub open spec fn outputs_spec(out: Seq<MaterialOutput>, mats: Seq<Material>, prices: Map<i32, MarketPrice>) -> bool {
    &&& out.len() == mats.len()
    &&& forall|k: int|
        0 <= k < out.len() ==> {
            &&& (#[trigger] out[k]).type_id == mats[k].type_id
            &&& out[k].name@ == mats[k].name@
            &&& out[k].quantity == mats[k].quantity
            &&& out[k].unit_price == unit_price(prices, mats[k].type_id)
            &&& out[k].total_value == sell_price(prices, mats[k].type_id) * mats[k].quantity
        }
}

/// `resp` is the analysis of `salvage` that goes through materials `mats`
/// and matches `ms`.
pub open spec fn analysis_with(
    resp: AnalyzeSalvageResponse,
    mats: Seq<Material>,
    ms: Seq<BlueprintMatch>,
    salvage: Seq<SalvageInput>,
    reference: ReferenceData,
    prices: Map<i32, MarketPrice>,
    efficiency: Efficiency,
    industry_cost: int,
) -> bool {
    &&& materials_spec(mats, salvage, reference, efficiency.parts_per_million as int)
    &&& matches_spec(ms, reference, mats)
    &&& outputs_spec(resp.materials@, mats, prices)
    &&& resp.total_material_value == materials_value(mats, prices)
    &&& resp.buildable_items@.len() == ms.len()
    &&& forall|k: int|
        0 <= k < ms.len() ==> item_spec(#[trigger] resp.buildable_items@[k], ms[k], prices, industry_cost)
    &&& resp.reprocessing_efficiency_used == efficiency
}

/// Nothing in the analysis of `salvage` goes past the supported list sizes.
pub open spec fn within_limits(salvage: Seq<SalvageInput>, reference: ReferenceData, ppm: int) -> bool {
    forall|mats: Seq<Material>|
        #[trigger] materials_spec(mats, salvage, reference, ppm) ==> {
            &&& mats.len() <= MAX_LINES
            &&& forall|ms: Seq<BlueprintMatch>|
                #[trigger] matches_spec(ms, reference, mats) ==> forall|k: int|
                    0 <= k < ms.len() ==> (#[trigger] ms[k]).missing_materials@.len() <= MAX_LINES
        }
}

/// The analysis can run to its end: every name and type resolves.
pub open spec fn analysis_resolves(salvage: Seq<SalvageInput>, reference: ReferenceData, ppm: int) -> bool {
    &&& forall|m: i32| produces(salvage, reference.yields@, m) ==> has_type_id(reference.types@, m)
    &&& forall|mats: Seq<Material>|
        #[trigger] materials_spec(mats, salvage, reference, ppm) ==> !crate::blueprint_matcher::any_unresolved(
            reference.blueprints@,
            reference,
            mats,
        )
}

fn resolve_salvage(reference: &ReferenceData, items: &Vec<SalvageRequestItem>) -> (r: Result<Vec<SalvageInput>, ApiError>)
    ensures
        r is Ok <==> salvage_resolved(items@, *reference),
        r is Err ==> r->Err_0 is UnknownSalvageItem,
        r is Ok ==> r->Ok_0@ == resolved_salvage(items@, *reference),
{
    let mut out: Vec<SalvageInput> = Vec::new();
    let mut i: usize = 0;
    while i < items.len()
        invariant
            i <= items@.len(),
            out@.len() == i,
            forall|k: int| 0 <= k < i ==> lookup_type_by_name(reference.types@, (#[trigger] items@[k]).name@) is Some,
            forall|k: int| 0 <= k < i ==> #[trigger] out@[k] == resolved_salvage(items@, *reference)[k],
        decreases items@.len() - i,
    {
        match reference.get_type_by_name(&items[i].name) {
            Some(t) => {
                out.push(SalvageInput { type_id: t.type_id, name: t.name, quantity: items[i].quantity });
            },
            None => {
                return Err(ApiError::UnknownSalvageItem(items[i].name.clone()));
            },
        }
        i = i + 1;
    }
    assert(out@ =~= resolved_salvage(items@, *reference));
    Ok(out)
}

fn price_outputs(materials: &Vec<Material>, prices: &HashMap<i32, MarketPrice>) -> (r: Vec<MaterialOutput>)
    ensures
        outputs_spec(r@, materials@, prices@),
{
    let mut out: Vec<MaterialOutput> = Vec::new();
    let mut i: usize = 0;
    while i < materials.len()
        invariant
            i <= materials@.len(),
            out@.len() == i,
            forall|k: int|
                0 <= k < i ==> {
                    &&& (#[trigger] out@[k]).type_id == materials@[k].type_id
                    &&& out@[k].name@ == materials@[k].name@
                    &&& out@[k].quantity == materials@[k].quantity
                    &&& out@[k].unit_price == unit_price(prices@, materials@[k].type_id)
                    &&& out@[k].total_value == sell_price(prices@, materials@[k].type_id) * materials@[k].quantity
                },
        decreases materials@.len() - i,
    {
        let m = &materials[i];
        let unit: Option<i64> = match prices.get(&m.type_id) {
            Some(p) => p.sell_price,
            None => None,
        };
        let price = get_sell_price(prices, m.type_id);
        assert(price as i128 * m.quantity as i128 <= 0x8000_0000_0000_0000 * 0x8000_0000) by (nonlinear_arith)
            requires
                -0x8000_0000_0000_0000 <= price <= 0x8000_0000_0000_0000,
                -0x8000_0000 <= m.quantity <= 0x8000_0000,
        ;
        assert(price as i128 * m.quantity as i128 >= -0x8000_0000_0000_0000 * 0x8000_0000) by (nonlinear_arith)
            requires
                -0x8000_0000_0000_0000 <= price <= 0x8000_0000_0000_0000,
                -0x8000_0000 <= m.quantity <= 0x8000_0000,
        ;
        out.push(
            MaterialOutput {
                type_id: m.type_id,
                name: m.name.clone(),
                quantity: m.quantity,
                unit_price: unit,
                total_value: price as i128 * m.quantity as i128,
            },
        );
        i = i + 1;
    }
    out
}

/// Analyses a salvage request: resolves the salvage by name, reprocesses it,
/// matches the materials against every blueprint and prices the matches.
/// Fails with `UnknownSalvageItem` for a name without a type, with
/// `InvalidInput` for a negative quantity or a list past `MAX_LINES`, and
/// with `UnknownType` for a recovered or missing material without a type.
pub fn analyze_salvage(
    reference: &ReferenceData,
    request: &AnalyzeSalvageRequest,
    prices: &HashMap<i32, MarketPrice>,
    industry_cost: i64,
) -> (r: Result<AnalyzeSalvageResponse, ApiError>)
    ensures
        !salvage_resolved(request.salvage_items@, *reference) ==> r is Err
            && r->Err_0 is UnknownSalvageItem,
        salvage_resolved(request.salvage_items@, *reference) && !inputs_valid(
            resolved_salvage(request.salvage_items@, *reference),
            reference.yields@,
        ) ==> r is Err && r->Err_0 is InvalidInput,
        ({
            let sal = resolved_salvage(request.salvage_items@, *reference);
            let ppm = requested_efficiency(*request).parts_per_million as int;
            salvage_resolved(request.salvage_items@, *reference) && inputs_valid(sal, reference.yields@)
                && analysis_resolves(sal, *reference, ppm) && within_limits(sal, *reference, ppm)
                ==> r is Ok
        }),
        r is Err && r->Err_0 is UnknownType ==> !has_type_id(reference.types@, r->Err_0->UnknownType_0),
        r is Ok ==> salvage_resolved(request.salvage_items@, *reference) && exists|
            mats: Seq<Material>,
            ms: Seq<BlueprintMatch>,
        |
            #[trigger] analysis_with(
                r->Ok_0,
                mats,
                ms,
                resolved_salvage(request.salvage_items@, *reference),
                *reference,
                prices@,
                requested_efficiency(*request),
                industry_cost as int,
            ),
{
    let efficiency = match request.reprocessing_efficiency {
        Some(e) => e,
        None => Efficiency { parts_per_million: DEFAULT_EFFICIENCY_PPM },
    };
    let ghost ppm = efficiency.parts_per_million as int;
    let salvage = match resolve_salvage(reference, &request.salvage_items) {
        Ok(s) => s,
        Err(e) => {
            return Err(e);
        },
    };
    let materials = match calculate_materials(reference, &salvage, efficiency) {
        Ok(m) => m,
        Err(e) => {
            return Err(e);
        },
    };
    assert(efficiency == requested_efficiency(*request));
    if materials.len() > MAX_LINES {
        proof {
            if within_limits(salvage@, *reference, ppm) {
                assert(materials_spec(materials@, salvage@, *reference, ppm));
            }
        }
        return Err(ApiError::InvalidInput(String::from_str("too many materials")));
    }
    let matches = match match_blueprints(reference, &materials) {
        Ok(m) => m,
        Err(e) => {
            return Err(e);
        },
    };
    let mut i: usize = 0;
    while i < matches.len()
        invariant
            i <= matches@.len(),
            ppm == efficiency.parts_per_million as int,
            efficiency == requested_efficiency(*request),
            salvage_resolved(request.salvage_items@, *reference),
            salvage@ == resolved_salvage(request.salvage_items@, *reference),
            materials_spec(materials@, salvage@, *reference, ppm),
            materials@.len() <= MAX_LINES,
            matches_spec(matches@, *reference, materials@),
            forall|k: int| 0 <= k < i ==> priceable(#[trigger] matches@[k]),
        decreases matches@.len() - i,
    {
        if matches[i].missing_materials.len() > MAX_LINES {
            proof {
                if within_limits(salvage@, *reference, ppm) {
                    assert(materials_spec(materials@, salvage@, *reference, ppm));
                    assert(matches_spec(matches@, *reference, materials@));
                    assert(matches@[i as int].missing_materials@.len() <= MAX_LINES);
                }
            }
            return Err(ApiError::InvalidInput(String::from_str("too many missing materials")));
        }
        proof {
            let m = matches@[i as int];
            assert(match_spec(m, *reference, materials@));
            let reqs = requirements_of(reference.requirements@, m.blueprint.blueprint_type_id);
            lemma_missing_lines_short(reqs, materials@);
            assert forall|k: int| 0 <= k < m.missing_materials@.len() implies 0 <= (
            #[trigger] m.missing_materials@[k]).missing <= 0xffff_ffff by {
                assert(missing_line_spec(m.missing_materials@[k], missing_lines(reqs, materials@)[k], *reference, materials@));
            }
        }
        i = i + 1;
    }
    let outputs = price_outputs(&materials, prices);
    let total_material_value = calculate_material_costs(&materials, prices);
    let items = evaluate(&matches, prices, industry_cost);
    let resp = AnalyzeSalvageResponse {
        materials: outputs,
        total_material_value,
        buildable_items: items,
        reprocessing_efficiency_used: efficiency,
    };
    assert(analysis_with(resp, materials@, matches@, salvage@, *reference, prices@, efficiency, industry_cost as int));
    assert(analysis_with(
        resp,
        materials@,
        matches@,
        resolved_salvage(request.salvage_items@, *reference),
        *reference,
        prices@,
        requested_efficiency(*request),
        industry_cost as int,
    ));
    assert(exists|a: Seq<Material>, b: Seq<BlueprintMatch>|
        #[trigger] analysis_with(
            resp,
            a,
            b,
            resolved_salvage(request.salvage_items@, *reference),
            *reference,
            prices@,
            requested_efficiency(*request),
            industry_cost as int,
        ));
    let result: Result<AnalyzeSalvageResponse, ApiError> = Ok(resp);
    assert(result->Ok_0 == resp);
    result
}

} // verus!
