use vstd::prelude::*;

use crate::error::ApiError;
use crate::models::{Material, MaterialReprocessing, SalvageInput};
use crate::reference::{has_type_id, lookup_type_by_id, ReferenceData};

verus! {

/// Parts of a unit in which an efficiency is expressed.
pub const PPM: u32 = 1_000_000;

/// The largest material quantity that a result reports; a larger total is
/// reported as this value.
pub const MAX_QUANTITY: i32 = 0x7fff_ffff;

/// A reprocessing efficiency: the fraction `parts_per_million / 1_000_000`
/// of the full yield that is recovered.
#[derive(Debug, Clone, Copy, PartialEq, Eq)]
pub struct Efficiency {
    pub parts_per_million: u32,
}

/// `0.5 * (1 + 0.03 r) * (1 + 0.02 e) * (1 + 0.02 s)` in parts per million,
/// which is `(100 + 3r)(50 + e)(50 + s) * 10^6 / (2 * 100 * 50 * 50)`.
pub open spec fn efficiency_ppm(r: int, e: int, s: int) -> int {
    (100 + 3 * r) * (50 + e) * (50 + s) * 2
}

/// Efficiency of reprocessing at the given levels of the reprocessing,
/// reprocessing-efficiency and item-specific processing skills.
pub fn calculate_reprocessing_efficiency(
    reprocessing_skill: u8,
    reprocessing_efficiency_skill: u8,
    specific_processing_skill: u8,
) -> (r: Efficiency)
    ensures
        r.parts_per_million == efficiency_ppm(
            reprocessing_skill as int,
            reprocessing_efficiency_skill as int,
            specific_processing_skill as int,
        ),
{
    let a: u64 = 100 + 3 * reprocessing_skill as u64;
    let b: u64 = 50 + reprocessing_efficiency_skill as u64;
    let c: u64 = 50 + specific_processing_skill as u64;
    assert(a * b <= 865 * 305) by (nonlinear_arith)
        requires
            a <= 865,
            b <= 305,
    ;
    assert(a * b * c <= 865 * 305 * 305) by (nonlinear_arith)
        requires
            a * b <= 865 * 305,
            c <= 305,
    ;
    Efficiency { parts_per_million: (a * b * c * 2) as u32 }
}

/// Units of material recovered from `quantity` items whose yield row gives
/// `per_unit` units each, at `ppm` parts per million: the product, floored.
pub open spec fn yield_amount(per_unit: int, ppm: int, quantity: int) -> int {
    per_unit * ppm * quantity / 1_000_000
}

/// Sum of what the rows of `yields` for source `source` give of material `m`.
pub open spec fn row_total(
    yields: Seq<MaterialReprocessing>,
    source: i32,
    m: i32,
    quantity: int,
    ppm: int,
) -> int
    decreases yields.len(),
{
    if yields.len() == 0 {
        0
    } else {
        let y = yields.last();
        row_total(yields.drop_last(), source, m, quantity, ppm) + if y.source_type_id == source
            && y.material_type_id == m {
            yield_amount(y.quantity as int, ppm, quantity)
        } else {
            0
        }
    }
}

/// Whether some row of `yields` for source `source` gives material `m`.
pub open spec fn row_produces(yields: Seq<MaterialReprocessing>, source: i32, m: i32) -> bool
    decreases yields.len(),
{
    yields.len() > 0 && (row_produces(yields.drop_last(), source, m) || (
    yields.last().source_type_id == source && yields.last().material_type_id == m))
}

/// Total of material `m` recovered from all of `salvage`.
pub open spec fn material_total(
    salvage: Seq<SalvageInput>,
    yields: Seq<MaterialReprocessing>,
    m: i32,
    ppm: int,
) -> int
    decreases salvage.len(),
{
    if salvage.len() == 0 {
        0
    } else {
        let s = salvage.last();
        material_total(salvage.drop_last(), yields, m, ppm) + row_total(
            yields,
            s.type_id,
            m,
            s.quantity as int,
            ppm,
        )
    }
}

/// Whether reprocessing `salvage` gives material `m` at all.
pub open spec fn produces(
    salvage: Seq<SalvageInput>,
    yields: Seq<MaterialReprocessing>,
    m: i32,
) -> bool
    decreases salvage.len(),
{
    salvage.len() > 0 && (produces(salvage.drop_last(), yields, m) || row_produces(
        yields,
        salvage.last().type_id,
        m,
    ))
}

/// No salvage quantity and no yield quantity is negative.
pub open spec fn inputs_valid(salvage: Seq<SalvageInput>, yields: Seq<MaterialReprocessing>) -> bool {
    &&& forall|i: int| 0 <= i < salvage.len() ==> salvage[i].quantity >= 0
    &&& forall|j: int| 0 <= j < yields.len() ==> yields[j].quantity >= 0
}

pub open spec fn min_int(a: int, b: int) -> int {
    if a <= b {
        a
    } else {
        b
    }
}

/// `out` lists each material that `salvage` gives exactly once, ascending
/// by type id, with its total (capped at `MAX_QUANTITY`) and its name.
pub open spec fn materials_spec(
    out: Seq<Material>,
    salvage: Seq<SalvageInput>,
    reference: ReferenceData,
    ppm: int,
) -> bool {
    &&& forall|a: int, b: int| 0 <= a < b < out.len() ==> out[a].type_id < out[b].type_id
    &&& forall|k: int|
        0 <= k < out.len() ==> {
            &&& produces(salvage, reference.yields@, #[trigger] out[k].type_id)
            &&& out[k].quantity == min_int(
                material_total(salvage, reference.yields@, out[k].type_id, ppm),
                MAX_QUANTITY as int,
            )
            &&& lookup_type_by_id(reference.types@, out[k].type_id) is Some
            &&& out[k].name@ == lookup_type_by_id(reference.types@, out[k].type_id)->Some_0.name@
        }
    &&& forall|m: i32|
        produces(salvage, reference.yields@, m) ==> exists|k: int|
            0 <= k < out.len() && out[k].type_id == m
}

spec fn partial_total(
    salvage: Seq<SalvageInput>,
    yields: Seq<MaterialReprocessing>,
    i: int,
    j: int,
    m: i32,
    ppm: int,
) -> int {
    material_total(salvage.subrange(0, i), yields, m, ppm) + if i < salvage.len() {
        row_total(yields.subrange(0, j), salvage[i].type_id, m, salvage[i].quantity as int, ppm)
    } else {
        0
    }
}

spec fn partial_produces(
    salvage: Seq<SalvageInput>,
    yields: Seq<MaterialReprocessing>,
    i: int,
    j: int,
    m: i32,
) -> bool {
    produces(salvage.subrange(0, i), yields, m) || (i < salvage.len() && row_produces(
        yields.subrange(0, j),
        salvage[i].type_id,
        m,
    ))
}

spec fn sorted_keys(acc: Seq<(i32, i64)>) -> bool {
    forall|a: int, b: int| 0 <= a < b < acc.len() ==> acc[a].0 < acc[b].0
}

/// `acc` holds, ascending by key, each material that `salvage` gives, with
/// its capped total.
spec fn totals_spec(
    acc: Seq<(i32, i64)>,
    salvage: Seq<SalvageInput>,
    yields: Seq<MaterialReprocessing>,
    ppm: int,
) -> bool {
    &&& sorted_keys(acc)
    &&& forall|k: int|
        0 <= k < acc.len() ==> {
            &&& produces(salvage, yields, #[trigger] acc[k].0)
            &&& 0 <= acc[k].1 <= MAX_QUANTITY
            &&& acc[k].1 == min_int(material_total(salvage, yields, acc[k].0, ppm), MAX_QUANTITY as int)
        }
    &&& forall|m: i32| produces(salvage, yields, m) ==> exists|k: int| 0 <= k < acc.len() && acc[k].0 == m
}

/// First position in the sorted `acc` whose key is at least `m`.
fn find_slot(acc: &Vec<(i32, i64)>, m: i32) -> (p: usize)
    requires
        sorted_keys(acc@),
    ensures
        p <= acc@.len(),
        forall|k: int| 0 <= k < p ==> acc@[k].0 < m,
        forall|k: int| p <= k < acc@.len() ==> acc@[k].0 >= m,
{
    let mut p: usize = 0;
    while p < acc.len() && acc[p].0 < m
        invariant
            p <= acc@.len(),
            sorted_keys(acc@),
            forall|k: int| 0 <= k < p ==> acc@[k].0 < m,
        decreases acc@.len() - p,
    {
        p = p + 1;
    }
    p
}

/// Materials recovered from `salvage_items` at `efficiency`, one entry per
/// material type, ascending by type id. Rejects negative quantities in the
/// salvage or in the yield table; fails with `UnknownType` when a recovered
/// material has no type in the reference data.
pub fn calculate_materials(
    reference: &ReferenceData,
    salvage_items: &Vec<SalvageInput>,
    efficiency: Efficiency,
) -> (r: Result<Vec<Material>, ApiError>)
    ensures
        !inputs_valid(salvage_items@, reference.yields@) ==> r is Err && r->Err_0 is InvalidInput,
        inputs_valid(salvage_items@, reference.yields@) ==> (r is Ok <==> forall|m: i32|
            produces(salvage_items@, reference.yields@, m) ==> has_type_id(reference.types@, m)),
        inputs_valid(salvage_items@, reference.yields@) && r is Err ==> {
            &&& r->Err_0 is UnknownType
            &&& produces(salvage_items@, reference.yields@, r->Err_0->UnknownType_0)
            &&& !has_type_id(reference.types@, r->Err_0->UnknownType_0)
        },
        r is Ok ==> materials_spec(
            r->Ok_0@,
            salvage_items@,
            *reference,
            efficiency.parts_per_million as int,
        ),
{
    let ghost ppm = efficiency.parts_per_million as int;
    let ghost sal = salvage_items@;
    let ghost ys = reference.yields@;
    // Validate the quantities first.
    let mut i: usize = 0;
    while i < salvage_items.len()
        invariant
            i <= sal.len(),
            sal == salvage_items@,
            forall|k: int| 0 <= k < i ==> sal[k].quantity >= 0,
        decreases sal.len() - i,
    {
        if salvage_items[i].quantity < 0 {
            return Err(ApiError::InvalidInput(String::from_str("negative salvage quantity")));
        }
        i = i + 1;
    }
    let mut j: usize = 0;
    while j < reference.yields.len()
        invariant
            j <= ys.len(),
            ys == reference.yields@,
            forall|k: int| 0 <= k < j ==> ys[k].quantity >= 0,
        decreases ys.len() - j,
    {
        if reference.yields[j].quantity < 0 {
            return Err(ApiError::InvalidInput(String::from_str("negative yield quantity")));
        }
        j = j + 1;
    }
    assert(inputs_valid(sal, ys));
    let acc = accumulate(reference, salvage_items, efficiency);
    name_materials(reference, salvage_items, efficiency, &acc)
}

/// Once every salvage item is processed, the running totals are the totals.
proof fn lemma_totals_complete(
    acc: Seq<(i32, i64)>,
    sal: Seq<SalvageInput>,
    ys: Seq<MaterialReprocessing>,
    ppm: int,
)
    requires
        sorted_keys(acc),
        forall|m: i32| 0 <= #[trigger] partial_total(sal, ys, sal.len() as int, 0, m, ppm),
        forall|k: int|
            0 <= k < acc.len() ==> {
                &&& partial_produces(sal, ys, sal.len() as int, 0, #[trigger] acc[k].0)
                &&& acc[k].1 == min_int(
                    partial_total(sal, ys, sal.len() as int, 0, acc[k].0, ppm),
                    MAX_QUANTITY as int,
                )
            },
        forall|m: i32|
            #[trigger] partial_produces(sal, ys, sal.len() as int, 0, m) ==> exists|k: int|
                0 <= k < acc.len() && acc[k].0 == m,
    ensures
        totals_spec(acc, sal, ys, ppm),
{
    assert(sal.subrange(0, sal.len() as int) =~= sal);
    assert forall|mm: i32|
        #[trigger] partial_total(sal, ys, sal.len() as int, 0, mm, ppm) == material_total(
            sal,
            ys,
            mm,
            ppm,
        ) by {}
    assert forall|mm: i32|
        #[trigger] partial_produces(sal, ys, sal.len() as int, 0, mm) == produces(sal, ys, mm) by {}
    assert forall|mm: i32| produces(sal, ys, mm) implies exists|k: int|
        0 <= k < acc.len() && acc[k].0 == mm by {
        assert(partial_produces(sal, ys, sal.len() as int, 0, mm));
    }
    assert forall|k: int| 0 <= k < acc.len() implies {
        &&& produces(sal, ys, #[trigger] acc[k].0)
        &&& 0 <= acc[k].1 <= MAX_QUANTITY
        &&& acc[k].1 == min_int(material_total(sal, ys, acc[k].0, ppm), MAX_QUANTITY as int)
    } by {
        assert(partial_produces(sal, ys, sal.len() as int, 0, acc[k].0));
        assert(0 <= partial_total(sal, ys, sal.len() as int, 0, acc[k].0, ppm));
    }
}

/// Totals per material, ascending by type id.
fn accumulate(
    reference: &ReferenceData,
    salvage_items: &Vec<SalvageInput>,
    efficiency: Efficiency,
) -> (acc: Vec<(i32, i64)>)
    requires
        inputs_valid(salvage_items@, reference.yields@),
    ensures
        totals_spec(acc@, salvage_items@, reference.yields@, efficiency.parts_per_million as int),
{
    let ghost ppm = efficiency.parts_per_million as int;
    let ghost sal = salvage_items@;
    let ghost ys = reference.yields@;
    let mut acc: Vec<(i32, i64)> = Vec::new();
    let mut i: usize = 0;
    while i < salvage_items.len()
        invariant
            i <= sal.len(),
            sal == salvage_items@,
            ys == reference.yields@,
            ppm == efficiency.parts_per_million as int,
            inputs_valid(sal, ys),
            sorted_keys(acc@),
            forall|m: i32| 0 <= #[trigger] partial_total(sal, ys, i as int, 0, m, ppm),
            forall|m: i32|
                !#[trigger] partial_produces(sal, ys, i as int, 0, m) ==> partial_total(
                    sal,
                    ys,
                    i as int,
                    0,
                    m,
                    ppm,
                ) == 0,
            forall|k: int|
                0 <= k < acc@.len() ==> {
                    &&& partial_produces(sal, ys, i as int, 0, #[trigger] acc@[k].0)
                    &&& acc@[k].1 == min_int(
                        partial_total(sal, ys, i as int, 0, acc@[k].0, ppm),
                        MAX_QUANTITY as int,
                    )
                },
            forall|m: i32|
                #[trigger] partial_produces(sal, ys, i as int, 0, m) ==> exists|k: int|
                    0 <= k < acc@.len() && acc@[k].0 == m,
        decreases sal.len() - i,
    {
        let source = salvage_items[i].type_id;
        let quantity = salvage_items[i].quantity;
        proof {
            assert(ys.subrange(0, 0) =~= Seq::<MaterialReprocessing>::empty());
        }
        let mut j: usize = 0;
        while j < reference.yields.len()
            invariant
                i < sal.len(),
                j <= ys.len(),
                sal == salvage_items@,
                ys == reference.yields@,
                ppm == efficiency.parts_per_million as int,
                source == sal[i as int].type_id,
                quantity == sal[i as int].quantity,
                inputs_valid(sal, ys),
                sorted_keys(acc@),
                forall|m: i32| 0 <= #[trigger] partial_total(sal, ys, i as int, j as int, m, ppm),
                forall|m: i32|
                    !#[trigger] partial_produces(sal, ys, i as int, j as int, m) ==> partial_total(
                        sal,
                        ys,
                        i as int,
                        j as int,
                        m,
                        ppm,
                    ) == 0,
                forall|k: int|
                    0 <= k < acc@.len() ==> {
                        &&& partial_produces(sal, ys, i as int, j as int, #[trigger] acc@[k].0)
                        &&& acc@[k].1 == min_int(
                            partial_total(sal, ys, i as int, j as int, acc@[k].0, ppm),
                            MAX_QUANTITY as int,
                        )
                    },
                forall|m: i32|
                    #[trigger] partial_produces(sal, ys, i as int, j as int, m) ==> exists|k: int|
                        0 <= k < acc@.len() && acc@[k].0 == m,
            decreases ys.len() - j,
        {
            let row = &reference.yields[j];
            let ghost old_acc = acc@;
            proof {
                let s = ys.subrange(0, j as int + 1);
                assert(s.drop_last() =~= ys.subrange(0, j as int));
                assert(s.last() == ys[j as int]);
            }
            if row.source_type_id == source {
                let m = row.material_type_id;
                let per_unit = row.quantity;
                assert(0 <= per_unit && 0 <= quantity);
                assert(per_unit as u128 * efficiency.parts_per_million as u128 <= 0x7fff_ffff * 0xffff_ffff)
                    by (nonlinear_arith)
                    requires
                        0 <= per_unit <= 0x7fff_ffff,
                        efficiency.parts_per_million <= 0xffff_ffff,
                ;
                let prod1: u128 = per_unit as u128 * efficiency.parts_per_million as u128;
                assert(prod1 * (quantity as u128) <= 0x7fff_ffff * 0xffff_ffff * 0x7fff_ffff)
                    by (nonlinear_arith)
                    requires
                        prod1 <= 0x7fff_ffff * 0xffff_ffff,
                        0 <= quantity <= 0x7fff_ffff,
                ;
                let full: u128 = prod1 * quantity as u128 / 1_000_000;
                assert(full == yield_amount(per_unit as int, ppm, quantity as int));
                let c: i64 = if full > MAX_QUANTITY as u128 {
                    MAX_QUANTITY as i64
                } else {
                    full as i64
                };
                let p = find_slot(&acc, m);
                if p < acc.len() && acc[p].0 == m {
                    let sum = acc[p].1 + c;
                    let v: i64 = if sum > MAX_QUANTITY as i64 {
                        MAX_QUANTITY as i64
                    } else {
                        sum
                    };
                    acc.set(p, (m, v));
                    assert(acc@[p as int].0 == m);
                    assert(sorted_keys(acc@));
                } else {
                    proof {
                        if partial_produces(sal, ys, i as int, j as int, m) {
                            let k0 = choose|k0: int| 0 <= k0 < old_acc.len() && old_acc[k0].0 == m;
                            if k0 > p {
                                assert(old_acc[p as int].0 < old_acc[k0].0);
                            }
                            assert(false);
                        }
                        assert(partial_total(sal, ys, i as int, j as int, m, ppm) == 0);
                        assert forall|k: int| p <= k < old_acc.len() implies old_acc[k].0 > m by {
                            if k > p {
                                assert(old_acc[p as int].0 < old_acc[k].0);
                            }
                        }
                    }
                    acc.insert(p, (m, c));
                    assert(acc@[p as int].0 == m);
                    assert(sorted_keys(acc@));
                }
                proof {
                    assert forall|mm: i32|
                        #[trigger] partial_total(sal, ys, i as int, j as int + 1, mm, ppm)
                            == partial_total(sal, ys, i as int, j as int, mm, ppm) + if mm == m {
                            full as int
                        } else {
                            0
                        } by {}
                    assert forall|mm: i32|
                        #[trigger] partial_produces(sal, ys, i as int, j as int + 1, mm)
                            == (partial_produces(sal, ys, i as int, j as int, mm) || mm == m) by {}
                    assert forall|k: int| 0 <= k < acc@.len() implies {
                        &&& partial_produces(sal, ys, i as int, j as int + 1, #[trigger] acc@[k].0)
                        &&& acc@[k].1 == min_int(
                            partial_total(sal, ys, i as int, j as int + 1, acc@[k].0, ppm),
                            MAX_QUANTITY as int,
                        )
                    } by {
                        if acc@[k].0 != m {
                            let k2 = if k < p {
                                k
                            } else if old_acc.len() < acc@.len() {
                                k - 1
                            } else {
                                k
                            };
                            assert(acc@[k] == old_acc[k2]);
                        }
                    }
                    assert forall|mm: i32|
                        #[trigger] partial_produces(sal, ys, i as int, j as int + 1, mm) implies exists|k: int|
                            0 <= k < acc@.len() && acc@[k].0 == mm by {
                        if mm == m {
                            assert(acc@[p as int].0 == m);
                        } else {
                            let k2 = choose|k2: int| 0 <= k2 < old_acc.len() && old_acc[k2].0 == mm;
                            if k2 < p || old_acc.len() == acc@.len() {
                                assert(acc@[k2].0 == mm);
                            } else {
                                assert(acc@[k2 + 1].0 == mm);
                            }
                        }
                    }
                }
            } else {
                proof {
                    assert forall|mm: i32|
                        #[trigger] partial_total(sal, ys, i as int, j as int + 1, mm, ppm)
                            == partial_total(sal, ys, i as int, j as int, mm, ppm) by {}
                    assert forall|mm: i32|
                        #[trigger] partial_produces(sal, ys, i as int, j as int + 1, mm)
                            == partial_produces(sal, ys, i as int, j as int, mm) by {}
                }
            }
            j = j + 1;
        }
        proof {
            let s = sal.subrange(0, i as int + 1);
            assert(s.drop_last() =~= sal.subrange(0, i as int));
            assert(ys.subrange(0, ys.len() as int) =~= ys);
            assert forall|mm: i32|
                #[trigger] partial_total(sal, ys, i as int + 1, 0, mm, ppm) == partial_total(
                    sal,
                    ys,
                    i as int,
                    ys.len() as int,
                    mm,
                    ppm,
                ) by {
                if i + 1 < sal.len() {
                    assert(ys.subrange(0, 0) =~= Seq::<MaterialReprocessing>::empty());
                }
            }
            assert forall|mm: i32|
                #[trigger] partial_produces(sal, ys, i as int + 1, 0, mm) == partial_produces(
                    sal,
                    ys,
                    i as int,
                    ys.len() as int,
                    mm,
                ) by {
                if i + 1 < sal.len() {
                    assert(ys.subrange(0, 0) =~= Seq::<MaterialReprocessing>::empty());
                }
            }
        }
        i = i + 1;
    }
    proof {
        lemma_totals_complete(acc@, sal, ys, ppm);
    }
    acc
}


/// Attaches names to the totals; fails on the first material without a type.
fn name_materials(
    reference: &ReferenceData,
    salvage_items: &Vec<SalvageInput>,
    efficiency: Efficiency,
    acc: &Vec<(i32, i64)>,
) -> (r: Result<Vec<Material>, ApiError>)
    requires
        totals_spec(acc@, salvage_items@, reference.yields@, efficiency.parts_per_million as int),
    ensures
        r is Ok <==> forall|m: i32|
            produces(salvage_items@, reference.yields@, m) ==> has_type_id(reference.types@, m),
        r is Err ==> {
            &&& r->Err_0 is UnknownType
            &&& produces(salvage_items@, reference.yields@, r->Err_0->UnknownType_0)
            &&& !has_type_id(reference.types@, r->Err_0->UnknownType_0)
        },
        r is Ok ==> materials_spec(
            r->Ok_0@,
            salvage_items@,
            *reference,
            efficiency.parts_per_million as int,
        ),
{
    let ghost ppm = efficiency.parts_per_million as int;
    let mut out: Vec<Material> = Vec::new();
    let mut k: usize = 0;
    while k < acc.len()
        invariant
            k <= acc@.len(),
            out@.len() == k,
            ppm == efficiency.parts_per_million as int,
            totals_spec(acc@, salvage_items@, reference.yields@, ppm),
            forall|a: int| 0 <= a < k ==> (#[trigger] out@[a]).type_id == acc@[a].0 && out@[a].quantity == acc@[a].1,
            forall|a: int| 0 <= a < k ==> has_type_id(reference.types@, (#[trigger] out@[a]).type_id),
            forall|a: int| 0 <= a < k ==> lookup_type_by_id(reference.types@, (#[trigger] out@[a]).type_id) is Some
                && out@[a].name@ == lookup_type_by_id(reference.types@, out@[a].type_id)->Some_0.name@,
        decreases acc@.len() - k,
    {
        let m = acc[k].0;
        let q = acc[k].1;
        match reference.get_type_by_id(m) {
            Some(t) => {
                assert(acc@[k as int].0 == m);
                out.push(Material { type_id: m, name: t.name, quantity: q as i32 });
            },
            None => {
                assert(acc@[k as int].0 == m);
                assert(produces(salvage_items@, reference.yields@, acc@[k as int].0));
                return Err(ApiError::UnknownType(m));
            },
        }
        k = k + 1;
    }
    proof {
        assert forall|m: i32| produces(salvage_items@, reference.yields@, m) implies has_type_id(reference.types@, m) by {
            let a = choose|a: int| 0 <= a < acc@.len() && acc@[a].0 == m;
            assert(out@[a].type_id == m);
        }
        assert forall|a: int, b: int| 0 <= a < b < out@.len() implies out@[a].type_id < out@[b].type_id by {
            assert(out@[a].type_id == acc@[a].0);
            assert(out@[b].type_id == acc@[b].0);
        }
        assert forall|m: i32| produces(salvage_items@, reference.yields@, m) implies exists|a: int|
            0 <= a < out@.len() && out@[a].type_id == m by {
            let a = choose|a: int| 0 <= a < acc@.len() && acc@[a].0 == m;
            assert(out@[a].type_id == m);
        }
        assert forall|a: int| 0 <= a < out@.len() implies produces(salvage_items@, reference.yields@, #[trigger] out@[a].type_id) by {
            assert(out@[a].type_id == acc@[a].0);
        }
    }
    Ok(out)
}


/// The materials of a reprocessing run come in ascending order of type id,
/// each type once, with the summed total of every yield row that gives it.
pub proof fn lemma_materials_sorted_unique(
    out: Seq<Material>,
    salvage: Seq<SalvageInput>,
    reference: ReferenceData,
    ppm: int,
)
    requires
        materials_spec(out, salvage, reference, ppm),
    ensures
        forall|a: int, b: int| 0 <= a < b < out.len() ==> out[a].type_id < out[b].type_id,
        forall|a: int, b: int| 0 <= a < out.len() && 0 <= b < out.len() && a != b ==> out[a].type_id != out[b].type_id,
        forall|k: int| 0 <= k < out.len() ==> (#[trigger] out[k]).quantity == min_int(
            material_total(salvage, reference.yields@, out[k].type_id, ppm),
            MAX_QUANTITY as int,
        ),
{
    assert forall|a: int, b: int| 0 <= a < out.len() && 0 <= b < out.len() && a != b implies out[a].type_id != out[b].type_id by {
        if a < b {
            assert(out[a].type_id < out[b].type_id);
        } else {
            assert(out[b].type_id < out[a].type_id);
        }
    }
}

} // verus!
