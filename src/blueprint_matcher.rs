use vstd::prelude::*;

use std::collections::HashMap;
use vstd::utf8::encode_utf8;

use crate::error::ApiError;
use crate::models::{Blueprint, BlueprintMaterial, EveType, Material, Ratio};
use crate::reference::{has_type_id, lookup_type_by_id, requirements_of, ReferenceData};

verus! {

broadcast use vstd::std_specs::hash::group_hash_axioms;

/// A requirement line that the available materials do not cover.
#[derive(Debug, Clone)]
pub struct MaterialWithName {
    pub type_id: i32,
    pub name: String,
    pub needed: i32,
    pub available: i32,
    pub missing: i64,
}

/// How far the available materials go towards one blueprint.
/// `match_percentage` is `satisfied_count * 100 / total_count`: the share of
/// requirement lines that are covered, not a share of quantities.
#[derive(Debug, Clone)]
pub struct BlueprintMatch {
    pub blueprint: Blueprint,
    pub product: EveType,
    pub match_percentage: Ratio,
    pub missing_materials: Vec<MaterialWithName>,
    pub satisfied_count: usize,
    pub total_count: usize,
}

/// Available quantity by material type; a later entry for a type replaces
/// an earlier one.
pub open spec fn available_map(materials: Seq<Material>) -> Map<i32, i32>
    decreases materials.len(),
{
    if materials.len() == 0 {
        Map::empty()
    } else {
        available_map(materials.drop_last()).insert(
            materials.last().type_id,
            materials.last().quantity,
        )
    }
}

/// Available quantity of material `id`; zero where none is listed.
pub open spec fn available_of(materials: Seq<Material>, id: i32) -> int {
    if available_map(materials).contains_key(id) {
        available_map(materials)[id] as int
    } else {
        0
    }
}

/// The requirement rows of `reqs` that the available materials do not
/// cover, in order.
pub open spec fn missing_lines(reqs: Seq<BlueprintMaterial>, materials: Seq<Material>) -> Seq<
    BlueprintMaterial,
>
    decreases reqs.len(),
{
    if reqs.len() == 0 {
        Seq::empty()
    } else {
        let rest = missing_lines(reqs.drop_last(), materials);
        if available_of(materials, reqs.last().material_type_id) >= reqs.last().quantity {
            rest
        } else {
            rest.push(reqs.last())
        }
    }
}

/// `line` reports requirement `req` as missing, with the material's name.
pub open spec fn missing_line_spec(
    line: MaterialWithName,
    req: BlueprintMaterial,
    reference: ReferenceData,
    materials: Seq<Material>,
) -> bool {
    &&& line.type_id == req.material_type_id
    &&& line.needed == req.quantity
    &&& line.available == available_of(materials, req.material_type_id)
    &&& line.missing == line.needed - line.available
    &&& lookup_type_by_id(reference.types@, line.type_id) is Some
    &&& line.name@ == lookup_type_by_id(reference.types@, line.type_id)->Some_0.name@
}

/// `m` is the match of its blueprint against `materials`.
pub open spec fn match_spec(m: BlueprintMatch, reference: ReferenceData, materials: Seq<Material>) -> bool {
    let reqs = requirements_of(reference.requirements@, m.blueprint.blueprint_type_id);
    let miss = missing_lines(reqs, materials);
    &&& reqs.len() > 0
    &&& lookup_type_by_id(reference.types@, m.blueprint.product_type_id) == Some(m.product)
    &&& m.total_count == reqs.len()
    &&& m.satisfied_count == reqs.len() - miss.len()
    &&& m.match_percentage.numerator == m.satisfied_count * 100
    &&& m.match_percentage.denominator == m.total_count
    &&& m.missing_materials@.len() == miss.len()
    &&& forall|k: int|
        0 <= k < miss.len() ==> missing_line_spec(
            #[trigger] m.missing_materials@[k],
            miss[k],
            reference,
            materials,
        )
}

/// A blueprint is reported when it has requirement rows and its product
/// resolves.
pub open spec fn is_candidate(b: Blueprint, reference: ReferenceData) -> bool {
    &&& requirements_of(reference.requirements@, b.blueprint_type_id).len() > 0
    &&& lookup_type_by_id(reference.types@, b.product_type_id) is Some
}

/// The blueprints of `bps` that are reported, in order.
pub open spec fn candidates(bps: Seq<Blueprint>, reference: ReferenceData) -> Seq<Blueprint>
    decreases bps.len(),
{
    if bps.len() == 0 {
        Seq::empty()
    } else {
        let rest = candidates(bps.drop_last(), reference);
        if is_candidate(bps.last(), reference) {
            rest.push(bps.last())
        } else {
            rest
        }
    }
}

/// Some missing line of blueprint `b` names a material type that has no
/// entry in the reference data.
pub open spec fn blueprint_unresolved(
    b: Blueprint,
    reference: ReferenceData,
    materials: Seq<Material>,
) -> bool {
    let miss = missing_lines(requirements_of(reference.requirements@, b.blueprint_type_id), materials);
    exists|k: int| 0 <= k < miss.len() && !has_type_id(reference.types@, miss[k].material_type_id)
}

/// Lexicographic order on byte strings, a proper prefix first.
pub open spec fn lex_lt(a: Seq<u8>, b: Seq<u8>) -> bool
    decreases a.len(),
{
    if b.len() == 0 {
        false
    } else if a.len() == 0 {
        true
    } else if a[0] != b[0] {
        a[0] < b[0]
    } else {
        lex_lt(a.drop_first(), b.drop_first())
    }
}

/// `a` is listed before `b`: a higher match percentage first, then the
/// product name in ascending order of its UTF-8 bytes.
pub open spec fn ranks_before(a: BlueprintMatch, b: BlueprintMatch) -> bool {
    let pa = a.satisfied_count * b.total_count;
    let pb = b.satisfied_count * a.total_count;
    pa > pb || (pa == pb && lex_lt(encode_utf8(a.product.name@), encode_utf8(b.product.name@)))
}

/// No match is listed after one that ranks below it.
pub open spec fn ranked(s: Seq<BlueprintMatch>) -> bool {
    forall|i: int, j: int| 0 <= i < j < s.len() ==> !ranks_before(s[j], s[i])
}

pub proof fn lemma_lex_lt_asym(a: Seq<u8>, b: Seq<u8>)
    ensures
        !(lex_lt(a, b) && lex_lt(b, a)),
    decreases a.len(),
{
    if a.len() > 0 && b.len() > 0 && a[0] == b[0] {
        lemma_lex_lt_asym(a.drop_first(), b.drop_first());
    }
}

pub proof fn lemma_lex_lt_trans(a: Seq<u8>, b: Seq<u8>, c: Seq<u8>)
    requires
        lex_lt(a, b),
        lex_lt(b, c),
    ensures
        lex_lt(a, c),
    decreases a.len(),
{
    if a.len() > 0 && a[0] == b[0] && b[0] == c[0] {
        lemma_lex_lt_trans(a.drop_first(), b.drop_first(), c.drop_first());
    }
}

proof fn lemma_cross(xs: int, xt: int, ys: int, yt: int, zs: int, zt: int)
    requires
        xt > 0,
        yt > 0,
        zt > 0,
        xs * yt >= ys * xt,
        ys * zt >= zs * yt,
    ensures
        xs * zt >= zs * xt,
        (xs * yt > ys * xt || ys * zt > zs * yt) ==> xs * zt > zs * xt,
{
    assert(xs * yt * zt >= ys * xt * zt) by (nonlinear_arith)
        requires
            xs * yt >= ys * xt,
            zt > 0,
    ;
    assert(ys * zt * xt >= zs * yt * xt) by (nonlinear_arith)
        requires
            ys * zt >= zs * yt,
            xt > 0,
    ;
    assert(ys * xt * zt == ys * zt * xt) by (nonlinear_arith);
    assert(xs * yt * zt == yt * (xs * zt)) by (nonlinear_arith);
    assert(zs * yt * xt == yt * (zs * xt)) by (nonlinear_arith);
    assert(xs * zt >= zs * xt) by (nonlinear_arith)
        requires
            yt * (xs * zt) >= yt * (zs * xt),
            yt > 0,
    ;
    if xs * yt > ys * xt || ys * zt > zs * yt {
        if xs * yt > ys * xt {
            assert(xs * yt * zt > ys * xt * zt) by (nonlinear_arith)
                requires
                    xs * yt > ys * xt,
                    zt > 0,
            ;
        } else {
            assert(ys * zt * xt > zs * yt * xt) by (nonlinear_arith)
                requires
                    ys * zt > zs * yt,
                    xt > 0,
            ;
        }
        assert(xs * zt > zs * xt) by (nonlinear_arith)
            requires
                yt * (xs * zt) > yt * (zs * xt),
                yt > 0,
        ;
    }
}

proof fn lemma_ranks_asym(a: BlueprintMatch, b: BlueprintMatch)
    ensures
        !(ranks_before(a, b) && ranks_before(b, a)),
{
    lemma_lex_lt_asym(encode_utf8(a.product.name@), encode_utf8(b.product.name@));
}

proof fn lemma_ranks_trans(a: BlueprintMatch, b: BlueprintMatch, c: BlueprintMatch)
    requires
        a.total_count > 0,
        b.total_count > 0,
        c.total_count > 0,
        ranks_before(a, b),
        ranks_before(b, c),
    ensures
        ranks_before(a, c),
{
    lemma_cross(
        a.satisfied_count as int,
        a.total_count as int,
        b.satisfied_count as int,
        b.total_count as int,
        c.satisfied_count as int,
        c.total_count as int,
    );
    let pab = a.satisfied_count * b.total_count;
    let pba = b.satisfied_count * a.total_count;
    let pbc = b.satisfied_count * c.total_count;
    let pcb = c.satisfied_count * b.total_count;
    if pab == pba && pbc == pcb {
        lemma_lex_lt_trans(
            encode_utf8(a.product.name@),
            encode_utf8(b.product.name@),
            encode_utf8(c.product.name@),
        );
    }
}

/// The match percentage of a blueprint with `satisfied` of its `total`
/// requirement lines covered: `satisfied / total * 100`, counted in lines.
pub fn match_percentage(satisfied: usize, total: usize) -> (r: Ratio)
    requires
        total > 0,
    ensures
        r.numerator == satisfied * 100,
        r.denominator == total,
        r.wf(),
{
    Ratio { numerator: satisfied as i128 * 100, denominator: total as i128 }
}

/// Whether `a` comes before `b` in the byte order of their UTF-8 encodings.
fn name_before(a: &String, b: &String) -> (r: bool)
    ensures
        r == lex_lt(encode_utf8(a@), encode_utf8(b@)),
{
    let x = a.as_str().as_bytes();
    let y = b.as_str().as_bytes();
    let ghost xs = x@;
    let ghost ys = y@;
    assert(xs.subrange(0, xs.len() as int) =~= xs);
    assert(ys.subrange(0, ys.len() as int) =~= ys);
    let mut i: usize = 0;
    while i < x.len() && i < y.len() && x[i] == y[i]
        invariant
            xs == x@,
            ys == y@,
            i <= xs.len(),
            i <= ys.len(),
            lex_lt(xs, ys) == lex_lt(xs.subrange(i as int, xs.len() as int), ys.subrange(i as int, ys.len() as int)),
        decreases xs.len() - i,
    {
        proof {
            let xa = xs.subrange(i as int, xs.len() as int);
            let ya = ys.subrange(i as int, ys.len() as int);
            assert(xa.drop_first() =~= xs.subrange(i as int + 1, xs.len() as int));
            assert(ya.drop_first() =~= ys.subrange(i as int + 1, ys.len() as int));
        }
        i = i + 1;
    }
    if i < x.len() && i < y.len() {
        x[i] < y[i]
    } else {
        i == x.len() && i < y.len()
    }
}

/// The available quantities as a map.
fn build_available(materials: &Vec<Material>) -> (m: HashMap<i32, i32>)
    ensures
        m@ == available_map(materials@),
{
    let mut m: HashMap<i32, i32> = HashMap::new();
    let mut i: usize = 0;
    while i < materials.len()
        invariant
            i <= materials@.len(),
            m@ == available_map(materials@.subrange(0, i as int)),
        decreases materials@.len() - i,
    {
        proof {
            assert(materials@.subrange(0, i as int + 1).drop_last() =~= materials@.subrange(0, i as int));
        }
        m.insert(materials[i].type_id, materials[i].quantity);
        i = i + 1;
    }
    assert(materials@.subrange(0, materials@.len() as int) =~= materials@);
    m
}

/// Whether every requirement row is covered by the available quantities.
pub fn can_build(available_materials: &HashMap<i32, i32>, blueprint_materials: &[BlueprintMaterial]) -> (r: bool)
    ensures
        r == forall|k: int|
            0 <= k < blueprint_materials@.len() ==> {
                &&& available_materials@.contains_key(#[trigger] blueprint_materials@[k].material_type_id)
                &&& available_materials@[blueprint_materials@[k].material_type_id] >= blueprint_materials@[k].quantity
            },
{
    let mut i: usize = 0;
    while i < blueprint_materials.len()
        invariant
            i <= blueprint_materials@.len(),
            forall|k: int|
                0 <= k < i ==> {
                    &&& available_materials@.contains_key(#[trigger] blueprint_materials@[k].material_type_id)
                    &&& available_materials@[blueprint_materials@[k].material_type_id] >= blueprint_materials@[k].quantity
                },
        decreases blueprint_materials@.len() - i,
    {
        let req = blueprint_materials[i];
        match available_materials.get(&req.material_type_id) {
            Some(q) => {
                if *q < req.quantity {
                    return false;
                }
            },
            None => {
                return false;
            },
        }
        i = i + 1;
    }
    true
}


proof fn lemma_missing_prefix(s: Seq<BlueprintMaterial>, j: int, materials: Seq<Material>)
    requires
        0 <= j <= s.len(),
    ensures
        missing_lines(s.subrange(0, j), materials).len() <= missing_lines(s, materials).len(),
        forall|k: int|
            0 <= k < missing_lines(s.subrange(0, j), materials).len() ==> #[trigger] missing_lines(
                s.subrange(0, j),
                materials,
            )[k] == missing_lines(s, materials)[k],
    decreases s.len(),
{
    if j == s.len() {
        assert(s.subrange(0, j) =~= s);
    } else {
        let t = s.drop_last();
        assert(t.subrange(0, j) =~= s.subrange(0, j));
        lemma_missing_prefix(t, j, materials);
    }
}

/// The match of blueprint `b`, `None` where it is not reported.
fn match_blueprint(
    reference: &ReferenceData,
    b: Blueprint,
    materials: &Vec<Material>,
    available: &HashMap<i32, i32>,
) -> (r: Result<Option<BlueprintMatch>, ApiError>)
    requires
        available@ == available_map(materials@),
    ensures
        r is Err <==> blueprint_unresolved(b, *reference, materials@),
        r is Err ==> r->Err_0 is UnknownType && !has_type_id(reference.types@, r->Err_0->UnknownType_0),
        r is Ok ==> (r->Ok_0 is Some <==> is_candidate(b, *reference)),
        r matches Ok(Some(m)) ==> m.blueprint == b && match_spec(m, *reference, materials@),
{
    let reqs = reference.get_blueprint_materials(b.blueprint_type_id);
    let ghost all = reqs@;
    if reqs.len() == 0 {
        assert(missing_lines(all, materials@) =~= Seq::<BlueprintMaterial>::empty());
        return Ok(None);
    }
    let mut missing: Vec<MaterialWithName> = Vec::new();
    let mut satisfied: usize = 0;
    let mut j: usize = 0;
    while j < reqs.len()
        invariant
            j <= all.len(),
            all == reqs@,
            all == requirements_of(reference.requirements@, b.blueprint_type_id),
            available@ == available_map(materials@),
            missing@.len() == missing_lines(all.subrange(0, j as int), materials@).len(),
            satisfied + missing@.len() == j,
            forall|k: int|
                0 <= k < missing@.len() ==> missing_line_spec(
                    #[trigger] missing@[k],
                    missing_lines(all.subrange(0, j as int), materials@)[k],
                    *reference,
                    materials@,
                ),
        decreases all.len() - j,
    {
        let req = reqs[j];
        proof {
            assert(all.subrange(0, j as int + 1).drop_last() =~= all.subrange(0, j as int));
        }
        let have: i32 = match available.get(&req.material_type_id) {
            Some(q) => *q,
            None => 0,
        };
        assert(have == available_of(materials@, req.material_type_id));
        if have >= req.quantity {
            satisfied = satisfied + 1;
        } else {
            match reference.get_type_by_id(req.material_type_id) {
                Some(t) => {
                    missing.push(
                        MaterialWithName {
                            type_id: req.material_type_id,
                            name: t.name,
                            needed: req.quantity,
                            available: have,
                            missing: req.quantity as i64 - have as i64,
                        },
                    );
                },
                None => {
                    proof {
                        let pre = missing_lines(all.subrange(0, j as int + 1), materials@);
                        lemma_missing_prefix(all, j as int + 1, materials@);
                        assert(pre[pre.len() - 1] == req);
                        assert(missing_lines(all, materials@)[pre.len() - 1] == req);
                    }
                    return Err(ApiError::UnknownType(req.material_type_id));
                },
            }
        }
        j = j + 1;
    }
    assert(all.subrange(0, all.len() as int) =~= all);
    proof {
        let miss = missing_lines(all, materials@);
        assert forall|k: int| 0 <= k < miss.len() implies has_type_id(reference.types@, miss[k].material_type_id) by {
            assert(missing_line_spec(missing@[k], miss[k], *reference, materials@));
            crate::reference::lemma_lookup_by_id_some(reference.types@, miss[k].material_type_id);
        }
    }
    let product = match reference.get_type_by_id(b.product_type_id) {
        Some(p) => p,
        None => {
            return Ok(None);
        },
    };
    let total = reqs.len();
    Ok(
        Some(
            BlueprintMatch {
                blueprint: b,
                product,
                match_percentage: match_percentage(satisfied, total),
                missing_materials: missing,
                satisfied_count: satisfied,
                total_count: total,
            },
        ),
    )
}

fn cross(a: usize, b: usize) -> (r: u128)
    ensures
        r == a * b,
{
    assert(a as u128 * b as u128 <= 0xffff_ffff_ffff_ffff * 0xffff_ffff_ffff_ffff) by (nonlinear_arith)
        requires
            a <= 0xffff_ffff_ffff_ffff,
            b <= 0xffff_ffff_ffff_ffff,
    ;
    a as u128 * b as u128
}

/// Whether `a` is listed before `b`.
fn ranks_before_exec(a: &BlueprintMatch, b: &BlueprintMatch) -> (r: bool)
    ensures
        r == ranks_before(*a, *b),
{
    let pa = cross(a.satisfied_count, b.total_count);
    let pb = cross(b.satisfied_count, a.total_count);
    if pa != pb {
        pa > pb
    } else {
        name_before(&a.product.name, &b.product.name)
    }
}

/// Inserts `x` into the ranked `out` after every entry that does not rank
/// below it, and returns its position.
fn insert_ranked(out: &mut Vec<BlueprintMatch>, x: BlueprintMatch) -> (p: usize)
    requires
        ranked(old(out)@),
        x.total_count > 0,
        forall|k: int| 0 <= k < old(out)@.len() ==> (#[trigger] old(out)@[k]).total_count > 0,
    ensures
        p <= old(out)@.len(),
        final(out)@ == old(out)@.insert(p as int, x),
        ranked(final(out)@),
{
    let mut p: usize = 0;
    while p < out.len() && !ranks_before_exec(&x, &out[p])
        invariant
            p <= out@.len(),
            forall|k: int| 0 <= k < p ==> !ranks_before(x, #[trigger] out@[k]),
        decreases out@.len() - p,
    {
        p = p + 1;
    }
    let ghost o = out@;
    out.insert(p, x);
    proof {
        assert forall|i: int, j: int| 0 <= i < j < out@.len() implies !ranks_before(out@[j], out@[i]) by {
            if j == p {
                assert(out@[i] == o[i]);
            } else if i == p {
                assert(out@[j] == o[j - 1]);
                lemma_ranks_asym(x, o[p as int]);
                if j - 1 > p && ranks_before(o[j - 1], x) {
                    lemma_ranks_trans(o[j - 1], x, o[p as int]);
                }
            } else if j < p {
                assert(out@[i] == o[i] && out@[j] == o[j]);
            } else if i < p {
                assert(out@[i] == o[i] && out@[j] == o[j - 1]);
            } else {
                assert(out@[i] == o[i - 1] && out@[j] == o[j - 1]);
            }
        }
    }
    p
}


/// Some blueprint of `bps`, reported or not, has a missing line whose
/// material type has no entry in the reference data.
pub open spec fn any_unresolved(bps: Seq<Blueprint>, reference: ReferenceData, materials: Seq<Material>) -> bool {
    exists|i: int| 0 <= i < bps.len() && blueprint_unresolved(bps[i], reference, materials)
}

/// `out` holds one match per reported blueprint, ranked.
pub open spec fn matches_spec(out: Seq<BlueprintMatch>, reference: ReferenceData, materials: Seq<Material>) -> bool {
    &&& ranked(out)
    &&& forall|k: int| 0 <= k < out.len() ==> match_spec(#[trigger] out[k], reference, materials)
    &&& out.map_values(|m: BlueprintMatch| m.blueprint).to_multiset() == candidates(
        reference.blueprints@,
        reference,
    ).to_multiset()
}

/// Scores every blueprint of the reference data against `materials`.
/// Blueprints without requirement rows, and those whose product does not
/// resolve, are left out; the rest are ranked by match percentage, highest
/// first, then by product name. Fails with `UnknownType` when a missing line
/// names a material type that does not resolve.
pub fn match_blueprints(reference: &ReferenceData, available_materials: &Vec<Material>) -> (r: Result<
    Vec<BlueprintMatch>,
    ApiError,
>)
    ensures
        r is Err <==> any_unresolved(reference.blueprints@, *reference, available_materials@),
        r is Err ==> r->Err_0 is UnknownType && !has_type_id(reference.types@, r->Err_0->UnknownType_0),
        r is Ok ==> matches_spec(r->Ok_0@, *reference, available_materials@),
{
    let available = build_available(available_materials);
    let ghost bps = reference.blueprints@;
    let ghost mats = available_materials@;
    let mut out: Vec<BlueprintMatch> = Vec::new();
    let ghost mut bs: Seq<Blueprint> = Seq::empty();
    let mut i: usize = 0;
    while i < reference.blueprints.len()
        invariant
            i <= bps.len(),
            bps == reference.blueprints@,
            mats == available_materials@,
            available@ == available_map(mats),
            ranked(out@),
            forall|k: int| 0 <= k < out@.len() ==> match_spec(#[trigger] out@[k], *reference, mats),
            forall|k: int| 0 <= k < out@.len() ==> (#[trigger] out@[k]).total_count > 0,
            bs.len() == out@.len(),
            forall|k: int| 0 <= k < out@.len() ==> (#[trigger] out@[k]).blueprint == bs[k],
            bs.to_multiset() == candidates(bps.subrange(0, i as int), *reference).to_multiset(),
            forall|k: int| 0 <= k < i ==> !blueprint_unresolved(bps[k], *reference, mats),
        decreases bps.len() - i,
    {
        let b = reference.blueprints[i];
        proof {
            assert(bps.subrange(0, i as int + 1).drop_last() =~= bps.subrange(0, i as int));
        }
        match match_blueprint(reference, b, available_materials, &available) {
            Err(e) => {
                return Err(e);
            },
            Ok(None) => {},
            Ok(Some(m)) => {
                let ghost old_bs = bs;
                let ghost o = out@;
                let p = insert_ranked(&mut out, m);
                proof {
                    bs = old_bs.insert(p as int, b);
                    vstd::seq_lib::to_multiset_insert(old_bs, p as int, b);
                    vstd::seq_lib::to_multiset_build(candidates(bps.subrange(0, i as int), *reference), b);
                    assert forall|k: int| 0 <= k < out@.len() implies (#[trigger] out@[k]).blueprint == bs[k]
                        && match_spec(out@[k], *reference, mats) && out@[k].total_count > 0 by {
                        if k < p {
                            assert(out@[k] == o[k]);
                        } else if k > p {
                            assert(out@[k] == o[k - 1]);
                        }
                    }
                }
            },
        }
        i = i + 1;
    }
    proof {
        assert(bps.subrange(0, bps.len() as int) =~= bps);
        assert(out@.map_values(|m: BlueprintMatch| m.blueprint) =~= bs);
    }
    Ok(out)
}


/// Every missing line is short of what it needs.
pub proof fn lemma_missing_lines_short(reqs: Seq<BlueprintMaterial>, materials: Seq<Material>)
    ensures
        missing_lines(reqs, materials).len() <= reqs.len(),
        forall|k: int|
            0 <= k < missing_lines(reqs, materials).len() ==> available_of(
                materials,
                (#[trigger] missing_lines(reqs, materials)[k]).material_type_id,
            ) < missing_lines(reqs, materials)[k].quantity,
    decreases reqs.len(),
{
    if reqs.len() > 0 {
        lemma_missing_lines_short(reqs.drop_last(), materials);
    }
}


/// Two distinct byte strings are ordered one way or the other.
pub proof fn lemma_lex_lt_total(a: Seq<u8>, b: Seq<u8>)
    ensures
        a == b || lex_lt(a, b) || lex_lt(b, a),
    decreases a.len(),
{
    if a.len() > 0 && b.len() > 0 && a[0] == b[0] {
        lemma_lex_lt_total(a.drop_first(), b.drop_first());
        if a.drop_first() == b.drop_first() {
            assert(a =~= seq![a[0]] + a.drop_first());
            assert(b =~= seq![b[0]] + b.drop_first());
        }
    } else if a.len() == 0 && b.len() == 0 {
        assert(a =~= b);
    }
}

/// A blueprint without requirement rows never appears among the matches.
pub proof fn lemma_no_requirements_not_matched(
    out: Seq<BlueprintMatch>,
    reference: ReferenceData,
    materials: Seq<Material>,
    b: Blueprint,
)
    requires
        matches_spec(out, reference, materials),
        requirements_of(reference.requirements@, b.blueprint_type_id).len() == 0,
    ensures
        forall|k: int| 0 <= k < out.len() ==> (#[trigger] out[k]).blueprint.blueprint_type_id != b.blueprint_type_id,
{
    assert forall|k: int| 0 <= k < out.len() implies (#[trigger] out[k]).blueprint.blueprint_type_id != b.blueprint_type_id by {
        assert(match_spec(out[k], reference, materials));
    }
}

/// A match percentage lies between 0 and 100, and is 100 exactly when no
/// material is missing.
pub proof fn lemma_match_percentage_bounds(m: BlueprintMatch, reference: ReferenceData, materials: Seq<Material>)
    requires
        match_spec(m, reference, materials),
    ensures
        m.match_percentage.wf(),
        0 <= m.match_percentage.numerator <= 100 * m.match_percentage.denominator,
        m.match_percentage.spec_is_int(100) <==> m.missing_materials@.len() == 0,
{
    let reqs = requirements_of(reference.requirements@, m.blueprint.blueprint_type_id);
    lemma_missing_lines_short(reqs, materials);
}

/// Among matches of equal match percentage, product names come in
/// ascending order.
pub proof fn lemma_equal_percentage_by_name(out: Seq<BlueprintMatch>, i: int, j: int)
    requires
        ranked(out),
        0 <= i < j < out.len(),
        out[i].satisfied_count * out[j].total_count == out[j].satisfied_count * out[i].total_count,
    ensures
        encode_utf8(out[i].product.name@) == encode_utf8(out[j].product.name@) || lex_lt(
            encode_utf8(out[i].product.name@),
            encode_utf8(out[j].product.name@),
        ),
{
    assert(!ranks_before(out[j], out[i]));
    lemma_lex_lt_total(encode_utf8(out[i].product.name@), encode_utf8(out[j].product.name@));
}

} // verus!
