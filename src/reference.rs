use vstd::prelude::*;

use crate::models::{Blueprint, BlueprintMaterial, EveType, MaterialReprocessing};

verus! {

/// The static reference data that the analysis reads: types, reprocessing
/// yields, blueprints and their bills of materials. It is handed to each
/// stage instead of being reached as ambient state.
pub struct ReferenceData {
    pub types: Vec<EveType>,
    pub yields: Vec<MaterialReprocessing>,
    pub blueprints: Vec<Blueprint>,
    pub requirements: Vec<BlueprintMaterial>,
}

/// `i` is the first position in `types` whose type id is `id`.
pub open spec fn is_first_with_id(types: Seq<EveType>, id: i32, i: int) -> bool {
    &&& 0 <= i < types.len()
    &&& types[i].type_id == id
    &&& forall|j: int| 0 <= j < i ==> types[j].type_id != id
}

/// `i` is the first position in `types` whose name is `name`.
pub open spec fn is_first_with_name(types: Seq<EveType>, name: Seq<char>, i: int) -> bool {
    &&& 0 <= i < types.len()
    &&& types[i].name@ == name
    &&& forall|j: int| 0 <= j < i ==> types[j].name@ != name
}

/// The first type in `types` with id `id`, if any.
pub open spec fn lookup_type_by_id(types: Seq<EveType>, id: i32) -> Option<EveType> {
    if exists|i: int| is_first_with_id(types, id, i) {
        Some(types[choose|i: int| is_first_with_id(types, id, i)])
    } else {
        None
    }
}

/// The first type in `types` named `name`, if any.
pub open spec fn lookup_type_by_name(types: Seq<EveType>, name: Seq<char>) -> Option<EveType> {
    if exists|i: int| is_first_with_name(types, name, i) {
        Some(types[choose|i: int| is_first_with_name(types, name, i)])
    } else {
        None
    }
}

/// Whether some type in `types` has id `id`.
pub open spec fn has_type_id(types: Seq<EveType>, id: i32) -> bool {
    exists|i: int| 0 <= i < types.len() && types[i].type_id == id
}

/// The requirement rows of blueprint `bp`, in their order in `reqs`.
pub open spec fn requirements_of(reqs: Seq<BlueprintMaterial>, bp: i32) -> Seq<BlueprintMaterial>
    decreases reqs.len(),
{
    if reqs.len() == 0 {
        Seq::empty()
    } else {
        let rest = requirements_of(reqs.drop_last(), bp);
        if reqs.last().blueprint_type_id == bp {
            rest.push(reqs.last())
        } else {
            rest
        }
    }
}

/// A type's id is found exactly when some type has it.
pub proof fn lemma_lookup_by_id_some(types: Seq<EveType>, id: i32)
    ensures
        lookup_type_by_id(types, id) is Some <==> has_type_id(types, id),
{
    if has_type_id(types, id) {
        let k = choose|k: int| 0 <= k < types.len() && types[k].type_id == id;
        lemma_first_with_id_exists(types, id, k);
    }
}

proof fn lemma_first_with_id_exists(types: Seq<EveType>, id: i32, k: int)
    requires
        0 <= k < types.len(),
        types[k].type_id == id,
    ensures
        exists|i: int| is_first_with_id(types, id, i),
    decreases k,
{
    if forall|j: int| 0 <= j < k ==> types[j].type_id != id {
        assert(is_first_with_id(types, id, k));
    } else {
        let j = choose|j: int| 0 <= j < k && types[j].type_id == id;
        lemma_first_with_id_exists(types, id, j);
    }
}

fn copy_type(t: &EveType) -> (r: EveType)
    ensures
        r == *t,
{
    EveType { type_id: t.type_id, name: t.name.clone() }
}

impl ReferenceData {
    /// Looks up a type by id.
    pub fn get_type_by_id(&self, id: i32) -> (r: Option<EveType>)
        ensures
            r == lookup_type_by_id(self.types@, id),
            r is Some <==> has_type_id(self.types@, id),
    {
        let mut i: usize = 0;
        while i < self.types.len()
            invariant
                0 <= i <= self.types@.len(),
                forall|j: int| 0 <= j < i ==> self.types@[j].type_id != id,
            decreases self.types@.len() - i,
        {
            if self.types[i].type_id == id {
                assert(is_first_with_id(self.types@, id, i as int));
                let ghost c = choose|k: int| is_first_with_id(self.types@, id, k);
                assert(c == i);
                return Some(copy_type(&self.types[i]));
            }
            i = i + 1;
        }
        None
    }

    /// Looks up a type by name.
    pub fn get_type_by_name(&self, name: &String) -> (r: Option<EveType>)
        ensures
            r == lookup_type_by_name(self.types@, name@),
    {
        let mut i: usize = 0;
        while i < self.types.len()
            invariant
                0 <= i <= self.types@.len(),
                forall|j: int| 0 <= j < i ==> self.types@[j].name@ != name@,
            decreases self.types@.len() - i,
        {
            if self.types[i].name == *name {
                assert(is_first_with_name(self.types@, name@, i as int));
                let ghost c = choose|k: int| is_first_with_name(self.types@, name@, k);
                assert(c == i);
                return Some(copy_type(&self.types[i]));
            }
            i = i + 1;
        }
        None
    }

    /// The requirement rows of blueprint `blueprint_type_id`, in order.
    pub fn get_blueprint_materials(&self, blueprint_type_id: i32) -> (r: Vec<BlueprintMaterial>)
        ensures
            r@ == requirements_of(self.requirements@, blueprint_type_id),
    {
        let mut out: Vec<BlueprintMaterial> = Vec::new();
        let mut j: usize = 0;
        while j < self.requirements.len()
            invariant
                0 <= j <= self.requirements@.len(),
                out@ == requirements_of(self.requirements@.subrange(0, j as int), blueprint_type_id),
            decreases self.requirements@.len() - j,
        {
            let row = self.requirements[j];
            proof {
                let s = self.requirements@.subrange(0, j as int + 1);
                assert(s.drop_last() =~= self.requirements@.subrange(0, j as int));
            }
            if row.blueprint_type_id == blueprint_type_id {
                out.push(row);
            }
            j = j + 1;
        }
        assert(self.requirements@.subrange(0, self.requirements@.len() as int) =~= self.requirements@);
        out
    }
}

} // verus!
