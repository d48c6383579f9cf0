//! The dependency graph builder: from the validated field list to the
//! inverse-dependency index — for each field, the fields that directly depend
//! on it, in declaration order.
//!
//! No cycle detection is run here: a dependency chain that loops back on
//! itself still yields an index and a plan (generation walks each field only
//! once); the hazard materialises only when the generated calls run.

use vstd::prelude::*;

use crate::schema::{depends_on, is_computed, views, Field};

verus! {

/// The direct dependents of the field at `entries[i]` of the index, i.e. the
/// computed fields that list it as a dependency, in declaration order.
pub struct DependentsEntry {
    pub field: String,
    pub dependents: Vec<String>,
}

/// The inverse-dependency index: one entry per field, in declaration order.
/// Built once from the schema, consumed by the propagation planner.
pub struct DependencyIndex {
    pub entries: Vec<DependentsEntry>,
}

/// The names of the fields among `fields` that directly depend on `name`:
/// the computed fields listing `name` as a dependency, in declaration order.
pub open spec fn spec_dependents(fields: Seq<Field>, name: Seq<char>) -> Seq<Seq<char>>
    decreases fields.len(),
{
    if fields.len() == 0 {
        Seq::empty()
    } else {
        let init = spec_dependents(fields.drop_last(), name);
        let f = fields.last();
        if is_computed(f) && depends_on(f, name) {
            init.push(f.name@)
        } else {
            init
        }
    }
}

/// What the index states about a schema: entry `i` lists exactly the direct
/// dependents of field `i`.
pub open spec fn index_matches(index: DependencyIndex, fields: Seq<Field>) -> bool {
    &&& index.entries@.len() == fields.len()
    &&& forall|i: int|
        0 <= i < fields.len() ==> (#[trigger] index.entries@[i]).field@ == fields[i].name@
            && views(index.entries@[i].dependents@) == spec_dependents(fields, fields[i].name@)
}

/// Whether `f` lists `name` among its dependencies.
#[verifier::loop_isolation(false)]
fn field_depends_on(f: &Field, name: &String) -> (r: bool)
    ensures
        r == depends_on(*f, name@),
{
    match &f.kind {
        crate::schema::FieldKind::Stored => false,
        crate::schema::FieldKind::Computed { dependencies, .. } => {
            let mut i: usize = 0;
            while i < dependencies.len()
                invariant
                    0 <= i <= dependencies@.len(),
                    forall|j: int| 0 <= j < i ==> views(dependencies@)[j] != name@,
                decreases dependencies@.len() - i,
            {
                if crate::schema::str_eq(&dependencies[i], name) {
                    assert(views(dependencies@)[i as int] == name@);
                    return true;
                }
                i = i + 1;
            }
            assert(forall|j: int|
                0 <= j < views(dependencies@).len() ==> views(dependencies@)[j] != name@);
            false
        },
    }
}

/// The direct dependents of `name`, in declaration order.
#[verifier::loop_isolation(false)]
fn collect_dependents(fields: &Vec<Field>, name: &String) -> (r: Vec<String>)
    ensures
        views(r@) == spec_dependents(fields@, name@),
{
    let mut out: Vec<String> = Vec::new();
    let mut j: usize = 0;
    proof {
        assert(views(out@) =~= spec_dependents(fields@.take(0), name@));
    }
    while j < fields.len()
        invariant
            0 <= j <= fields@.len(),
            views(out@) == spec_dependents(fields@.take(j as int), name@),
        decreases fields@.len() - j,
    {
        let ghost pre = fields@.take(j as int);
        proof {
            assert(fields@.take(j + 1).drop_last() =~= pre);
            assert(fields@.take(j + 1).last() == fields@[j as int]);
        }
        let f = &fields[j];
        let is_dep = match &f.kind {
            crate::schema::FieldKind::Stored => false,
            crate::schema::FieldKind::Computed { .. } => field_depends_on(f, name),
        };
        if is_dep {
            out.push(f.name.clone());
            proof {
                assert(views(out@) =~= spec_dependents(pre, name@).push(fields@[j as int].name@));
            }
        }
        j = j + 1;
    }
    proof {
        assert(fields@.take(fields@.len() as int) =~= fields@);
    }
    out
}

/// Builds the inverse-dependency index of a validated field list.
#[verifier::loop_isolation(false)]
pub fn build_dependency_index(fields: &Vec<Field>) -> (r: DependencyIndex)
    ensures
        index_matches(r, fields@),
{
    let mut entries: Vec<DependentsEntry> = Vec::new();
    let mut i: usize = 0;
    while i < fields.len()
        invariant
            0 <= i <= fields@.len(),
            entries@.len() == i,
            forall|k: int|
                0 <= k < i ==> (#[trigger] entries@[k]).field@ == fields@[k].name@ && views(
                    entries@[k].dependents@,
                ) == spec_dependents(fields@, fields@[k].name@),
        decreases fields@.len() - i,
    {
        let deps = collect_dependents(fields, &fields[i].name);
        entries.push(DependentsEntry { field: fields[i].name.clone(), dependents: deps });
        i = i + 1;
    }
    DependencyIndex { entries }
}

} // verus!
