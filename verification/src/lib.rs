//! Build-time generation of push-based change propagation for records.
//!
//! Given a schema describing a record's fields — some stored, some computed
//! from other fields — this library plans and renders a set of update
//! operations: a setter for every stored field, a trigger for every computed
//! field, and a notify operation for every field that re-runs the triggers of
//! its direct dependents. All propagation wiring is resolved here, once,
//! before the generated code ever runs.
//!
//! The stages run in a fixed order, each pure and exactly once per record:
//! validation, inverse-dependency graph construction, propagation planning,
//! name resolution, emission. Dependency cycles are deliberately not
//! detected: a cyclic schema still yields a plan (generation walks each field
//! once); the generated calls would then recurse forever at run time, which
//! is the schema author's documented responsibility.

pub mod emit;
pub mod graph;
pub mod laws;
pub mod naming;
pub mod plan;
pub mod schema;
pub mod trace;
pub mod validate;

use vstd::prelude::*;

use crate::emit::{emit, no_dup, spec_render_record};
use crate::graph::build_dependency_index;
use crate::naming::{spec_notify_name, spec_setter_name, spec_trigger_name};
use crate::plan::{all_ops, op_names, ops_of, plan_matches, plan_operations, plans_match, FieldPlan};
use crate::schema::{
    err_view, is_computed, procedure_of, ErrView, Field, FieldKind, NamingConfig, RecordShape,
    SchemaError,
};
use crate::validate::{spec_validate, validate};

verus! {

/// One record to generate operations for: its name, its shape, and the
/// naming configuration to apply.
pub struct RecordInput {
    pub name: String,
    pub shape: RecordShape,
    pub config: NamingConfig,
}

/// The result of generation: the planned operations of every field, and the
/// rendered impl block that realises them.
#[derive(Debug, Clone, PartialEq, Eq)]
pub struct GeneratedOps {
    pub plans: Vec<FieldPlan>,
    pub source: String,
}

/// The names of the operations generated for one field: notify, then trigger
/// (computed) or setter (stored).
pub open spec fn names_of_field(f: Field, cfg: NamingConfig) -> Seq<Seq<char>> {
    seq![spec_notify_name(cfg, f.name@)] + (match f.kind {
        FieldKind::Computed { .. } => seq![spec_trigger_name(cfg, f.name@)],
        FieldKind::Stored => seq![spec_setter_name(cfg, f.name@)],
    })
}

/// Every generated operation name, as a function of the schema alone.
pub open spec fn spec_gen_names(fields: Seq<Field>, cfg: NamingConfig) -> Seq<Seq<char>>
    decreases fields.len(),
{
    if fields.len() == 0 {
        Seq::empty()
    } else {
        spec_gen_names(fields.drop_last(), cfg) + names_of_field(fields.last(), cfg)
    }
}

/// The schema can be emitted: generated names pairwise distinct and clear of
/// the compute procedures.
pub open spec fn schema_collision_free(fields: Seq<Field>, cfg: NamingConfig) -> bool {
    &&& no_dup(spec_gen_names(fields, cfg))
    &&& forall|i: int|
        0 <= i < fields.len() && is_computed(#[trigger] fields[i]) ==> !spec_gen_names(
            fields,
            cfg,
        ).contains(procedure_of(fields[i]))
}

/// `n` names an actual collision of the schema's generated names.
pub open spec fn schema_colliding_name(fields: Seq<Field>, cfg: NamingConfig, n: Seq<char>) -> bool {
    let names = spec_gen_names(fields, cfg);
    ||| exists|i: int, j: int|
        0 <= i < j < names.len() && #[trigger] names[i] == n && #[trigger] names[j] == n
    ||| (names.contains(n) && exists|i: int|
        0 <= i < fields.len() && is_computed(#[trigger] fields[i]) && procedure_of(fields[i]) == n)
}

proof fn lemma_field_plan_names(p: FieldPlan, fields: Seq<Field>, f: Field, cfg: NamingConfig)
    requires
        plan_matches(p, fields, f, cfg),
    ensures
        op_names(ops_of(p)) =~= names_of_field(f, cfg),
{
    match f.kind {
        FieldKind::Computed { .. } => {
            assert(op_names(ops_of(p)) =~= names_of_field(f, cfg));
        },
        FieldKind::Stored => {
            assert(op_names(ops_of(p)) =~= names_of_field(f, cfg));
        },
    }
}

proof fn lemma_names_concat(a: Seq<crate::plan::Operation>, b: Seq<crate::plan::Operation>)
    ensures
        op_names(a + b) =~= op_names(a) + op_names(b),
{
}

/// The names of a matching plan's operations are exactly the schema's
/// generated names, in the same order.
pub proof fn lemma_plan_names(plans: Seq<FieldPlan>, fields: Seq<Field>, cfg: NamingConfig)
    requires
        plans_match(plans, fields, cfg),
    ensures
        op_names(all_ops(plans)) == spec_gen_names(fields, cfg),
    decreases plans.len(),
{
    if plans.len() == 0 {
        assert(op_names(all_ops(plans)) =~= spec_gen_names(fields, cfg));
    } else {
        let n = plans.len() - 1;
        lemma_plan_names_prefix(plans, fields, cfg, n);
        lemma_names_concat(all_ops(plans.drop_last()), ops_of(plans.last()));
        lemma_field_plan_names(plans[n], fields, fields[n], cfg);
        assert(op_names(all_ops(plans)) =~= spec_gen_names(fields, cfg));
    }
}

/// The generated names of the first `k` fields match the first `k` plans.
proof fn lemma_plan_names_prefix(
    plans: Seq<FieldPlan>,
    fields: Seq<Field>,
    cfg: NamingConfig,
    k: int,
)
    requires
        plans_match(plans, fields, cfg),
        0 <= k <= plans.len(),
    ensures
        op_names(all_ops(plans.take(k))) == spec_gen_names(fields.take(k), cfg),
    decreases k,
{
    if k == 0 {
        assert(op_names(all_ops(plans.take(0))) =~= spec_gen_names(fields.take(0), cfg));
    } else {
        lemma_plan_names_prefix(plans, fields, cfg, k - 1);
        assert(plans.take(k).drop_last() =~= plans.take(k - 1));
        assert(fields.take(k).drop_last() =~= fields.take(k - 1));
        lemma_names_concat(all_ops(plans.take(k - 1)), ops_of(plans.take(k).last()));
        lemma_field_plan_names(plans[k - 1], fields, fields[k - 1], cfg);
        assert(op_names(all_ops(plans.take(k))) =~= spec_gen_names(fields.take(k), cfg));
    }
}

/// Runs the whole pipeline on one record: validation, graph construction,
/// planning, naming, emission. Succeeds exactly when the record is a
/// named-field record whose schema validates and whose generated names are
/// collision free; the first error, in stage order, is returned otherwise.
pub fn generate(record: &RecordInput) -> (r: Result<GeneratedOps, SchemaError>)
    ensures
        (match record.shape {
            RecordShape::Named(fields) => match spec_validate(fields@) {
                Some(v) => r matches Err(e) && err_view(e) == v,
                None => {
                    if schema_collision_free(fields@, record.config) {
                        r matches Ok(g) && plans_match(g.plans@, fields@, record.config)
                            && g.source@ == spec_render_record(record.name@, g.plans@)
                    } else {
                        r matches Err(e) && (err_view(e) matches ErrView::NamingCollision { name }
                            && schema_colliding_name(fields@, record.config, name))
                    }
                },
            },
            _ => r matches Err(e) && e is UnsupportedShape,
        }),
{
    let fields = match &record.shape {
        RecordShape::Named(fields) => fields,
        _ => {
            return Err(SchemaError::UnsupportedShape);
        },
    };
    match validate(fields) {
        Ok(()) => {},
        Err(e) => {
            return Err(e);
        },
    }
    let index = build_dependency_index(fields);
    let plans = plan_operations(fields, &index, &record.config);
    proof {
        lemma_plan_names(plans@, fields@, record.config);
    }
    match emit(&record.name, fields, &plans) {
        Ok(source) => Ok(GeneratedOps { plans, source }),
        Err(e) => Err(e),
    }
}

} // verus!
