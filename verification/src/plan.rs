//! The propagation planner: for every field, the operations to emit and the
//! exact calls their bodies make.
//!
//! - Every field gets one `notify` operation, whose body triggers each direct
//!   dependent, in the index's (declaration) order; a field with no
//!   dependents keeps an empty-bodied `notify`, so that callers and
//!   later-added dependents can rely on it existing.
//! - Every computed field gets one `trigger` operation: first its compute
//!   procedure, then its own `notify` — dependents only ever observe the
//!   post-computation value.
//! - Every stored field gets one `setter` operation: first the assignment,
//!   then its own `notify`.
//!
//! No other operations are planned.

use vstd::prelude::*;

use crate::graph::{index_matches, spec_dependents, DependencyIndex};
use crate::naming::{
    notify_ident, setter_ident, spec_notify_name, spec_setter_name, spec_trigger_name,
    trigger_ident,
};
use crate::schema::{views, Field, FieldKind, NamingConfig};

verus! {

/// One step of an operation body: assign the incoming value to the named
/// field, or call the named operation or procedure on the record.
#[derive(Debug, Clone, PartialEq, Eq)]
pub enum Action {
    Assign(String),
    Call(String),
}

/// One generated operation: its name and the steps its body performs, in
/// order.
#[derive(Debug, Clone, PartialEq, Eq)]
pub struct Operation {
    pub name: String,
    pub body: Vec<Action>,
}

/// The planned operations of one field: exactly one `notify`, a `trigger`
/// exactly when the field is computed, a `setter` exactly when it is stored.
#[derive(Debug, Clone, PartialEq, Eq)]
pub struct FieldPlan {
    pub field: String,
    pub ty: String,
    pub notify: Operation,
    pub trigger: Option<Operation>,
    pub setter: Option<Operation>,
}

pub open spec fn call_is(a: Action, callee: Seq<char>) -> bool {
    a matches Action::Call(c) && c@ == callee
}

pub open spec fn assign_is(a: Action, field: Seq<char>) -> bool {
    a matches Action::Assign(f) && f@ == field
}

/// `op` is named `name` and its body is exactly the calls `callees`, in
/// order.
pub open spec fn op_is_calls(op: Operation, name: Seq<char>, callees: Seq<Seq<char>>) -> bool {
    &&& op.name@ == name
    &&& op.body@.len() == callees.len()
    &&& forall|i: int| 0 <= i < callees.len() ==> call_is(#[trigger] op.body@[i], callees[i])
}

/// `op` is named `name` and its body is exactly: assign to `field`, then call
/// `notify`.
pub open spec fn op_is_setter(
    op: Operation,
    name: Seq<char>,
    field: Seq<char>,
    notify: Seq<char>,
) -> bool {
    &&& op.name@ == name
    &&& op.body@.len() == 2
    &&& assign_is(op.body@[0], field)
    &&& call_is(op.body@[1], notify)
}

/// The calls a field's notify body makes: the trigger of each direct
/// dependent.
pub open spec fn notify_callees(fields: Seq<Field>, cfg: NamingConfig, name: Seq<char>) -> Seq<
    Seq<char>,
> {
    spec_dependents(fields, name).map_values(|d: Seq<char>| spec_trigger_name(cfg, d))
}

/// What the plan of one field must look like.
pub open spec fn plan_matches(p: FieldPlan, fields: Seq<Field>, f: Field, cfg: NamingConfig) -> bool {
    &&& p.field@ == f.name@
    &&& p.ty@ == f.ty@
    &&& op_is_calls(
        p.notify,
        spec_notify_name(cfg, f.name@),
        notify_callees(fields, cfg, f.name@),
    )
    &&& match f.kind {
        FieldKind::Computed { procedure, .. } => {
            &&& p.setter is None
            &&& p.trigger matches Some(t) && op_is_calls(
                t,
                spec_trigger_name(cfg, f.name@),
                seq![procedure@, spec_notify_name(cfg, f.name@)],
            )
        },
        FieldKind::Stored => {
            &&& p.trigger is None
            &&& p.setter matches Some(s) && op_is_setter(
                s,
                spec_setter_name(cfg, f.name@),
                f.name@,
                spec_notify_name(cfg, f.name@),
            )
        },
    }
}

/// What the whole plan must look like: one `FieldPlan` per field, in
/// declaration order, and nothing else.
pub open spec fn plans_match(plans: Seq<FieldPlan>, fields: Seq<Field>, cfg: NamingConfig) -> bool {
    &&& plans.len() == fields.len()
    &&& forall|i: int|
        0 <= i < fields.len() ==> plan_matches(#[trigger] plans[i], fields, fields[i], cfg)
}

/// The operations one field's plan contributes, in a fixed order: notify,
/// then trigger (computed fields), then setter (stored fields).
pub open spec fn ops_of(p: FieldPlan) -> Seq<Operation> {
    seq![p.notify] + (match p.trigger {
        Some(t) => seq![t],
        None => Seq::empty(),
    }) + (match p.setter {
        Some(s) => seq![s],
        None => Seq::empty(),
    })
}

/// Every operation the plan generates, in field order.
pub open spec fn all_ops(plans: Seq<FieldPlan>) -> Seq<Operation>
    decreases plans.len(),
{
    if plans.len() == 0 {
        Seq::empty()
    } else {
        all_ops(plans.drop_last()) + ops_of(plans.last())
    }
}

/// The names of a sequence of operations.
pub open spec fn op_names(ops: Seq<Operation>) -> Seq<Seq<char>> {
    ops.map_values(|o: Operation| o.name@)
}

/// The notify operation of the field at `i`: call the trigger of each direct
/// dependent, in the index's order.
#[verifier::loop_isolation(false)]
fn plan_notify(
    index: &DependencyIndex,
    cfg: &NamingConfig,
    i: usize,
    Ghost(fields): Ghost<Seq<Field>>,
) -> (op: Operation)
    requires
        index_matches(*index, fields),
        0 <= i < fields.len(),
    ensures
        op_is_calls(op, spec_notify_name(*cfg, fields[i as int].name@), notify_callees(
            fields,
            *cfg,
            fields[i as int].name@,
        )),
{
    let ghost name = fields[i as int].name@;
    let ghost callees = notify_callees(fields, *cfg, name);
    let entry = &index.entries[i];
    let mut body: Vec<Action> = Vec::new();
    let mut k: usize = 0;
    while k < entry.dependents.len()
        invariant
            0 <= k <= entry.dependents@.len(),
            body@.len() == k,
            forall|m: int| 0 <= m < k ==> call_is(#[trigger] body@[m], callees[m]),
        decreases entry.dependents@.len() - k,
    {
        proof {
            assert(views(entry.dependents@)[k as int] == spec_dependents(fields, name)[k as int]);
        }
        body.push(Action::Call(trigger_ident(cfg, &entry.dependents[k])));
        k = k + 1;
    }
    Operation { name: notify_ident(cfg, &entry.field), body }
}

/// Plans the operations of every field, from the schema and its
/// inverse-dependency index.
#[verifier::loop_isolation(false)]
pub fn plan_operations(
    fields: &Vec<Field>,
    index: &DependencyIndex,
    cfg: &NamingConfig,
) -> (plans: Vec<FieldPlan>)
    requires
        index_matches(*index, fields@),
    ensures
        plans_match(plans@, fields@, *cfg),
{
    let mut plans: Vec<FieldPlan> = Vec::new();
    let mut i: usize = 0;
    while i < fields.len()
        invariant
            0 <= i <= fields@.len(),
            plans@.len() == i,
            forall|k: int|
                0 <= k < i ==> plan_matches(#[trigger] plans@[k], fields@, fields@[k], *cfg),
        decreases fields@.len() - i,
    {
        let f = &fields[i];
        let notify = plan_notify(index, cfg, i, Ghost(fields@));
        let notify_name_again = notify_ident(cfg, &f.name);
        let (trigger, setter): (Option<Operation>, Option<Operation>) = match &f.kind {
            FieldKind::Computed { procedure, .. } => {
                let mut tbody: Vec<Action> = Vec::new();
                tbody.push(Action::Call(procedure.clone()));
                tbody.push(Action::Call(notify_name_again));
                let t = Operation { name: trigger_ident(cfg, &f.name), body: tbody };
                (Some(t), None)
            },
            FieldKind::Stored => {
                let mut sbody: Vec<Action> = Vec::new();
                sbody.push(Action::Assign(f.name.clone()));
                sbody.push(Action::Call(notify_name_again));
                let s = Operation { name: setter_ident(cfg, &f.name), body: sbody };
                (None, Some(s))
            },
        };
        plans.push(
            FieldPlan { field: f.name.clone(), ty: f.ty.clone(), notify, trigger, setter },
        );
        i = i + 1;
    }
    plans
}

} // verus!
