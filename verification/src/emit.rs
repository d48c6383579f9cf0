//! The emitter: checks the planned operation names for collisions, then
//! renders the plan into the target language's concrete syntax, preserving
//! every operation body exactly as planned.

use vstd::prelude::*;

use crate::plan::{all_ops, op_names, ops_of, Action, FieldPlan, Operation};
use crate::schema::{err_view, is_computed, procedure_of, views, ErrView, Field, SchemaError};

verus! {

/// No two names in the sequence coincide.
pub open spec fn no_dup(names: Seq<Seq<char>>) -> bool {
    forall|i: int, j: int| 0 <= i < j < names.len() ==> names[i] != names[j]
}

/// The plan can be emitted: the generated operation names are pairwise
/// distinct, and none of them coincides with a compute procedure of the
/// record.
pub open spec fn collision_free(plans: Seq<FieldPlan>, fields: Seq<Field>) -> bool {
    &&& no_dup(op_names(all_ops(plans)))
    &&& forall|i: int|
        0 <= i < fields.len() && is_computed(#[trigger] fields[i]) ==> !op_names(
            all_ops(plans),
        ).contains(procedure_of(fields[i]))
}

/// `n` names an actual collision: it occurs twice among the generated names,
/// or it is both a generated name and a compute procedure.
pub open spec fn is_colliding_name(plans: Seq<FieldPlan>, fields: Seq<Field>, n: Seq<char>) -> bool {
    let names = op_names(all_ops(plans));
    ||| exists|i: int, j: int|
        0 <= i < j < names.len() && #[trigger] names[i] == n && #[trigger] names[j] == n
    ||| (names.contains(n) && exists|i: int|
        0 <= i < fields.len() && is_computed(#[trigger] fields[i]) && procedure_of(fields[i]) == n)
}

proof fn lemma_op_names_concat(a: Seq<Operation>, b: Seq<Operation>)
    ensures
        op_names(a + b) =~= op_names(a) + op_names(b),
{
}

proof fn lemma_views_concat(a: Seq<String>, b: Seq<String>)
    ensures
        views(a + b) =~= views(a) + views(b),
{
}

/// The names of the operations one plan contributes, in `ops_of` order.
fn plan_op_names(p: &FieldPlan) -> (r: Vec<String>)
    ensures
        views(r@) == op_names(ops_of(*p)),
{
    let mut r: Vec<String> = Vec::new();
    r.push(p.notify.name.clone());
    match &p.trigger {
        Some(t) => {
            r.push(t.name.clone());
        },
        None => {},
    }
    match &p.setter {
        Some(s) => {
            r.push(s.name.clone());
        },
        None => {},
    }
    proof {
        assert(views(r@) =~= op_names(ops_of(*p)));
    }
    r
}

/// Every generated operation name, in `all_ops` order.
#[verifier::loop_isolation(false)]
fn collect_op_names(plans: &Vec<FieldPlan>) -> (r: Vec<String>)
    ensures
        views(r@) == op_names(all_ops(plans@)),
{
    let mut names: Vec<String> = Vec::new();
    let mut i: usize = 0;
    proof {
        assert(views(names@) =~= op_names(all_ops(plans@.take(0))));
    }
    while i < plans.len()
        invariant
            0 <= i <= plans@.len(),
            views(names@) == op_names(all_ops(plans@.take(i as int))),
        decreases plans@.len() - i,
    {
        let ghost pre = plans@.take(i as int);
        let mut chunk = plan_op_names(&plans[i]);
        let ghost chunk_snap = chunk@;
        names.append(&mut chunk);
        proof {
            assert(plans@.take(i + 1).drop_last() =~= pre);
            assert(plans@.take(i + 1).last() == plans@[i as int]);
            lemma_op_names_concat(all_ops(pre), ops_of(plans@[i as int]));
            lemma_views_concat(names@.subrange(0, names@.len() - chunk_snap.len()), chunk_snap);
            assert(views(names@) =~= op_names(all_ops(plans@.take(i + 1))));
        }
        i = i + 1;
    }
    proof {
        assert(plans@.take(plans@.len() as int) =~= plans@);
    }
    names
}

/// The first name that occurs twice, scanning pairs in order; `None` when all
/// names are distinct.
fn find_duplicate(names: &Vec<String>) -> (r: Option<String>)
    ensures
        match r {
            Some(n) => exists|i: int, j: int|
                0 <= i < j < views(names@).len() && #[trigger] views(names@)[i] == n@
                    && #[trigger] views(names@)[j] == n@,
            None => no_dup(views(names@)),
        },
{
    let mut j: usize = 0;
    while j < names.len()
        invariant
            0 <= j <= names@.len(),
            forall|a: int, b: int| 0 <= a < b < j ==> views(names@)[a] != views(names@)[b],
        decreases names@.len() - j,
    {
        let mut i: usize = 0;
        while i < j
            invariant
                0 <= i <= j < names@.len(),
                forall|a: int| 0 <= a < i ==> views(names@)[a] != views(names@)[j as int],
            decreases j - i,
        {
            if crate::schema::str_eq(&names[i], &names[j]) {
                assert(views(names@)[i as int] == names@[j as int]@);
                assert(views(names@)[j as int] == names@[j as int]@);
                return Some(names[j].clone());
            }
            i = i + 1;
        }
        j = j + 1;
    }
    None
}

/// The first compute procedure whose name is also a generated operation name.
#[verifier::loop_isolation(false)]
fn find_procedure_collision(fields: &Vec<Field>, names: &Vec<String>) -> (r: Option<String>)
    ensures
        match r {
            Some(n) => views(names@).contains(n@) && exists|i: int|
                0 <= i < fields@.len() && is_computed(#[trigger] fields@[i]) && procedure_of(
                    fields@[i],
                ) == n@,
            None => forall|i: int|
                0 <= i < fields@.len() && is_computed(#[trigger] fields@[i]) ==> !views(
                    names@,
                ).contains(procedure_of(fields@[i])),
        },
{
    let mut i: usize = 0;
    while i < fields.len()
        invariant
            0 <= i <= fields@.len(),
            forall|k: int|
                0 <= k < i && is_computed(#[trigger] fields@[k]) ==> !views(names@).contains(
                    procedure_of(fields@[k]),
                ),
        decreases fields@.len() - i,
    {
        match &fields[i].kind {
            crate::schema::FieldKind::Computed { procedure, .. } => {
                if crate::schema::contains_name(names, procedure) {
                    return Some(procedure.clone());
                }
            },
            crate::schema::FieldKind::Stored => {},
        }
        i = i + 1;
    }
    None
}

/// One rendered body step, at the emitted indentation.
pub open spec fn spec_render_action(a: Action) -> Seq<char> {
    match a {
        Action::Assign(f) => "        self."@ + f@ + " = value;\n"@,
        Action::Call(n) => "        self."@ + n@ + "();\n"@,
    }
}

/// A rendered operation body: its steps in order.
pub open spec fn spec_render_body(body: Seq<Action>) -> Seq<char>
    decreases body.len(),
{
    if body.len() == 0 {
        Seq::empty()
    } else {
        spec_render_body(body.drop_last()) + spec_render_action(body.last())
    }
}

/// A rendered operation: a method on the record, taking `&mut self` and — for
/// a setter — the incoming value.
pub open spec fn spec_render_op(op: Operation, param: Option<Seq<char>>) -> Seq<char> {
    "    pub fn "@ + op.name@ + "(&mut self"@ + (match param {
        Some(t) => ", value: "@ + t,
        None => Seq::empty(),
    }) + ") {\n"@ + spec_render_body(op.body@) + "    }\n"@
}

/// All notify operations, in field order.
pub open spec fn spec_render_notifies(plans: Seq<FieldPlan>) -> Seq<char>
    decreases plans.len(),
{
    if plans.len() == 0 {
        Seq::empty()
    } else {
        spec_render_notifies(plans.drop_last()) + spec_render_op(plans.last().notify, None)
    }
}

/// All setter operations, in field order.
pub open spec fn spec_render_setters(plans: Seq<FieldPlan>) -> Seq<char>
    decreases plans.len(),
{
    if plans.len() == 0 {
        Seq::empty()
    } else {
        spec_render_setters(plans.drop_last()) + (match plans.last().setter {
            Some(s) => spec_render_op(s, Some(plans.last().ty@)),
            None => Seq::empty(),
        })
    }
}

/// All trigger operations, in field order.
pub open spec fn spec_render_triggers(plans: Seq<FieldPlan>) -> Seq<char>
    decreases plans.len(),
{
    if plans.len() == 0 {
        Seq::empty()
    } else {
        spec_render_triggers(plans.drop_last()) + (match plans.last().trigger {
            Some(t) => spec_render_op(t, None),
            None => Seq::empty(),
        })
    }
}

/// The whole emitted impl block: every notify, then every setter, then every
/// trigger.
pub open spec fn spec_render_record(name: Seq<char>, plans: Seq<FieldPlan>) -> Seq<char> {
    "impl "@ + name + " {\n"@ + spec_render_notifies(plans) + spec_render_setters(plans)
        + spec_render_triggers(plans) + "}\n"@
}

/// Renders one operation.
#[verifier::loop_isolation(false)]
fn render_op(op: &Operation, param: Option<&String>) -> (r: String)
    ensures
        r@ == spec_render_op(*op, match param {
            Some(t) => Some(t@),
            None => None,
        }),
{
    let mut out: String = "    pub fn ".to_owned();
    out.append(op.name.as_str());
    out.append("(&mut self");
    match param {
        Some(t) => {
            out.append(", value: ");
            out.append(t.as_str());
        },
        None => {},
    }
    out.append(") {\n");
    let ghost header = out@;
    let mut k: usize = 0;
    proof {
        assert(out@ =~= header + spec_render_body(op.body@.take(0)));
    }
    while k < op.body.len()
        invariant
            0 <= k <= op.body@.len(),
            out@ == header + spec_render_body(op.body@.take(k as int)),
        decreases op.body@.len() - k,
    {
        proof {
            assert(op.body@.take(k + 1).drop_last() =~= op.body@.take(k as int));
            assert(op.body@.take(k + 1).last() == op.body@[k as int]);
        }
        match &op.body[k] {
            Action::Assign(f) => {
                out.append("        self.");
                out.append(f.as_str());
                out.append(" = value;\n");
            },
            Action::Call(n) => {
                out.append("        self.");
                out.append(n.as_str());
                out.append("();\n");
            },
        }
        proof {
            assert(out@ =~= header + spec_render_body(op.body@.take(k + 1)));
        }
        k = k + 1;
    }
    proof {
        assert(op.body@.take(op.body@.len() as int) =~= op.body@);
    }
    out.append("    }\n");
    proof {
        assert(out@ =~= spec_render_op(*op, match param {
            Some(t) => Some(t@),
            None => None,
        }));
    }
    out
}

/// Renders the full impl block for `name` from the plan.
#[verifier::loop_isolation(false)]
pub fn render_record(name: &String, plans: &Vec<FieldPlan>) -> (r: String)
    ensures
        r@ == spec_render_record(name@, plans@),
{
    let mut out: String = "impl ".to_owned();
    out.append(name.as_str());
    out.append(" {\n");
    let ghost header = out@;
    let mut i: usize = 0;
    proof {
        assert(out@ =~= header + spec_render_notifies(plans@.take(0)));
    }
    while i < plans.len()
        invariant
            0 <= i <= plans@.len(),
            out@ == header + spec_render_notifies(plans@.take(i as int)),
        decreases plans@.len() - i,
    {
        proof {
            assert(plans@.take(i + 1).drop_last() =~= plans@.take(i as int));
            assert(plans@.take(i + 1).last() == plans@[i as int]);
        }
        let piece = render_op(&plans[i].notify, None);
        out.append(piece.as_str());
        proof {
            assert(out@ =~= header + spec_render_notifies(plans@.take(i + 1)));
        }
        i = i + 1;
    }
    let ghost after_notifies = out@;
    proof {
        assert(plans@.take(plans@.len() as int) =~= plans@);
        assert(after_notifies == header + spec_render_notifies(plans@));
    }
    let mut j: usize = 0;
    proof {
        assert(out@ =~= after_notifies + spec_render_setters(plans@.take(0)));
    }
    while j < plans.len()
        invariant
            0 <= j <= plans@.len(),
            out@ == after_notifies + spec_render_setters(plans@.take(j as int)),
        decreases plans@.len() - j,
    {
        proof {
            assert(plans@.take(j + 1).drop_last() =~= plans@.take(j as int));
            assert(plans@.take(j + 1).last() == plans@[j as int]);
        }
        match &plans[j].setter {
            Some(s) => {
                let piece = render_op(s, Some(&plans[j].ty));
                out.append(piece.as_str());
            },
            None => {},
        }
        proof {
            assert(out@ =~= after_notifies + spec_render_setters(plans@.take(j + 1)));
        }
        j = j + 1;
    }
    let ghost after_setters = out@;
    proof {
        assert(plans@.take(plans@.len() as int) =~= plans@);
        assert(after_setters == after_notifies + spec_render_setters(plans@));
    }
    let mut m: usize = 0;
    proof {
        assert(out@ =~= after_setters + spec_render_triggers(plans@.take(0)));
    }
    while m < plans.len()
        invariant
            0 <= m <= plans@.len(),
            out@ == after_setters + spec_render_triggers(plans@.take(m as int)),
        decreases plans@.len() - m,
    {
        proof {
            assert(plans@.take(m + 1).drop_last() =~= plans@.take(m as int));
            assert(plans@.take(m + 1).last() == plans@[m as int]);
        }
        match &plans[m].trigger {
            Some(t) => {
                let piece = render_op(t, None);
                out.append(piece.as_str());
            },
            None => {},
        }
        proof {
            assert(out@ =~= after_setters + spec_render_triggers(plans@.take(m + 1)));
        }
        m = m + 1;
    }
    proof {
        assert(plans@.take(plans@.len() as int) =~= plans@);
    }
    out.append("}\n");
    proof {
        assert(out@ =~= spec_render_record(name@, plans@));
    }
    out
}

/// Checks the plan's names for collisions and renders it. Succeeds exactly
/// when the generated names are pairwise distinct and clear of the record's
/// compute procedures; otherwise reports the colliding name.
pub fn emit(record_name: &String, fields: &Vec<Field>, plans: &Vec<FieldPlan>) -> (r: Result<
    String,
    SchemaError,
>)
    ensures
        r is Ok <==> collision_free(plans@, fields@),
        (r matches Ok(s) ==> s@ == spec_render_record(record_name@, plans@)),
        (r matches Err(e) ==> (err_view(e) matches ErrView::NamingCollision { name }
            && is_colliding_name(plans@, fields@, name))),
{
    let names = collect_op_names(plans);
    match find_duplicate(&names) {
        Some(n) => {
            return Err(SchemaError::NamingCollision { name: n });
        },
        None => {},
    }
    match find_procedure_collision(fields, &names) {
        Some(n) => {
            return Err(SchemaError::NamingCollision { name: n });
        },
        None => {},
    }
    Ok(render_record(record_name, plans))
}

} // verus!
