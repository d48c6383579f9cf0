//! Proved laws of the propagation plan: the guarantees the generated
//! operations give, stated over any schema and any naming configuration.

use vstd::prelude::*;

use crate::emit::{collision_free, no_dup};
use crate::graph::spec_dependents;
use crate::naming::{spec_notify_name, spec_setter_name, spec_trigger_name};
use crate::plan::{
    all_ops, assign_is, call_is, op_names, ops_of, plan_matches, plans_match, Action, FieldPlan,
    Operation,
};
use crate::schema::{depends_on, is_computed, procedure_of, Field, FieldKind, NamingConfig};
use crate::trace::{count_invokes, find_in_plan, spec_find, spec_trace_body, spec_trace_call, EventView};

verus! {

/// Some step of `op`'s body calls `callee`.
pub open spec fn body_calls(op: Operation, callee: Seq<char>) -> bool {
    exists|i: int| 0 <= i < op.body@.len() && call_is(#[trigger] op.body@[i], callee)
}

/// Some generated operation named `caller` calls `callee` from its body.
pub open spec fn calls_directly(plans: Seq<FieldPlan>, caller: Seq<char>, callee: Seq<char>) -> bool {
    exists|j: int|
        0 <= j < all_ops(plans).len() && (#[trigger] all_ops(plans)[j]).name@ == caller
            && body_calls(all_ops(plans)[j], callee)
}

/// `a` reaches `b` through at most `n + 1` generated calls.
pub open spec fn reaches_within(plans: Seq<FieldPlan>, a: Seq<char>, b: Seq<char>, n: nat) -> bool
    decreases n,
{
    ||| calls_directly(plans, a, b)
    ||| (n > 0 && exists|m: Seq<char>|
        #[trigger] calls_directly(plans, a, m) && reaches_within(plans, m, b, (n - 1) as nat))
}

/// `a` transitively reaches `b` through the generated call graph.
pub open spec fn reaches(plans: Seq<FieldPlan>, a: Seq<char>, b: Seq<char>) -> bool {
    exists|n: nat| reaches_within(plans, a, b, n)
}

/// Each plan's operations stand in `all_ops`.
proof fn lemma_all_ops_contains(plans: Seq<FieldPlan>, i: int)
    requires
        0 <= i < plans.len(),
    ensures
        all_ops(plans).contains(plans[i].notify),
        plans[i].trigger matches Some(t) ==> all_ops(plans).contains(t),
        plans[i].setter matches Some(s) ==> all_ops(plans).contains(s),
    decreases plans.len(),
{
    let pre = all_ops(plans.drop_last());
    if i == plans.len() - 1 {
        assert(all_ops(plans)[pre.len() as int] == plans[i].notify);
        match plans[i].trigger {
            Some(t) => {
                assert(all_ops(plans)[pre.len() as int + 1] == t);
            },
            None => {},
        }
        match plans[i].setter {
            Some(s) => {
                let off: int = if plans[i].trigger is Some {
                    2
                } else {
                    1
                };
                assert(all_ops(plans)[pre.len() as int + off] == s);
            },
            None => {},
        }
    } else {
        lemma_all_ops_contains(plans.drop_last(), i);
        assert(plans.drop_last()[i] == plans[i]);
        assert forall|op: Operation| pre.contains(op) implies all_ops(plans).contains(op) by {
            let k = choose|k: int| 0 <= k < pre.len() && pre[k] == op;
            assert(all_ops(plans)[k] == op);
        }
    }
}

/// A computed field that lists `name` as a dependency stands among `name`'s
/// direct dependents.
proof fn lemma_dependents_contains(fields: Seq<Field>, name: Seq<char>, j: int)
    requires
        0 <= j < fields.len(),
        is_computed(fields[j]),
        depends_on(fields[j], name),
    ensures
        spec_dependents(fields, name).contains(fields[j].name@),
    decreases fields.len(),
{
    if j == fields.len() - 1 {
        let deps = spec_dependents(fields, name);
        assert(deps.last() == fields[j].name@);
        assert(deps[deps.len() - 1] == fields[j].name@);
    } else {
        lemma_dependents_contains(fields.drop_last(), name, j);
        let pre = spec_dependents(fields.drop_last(), name);
        let k = choose|k: int| 0 <= k < pre.len() && pre[k] == fields.drop_last()[j].name@;
        assert(spec_dependents(fields, name)[k] == fields[j].name@);
    }
}

/// Every field has exactly one notify operation; a computed field exactly one
/// trigger besides; a stored field exactly one setter besides; and the plan
/// generates nothing else: two operations per field, named as the naming
/// configuration resolves them.
pub proof fn lemma_exactly_the_planned_operations(
    plans: Seq<FieldPlan>,
    fields: Seq<Field>,
    cfg: NamingConfig,
)
    requires
        plans_match(plans, fields, cfg),
    ensures
        op_names(all_ops(plans)) == crate::spec_gen_names(fields, cfg),
        all_ops(plans).len() == 2 * fields.len(),
    decreases fields.len(),
{
    crate::lemma_plan_names(plans, fields, cfg);
    lemma_gen_names_len(fields, cfg);
}

proof fn lemma_gen_names_len(fields: Seq<Field>, cfg: NamingConfig)
    ensures
        crate::spec_gen_names(fields, cfg).len() == 2 * fields.len(),
    decreases fields.len(),
{
    if fields.len() > 0 {
        lemma_gen_names_len(fields.drop_last(), cfg);
    }
}

/// A field with no direct dependents gets a notify operation whose body
/// performs no calls at all.
pub proof fn lemma_notify_without_dependents_is_empty(
    plans: Seq<FieldPlan>,
    fields: Seq<Field>,
    cfg: NamingConfig,
    i: int,
)
    requires
        plans_match(plans, fields, cfg),
        0 <= i < fields.len(),
        spec_dependents(fields, fields[i].name@).len() == 0,
    ensures
        plans[i].notify.body@.len() == 0,
{
    assert(plan_matches(plans[i], fields, fields[i], cfg));
}

/// A computed field's trigger runs the compute procedure strictly before the
/// field's own notify — dependents only ever observe the post-computation
/// value.
pub proof fn lemma_trigger_computes_before_notify(
    plans: Seq<FieldPlan>,
    fields: Seq<Field>,
    cfg: NamingConfig,
    i: int,
)
    requires
        plans_match(plans, fields, cfg),
        0 <= i < fields.len(),
        is_computed(fields[i]),
    ensures
        plans[i].trigger matches Some(t) && t.body@.len() == 2 && call_is(
            t.body@[0],
            procedure_of(fields[i]),
        ) && call_is(t.body@[1], spec_notify_name(cfg, fields[i].name@)),
{
    assert(plan_matches(plans[i], fields, fields[i], cfg));
    match fields[i].kind {
        FieldKind::Computed { .. } => {},
        FieldKind::Stored => {},
    }
}

/// A stored field's setter assigns the incoming value strictly before calling
/// the field's own notify.
pub proof fn lemma_setter_assigns_before_notify(
    plans: Seq<FieldPlan>,
    fields: Seq<Field>,
    cfg: NamingConfig,
    i: int,
)
    requires
        plans_match(plans, fields, cfg),
        0 <= i < fields.len(),
        fields[i].kind is Stored,
    ensures
        plans[i].setter matches Some(s) && s.body@.len() == 2 && assign_is(
            s.body@[0],
            fields[i].name@,
        ) && call_is(s.body@[1], spec_notify_name(cfg, fields[i].name@)),
{
    assert(plan_matches(plans[i], fields, fields[i], cfg));
}

/// A field's notify calls the trigger of each of its direct dependents.
pub proof fn lemma_notify_calls_dependent_trigger(
    plans: Seq<FieldPlan>,
    fields: Seq<Field>,
    cfg: NamingConfig,
    i: int,
    j: int,
)
    requires
        plans_match(plans, fields, cfg),
        0 <= i < fields.len(),
        0 <= j < fields.len(),
        is_computed(fields[j]),
        depends_on(fields[j], fields[i].name@),
    ensures
        calls_directly(
            plans,
            spec_notify_name(cfg, fields[i].name@),
            spec_trigger_name(cfg, fields[j].name@),
        ),
{
    assert(plan_matches(plans[i], fields, fields[i], cfg));
    lemma_dependents_contains(fields, fields[i].name@, j);
    let deps = spec_dependents(fields, fields[i].name@);
    let k = choose|k: int| 0 <= k < deps.len() && deps[k] == fields[j].name@;
    let callees = crate::plan::notify_callees(fields, cfg, fields[i].name@);
    assert(callees[k] == spec_trigger_name(cfg, fields[j].name@));
    assert(call_is(plans[i].notify.body@[k], spec_trigger_name(cfg, fields[j].name@)));
    assert(body_calls(plans[i].notify, spec_trigger_name(cfg, fields[j].name@)));
    lemma_all_ops_contains(plans, i);
    let m = choose|m: int|
        0 <= m < all_ops(plans).len() && all_ops(plans)[m] == plans[i].notify;
    assert(all_ops(plans)[m].name@ == spec_notify_name(cfg, fields[i].name@));
}

/// A stored field's setter calls the field's own notify.
pub proof fn lemma_setter_calls_notify(
    plans: Seq<FieldPlan>,
    fields: Seq<Field>,
    cfg: NamingConfig,
    i: int,
)
    requires
        plans_match(plans, fields, cfg),
        0 <= i < fields.len(),
        fields[i].kind is Stored,
    ensures
        calls_directly(
            plans,
            spec_setter_name(cfg, fields[i].name@),
            spec_notify_name(cfg, fields[i].name@),
        ),
{
    assert(plan_matches(plans[i], fields, fields[i], cfg));
    let s = plans[i].setter->Some_0;
    assert(call_is(s.body@[1], spec_notify_name(cfg, fields[i].name@)));
    assert(body_calls(s, spec_notify_name(cfg, fields[i].name@)));
    lemma_all_ops_contains(plans, i);
    let m = choose|m: int| 0 <= m < all_ops(plans).len() && all_ops(plans)[m] == s;
    assert(all_ops(plans)[m].name@ == spec_setter_name(cfg, fields[i].name@));
}

/// A computed field's trigger calls the field's own notify.
pub proof fn lemma_trigger_calls_notify(
    plans: Seq<FieldPlan>,
    fields: Seq<Field>,
    cfg: NamingConfig,
    i: int,
)
    requires
        plans_match(plans, fields, cfg),
        0 <= i < fields.len(),
        is_computed(fields[i]),
    ensures
        calls_directly(
            plans,
            spec_trigger_name(cfg, fields[i].name@),
            spec_notify_name(cfg, fields[i].name@),
        ),
{
    assert(plan_matches(plans[i], fields, fields[i], cfg));
    let t = plans[i].trigger->Some_0;
    assert(call_is(t.body@[1], spec_notify_name(cfg, fields[i].name@)));
    assert(body_calls(t, spec_notify_name(cfg, fields[i].name@)));
    lemma_all_ops_contains(plans, i);
    let m = choose|m: int| 0 <= m < all_ops(plans).len() && all_ops(plans)[m] == t;
    assert(all_ops(plans)[m].name@ == spec_trigger_name(cfg, fields[i].name@));
}

/// Transitivity: when `c` depends on `b` and `b` depends on `a`, the setter
/// of stored `a` transitively reaches the trigger of `c`, along
/// `notify(a) -> trigger(b) -> notify(b) -> trigger(c)`.
pub proof fn lemma_setter_reaches_transitive_dependent(
    plans: Seq<FieldPlan>,
    fields: Seq<Field>,
    cfg: NamingConfig,
    ia: int,
    ib: int,
    ic: int,
)
    requires
        plans_match(plans, fields, cfg),
        0 <= ia < fields.len(),
        0 <= ib < fields.len(),
        0 <= ic < fields.len(),
        fields[ia].kind is Stored,
        is_computed(fields[ib]),
        depends_on(fields[ib], fields[ia].name@),
        is_computed(fields[ic]),
        depends_on(fields[ic], fields[ib].name@),
    ensures
        reaches(
            plans,
            spec_setter_name(cfg, fields[ia].name@),
            spec_trigger_name(cfg, fields[ic].name@),
        ),
{
    let sa = spec_setter_name(cfg, fields[ia].name@);
    let na = spec_notify_name(cfg, fields[ia].name@);
    let tb = spec_trigger_name(cfg, fields[ib].name@);
    let nb = spec_notify_name(cfg, fields[ib].name@);
    let tc = spec_trigger_name(cfg, fields[ic].name@);
    lemma_setter_calls_notify(plans, fields, cfg, ia);
    lemma_notify_calls_dependent_trigger(plans, fields, cfg, ia, ib);
    lemma_trigger_calls_notify(plans, fields, cfg, ib);
    lemma_notify_calls_dependent_trigger(plans, fields, cfg, ib, ic);
    assert(reaches_within(plans, nb, tc, 0));
    assert(reaches_within(plans, tb, tc, 1));
    assert(reaches_within(plans, na, tc, 2));
    assert(reaches_within(plans, sa, tc, 3));
    assert(reaches(plans, sa, tc));
}

/// `all_ops` decomposes at the front as well as at the back.
proof fn lemma_all_ops_front(plans: Seq<FieldPlan>)
    requires
        plans.len() > 0,
    ensures
        all_ops(plans) == ops_of(plans.first()) + all_ops(plans.drop_first()),
    decreases plans.len(),
{
    reveal_with_fuel(all_ops, 3);
    if plans.len() == 1 {
        assert(all_ops(plans) =~= ops_of(plans.first()) + all_ops(plans.drop_first()));
    } else {
        lemma_all_ops_front(plans.drop_last());
        assert(plans.drop_last().first() == plans.first());
        assert(plans.drop_first().drop_last() =~= plans.drop_last().drop_first());
        assert(plans.drop_first().last() == plans.last());
        assert(all_ops(plans) =~= ops_of(plans.first()) + all_ops(plans.drop_first()));
    }
}

proof fn lemma_find_in_plan_cases(p: FieldPlan, n: Seq<char>)
    ensures
        match find_in_plan(p, n) {
            Some(op) => ops_of(p).contains(op) && op.name@ == n,
            None => forall|k: int|
                0 <= k < ops_of(p).len() ==> (#[trigger] ops_of(p)[k]).name@ != n,
        },
{
    let ops = ops_of(p);
    assert(ops[0] == p.notify);
    match p.trigger {
        Some(t) => {
            assert(ops[1] == t);
            match p.setter {
                Some(s) => {
                    assert(ops[2] == s);
                    assert(ops.len() == 3);
                },
                None => {
                    assert(ops.len() == 2);
                },
            }
        },
        None => {
            match p.setter {
                Some(s) => {
                    assert(ops[1] == s);
                    assert(ops.len() == 2);
                },
                None => {
                    assert(ops.len() == 1);
                },
            }
        },
    }
}

/// What `spec_find` returns is a generated operation carrying the looked-up
/// name.
proof fn lemma_find_sound(plans: Seq<FieldPlan>, n: Seq<char>)
    ensures
        spec_find(plans, n) matches Some(op) ==> all_ops(plans).contains(op) && op.name@ == n,
    decreases plans.len(),
{
    if plans.len() > 0 {
        lemma_all_ops_front(plans);
        lemma_find_in_plan_cases(plans.first(), n);
        match find_in_plan(plans.first(), n) {
            Some(op) => {
                let k = choose|k: int|
                    0 <= k < ops_of(plans.first()).len() && ops_of(plans.first())[k] == op;
                assert(all_ops(plans)[k] == op);
            },
            None => {
                lemma_find_sound(plans.drop_first(), n);
                match spec_find(plans.drop_first(), n) {
                    Some(op) => {
                        let rest = all_ops(plans.drop_first());
                        let k = choose|k: int| 0 <= k < rest.len() && rest[k] == op;
                        assert(all_ops(plans)[ops_of(plans.first()).len() + k] == op);
                    },
                    None => {},
                }
            },
        }
    }
}

/// A generated operation's name is always found.
proof fn lemma_find_complete(plans: Seq<FieldPlan>, n: Seq<char>, op: Operation)
    requires
        all_ops(plans).contains(op),
        op.name@ == n,
    ensures
        spec_find(plans, n) is Some,
    decreases plans.len(),
{
    if plans.len() == 0 {
        assert(false);
    } else {
        lemma_all_ops_front(plans);
        lemma_find_in_plan_cases(plans.first(), n);
        match find_in_plan(plans.first(), n) {
            Some(_) => {},
            None => {
                let i = choose|i: int|
                    0 <= i < all_ops(plans).len() && all_ops(plans)[i] == op;
                let off = ops_of(plans.first()).len() as int;
                if i < off {
                    assert(ops_of(plans.first())[i] == op);
                    assert(false);
                }
                assert(all_ops(plans.drop_first())[i - off] == op);
                assert(all_ops(plans.drop_first()).contains(op));
                lemma_find_complete(plans.drop_first(), n, op);
            },
        }
    }
}

/// With pairwise-distinct generated names, looking an operation's name up
/// yields exactly that operation.
proof fn lemma_find_unique(plans: Seq<FieldPlan>, n: Seq<char>, op: Operation)
    requires
        no_dup(op_names(all_ops(plans))),
        all_ops(plans).contains(op),
        op.name@ == n,
    ensures
        spec_find(plans, n) == Some(op),
{
    lemma_find_complete(plans, n, op);
    lemma_find_sound(plans, n);
    match spec_find(plans, n) {
        Some(op2) => {
            let ops = all_ops(plans);
            let i = choose|i: int| 0 <= i < ops.len() && ops[i] == op;
            let j = choose|j: int| 0 <= j < ops.len() && ops[j] == op2;
            assert(op_names(ops)[i] == n);
            assert(op_names(ops)[j] == n);
            if i != j {
                assert(false);
            }
        },
        None => {
            assert(false);
        },
    }
}

/// Calling a name that no generated operation bears — a compute procedure of
/// the record — is one primitive invocation.
proof fn lemma_trace_procedure(plans: Seq<FieldPlan>, name: Seq<char>, fuel: nat)
    requires
        !op_names(all_ops(plans)).contains(name),
    ensures
        spec_trace_call(plans, name, fuel) == Some(seq![EventView::Invoke(name)]),
{
    lemma_find_sound(plans, name);
    match spec_find(plans, name) {
        Some(op) => {
            let ops = all_ops(plans);
            let i = choose|i: int| 0 <= i < ops.len() && ops[i] == op;
            assert(op_names(ops)[i] == name);
            assert(false);
        },
        None => {},
    }
}

/// Calling a generated operation spends one unit of fuel and runs its body.
proof fn lemma_trace_call_op(plans: Seq<FieldPlan>, op: Operation, fuel: nat)
    requires
        no_dup(op_names(all_ops(plans))),
        all_ops(plans).contains(op),
        fuel >= 1,
    ensures
        spec_trace_call(plans, op.name@, fuel) == spec_trace_body(
            plans,
            op.body@,
            (fuel - 1) as nat,
        ),
{
    lemma_find_unique(plans, op.name@, op);
}

/// A body of two calls traces to the two calls' traces, in order.
proof fn lemma_trace_two_call_body(
    plans: Seq<FieldPlan>,
    body: Seq<Action>,
    c1: Seq<char>,
    c2: Seq<char>,
    fuel: nat,
)
    requires
        body.len() == 2,
        call_is(body[0], c1),
        call_is(body[1], c2),
    ensures
        spec_trace_body(plans, body, fuel) == (match (
            spec_trace_call(plans, c1, fuel),
            spec_trace_call(plans, c2, fuel),
        ) {
            (Some(a), Some(b)) => Some(a + b),
            _ => None::<Seq<EventView>>,
        }),
{
    reveal_with_fuel(spec_trace_body, 3);
    let rest = body.drop_first();
    assert(body.first() == body[0]);
    assert(rest.first() == body[1]);
    assert(rest.drop_first() =~= Seq::<Action>::empty());
    match (spec_trace_call(plans, c1, fuel), spec_trace_call(plans, c2, fuel)) {
        (Some(a), Some(b)) => {
            assert(a + (b + Seq::<EventView>::empty()) =~= a + b);
        },
        _ => {},
    }
}

/// A body of one call traces to that call's trace.
proof fn lemma_trace_one_call_body(plans: Seq<FieldPlan>, body: Seq<Action>, c: Seq<char>, fuel: nat)
    requires
        body.len() == 1,
        call_is(body[0], c),
    ensures
        spec_trace_body(plans, body, fuel) == spec_trace_call(plans, c, fuel),
{
    reveal_with_fuel(spec_trace_body, 2);
    assert(body.first() == body[0]);
    assert(body.drop_first() =~= Seq::<Action>::empty());
    match spec_trace_call(plans, c, fuel) {
        Some(a) => {
            assert(a + Seq::<EventView>::empty() =~= a);
        },
        None => {},
    }
}

/// An assign-then-call body traces to the assignment followed by the call's
/// trace.
proof fn lemma_trace_assign_call_body(
    plans: Seq<FieldPlan>,
    body: Seq<Action>,
    f: Seq<char>,
    c: Seq<char>,
    fuel: nat,
)
    requires
        body.len() == 2,
        assign_is(body[0], f),
        call_is(body[1], c),
    ensures
        spec_trace_body(plans, body, fuel) == (match spec_trace_call(plans, c, fuel) {
            Some(b) => Some(seq![EventView::Assign(f)] + b),
            None => None::<Seq<EventView>>,
        }),
{
    reveal_with_fuel(spec_trace_body, 3);
    let rest = body.drop_first();
    assert(body.first() == body[0]);
    assert(rest.first() == body[1]);
    assert(rest.drop_first() =~= Seq::<Action>::empty());
    match spec_trace_call(plans, c, fuel) {
        Some(b) => {
            assert(seq![EventView::Assign(f)] + (b + Seq::<EventView>::empty())
                =~= seq![EventView::Assign(f)] + b);
        },
        None => {},
    }
}

/// Trace of the trigger of a computed field without dependents: its compute
/// procedure runs, and its notify does nothing.
proof fn lemma_trace_leaf_trigger(
    plans: Seq<FieldPlan>,
    fields: Seq<Field>,
    cfg: NamingConfig,
    i: int,
    fuel: nat,
)
    requires
        plans_match(plans, fields, cfg),
        no_dup(op_names(all_ops(plans))),
        0 <= i < fields.len(),
        is_computed(fields[i]),
        spec_dependents(fields, fields[i].name@).len() == 0,
        !op_names(all_ops(plans)).contains(procedure_of(fields[i])),
        fuel >= 2,
    ensures
        spec_trace_call(plans, spec_trigger_name(cfg, fields[i].name@), fuel) == Some(
            seq![EventView::Invoke(procedure_of(fields[i]))],
        ),
{
    assert(plan_matches(plans[i], fields, fields[i], cfg));
    lemma_all_ops_contains(plans, i);
    let t = plans[i].trigger->Some_0;
    let pc = procedure_of(fields[i]);
    let nc = spec_notify_name(cfg, fields[i].name@);
    lemma_trace_call_op(plans, t, fuel);
    lemma_trace_two_call_body(plans, t.body@, pc, nc, (fuel - 1) as nat);
    lemma_trace_procedure(plans, pc, (fuel - 1) as nat);
    let notify = plans[i].notify;
    lemma_trace_call_op(plans, notify, (fuel - 1) as nat);
    assert(notify.body@.len() == 0);
    assert(spec_trace_call(plans, nc, (fuel - 1) as nat) == Some(Seq::<EventView>::empty()));
    assert(seq![EventView::Invoke(pc)] + Seq::<EventView>::empty() =~= seq![
        EventView::Invoke(pc),
    ]);
}

/// Trace of the trigger of a computed field whose sole dependent is a leaf:
/// its own procedure runs, then the leaf's.
proof fn lemma_trace_mid_trigger(
    plans: Seq<FieldPlan>,
    fields: Seq<Field>,
    cfg: NamingConfig,
    i: int,
    ic: int,
    fuel: nat,
)
    requires
        plans_match(plans, fields, cfg),
        no_dup(op_names(all_ops(plans))),
        0 <= i < fields.len(),
        0 <= ic < fields.len(),
        is_computed(fields[i]),
        is_computed(fields[ic]),
        spec_dependents(fields, fields[i].name@) == seq![fields[ic].name@],
        spec_dependents(fields, fields[ic].name@).len() == 0,
        !op_names(all_ops(plans)).contains(procedure_of(fields[i])),
        !op_names(all_ops(plans)).contains(procedure_of(fields[ic])),
        fuel >= 4,
    ensures
        spec_trace_call(plans, spec_trigger_name(cfg, fields[i].name@), fuel) == Some(seq![
            EventView::Invoke(procedure_of(fields[i])),
            EventView::Invoke(procedure_of(fields[ic])),
        ]),
{
    assert(plan_matches(plans[i], fields, fields[i], cfg));
    lemma_all_ops_contains(plans, i);
    let t = plans[i].trigger->Some_0;
    let pi = procedure_of(fields[i]);
    let ni = spec_notify_name(cfg, fields[i].name@);
    let tc = spec_trigger_name(cfg, fields[ic].name@);
    lemma_trace_call_op(plans, t, fuel);
    lemma_trace_two_call_body(plans, t.body@, pi, ni, (fuel - 1) as nat);
    lemma_trace_procedure(plans, pi, (fuel - 1) as nat);
    let notify = plans[i].notify;
    lemma_trace_call_op(plans, notify, (fuel - 1) as nat);
    let callees = crate::plan::notify_callees(fields, cfg, fields[i].name@);
    assert(callees =~= seq![tc]);
    assert(notify.body@.len() == 1);
    assert(call_is(notify.body@[0], tc));
    lemma_trace_one_call_body(plans, notify.body@, tc, (fuel - 2) as nat);
    lemma_trace_leaf_trigger(plans, fields, cfg, ic, (fuel - 2) as nat);
    assert(seq![EventView::Invoke(pi)] + seq![EventView::Invoke(procedure_of(fields[ic]))] =~= seq![
        EventView::Invoke(pi),
        EventView::Invoke(procedure_of(fields[ic])),
    ]);
}

/// Diamond case: when `b` and `d` both depend on stored `a`, and `c` depends
/// on both `b` and `d`, the setter of `a` makes `c`'s compute procedure run
/// exactly twice — once along each path. The redundant recomputation on
/// reconverging paths is the documented contract, not a defect.
pub proof fn lemma_diamond_recomputes_shared_dependent_twice(
    plans: Seq<FieldPlan>,
    fields: Seq<Field>,
    cfg: NamingConfig,
    ia: int,
    ib: int,
    ic: int,
    id: int,
    fuel: nat,
)
    requires
        plans_match(plans, fields, cfg),
        collision_free(plans, fields),
        0 <= ia < fields.len(),
        0 <= ib < fields.len(),
        0 <= ic < fields.len(),
        0 <= id < fields.len(),
        fields[ia].kind is Stored,
        is_computed(fields[ib]),
        is_computed(fields[ic]),
        is_computed(fields[id]),
        spec_dependents(fields, fields[ia].name@) == seq![fields[ib].name@, fields[id].name@],
        spec_dependents(fields, fields[ib].name@) == seq![fields[ic].name@],
        spec_dependents(fields, fields[id].name@) == seq![fields[ic].name@],
        spec_dependents(fields, fields[ic].name@).len() == 0,
        fuel >= 6,
    ensures
        spec_trace_call(plans, spec_setter_name(cfg, fields[ia].name@), fuel) == Some(seq![
            EventView::Assign(fields[ia].name@),
            EventView::Invoke(procedure_of(fields[ib])),
            EventView::Invoke(procedure_of(fields[ic])),
            EventView::Invoke(procedure_of(fields[id])),
            EventView::Invoke(procedure_of(fields[ic])),
        ]),
        procedure_of(fields[ib]) != procedure_of(fields[ic]) && procedure_of(fields[id])
            != procedure_of(fields[ic]) ==> count_invokes(
            spec_trace_call(plans, spec_setter_name(cfg, fields[ia].name@), fuel)->Some_0,
            procedure_of(fields[ic]),
        ) == 2,
{
    assert(plan_matches(plans[ia], fields, fields[ia], cfg));
    assert(!op_names(all_ops(plans)).contains(procedure_of(fields[ib])));
    assert(!op_names(all_ops(plans)).contains(procedure_of(fields[ic])));
    assert(!op_names(all_ops(plans)).contains(procedure_of(fields[id])));
    lemma_all_ops_contains(plans, ia);
    let s = plans[ia].setter->Some_0;
    let a_name = fields[ia].name@;
    let na = spec_notify_name(cfg, a_name);
    let tb = spec_trigger_name(cfg, fields[ib].name@);
    let td = spec_trigger_name(cfg, fields[id].name@);
    let pb = procedure_of(fields[ib]);
    let pc = procedure_of(fields[ic]);
    let pd = procedure_of(fields[id]);
    lemma_trace_call_op(plans, s, fuel);
    lemma_trace_assign_call_body(plans, s.body@, a_name, na, (fuel - 1) as nat);
    let notify_a = plans[ia].notify;
    lemma_trace_call_op(plans, notify_a, (fuel - 1) as nat);
    let callees = crate::plan::notify_callees(fields, cfg, a_name);
    assert(callees =~= seq![tb, td]);
    assert(notify_a.body@.len() == 2);
    assert(call_is(notify_a.body@[0], tb));
    assert(call_is(notify_a.body@[1], td));
    lemma_trace_two_call_body(plans, notify_a.body@, tb, td, (fuel - 2) as nat);
    lemma_trace_mid_trigger(plans, fields, cfg, ib, ic, (fuel - 2) as nat);
    lemma_trace_mid_trigger(plans, fields, cfg, id, ic, (fuel - 2) as nat);
    let full = seq![
        EventView::Assign(a_name),
        EventView::Invoke(pb),
        EventView::Invoke(pc),
        EventView::Invoke(pd),
        EventView::Invoke(pc),
    ];
    assert(seq![EventView::Assign(a_name)] + (seq![EventView::Invoke(pb), EventView::Invoke(pc)]
        + seq![EventView::Invoke(pd), EventView::Invoke(pc)]) =~= full);
    if pb != pc && pd != pc {
        reveal_with_fuel(count_invokes, 7);
        assert(full.drop_last() =~= seq![
            EventView::Assign(a_name),
            EventView::Invoke(pb),
            EventView::Invoke(pc),
            EventView::Invoke(pd),
        ]);
        assert(count_invokes(full, pc) == 2);
    }
}

} // verus!
