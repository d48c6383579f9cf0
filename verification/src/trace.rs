//! Traces of the planned operations: what a generated operation performs at
//! run time, as a sequence of primitive events — assignments and invocations
//! of the record's own compute procedures. Calls between generated
//! operations are followed; a fuel bound keeps the walk finite, since a
//! cyclic schema's operations would recurse forever.

use vstd::prelude::*;

use crate::plan::{Action, FieldPlan, Operation};

verus! {

/// A primitive event of a run: an assignment of the incoming value to the
/// named field, or an invocation of the named compute procedure.
#[derive(Debug, Clone, PartialEq, Eq)]
pub enum Event {
    Assign(String),
    Invoke(String),
}

/// Ghost image of an `Event`.
#[verifier::ext_equal]
pub enum EventView {
    Assign(Seq<char>),
    Invoke(Seq<char>),
}

pub open spec fn event_view(e: Event) -> EventView {
    match e {
        Event::Assign(f) => EventView::Assign(f@),
        Event::Invoke(n) => EventView::Invoke(n@),
    }
}

pub open spec fn event_views(es: Seq<Event>) -> Seq<EventView> {
    es.map_values(|e: Event| event_view(e))
}

/// The operation of one field's plan named `name`, if any, checking notify,
/// then trigger, then setter.
pub open spec fn find_in_plan(p: FieldPlan, name: Seq<char>) -> Option<Operation> {
    if p.notify.name@ == name {
        Some(p.notify)
    } else if p.trigger matches Some(t) && t.name@ == name {
        p.trigger
    } else if p.setter matches Some(s) && s.name@ == name {
        p.setter
    } else {
        None
    }
}

/// The first generated operation named `name`, scanning plans in field
/// order.
pub open spec fn spec_find(plans: Seq<FieldPlan>, name: Seq<char>) -> Option<Operation>
    decreases plans.len(),
{
    if plans.len() == 0 {
        None
    } else {
        match find_in_plan(plans.first(), name) {
            Some(op) => Some(op),
            None => spec_find(plans.drop_first(), name),
        }
    }
}

/// The events of calling `name`: a generated operation runs its body
/// (spending one unit of fuel); any other name is an invocation of a compute
/// procedure of the record, a primitive event. `None` means the fuel ran
/// out before the call chain bottomed out.
pub open spec fn spec_trace_call(plans: Seq<FieldPlan>, name: Seq<char>, fuel: nat) -> Option<
    Seq<EventView>,
>
    decreases fuel, 0nat, 0nat,
{
    match spec_find(plans, name) {
        None => Some(seq![EventView::Invoke(name)]),
        Some(op) => if fuel == 0 {
            None
        } else {
            spec_trace_body(plans, op.body@, (fuel - 1) as nat)
        },
    }
}

/// The events of one body step.
pub open spec fn spec_trace_action(plans: Seq<FieldPlan>, a: Action, fuel: nat) -> Option<
    Seq<EventView>,
>
    decreases fuel, 0nat, 1nat,
{
    match a {
        Action::Assign(f) => Some(seq![EventView::Assign(f@)]),
        Action::Call(n) => spec_trace_call(plans, n@, fuel),
    }
}

/// The events of a body: its steps' events, in order.
pub open spec fn spec_trace_body(plans: Seq<FieldPlan>, body: Seq<Action>, fuel: nat) -> Option<
    Seq<EventView>,
>
    decreases fuel, body.len(), 2nat,
{
    if body.len() == 0 {
        Some(Seq::empty())
    } else {
        match spec_trace_action(plans, body.first(), fuel) {
            None => None,
            Some(t1) => match spec_trace_body(plans, body.drop_first(), fuel) {
                None => None,
                Some(t2) => Some(t1 + t2),
            },
        }
    }
}

/// How many times the trace invokes the procedure `name`.
pub open spec fn count_invokes(t: Seq<EventView>, name: Seq<char>) -> nat
    decreases t.len(),
{
    if t.len() == 0 {
        0
    } else {
        count_invokes(t.drop_last(), name) + (if t.last() == EventView::Invoke(name) {
            1nat
        } else {
            0nat
        })
    }
}

/// An executable trace matches a ghost one.
pub open spec fn trace_matches(r: Option<Vec<Event>>, t: Option<Seq<EventView>>) -> bool {
    match t {
        None => r is None,
        Some(s) => r matches Some(v) && event_views(v@) == s,
    }
}

/// The first generated operation named `name`, if any.
fn find_op<'a>(plans: &'a Vec<FieldPlan>, name: &String) -> (r: Option<&'a Operation>)
    ensures
        match spec_find(plans@, name@) {
            Some(op) => r matches Some(o) && *o == op,
            None => r is None,
        },
{
    let mut i: usize = 0;
    proof {
        assert(plans@.skip(0) =~= plans@);
    }
    while i < plans.len()
        invariant
            0 <= i <= plans@.len(),
            spec_find(plans@, name@) == spec_find(plans@.skip(i as int), name@),
        decreases plans@.len() - i,
    {
        proof {
            assert(plans@.skip(i as int).first() == plans@[i as int]);
            assert(plans@.skip(i as int).drop_first() =~= plans@.skip(i + 1));
        }
        let p = &plans[i];
        if crate::schema::str_eq(&p.notify.name, name) {
            return Some(&p.notify);
        }
        match &p.trigger {
            Some(t) => {
                if crate::schema::str_eq(&t.name, name) {
                    return Some(t);
                }
            },
            None => {},
        }
        match &p.setter {
            Some(s) => {
                if crate::schema::str_eq(&s.name, name) {
                    return Some(s);
                }
            },
            None => {},
        }
        proof {
            assert(find_in_plan(plans@[i as int], name@) is None);
        }
        i = i + 1;
    }
    proof {
        assert(plans@.skip(plans@.len() as int) =~= Seq::<FieldPlan>::empty());
    }
    None
}

/// Runs a call, as `spec_trace_call` describes.
#[verifier::loop_isolation(false)]
fn run_call(plans: &Vec<FieldPlan>, name: &String, fuel: u64) -> (r: Option<Vec<Event>>)
    ensures
        trace_matches(r, spec_trace_call(plans@, name@, fuel as nat)),
    decreases fuel, 0nat, 0nat,
{
    match find_op(plans, name) {
        None => {
            let mut out: Vec<Event> = Vec::new();
            out.push(Event::Invoke(name.clone()));
            proof {
                assert(event_views(out@) =~= seq![EventView::Invoke(name@)]);
            }
            Some(out)
        },
        Some(op) => {
            if fuel == 0 {
                None
            } else {
                proof {
                    assert(op.body@.skip(0) =~= op.body@);
                }
                run_body(plans, &op.body, 0, fuel - 1)
            }
        },
    }
}

/// Runs one body step, as `spec_trace_action` describes.
fn run_action(plans: &Vec<FieldPlan>, a: &Action, fuel: u64) -> (r: Option<Vec<Event>>)
    ensures
        trace_matches(r, spec_trace_action(plans@, *a, fuel as nat)),
    decreases fuel, 0nat, 1nat,
{
    match a {
        Action::Assign(f) => {
            let mut out: Vec<Event> = Vec::new();
            out.push(Event::Assign(f.clone()));
            proof {
                assert(event_views(out@) =~= seq![EventView::Assign(f@)]);
            }
            Some(out)
        },
        Action::Call(n) => run_call(plans, n, fuel),
    }
}

/// Runs the body steps from position `i` on, as `spec_trace_body` describes.
fn run_body(plans: &Vec<FieldPlan>, body: &Vec<Action>, i: usize, fuel: u64) -> (r: Option<
    Vec<Event>,
>)
    requires
        i <= body@.len(),
    ensures
        trace_matches(r, spec_trace_body(plans@, body@.skip(i as int), fuel as nat)),
    decreases fuel, body@.len() - i, 2nat,
{
    if i == body.len() {
        proof {
            assert(body@.skip(i as int) =~= Seq::<Action>::empty());
            assert(event_views(Seq::<Event>::empty()) =~= Seq::<EventView>::empty());
        }
        let out: Vec<Event> = Vec::new();
        proof {
            assert(event_views(out@) =~= Seq::<EventView>::empty());
        }
        Some(out)
    } else {
        proof {
            assert(body@.skip(i as int).first() == body@[i as int]);
            assert(body@.skip(i as int).drop_first() =~= body@.skip(i + 1));
        }
        match run_action(plans, &body[i], fuel) {
            None => None,
            Some(mut t1) => match run_body(plans, body, i + 1, fuel) {
                None => None,
                Some(mut t2) => {
                    let ghost v1 = t1@;
                    let ghost v2 = t2@;
                    t1.append(&mut t2);
                    proof {
                        assert(event_views(v1 + v2) =~= event_views(v1) + event_views(v2));
                    }
                    Some(t1)
                },
            },
        }
    }
}

/// The events that calling the operation `op_name` performs, following
/// generated operations up to `fuel` nested calls deep; `None` when the fuel
/// runs out first (as it must on a dependency cycle).
pub fn run_trace(plans: &Vec<FieldPlan>, op_name: &String, fuel: u64) -> (r: Option<Vec<Event>>)
    ensures
        trace_matches(r, spec_trace_call(plans@, op_name@, fuel as nat)),
{
    run_call(plans, op_name, fuel)
}

} // verus!
