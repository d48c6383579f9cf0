use dynamic_struct::generate;
use dynamic_struct::schema::{Field, FieldKind, NamingConfig, RecordShape};
use dynamic_struct::trace::{run_trace, Event};
use dynamic_struct::RecordInput;

fn stored(name: &str, ty: &str) -> Field {
    Field { name: name.to_string(), ty: ty.to_string(), kind: FieldKind::Stored }
}

fn computed(name: &str, ty: &str, deps: &[&str], procedure: &str) -> Field {
    Field {
        name: name.to_string(),
        ty: ty.to_string(),
        kind: FieldKind::Computed {
            dependencies: deps.iter().map(|d| d.to_string()).collect(),
            procedure: procedure.to_string(),
        },
    }
}

fn record(name: &str, fields: Vec<Field>) -> RecordInput {
    RecordInput {
        name: name.to_string(),
        shape: RecordShape::Named(fields),
        config: NamingConfig::empty(),
    }
}

/// The record of the running example: `c = a + b`, `d = c + c`.
struct Demo {
    a: u32,
    b: u32,
    c: u32,
    d: u32,
}

impl Demo {
    fn calc_c(&mut self) {
        self.c = self.a + self.b;
    }

    fn calc_d(&mut self) {
        self.d = self.c + self.c;
    }

    /// Performs the traced events as the emitted operations would: an
    /// assignment writes `value` to the named field, an invocation runs the
    /// named compute procedure.
    fn apply(&mut self, events: &[Event], value: u32) {
        for event in events {
            match event {
                Event::Assign(field) => match field.as_str() {
                    "a" => self.a = value,
                    "b" => self.b = value,
                    other => panic!("no stored field {}", other),
                },
                Event::Invoke(procedure) => match procedure.as_str() {
                    "calc_c" => self.calc_c(),
                    "calc_d" => self.calc_d(),
                    other => panic!("no procedure {}", other),
                },
            }
        }
    }
}

#[test]
fn chained_setters_keep_computed_fields_consistent() {
    let input = record(
        "Demo",
        vec![
            stored("a", "u32"),
            stored("b", "u32"),
            computed("c", "u32", &["a", "b"], "calc_c"),
            computed("d", "u32", &["c"], "calc_d"),
        ],
    );
    let g = generate(&input).unwrap();
    let mut demo = Demo { a: 1, b: 2, c: 0, d: 0 };
    demo.calc_c();
    demo.calc_d();
    assert_eq!(demo.c, 3);
    assert_eq!(demo.d, 6);

    let set_a = run_trace(&g.plans, &"update_a".to_string(), 16).unwrap();
    demo.apply(&set_a, 4);
    assert_eq!(demo.a, 4);
    assert_eq!(demo.c, 6);
    assert_eq!(demo.d, 12);

    let set_b = run_trace(&g.plans, &"update_b".to_string(), 16).unwrap();
    demo.apply(&set_b, 9);
    assert_eq!(demo.b, 9);
    assert_eq!(demo.c, 13);
    assert_eq!(demo.d, 26);
}

#[test]
fn setter_reaches_transitive_dependents() {
    let input = record(
        "Chain",
        vec![
            stored("a", "u32"),
            computed("b", "u32", &["a"], "calc_b"),
            computed("c", "u32", &["b"], "calc_c"),
        ],
    );
    let g = generate(&input).unwrap();
    let events = run_trace(&g.plans, &"update_a".to_string(), 16).unwrap();
    assert_eq!(
        events,
        vec![
            Event::Assign("a".to_string()),
            Event::Invoke("calc_b".to_string()),
            Event::Invoke("calc_c".to_string()),
        ]
    );
}

#[test]
fn diamond_recomputes_shared_dependent_once_per_path() {
    let input = record(
        "Diamond",
        vec![
            stored("a", "u32"),
            computed("b", "u32", &["a"], "calc_b"),
            computed("c", "u32", &["b", "d"], "calc_c"),
            computed("d", "u32", &["a"], "calc_d"),
        ],
    );
    let g = generate(&input).unwrap();
    let events = run_trace(&g.plans, &"update_a".to_string(), 16).unwrap();
    assert_eq!(
        events,
        vec![
            Event::Assign("a".to_string()),
            Event::Invoke("calc_b".to_string()),
            Event::Invoke("calc_c".to_string()),
            Event::Invoke("calc_d".to_string()),
            Event::Invoke("calc_c".to_string()),
        ]
    );
    let recomputations = events
        .iter()
        .filter(|e| matches!(e, Event::Invoke(p) if p == "calc_c"))
        .count();
    assert_eq!(recomputations, 2);
}

#[test]
fn notify_of_field_without_dependents_performs_nothing() {
    let input = record("Lone", vec![stored("a", "u32")]);
    let g = generate(&input).unwrap();
    let events = run_trace(&g.plans, &"updated_a".to_string(), 16).unwrap();
    assert!(events.is_empty());
}

#[test]
fn cyclic_dependencies_exhaust_any_fuel() {
    let input = record(
        "Loop",
        vec![
            computed("x", "u32", &["y"], "calc_x"),
            computed("y", "u32", &["x"], "calc_y"),
        ],
    );
    let g = generate(&input).unwrap();
    assert!(run_trace(&g.plans, &"update_x".to_string(), 64).is_none());
}

#[test]
fn unknown_operation_is_a_plain_invocation() {
    let input = record("Demo", vec![stored("a", "u32")]);
    let g = generate(&input).unwrap();
    let events = run_trace(&g.plans, &"helper".to_string(), 4).unwrap();
    assert_eq!(events, vec![Event::Invoke("helper".to_string())]);
}
