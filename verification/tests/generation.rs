use dynamic_struct::generate;
use dynamic_struct::plan::Action;
use dynamic_struct::schema::{Field, FieldKind, NamingConfig, RecordShape, SchemaError};
use dynamic_struct::{GeneratedOps, RecordInput};

fn stored(name: &str, ty: &str) -> Field {
    Field { name: name.to_string(), ty: ty.to_string(), kind: FieldKind::Stored }
}

fn computed(name: &str, ty: &str, deps: &[&str], procedure: &str) -> Field {
    Field {
        name: name.to_string(),
        ty: ty.to_string(),
        kind: FieldKind::Computed {
            dependencies: deps.iter().map(|d| d.to_string()).collect(),
            procedure: procedure.to_string(),
        },
    }
}

fn record(name: &str, fields: Vec<Field>) -> RecordInput {
    RecordInput {
        name: name.to_string(),
        shape: RecordShape::Named(fields),
        config: NamingConfig::empty(),
    }
}

fn generate_ok(input: &RecordInput) -> GeneratedOps {
    match generate(input) {
        Ok(g) => g,
        Err(e) => panic!("generation failed: {:?}", e),
    }
}

#[test]
fn every_field_gets_exactly_its_operations() {
    let input = record(
        "Demo",
        vec![
            stored("a", "u32"),
            stored("b", "u32"),
            computed("c", "u32", &["a", "b"], "calculate_c"),
        ],
    );
    let g = generate_ok(&input);
    assert_eq!(g.plans.len(), 3);
    for plan in &g.plans {
        let computed_field = plan.trigger.is_some();
        let stored_field = plan.setter.is_some();
        assert!(computed_field != stored_field);
    }
    assert_eq!(g.plans[0].field, "a");
    assert!(g.plans[0].setter.is_some());
    assert!(g.plans[0].trigger.is_none());
    assert_eq!(g.plans[2].field, "c");
    assert!(g.plans[2].trigger.is_some());
    assert!(g.plans[2].setter.is_none());
}

#[test]
fn field_without_dependents_gets_empty_notify() {
    let input = record("Lone", vec![stored("a", "i64")]);
    let g = generate_ok(&input);
    assert_eq!(g.plans[0].notify.name, "updated_a");
    assert!(g.plans[0].notify.body.is_empty());
}

#[test]
fn trigger_calls_procedure_before_notify() {
    let input = record(
        "Demo",
        vec![stored("a", "u32"), computed("c", "u32", &["a"], "calculate_c")],
    );
    let g = generate_ok(&input);
    let trigger = g.plans[1].trigger.as_ref().unwrap();
    assert_eq!(trigger.name, "update_c");
    assert_eq!(
        trigger.body,
        vec![
            Action::Call("calculate_c".to_string()),
            Action::Call("updated_c".to_string()),
        ]
    );
}

#[test]
fn setter_assigns_before_notify() {
    let input = record("Demo", vec![stored("a", "u32")]);
    let g = generate_ok(&input);
    let setter = g.plans[0].setter.as_ref().unwrap();
    assert_eq!(setter.name, "update_a");
    assert_eq!(
        setter.body,
        vec![
            Action::Assign("a".to_string()),
            Action::Call("updated_a".to_string()),
        ]
    );
}

#[test]
fn notify_triggers_dependents_in_declaration_order() {
    let input = record(
        "Demo",
        vec![
            stored("a", "u32"),
            computed("c", "u32", &["a"], "calc_c"),
            computed("b", "u32", &["a"], "calc_b"),
        ],
    );
    let g = generate_ok(&input);
    assert_eq!(
        g.plans[0].notify.body,
        vec![
            Action::Call("update_c".to_string()),
            Action::Call("update_b".to_string()),
        ]
    );
}

#[test]
fn repeated_dependency_entries_trigger_once() {
    let input = record(
        "Demo",
        vec![
            stored("a", "u32"),
            computed("c", "u32", &["a", "a"], "calc_c"),
        ],
    );
    let g = generate_ok(&input);
    assert_eq!(
        g.plans[0].notify.body,
        vec![Action::Call("update_c".to_string())]
    );
}

#[test]
fn unknown_dependency_is_rejected() {
    let input = record(
        "Demo",
        vec![stored("a", "u32"), computed("c", "u32", &["z"], "calculate_c")],
    );
    match generate(&input) {
        Err(SchemaError::UnknownDependency { field, dependency }) => {
            assert_eq!(field, "c");
            assert_eq!(dependency, "z");
        },
        other => panic!("expected an unknown-dependency error, got {:?}", other),
    }
}

#[test]
fn unnamed_field_shape_is_rejected() {
    let input = RecordInput {
        name: "Tuple".to_string(),
        shape: RecordShape::Unnamed,
        config: NamingConfig::empty(),
    };
    assert_eq!(generate(&input), Err(SchemaError::UnsupportedShape));
}

#[test]
fn unit_and_non_record_shapes_are_rejected() {
    let unit = RecordInput {
        name: "Unit".to_string(),
        shape: RecordShape::Unit,
        config: NamingConfig::empty(),
    };
    assert_eq!(generate(&unit), Err(SchemaError::UnsupportedShape));
    let not_record = RecordInput {
        name: "Choice".to_string(),
        shape: RecordShape::NotRecord,
        config: NamingConfig::empty(),
    };
    assert_eq!(generate(&not_record), Err(SchemaError::UnsupportedShape));
}

#[test]
fn missing_procedure_is_malformed() {
    let input = record(
        "Demo",
        vec![stored("a", "u32"), computed("c", "u32", &["a"], "")],
    );
    match generate(&input) {
        Err(SchemaError::MalformedDependencyDeclaration { field }) => {
            assert_eq!(field, "c");
        },
        other => panic!("expected a malformed-declaration error, got {:?}", other),
    }
}

#[test]
fn non_identifier_dependency_is_malformed() {
    let input = record(
        "Demo",
        vec![stored("a", "u32"), computed("c", "u32", &["9a"], "calculate_c")],
    );
    match generate(&input) {
        Err(SchemaError::MalformedDependencyDeclaration { field }) => {
            assert_eq!(field, "c");
        },
        other => panic!("expected a malformed-declaration error, got {:?}", other),
    }
}

#[test]
fn malformed_declaration_is_reported_before_unknown_dependency() {
    let input = record(
        "Demo",
        vec![
            computed("c", "u32", &["z"], ""),
            computed("d", "u32", &["missing"], "calc_d"),
        ],
    );
    match generate(&input) {
        Err(SchemaError::MalformedDependencyDeclaration { field }) => {
            assert_eq!(field, "c");
        },
        other => panic!("expected a malformed-declaration error, got {:?}", other),
    }
}

#[test]
fn custom_setter_naming_renames_only_setters() {
    let input = RecordInput {
        name: "MyStruct".to_string(),
        shape: RecordShape::Named(vec![
            stored("a", "u32"),
            computed("c", "u32", &["a"], "calculate_c"),
        ]),
        config: NamingConfig {
            setter_prefix: Some("set_".to_string()),
            setter_suffix: Some("_value".to_string()),
            ..NamingConfig::empty()
        },
    };
    let g = generate_ok(&input);
    assert_eq!(g.plans[0].setter.as_ref().unwrap().name, "set_a_value");
    assert_eq!(g.plans[0].notify.name, "updated_a");
    assert_eq!(g.plans[1].trigger.as_ref().unwrap().name, "update_c");
    assert_eq!(g.plans[1].notify.name, "updated_c");
}

#[test]
fn duplicate_generated_names_are_a_collision() {
    let input = RecordInput {
        name: "Clash".to_string(),
        shape: RecordShape::Named(vec![stored("a", "u32")]),
        config: NamingConfig {
            setter_prefix: Some("updated_".to_string()),
            ..NamingConfig::empty()
        },
    };
    match generate(&input) {
        Err(SchemaError::NamingCollision { name }) => {
            assert_eq!(name, "updated_a");
        },
        other => panic!("expected a naming collision, got {:?}", other),
    }
}

#[test]
fn procedure_named_like_an_operation_is_a_collision() {
    let input = record(
        "Clash",
        vec![stored("a", "u32"), computed("c", "u32", &["a"], "update_c")],
    );
    match generate(&input) {
        Err(SchemaError::NamingCollision { name }) => {
            assert_eq!(name, "update_c");
        },
        other => panic!("expected a naming collision, got {:?}", other),
    }
}

#[test]
fn rendered_source_matches_plan_exactly() {
    let input = record(
        "Demo",
        vec![stored("a", "u32"), computed("c", "u32", &["a"], "calculate_c")],
    );
    let g = generate_ok(&input);
    let mut expected = String::new();
    expected.push_str("impl Demo {\n");
    expected.push_str("    pub fn updated_a(&mut self) {\n");
    expected.push_str("        self.update_c();\n");
    expected.push_str("    }\n");
    expected.push_str("    pub fn updated_c(&mut self) {\n");
    expected.push_str("    }\n");
    expected.push_str("    pub fn update_a(&mut self, value: u32) {\n");
    expected.push_str("        self.a = value;\n");
    expected.push_str("        self.updated_a();\n");
    expected.push_str("    }\n");
    expected.push_str("    pub fn update_c(&mut self) {\n");
    expected.push_str("        self.calculate_c();\n");
    expected.push_str("        self.updated_c();\n");
    expected.push_str("    }\n");
    expected.push_str("}\n");
    assert_eq!(g.source, expected);
}

#[test]
fn record_without_fields_generates_empty_impl() {
    let input = record("Empty", vec![]);
    let g = generate_ok(&input);
    assert_eq!(g.plans.len(), 0);
    assert_eq!(g.source, "impl Empty {\n}\n");
}

#[test]
fn dependency_cycles_are_not_rejected() {
    let input = record(
        "Loop",
        vec![
            computed("x", "u32", &["y"], "calc_x"),
            computed("y", "u32", &["x"], "calc_y"),
        ],
    );
    let g = generate_ok(&input);
    assert_eq!(g.plans.len(), 2);
}

#[test]
fn self_dependency_is_accepted_as_a_cycle() {
    let input = record("Selfish", vec![computed("x", "u32", &["x"], "calc_x")]);
    assert!(generate(&input).is_ok());
}
