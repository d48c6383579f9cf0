//! The schema model: fields, field kinds, the naming configuration, and the
//! errors a malformed schema is rejected with.

use vstd::prelude::*;

verus! {

/// How a field gets its value: set directly by callers, or recomputed by a
/// zero-argument procedure whenever one of its dependencies changes.
#[derive(Debug, Clone, PartialEq, Eq)]
pub enum FieldKind {
    Stored,
    Computed { dependencies: Vec<String>, procedure: String },
}

/// One field of a record: its name, its type (opaque here, passed through
/// verbatim to the emitted code), and its kind.
#[derive(Debug, Clone, PartialEq, Eq)]
pub struct Field {
    pub name: String,
    pub ty: String,
    pub kind: FieldKind,
}

/// The shape of the host record. Only named-field records can be given
/// propagation operations; the other shapes are rejected by validation.
#[derive(Debug, Clone, PartialEq, Eq)]
pub enum RecordShape {
    Named(Vec<Field>),
    Unnamed,
    Unit,
    NotRecord,
}

/// Optional overrides for the prefix and suffix of each generated operation
/// name. An unset part falls back to its default: `updated_`/`` for notify,
/// `update_`/`` for trigger and for setter.
#[derive(Debug, Clone, PartialEq, Eq)]
pub struct NamingConfig {
    pub notify_prefix: Option<String>,
    pub notify_suffix: Option<String>,
    pub trigger_prefix: Option<String>,
    pub trigger_suffix: Option<String>,
    pub setter_prefix: Option<String>,
    pub setter_suffix: Option<String>,
}

impl NamingConfig {
    /// A configuration with no overrides: every name uses the defaults.
    pub fn empty() -> (r: NamingConfig)
        ensures
            r.notify_prefix is None,
            r.notify_suffix is None,
            r.trigger_prefix is None,
            r.trigger_suffix is None,
            r.setter_prefix is None,
            r.setter_suffix is None,
    {
        NamingConfig {
            notify_prefix: None,
            notify_suffix: None,
            trigger_prefix: None,
            trigger_suffix: None,
            setter_prefix: None,
            setter_suffix: None,
        }
    }
}

/// Why a schema was rejected. Generation aborts on the first error; there is
/// no partial emission.
#[derive(Debug, Clone, PartialEq, Eq)]
pub enum SchemaError {
    /// The record is not a named-field record.
    UnsupportedShape,
    /// A dependency names no field of the record.
    UnknownDependency { field: String, dependency: String },
    /// A dependency declaration is structurally invalid (the compute
    /// procedure or a dependency is not a plain identifier).
    MalformedDependencyDeclaration { field: String },
    /// Two generated operation names coincide, or a generated name collides
    /// with a compute procedure of the record.
    NamingCollision { name: String },
}

/// Ghost image of a `SchemaError`, with every identifier as a `Seq<char>`.
#[verifier::ext_equal]
pub enum ErrView {
    UnsupportedShape,
    UnknownDependency { field: Seq<char>, dependency: Seq<char> },
    MalformedDependencyDeclaration { field: Seq<char> },
    NamingCollision { name: Seq<char> },
}

pub open spec fn err_view(e: SchemaError) -> ErrView {
    match e {
        SchemaError::UnsupportedShape => ErrView::UnsupportedShape,
        SchemaError::UnknownDependency { field, dependency } => ErrView::UnknownDependency {
            field: field@,
            dependency: dependency@,
        },
        SchemaError::MalformedDependencyDeclaration { field } => (
        ErrView::MalformedDependencyDeclaration { field: field@ }),
        SchemaError::NamingCollision { name } => ErrView::NamingCollision { name: name@ },
    }
}

/// The views of a sequence of strings.
pub open spec fn views(v: Seq<String>) -> Seq<Seq<char>> {
    v.map_values(|s: String| s@)
}

pub open spec fn is_computed(f: Field) -> bool {
    f.kind is Computed
}

/// The declared dependencies of a field, as character sequences. A stored
/// field has none.
pub open spec fn dep_names(f: Field) -> Seq<Seq<char>> {
    match f.kind {
        FieldKind::Stored => Seq::empty(),
        FieldKind::Computed { dependencies, .. } => views(dependencies@),
    }
}

/// The compute procedure of a field; empty for a stored field.
pub open spec fn procedure_of(f: Field) -> Seq<char> {
    match f.kind {
        FieldKind::Stored => Seq::empty(),
        FieldKind::Computed { procedure, .. } => procedure@,
    }
}

/// Whether `f` lists `name` among its dependencies.
pub open spec fn depends_on(f: Field, name: Seq<char>) -> bool {
    dep_names(f).contains(name)
}

/// Whether some field of the record is named `name`.
pub open spec fn has_field(fields: Seq<Field>, name: Seq<char>) -> bool {
    exists|i: int| 0 <= i < fields.len() && #[trigger] fields[i].name@ == name
}

/// String equality, specified over the views.
pub fn str_eq(a: &String, b: &String) -> (r: bool)
    ensures
        r == (a@ == b@),
{
    a.eq(b)
}

/// Whether `names` contains a string whose view is `name@`.
pub fn contains_name(names: &Vec<String>, name: &String) -> (r: bool)
    ensures
        r == views(names@).contains(name@),
{
    let mut i: usize = 0;
    while i < names.len()
        invariant
            0 <= i <= names@.len(),
            forall|j: int| 0 <= j < i ==> views(names@)[j] != name@,
        decreases names@.len() - i,
    {
        if str_eq(&names[i], name) {
            assert(views(names@)[i as int] == name@);
            return true;
        }
        i = i + 1;
    }
    false
}

/// Whether the record has a field named `name`.
pub fn record_has_field(fields: &Vec<Field>, name: &String) -> (r: bool)
    ensures
        r == has_field(fields@, name@),
{
    let mut i: usize = 0;
    while i < fields.len()
        invariant
            0 <= i <= fields@.len(),
            forall|j: int| 0 <= j < i ==> #[trigger] fields@[j].name@ != name@,
        decreases fields@.len() - i,
    {
        if str_eq(&fields[i].name, name) {
            assert(fields@[i as int].name@ == name@);
            return true;
        }
        i = i + 1;
    }
    false
}

} // verus!
