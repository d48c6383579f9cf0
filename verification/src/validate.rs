//! Schema validation: rejects non-record shapes, structurally malformed
//! dependency declarations, and dependencies that name no field. All
//! validation runs before any graph or plan is built.

use vstd::prelude::*;

use crate::schema::{
    dep_names, err_view, has_field, is_computed, record_has_field, views, ErrView, Field,
    FieldKind, SchemaError,
};

verus! {

pub open spec fn ident_start(c: char) -> bool {
    c == '_' || ('a' <= c && c <= 'z') || ('A' <= c && c <= 'Z')
}

pub open spec fn ident_continue(c: char) -> bool {
    ident_start(c) || ('0' <= c && c <= '9')
}

/// A plain identifier: nonempty, starting with a letter or underscore, and
/// continuing with letters, digits or underscores.
pub open spec fn is_ident(s: Seq<char>) -> bool {
    &&& s.len() > 0
    &&& ident_start(s[0])
    &&& forall|i: int| 1 <= i < s.len() ==> ident_continue(#[trigger] s[i])
}

pub fn check_ident(s: &String) -> (r: bool)
    ensures
        r == is_ident(s@),
{
    let st = s.as_str();
    let n = st.unicode_len();
    if n == 0 {
        return false;
    }
    if !exec_ident_start(st.get_char(0)) {
        return false;
    }
    let mut i: usize = 1;
    while i < n
        invariant
            1 <= i <= n,
            n == st@.len(),
            st@ == s@,
            forall|j: int| 1 <= j < i ==> ident_continue(#[trigger] st@[j]),
        decreases n - i,
    {
        if !exec_ident_continue(st.get_char(i)) {
            return false;
        }
        i = i + 1;
    }
    true
}

fn exec_ident_start(c: char) -> (r: bool)
    ensures
        r == ident_start(c),
{
    c == '_' || ('a' <= c && c <= 'z') || ('A' <= c && c <= 'Z')
}

fn exec_ident_continue(c: char) -> (r: bool)
    ensures
        r == ident_continue(c),
{
    exec_ident_start(c) || ('0' <= c && c <= '9')
}

/// A computed field's declaration is malformed when its compute procedure or
/// one of its dependencies is not a plain identifier. A stored field carries
/// no declaration, so it is never malformed.
pub open spec fn malformed(f: Field) -> bool {
    match f.kind {
        FieldKind::Stored => false,
        FieldKind::Computed { dependencies, procedure } => {
            ||| !is_ident(procedure@)
            ||| exists|i: int|
                0 <= i < dependencies@.len() && !is_ident(#[trigger] dependencies@[i]@)
        },
    }
}

/// The first dependency of `f`, from position `k` on, that names no field.
pub open spec fn first_unknown_from(fields: Seq<Field>, deps: Seq<Seq<char>>, k: int) -> Option<
    Seq<char>,
>
    decreases deps.len() - k,
{
    if k < 0 || k >= deps.len() {
        None
    } else if !has_field(fields, deps[k]) {
        Some(deps[k])
    } else {
        first_unknown_from(fields, deps, k + 1)
    }
}

/// The error a single field is rejected with, if any: a malformed declaration
/// is reported before an unknown dependency.
pub open spec fn field_error(fields: Seq<Field>, f: Field) -> Option<ErrView> {
    if malformed(f) {
        Some(ErrView::MalformedDependencyDeclaration { field: f.name@ })
    } else {
        match first_unknown_from(fields, dep_names(f), 0) {
            Some(d) => Some(ErrView::UnknownDependency { field: f.name@, dependency: d }),
            None => None,
        }
    }
}

/// The first error among the fields from position `i` on.
pub open spec fn spec_validate_from(fields: Seq<Field>, i: int) -> Option<ErrView>
    decreases fields.len() - i,
{
    if i < 0 || i >= fields.len() {
        None
    } else {
        match field_error(fields, fields[i]) {
            Some(e) => Some(e),
            None => spec_validate_from(fields, i + 1),
        }
    }
}

/// The first error of the whole field list, scanning fields in declaration
/// order; `None` when the schema is well formed.
pub open spec fn spec_validate(fields: Seq<Field>) -> Option<ErrView> {
    spec_validate_from(fields, 0)
}

/// Checks one field: malformed declaration first, then unknown dependencies,
/// in declaration order.
#[verifier::loop_isolation(false)]
fn validate_field(fields: &Vec<Field>, f: &Field) -> (r: Result<(), SchemaError>)
    ensures
        match r {
            Ok(()) => field_error(fields@, *f) is None,
            Err(e) => field_error(fields@, *f) == Some(err_view(e)),
        },
{
    match &f.kind {
        FieldKind::Stored => Ok(()),
        FieldKind::Computed { dependencies, procedure } => {
            if !check_ident(procedure) {
                assert(malformed(*f));
                return Err(
                    SchemaError::MalformedDependencyDeclaration { field: f.name.clone() },
                );
            }
            let mut k: usize = 0;
            while k < dependencies.len()
                invariant
                    0 <= k <= dependencies@.len(),
                    forall|j: int| 0 <= j < k ==> is_ident(#[trigger] dependencies@[j]@),
                decreases dependencies@.len() - k,
            {
                if !check_ident(&dependencies[k]) {
                    assert(!is_ident(dependencies@[k as int]@));
                    assert(malformed(*f));
                    return Err(
                        SchemaError::MalformedDependencyDeclaration { field: f.name.clone() },
                    );
                }
                k = k + 1;
            }
            assert(!malformed(*f));
            let ghost deps = dep_names(*f);
            let mut m: usize = 0;
            while m < dependencies.len()
                invariant
                    0 <= m <= dependencies@.len(),
                    deps == dep_names(*f),
                    deps == views(dependencies@),
                    first_unknown_from(fields@, deps, 0) == first_unknown_from(
                        fields@,
                        deps,
                        m as int,
                    ),
                decreases dependencies@.len() - m,
            {
                if !record_has_field(fields, &dependencies[m]) {
                    assert(first_unknown_from(fields@, deps, m as int) == Some(
                        dependencies@[m as int]@,
                    ));
                    return Err(
                        SchemaError::UnknownDependency {
                            field: f.name.clone(),
                            dependency: dependencies[m].clone(),
                        },
                    );
                }
                assert(has_field(fields@, deps[m as int]));
                m = m + 1;
            }
            assert(first_unknown_from(fields@, deps, dependencies@.len() as int) is None);
            Ok(())
        },
    }
}

/// Validates the whole field list; returns the first error in declaration
/// order, or `Ok` exactly when the schema is well formed.
pub fn validate(fields: &Vec<Field>) -> (r: Result<(), SchemaError>)
    ensures
        r is Ok <==> spec_validate(fields@) is None,
        r matches Err(e) ==> spec_validate(fields@) == Some(err_view(e)),
{
    let mut i: usize = 0;
    while i < fields.len()
        invariant
            0 <= i <= fields@.len(),
            spec_validate(fields@) == spec_validate_from(fields@, i as int),
        decreases fields@.len() - i,
    {
        match validate_field(fields, &fields[i]) {
            Ok(()) => {},
            Err(e) => {
                return Err(e);
            },
        }
        i = i + 1;
    }
    Ok(())
}

} // verus!
