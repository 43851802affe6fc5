//! The type classifier: decides whether a field's declared type already
//! tolerates absence (it spells the built-in optional wrapper) and, if so,
//! extracts the wrapped inner type.
//!
//! The decision is purely lexical, on the type's textual path.  A locally
//! defined type that happens to share the recognized spelling is
//! misclassified as optional; that trade-off is part of this design.

use vstd::prelude::*;

use crate::types::TypeSig;

verus! {

/// Generation-time failures.  `UnsupportedShape` is a record with anything
/// but named fields; `MalformedOptional` is an optional spelling whose
/// generic arguments cannot be unwrapped; `MalformedCollection` is a
/// collector directive on a field whose collection type does not carry
/// exactly one element type.  Each carries the offending field's name.
#[derive(Debug, Clone, PartialEq, Eq)]
pub enum GenError {
    UnsupportedShape,
    MalformedOptional(String),
    MalformedCollection(String),
}

/// How a field is stored: `Required` keeps the declared type, `Optional`
/// keeps the type wrapped inside the optional spelling.
#[derive(Debug, PartialEq, Eq)]
pub enum StorageKind {
    Required(TypeSig),
    Optional(TypeSig),
}

/// One classified field: its name and how its value is stored.
#[derive(Debug, PartialEq, Eq)]
pub struct ClassifiedField {
    pub name: String,
    pub storage_kind: StorageKind,
}

/// The leading path of a signature matches one of the recognized optional
/// spellings: `Option`, `std::option::Option`, `core::option::Option`.
/// Only the first three segments are inspected.
pub open spec fn is_option_sig(t: TypeSig) -> bool {
    ||| (t.segments@.len() == 1 && t.segments@[0]@ == "Option"@)
    ||| (t.segments@.len() >= 3 && t.segments@[0]@ == "std"@ && t.segments@[1]@ == "option"@
        && t.segments@[2]@ == "Option"@)
    ||| (t.segments@.len() >= 3 && t.segments@[0]@ == "core"@ && t.segments@[1]@ == "option"@
        && t.segments@[2]@ == "Option"@)
}

/// The whole path (not just its leading segments) is one of the
/// recognized optional spellings.
pub open spec fn full_option_path(t: TypeSig) -> bool {
    ||| (t.segments@.len() == 1 && t.segments@[0]@ == "Option"@)
    ||| (t.segments@.len() == 3 && t.segments@[0]@ == "std"@ && t.segments@[1]@ == "option"@
        && t.segments@[2]@ == "Option"@)
    ||| (t.segments@.len() == 3 && t.segments@[0]@ == "core"@ && t.segments@[1]@ == "option"@
        && t.segments@[2]@ == "Option"@)
}

/// An optional spelling unwraps cleanly: the path is exactly a recognized
/// spelling and exactly one generic argument is attached.
pub open spec fn unwraps_cleanly(t: TypeSig) -> bool {
    full_option_path(t) && t.args@.len() == 1
}

/// A field's declared type either is not an optional spelling at all, or
/// it unwraps cleanly; otherwise classification must abort.
pub open spec fn classify_ok(t: TypeSig) -> bool {
    is_option_sig(t) ==> unwraps_cleanly(t)
}

/// Whether the leading path of `ty` spells the built-in optional wrapper.
pub fn is_option(ty: &TypeSig) -> (r: bool)
    ensures
        r == is_option_sig(*ty),
{
    let opt = String::from_str("Option");
    if ty.segments.len() == 1 {
        return ty.segments[0] == opt;
    }
    if ty.segments.len() >= 3 {
        let head_std = String::from_str("std");
        let head_core = String::from_str("core");
        let mid = String::from_str("option");
        let first_matches = ty.segments[0] == head_std || ty.segments[0] == head_core;
        return first_matches && ty.segments[1] == mid && ty.segments[2] == opt;
    }
    false
}

fn is_full_option_path(ty: &TypeSig) -> (r: bool)
    ensures
        r == full_option_path(*ty),
{
    let opt = String::from_str("Option");
    if ty.segments.len() == 1 {
        return ty.segments[0] == opt;
    }
    if ty.segments.len() == 3 {
        let head_std = String::from_str("std");
        let head_core = String::from_str("core");
        let mid = String::from_str("option");
        let first_matches = ty.segments[0] == head_std || ty.segments[0] == head_core;
        return first_matches && ty.segments[1] == mid && ty.segments[2] == opt;
    }
    false
}

/// The type wrapped by a recognized optional spelling, when the whole path
/// is such a spelling and exactly one generic argument is attached;
/// `None` otherwise.
pub fn unwrap_option(ty: &TypeSig) -> (r: Option<&TypeSig>)
    ensures
        match r {
            Some(inner) => unwraps_cleanly(*ty) && *inner == ty.args@[0],
            None => !unwraps_cleanly(*ty),
        },
{
    if is_full_option_path(ty) && ty.args.len() == 1 {
        Some(&ty.args[0])
    } else {
        None
    }
}

/// Classify one field.  A declared type whose leading path does not spell
/// the optional wrapper is `Required` with the type taken verbatim; a
/// recognized spelling that unwraps cleanly is `Optional` with the inner
/// type; a recognized spelling that does not unwrap cleanly aborts
/// generation with `MalformedOptional`.
pub fn classify_field(name: String, ty: TypeSig) -> (r: Result<ClassifiedField, GenError>)
    ensures
        match r {
            Ok(c) => {
                &&& c.name == name
                &&& if is_option_sig(ty) {
                    unwraps_cleanly(ty) && (c.storage_kind matches StorageKind::Optional(inner)
                        && inner == ty.args@[0])
                } else {
                    c.storage_kind matches StorageKind::Required(t) && t == ty
                }
            },
            Err(e) => {
                &&& is_option_sig(ty) && !unwraps_cleanly(ty)
                &&& e matches GenError::MalformedOptional(n) && n == name
            },
        },
{
    if is_option(&ty) {
        if is_full_option_path(&ty) && ty.args.len() == 1 {
            let mut args = ty.args;
            let inner_opt = args.pop();
            match inner_opt {
                Some(inner) => Ok(
                    ClassifiedField { name, storage_kind: StorageKind::Optional(inner) },
                ),
                None => {
                    proof {
                        assert(false);
                    }
                    Err(GenError::MalformedOptional(name))
                },
            }
        } else {
            Err(GenError::MalformedOptional(name))
        }
    } else {
        Ok(ClassifiedField { name, storage_kind: StorageKind::Required(ty) })
    }
}

} // verus!
