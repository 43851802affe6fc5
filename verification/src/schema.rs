//! The schema extractor: turns a raw record-type declaration into an
//! ordered list of field descriptors.  Pure structural extraction, no
//! policy: only a record with named fields is supported, anything else is
//! an unrecoverable generation-time failure.

use vstd::prelude::*;

use crate::classify::GenError;
use crate::types::TypeSig;

verus! {

/// One token of an attribute's bracketed body.
#[derive(Debug, Clone, PartialEq, Eq)]
pub enum AttrToken {
    Ident(String),
    Punct(char),
    StrLit(String),
    OtherLit,
    Group,
}

/// A raw, uninterpreted attribute attached to a field: a bare path, a
/// bracketed token list, or a `name = value` pair.
#[derive(Debug, Clone, PartialEq, Eq)]
pub enum RawAttribute {
    Bare,
    TokenList(Vec<AttrToken>),
    NameValue,
}

/// One field descriptor: name, declared type signature, and the raw
/// attributes in source order.
#[derive(Debug, PartialEq, Eq)]
pub struct FieldSchema {
    pub name: String,
    pub declared_type: TypeSig,
    pub attributes: Vec<RawAttribute>,
}

/// The body of a raw record-type declaration.
#[derive(Debug, PartialEq, Eq)]
pub enum RecordBody {
    Named(Vec<FieldSchema>),
    Positional,
    Unit,
    EnumOrUnion,
}

/// A raw record-type declaration as the host toolchain presents it.
#[derive(Debug, PartialEq, Eq)]
pub struct RecordDecl {
    pub name: String,
    pub body: RecordBody,
}

/// An extracted schema: the record's name and its ordered fields.
#[derive(Debug, PartialEq, Eq)]
pub struct Schema {
    pub name: String,
    pub fields: Vec<FieldSchema>,
}

/// Field names of a schema are pairwise distinct, as they are in any
/// well-formed record declaration.
pub open spec fn distinct_field_names(fields: Seq<FieldSchema>) -> bool {
    forall|i: int, j: int|
        0 <= i < fields.len() && 0 <= j < fields.len() && i != j ==> (#[trigger] fields[i].name)@
            != (#[trigger] fields[j].name)@
}

/// Extract the ordered field descriptors of a declaration.  Only a record
/// with named fields is supported; any other shape is rejected.
pub fn extract_schema(decl: RecordDecl) -> (r: Result<Schema, GenError>)
    ensures
        match r {
            Ok(s) => {
                &&& s.name == decl.name
                &&& decl.body matches RecordBody::Named(fields) && s.fields == fields
            },
            Err(e) => {
                &&& !(decl.body matches RecordBody::Named(fields))
                &&& e == GenError::UnsupportedShape
            },
        },
{
    match decl.body {
        RecordBody::Named(fields) => Ok(Schema { name: decl.name, fields }),
        RecordBody::Positional => Err(GenError::UnsupportedShape),
        RecordBody::Unit => Err(GenError::UnsupportedShape),
        RecordBody::EnumOrUnion => Err(GenError::UnsupportedShape),
    }
}

} // verus!
