//! The code synthesizer: consumes the classified fields and the parsed
//! collector directives and produces the description of the builder
//! artifact — its storage layout, one setter per field, one collector per
//! directive, and the data the constructor and the finalize operation run
//! on.

use vstd::prelude::*;
use vstd::string::StringExecFns;

use crate::classify::ClassifiedField;
use crate::classify::GenError;
use crate::classify::StorageKind;
use crate::attrs::CollectorDirective;
use crate::types::TypeSig;
use crate::types::clone_sig;
use crate::types::sig_eq;

verus! {

/// One storage slot of the builder: the field it backs, whether the field
/// is required, and the slot's declared type (the field's stored type
/// wrapped in the built-in optional type, so that every slot starts out
/// absent).
#[derive(Debug, PartialEq, Eq)]
pub struct SlotSpec {
    pub field: String,
    pub required: bool,
    pub slot_ty: TypeSig,
}

/// One setter method: named after its field, it replaces the whole slot
/// value.  For a required field it accepts the declared type; for an
/// optional field it accepts the optional type itself, so a caller may
/// explicitly set the field absent.
#[derive(Debug, PartialEq, Eq)]
pub struct SetterSpec {
    pub field: String,
    pub param_ty: TypeSig,
}

/// One collector method: named per its directive, it accepts one element
/// of the collection's element type and appends it to the slot of the
/// field the directive targets.
#[derive(Debug, PartialEq, Eq)]
pub struct CollectorSpec {
    pub method: String,
    pub field: String,
    pub elem_ty: TypeSig,
}

/// The synthesized builder artifact: the builder type's name, its storage
/// layout, its setter methods and its collector methods.  A constructor
/// producing the all-absent state and the validating finalize operation
/// are part of the artifact; their semantics is modelled by
/// [`crate::runtime::BuilderState`].
#[derive(Debug, PartialEq, Eq)]
pub struct GeneratedArtifact {
    pub record_name: String,
    pub builder_name: String,
    pub slots: Vec<SlotSpec>,
    pub setters: Vec<SetterSpec>,
    pub collectors: Vec<CollectorSpec>,
}

/// The type a field's value has when it is present in its slot: the inner
/// type for an optional field, the declared type for a required one.
pub open spec fn inner_of(c: ClassifiedField) -> TypeSig {
    match c.storage_kind {
        StorageKind::Required(t) => t,
        StorageKind::Optional(t) => t,
    }
}

pub open spec fn is_required(c: ClassifiedField) -> bool {
    c.storage_kind is Required
}

/// `outer` is the built-in optional type wrapped around `inner`.
pub open spec fn wraps_option(outer: TypeSig, inner: TypeSig) -> bool {
    &&& outer.segments@.len() == 3
    &&& outer.segments@[0]@ == "std"@
    &&& outer.segments@[1]@ == "option"@
    &&& outer.segments@[2]@ == "Option"@
    &&& outer.args@.len() == 1
    &&& sig_eq(outer.args@[0], inner)
}

pub open spec fn slot_matches(s: SlotSpec, c: ClassifiedField) -> bool {
    &&& s.field@ == c.name@
    &&& s.required == is_required(c)
    &&& wraps_option(s.slot_ty, inner_of(c))
}

pub open spec fn setter_matches(s: SetterSpec, c: ClassifiedField) -> bool {
    &&& s.field@ == c.name@
    &&& if is_required(c) {
        sig_eq(s.param_ty, inner_of(c))
    } else {
        wraps_option(s.param_ty, inner_of(c))
    }
}

/// Every field the directive targets stores a collection with exactly one
/// element type, so a collector method can be synthesized for it.
pub open spec fn directive_ok(d: CollectorDirective, fields: Seq<ClassifiedField>) -> bool {
    forall|i: int|
        0 <= i < fields.len() && (#[trigger] fields[i].name)@ == d.field_name@ ==> inner_of(
            fields[i],
        ).args@.len() == 1
}

pub open spec fn collector_matches(
    col: CollectorSpec,
    d: CollectorDirective,
    fields: Seq<ClassifiedField>,
) -> bool {
    &&& col.method@ == d.method_name@
    &&& col.field@ == d.field_name@
    &&& forall|i: int|
        0 <= i < fields.len() && (#[trigger] fields[i].name)@ == d.field_name@ ==> sig_eq(
            col.elem_ty,
            inner_of(fields[i]).args@[0],
        )
}

/// The directive targets a field that exists in the classified list.
pub open spec fn target_exists(d: CollectorDirective, fields: Seq<ClassifiedField>) -> bool {
    exists|i: int| 0 <= i < fields.len() && (#[trigger] fields[i].name)@ == d.field_name@
}

/// Every directive targets a field that exists in the classified list.
pub open spec fn targets_exist(
    directives: Seq<CollectorDirective>,
    fields: Seq<ClassifiedField>,
) -> bool {
    forall|k: int|
        0 <= k < directives.len() ==> target_exists(#[trigger] directives[k], fields)
}

pub open spec fn distinct_classified_names(fields: Seq<ClassifiedField>) -> bool {
    forall|i: int, j: int|
        0 <= i < fields.len() && 0 <= j < fields.len() && i != j ==> (#[trigger] fields[i].name)@
            != (#[trigger] fields[j].name)@
}

proof fn lemma_sig_eq_symmetric(a: TypeSig, b: TypeSig)
    requires
        sig_eq(a, b),
    ensures
        sig_eq(b, a),
    decreases a,
{
    assert forall|i: int| 0 <= i < b.args@.len() implies sig_eq(#[trigger] b.args@[i], a.args@[i]) by {
        lemma_sig_eq_symmetric(a.args@[i], b.args@[i]);
    }
}

/// Wrap a stored type in the built-in optional type, the shape every
/// storage slot takes.
fn optionize(inner: TypeSig) -> (r: TypeSig)
    ensures
        wraps_option(r, inner),
        r.args@.len() == 1 && r.args@[0] == inner,
{
    let mut segments: Vec<String> = Vec::new();
    segments.push(String::from_str("std"));
    segments.push(String::from_str("option"));
    segments.push(String::from_str("Option"));
    let mut args: Vec<TypeSig> = Vec::new();
    args.push(inner);
    proof {
        crate::types::lemma_sig_eq_reflexive(args@[0]);
    }
    TypeSig { segments, args }
}

fn find_field<'a>(fields: &'a Vec<ClassifiedField>, name: &String) -> (r: Option<usize>)
    ensures
        match r {
            Some(i) => i < fields@.len() && fields@[i as int].name@ == name@,
            None => forall|j: int|
                0 <= j < fields@.len() ==> (#[trigger] fields@[j].name)@ != name@,
        },
{
    let mut i: usize = 0;
    while i < fields.len()
        invariant
            i <= fields@.len(),
            forall|j: int| 0 <= j < i ==> (#[trigger] fields@[j].name)@ != name@,
        decreases fields@.len() - i,
    {
        if fields[i].name == *name {
            return Some(i);
        }
        i = i + 1;
    }
    None
}

/// Synthesize the builder artifact for a record.
///
/// The storage layout has one slot per field, in declaration order, typed
/// as the stored type wrapped in the built-in optional type.  One setter
/// is generated per field, named after it; one collector is generated per
/// directive, named per the directive, and it never replaces the field's
/// setter.  A directive whose target field does not store a collection
/// with exactly one element type aborts generation; the first offending
/// directive is reported.
pub fn synthesize(
    record_name: String,
    fields: Vec<ClassifiedField>,
    directives: Vec<CollectorDirective>,
) -> (r: Result<GeneratedArtifact, GenError>)
    requires
        distinct_classified_names(fields@),
        targets_exist(directives@, fields@),
    ensures
        match r {
            Ok(a) => {
                &&& a.record_name == record_name
                &&& a.builder_name@ == record_name@ + "Builder"@
                &&& a.slots@.len() == fields@.len()
                &&& forall|i: int|
                    0 <= i < fields@.len() ==> slot_matches(#[trigger] a.slots@[i], fields@[i])
                &&& a.setters@.len() == fields@.len()
                &&& forall|i: int|
                    0 <= i < fields@.len() ==> setter_matches(#[trigger] a.setters@[i], fields@[i])
                &&& a.collectors@.len() == directives@.len()
                &&& forall|k: int|
                    0 <= k < directives@.len() ==> collector_matches(
                        #[trigger] a.collectors@[k],
                        directives@[k],
                        fields@,
                    )
                &&& forall|k: int|
                    0 <= k < directives@.len() ==> directive_ok(#[trigger] directives@[k], fields@)
            },
            Err(e) => {
                &&& e matches GenError::MalformedCollection(n)
                &&& exists|k: int|
                    0 <= k < directives@.len() && !directive_ok(#[trigger] directives@[k], fields@)
                        && n@ == directives@[k].field_name@ && (forall|l: int|
                        0 <= l < k ==> directive_ok(#[trigger] directives@[l], fields@))
            },
        },
{
    let mut builder_name = record_name.clone();
    builder_name.append("Builder");

    let mut slots: Vec<SlotSpec> = Vec::new();
    let mut setters: Vec<SetterSpec> = Vec::new();
    let mut i: usize = 0;
    while i < fields.len()
        invariant
            i <= fields@.len(),
            slots@.len() == i,
            setters@.len() == i,
            forall|j: int| 0 <= j < i ==> slot_matches(#[trigger] slots@[j], fields@[j]),
            forall|j: int| 0 <= j < i ==> setter_matches(#[trigger] setters@[j], fields@[j]),
        decreases fields@.len() - i,
    {
        let field_name_for_slot = fields[i].name.clone();
        let field_name_for_setter = fields[i].name.clone();
        match &fields[i].storage_kind {
            StorageKind::Required(t) => {
                let stored = clone_sig(t);
                let param = clone_sig(t);
                proof {
                    lemma_sig_eq_symmetric(*t, stored);
                    lemma_sig_eq_symmetric(*t, param);
                }
                slots.push(
                    SlotSpec { field: field_name_for_slot, required: true, slot_ty: optionize(stored) },
                );
                setters.push(SetterSpec { field: field_name_for_setter, param_ty: param });
            },
            StorageKind::Optional(t) => {
                let stored = clone_sig(t);
                let param_inner = clone_sig(t);
                proof {
                    lemma_sig_eq_symmetric(*t, stored);
                    lemma_sig_eq_symmetric(*t, param_inner);
                }
                slots.push(
                    SlotSpec { field: field_name_for_slot, required: false, slot_ty: optionize(stored) },
                );
                setters.push(
                    SetterSpec { field: field_name_for_setter, param_ty: optionize(param_inner) },
                );
            },
        }
        i = i + 1;
    }

    let mut collectors: Vec<CollectorSpec> = Vec::new();
    let mut k: usize = 0;
    while k < directives.len()
        invariant
            k <= directives@.len(),
            collectors@.len() == k,
            distinct_classified_names(fields@),
            targets_exist(directives@, fields@),
            forall|l: int|
                0 <= l < k ==> collector_matches(#[trigger] collectors@[l], directives@[l], fields@),
            forall|l: int| 0 <= l < k ==> directive_ok(#[trigger] directives@[l], fields@),
        decreases directives@.len() - k,
    {
        let found = find_field(&fields, &directives[k].field_name);
        match found {
            Some(fi) => {
                let stored_ref: &TypeSig = match &fields[fi].storage_kind {
                    StorageKind::Required(t) => t,
                    StorageKind::Optional(t) => t,
                };
                if stored_ref.args.len() == 1 {
                    let elem = clone_sig(&stored_ref.args[0]);
                    proof {
                        lemma_sig_eq_symmetric(stored_ref.args@[0], elem);
                    }
                    collectors.push(
                        CollectorSpec {
                            method: directives[k].method_name.clone(),
                            field: directives[k].field_name.clone(),
                            elem_ty: elem,
                        },
                    );
                    k = k + 1;
                } else {
                    return Err(GenError::MalformedCollection(directives[k].field_name.clone()));
                }
            },
            None => {
                proof {
                    assert(target_exists(directives@[k as int], fields@));
                    assert(false);
                }
                return Err(GenError::MalformedCollection(directives[k].field_name.clone()));
            },
        }
    }

    Ok(GeneratedArtifact { record_name, builder_name, slots, setters, collectors })
}

} // verus!
