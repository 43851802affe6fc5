//! Generation logic for record builders.
//!
//! Given the structural description of a record type (an ordered list of
//! named fields, each with a type signature and raw attributes), this
//! library classifies every field as required or optional, parses the
//! `each = "<method>"` collector directive, and synthesizes a description
//! of a builder artifact: storage slots, setter methods, collector
//! methods, a constructor, and a validating finalize operation.  The
//! runtime semantics of the synthesized builder (slot state, setters,
//! collectors, finalize) is modelled and verified here as well.

use vstd::prelude::*;

pub mod attrs;
pub mod classify;
pub mod laws;
pub mod runtime;
pub mod schema;
pub mod synth;
pub mod types;

use crate::attrs::CollectorDirective;
use crate::attrs::field_directive;
use crate::attrs::find_directive;
use crate::classify::ClassifiedField;
use crate::classify::GenError;
use crate::classify::classify_ok;
use crate::classify::classify_field;
use crate::classify::is_option_sig;
use crate::schema::FieldSchema;
use crate::schema::RecordBody;
use crate::schema::RecordDecl;
use crate::schema::distinct_field_names;
use crate::schema::extract_schema;
use crate::synth::GeneratedArtifact;
use crate::synth::SetterSpec;
use crate::synth::SlotSpec;
use crate::synth::directive_ok;
use crate::synth::inner_of;
use crate::synth::is_required;
use crate::synth::synthesize;
use crate::synth::targets_exist;
use crate::synth::wraps_option;
use crate::types::TypeSig;
use crate::types::sig_eq;

verus! {

/// Example record type assembled by the demonstration program and the
/// integration tests through a builder synthesized from its schema.
#[derive(Debug, Clone, PartialEq)]
pub struct Command {
    pub command: String,
    pub args: Vec<String>,
    pub b: Option<Vec<String>>,
    pub environment: Vec<String>,
}

/// A schema field with no built-in absence tolerance: it must be set
/// before finalize succeeds.
pub open spec fn field_required(f: FieldSchema) -> bool {
    !is_option_sig(f.declared_type)
}

/// The type a field's value has when present: the type wrapped by the
/// optional spelling, or the declared type verbatim.
pub open spec fn field_inner(f: FieldSchema) -> TypeSig {
    if is_option_sig(f.declared_type) {
        f.declared_type.args@[0]
    } else {
        f.declared_type
    }
}

/// The field's declared type classifies without aborting.
pub open spec fn field_ok(f: FieldSchema) -> bool {
    classify_ok(f.declared_type)
}

/// A directive-bearing field stores a collection with exactly one element
/// type, so its collector method can be synthesized.
pub open spec fn field_collector_ok(f: FieldSchema) -> bool {
    field_directive(f) is Some ==> field_inner(f).args@.len() == 1
}

/// The collector directives a schema carries, in field declaration order:
/// one `(field name, method name)` pair per directive-bearing field.
pub open spec fn directives_of(fs: Seq<FieldSchema>) -> Seq<(Seq<char>, Seq<char>)>
    decreases fs.len(),
{
    if fs.len() == 0 {
        Seq::empty()
    } else {
        directives_of(fs.drop_last()) + (match field_directive(fs.last()) {
            Some(m) => seq![(fs.last().name@, m)],
            None => Seq::empty(),
        })
    }
}

/// Every field named `fname` can carry a collector: its stored collection
/// type has exactly one element type.
pub open spec fn schema_directive_ok(fs: Seq<FieldSchema>, fname: Seq<char>) -> bool {
    forall|i: int|
        0 <= i < fs.len() && (#[trigger] fs[i].name)@ == fname ==> field_inner(
            fs[i],
        ).args@.len() == 1
}

pub open spec fn schema_slot_matches(s: SlotSpec, f: FieldSchema) -> bool {
    &&& s.field@ == f.name@
    &&& s.required == field_required(f)
    &&& wraps_option(s.slot_ty, field_inner(f))
}

pub open spec fn schema_setter_matches(s: SetterSpec, f: FieldSchema) -> bool {
    &&& s.field@ == f.name@
    &&& if field_required(f) {
        sig_eq(s.param_ty, field_inner(f))
    } else {
        wraps_option(s.param_ty, field_inner(f))
    }
}

/// What the synthesized artifact promises for a named-field schema: one
/// storage slot and one setter per field, in declaration order, and one
/// collector per directive, named per the directive and distinct from the
/// field's setter, which the artifact keeps regardless.
pub open spec fn artifact_matches(
    a: GeneratedArtifact,
    name: Seq<char>,
    fs: Seq<FieldSchema>,
) -> bool {
    &&& a.record_name@ == name
    &&& a.builder_name@ == name + "Builder"@
    &&& a.slots@.len() == fs.len()
    &&& forall|i: int| 0 <= i < fs.len() ==> schema_slot_matches(#[trigger] a.slots@[i], fs[i])
    &&& a.setters@.len() == fs.len()
    &&& forall|i: int| 0 <= i < fs.len() ==> schema_setter_matches(#[trigger] a.setters@[i], fs[i])
    &&& a.collectors@.len() == directives_of(fs).len()
    &&& forall|k: int|
        0 <= k < directives_of(fs).len() ==> {
            &&& (#[trigger] a.collectors@[k]).method@ == directives_of(fs)[k].1
            &&& a.collectors@[k].field@ == directives_of(fs)[k].0
            &&& forall|i: int|
                0 <= i < fs.len() && (#[trigger] fs[i].name)@ == directives_of(fs)[k].0 ==> sig_eq(
                    a.collectors@[k].elem_ty,
                    field_inner(fs[i]).args@[0],
                )
        }
}

/// `n` names the first field whose declared type does not classify: an
/// optional spelling that does not unwrap cleanly.
pub open spec fn first_bad_field(fs: Seq<FieldSchema>, n: Seq<char>) -> bool {
    exists|i: int|
        0 <= i < fs.len() && !field_ok(#[trigger] fs[i]) && n == fs[i].name@ && (forall|j: int|
            0 <= j < i ==> field_ok(#[trigger] fs[j]))
}

/// `n` names the field of the first directive whose target does not store
/// a collection with exactly one element type.
pub open spec fn first_bad_directive(fs: Seq<FieldSchema>, n: Seq<char>) -> bool {
    exists|k: int|
        0 <= k < directives_of(fs).len() && !schema_directive_ok(
            fs,
            (#[trigger] directives_of(fs)[k]).0,
        ) && n == directives_of(fs)[k].0 && (forall|l: int|
            0 <= l < k ==> schema_directive_ok(fs, directives_of(fs)[l].0))
}

proof fn lemma_directives_of_take_step(fs: Seq<FieldSchema>, i: int)
    requires
        0 <= i < fs.len(),
    ensures
        directives_of(fs.take(i + 1)) == directives_of(fs.take(i)) + (match field_directive(
            fs[i],
        ) {
            Some(m) => seq![(fs[i].name@, m)],
            None => Seq::<(Seq<char>, Seq<char>)>::empty(),
        }),
{
    assert(fs.take(i + 1).drop_last() =~= fs.take(i));
    assert(fs.take(i + 1).last() == fs[i]);
}

/// The whole generation pass: extract the schema, classify every field,
/// parse every field's directive, and synthesize the builder artifact.
///
/// Only a record with named, distinctly named fields is supported.  The
/// pass fails fast: on the first field whose optional spelling does not
/// unwrap cleanly, and otherwise on the first directive whose field does
/// not store a collection with exactly one element type.
#[verifier::rlimit(100)]
pub fn derive(decl: RecordDecl) -> (r: Result<GeneratedArtifact, GenError>)
    requires
        decl.body matches RecordBody::Named(fields) ==> distinct_field_names(fields@),
    ensures
        match r {
            Ok(a) => {
                &&& decl.body matches RecordBody::Named(fields)
                &&& forall|i: int|
                    0 <= i < fields@.len() ==> field_ok(#[trigger] fields@[i])
                        && field_collector_ok(fields@[i])
                &&& artifact_matches(a, decl.name@, fields@)
            },
            Err(e) => match e {
                GenError::UnsupportedShape => !(decl.body matches RecordBody::Named(fields)),
                GenError::MalformedOptional(n) => {
                    &&& decl.body matches RecordBody::Named(fields)
                    &&& first_bad_field(fields@, n@)
                },
                GenError::MalformedCollection(n) => {
                    &&& decl.body matches RecordBody::Named(fields)
                    &&& (forall|i: int| 0 <= i < fields@.len() ==> field_ok(#[trigger] fields@[i]))
                    &&& first_bad_directive(fields@, n@)
                },
            },
        },
{
    let schema = match extract_schema(decl) {
        Ok(s) => s,
        Err(e) => {
            return Err(e);
        },
    };
    let mut fs = schema.fields;
    let ghost fs0 = (decl.body->Named_0)@;
    proof {
        assert(fs@ == fs0);
    }
    let n = fs.len();
    let mut classified: Vec<ClassifiedField> = Vec::new();
    let mut dirs: Vec<CollectorDirective> = Vec::new();
    let ghost mut wits: Seq<int> = Seq::empty();
    let mut i: usize = 0;
    proof {
        assert(fs0.skip(0) =~= fs0);
        assert(fs0.take(0) =~= Seq::<FieldSchema>::empty());
    }
    while i < n
        invariant
            i <= n,
            n == fs0.len(),
            decl.body matches RecordBody::Named(flds) && flds@ == fs0,
            fs@ == fs0.skip(i as int),
            classified@.len() == i,
            forall|j: int|
                0 <= j < i ==> {
                    &&& (#[trigger] classified@[j]).name == fs0[j].name
                    &&& is_required(classified@[j]) == field_required(fs0[j])
                    &&& inner_of(classified@[j]) == field_inner(fs0[j])
                    &&& field_ok(fs0[j])
                },
            dirs@.len() == directives_of(fs0.take(i as int)).len(),
            forall|k: int|
                0 <= k < dirs@.len() ==> {
                    &&& (#[trigger] dirs@[k]).field_name@ == directives_of(fs0.take(i as int))[k].0
                    &&& dirs@[k].method_name@ == directives_of(fs0.take(i as int))[k].1
                },
            wits.len() == dirs@.len(),
            forall|k: int|
                0 <= k < dirs@.len() ==> 0 <= #[trigger] wits[k] < i && dirs@[k].field_name@
                    == fs0[wits[k]].name@,
            forall|j: int|
                0 <= j < i && field_directive(#[trigger] fs0[j]) is Some ==> exists|k: int|
                    0 <= k < dirs@.len() && (#[trigger] dirs@[k]).field_name@ == fs0[j].name@,
        decreases n - i,
    {
        proof {
            assert(fs@[0] == fs0[i as int]);
        }
        let f = fs.remove(0);
        let dir_opt = find_directive(&f.attributes);
        proof {
            lemma_directives_of_take_step(fs0, i as int);
        }
        let ghost dirs_before = dirs@;
        match dir_opt {
            Some(m) => {
                dirs.push(CollectorDirective { field_name: f.name.clone(), method_name: m });
                proof {
                    wits = wits.push(i as int);
                    assert(dirs@[dirs@.len() - 1].field_name@ == fs0[i as int].name@);
                }
            },
            None => {},
        }
        let c = match classify_field(f.name, f.declared_type) {
            Ok(c) => c,
            Err(e) => {
                proof {
                    assert(!field_ok(fs0[i as int]));
                    assert forall|j: int| 0 <= j < i implies field_ok(#[trigger] fs0[j]) by {
                        assert(classified@[j].name == fs0[j].name);
                    }
                    assert(e matches GenError::MalformedOptional(nm) && first_bad_field(
                        fs0,
                        nm@,
                    )) by {
                        assert(e matches GenError::MalformedOptional(nm2) && nm2@ == fs0[
                            i as int
                        ].name@);
                    }
                }
                return Err(e);
            },
        };
        classified.push(c);
        proof {
            assert(fs@ =~= fs0.skip(i + 1 as int));
            assert forall|j: int|
                0 <= j < i + 1 && field_directive(#[trigger] fs0[j]) is Some implies exists|k: int|
                0 <= k < dirs@.len() && (#[trigger] dirs@[k]).field_name@ == fs0[j].name@ by {
                if j < i {
                    let k0 = choose|k0: int|
                        0 <= k0 < dirs_before.len() && (#[trigger] dirs_before[k0]).field_name@
                            == fs0[j].name@;
                    assert(dirs@[k0] == dirs_before[k0]);
                    assert(dirs@[k0].field_name@ == fs0[j].name@);
                } else {
                    assert(field_directive(fs0[i as int]) is Some);
                    let k1 = dirs@.len() - 1;
                    assert(dirs@[k1].field_name@ == fs0[i as int].name@);
                }
            }
        }
        i = i + 1;
    }
    let ghost csq = classified@;
    let ghost dsq = dirs@;
    proof {
        assert(fs0.take(n as int) =~= fs0);
        assert(crate::synth::distinct_classified_names(csq)) by {
            assert forall|i1: int, j1: int|
                0 <= i1 < csq.len() && 0 <= j1 < csq.len() && i1 != j1 implies (
            #[trigger] csq[i1].name)@ != (#[trigger] csq[j1].name)@ by {
                assert(fs0[i1].name@ != fs0[j1].name@);
            }
        }
        assert(targets_exist(dsq, csq)) by {
            assert forall|k: int| 0 <= k < dsq.len() implies exists|i2: int|
                0 <= i2 < csq.len() && (#[trigger] csq[i2].name)@ == (
            #[trigger] dsq[k].field_name)@ by {
                let j = wits[k];
                assert(0 <= j < csq.len());
                assert(csq[j].name == fs0[j].name);
                assert(csq[j].name@ == dsq[k].field_name@);
            }
        }
    }

    let result = synthesize(schema.name, classified, dirs);
    match result {
        Ok(a) => {
            proof {
                assert forall|k: int| 0 <= k < directives_of(fs0).len() implies {
                    &&& (#[trigger] a.collectors@[k]).method@ == directives_of(fs0)[k].1
                    &&& a.collectors@[k].field@ == directives_of(fs0)[k].0
                    &&& forall|i2: int|
                        0 <= i2 < fs0.len() && (#[trigger] fs0[i2].name)@ == directives_of(fs0)[k].0
                            ==> sig_eq(a.collectors@[k].elem_ty, field_inner(fs0[i2]).args@[0])
                } by {
                    assert forall|i2: int|
                        0 <= i2 < fs0.len() && (#[trigger] fs0[i2].name)@ == directives_of(
                            fs0,
                        )[k].0 implies sig_eq(
                        a.collectors@[k].elem_ty,
                        field_inner(fs0[i2]).args@[0],
                    ) by {
                        assert(csq[i2].name@ == fs0[i2].name@);
                    }
                }
                assert forall|j: int| 0 <= j < fs0.len() implies field_collector_ok(
                    #[trigger] fs0[j],
                ) by {
                    if field_directive(fs0[j]) is Some {
                        let k = choose|k: int|
                            0 <= k < dsq.len() && (#[trigger] dsq[k]).field_name@
                                == fs0[j].name@;
                        assert(directive_ok(dsq[k], csq));
                        assert(csq[j].name@ == fs0[j].name@);
                        assert(inner_of(csq[j]) == field_inner(fs0[j]));
                    }
                }
                assert forall|j: int| 0 <= j < fs0.len() implies field_ok(#[trigger] fs0[j]) by {
                    assert(csq[j].name == fs0[j].name);
                }
                assert forall|i2: int| 0 <= i2 < fs0.len() implies schema_slot_matches(
                    #[trigger] a.slots@[i2],
                    fs0[i2],
                ) by {
                    assert(crate::synth::slot_matches(a.slots@[i2], csq[i2]));
                }
                assert forall|i2: int| 0 <= i2 < fs0.len() implies schema_setter_matches(
                    #[trigger] a.setters@[i2],
                    fs0[i2],
                ) by {
                    assert(crate::synth::setter_matches(a.setters@[i2], csq[i2]));
                }
                assert(artifact_matches(a, decl.name@, fs0));
            }
            Ok(a)
        },
        Err(e) => {
            match e {
                GenError::MalformedCollection(nm) => {
                    proof {
                        let k = choose|k: int|
                            0 <= k < dsq.len() && !directive_ok(#[trigger] dsq[k], csq)
                                && nm@ == dsq[k].field_name@ && (forall|l: int|
                                0 <= l < k ==> directive_ok(#[trigger] dsq[l], csq));
                        assert forall|l: int| 0 <= l < k implies schema_directive_ok(
                            fs0,
                            directives_of(fs0)[l].0,
                        ) by {
                            assert(directive_ok(dsq[l], csq));
                            assert forall|i2: int|
                                0 <= i2 < fs0.len() && (#[trigger] fs0[i2].name)@ == directives_of(
                                    fs0,
                                )[l].0 implies field_inner(fs0[i2]).args@.len() == 1 by {
                                assert(csq[i2].name@ == fs0[i2].name@);
                            }
                        }
                        assert(!schema_directive_ok(fs0, directives_of(fs0)[k].0)) by {
                            let i2 = choose|i2: int|
                                0 <= i2 < csq.len() && (#[trigger] csq[i2].name)@
                                    == dsq[k].field_name@ && inner_of(
                                    csq[i2],
                                ).args@.len() != 1;
                            assert(fs0[i2].name@ == dsq[k].field_name@);
                            assert(field_inner(fs0[i2]).args@.len() != 1);
                        }
                        assert(nm@ == directives_of(fs0)[k].0);
                        assert(first_bad_directive(fs0, nm@));
                        assert forall|j: int| 0 <= j < fs0.len() implies field_ok(
                            #[trigger] fs0[j],
                        ) by {
                            assert(csq[j].name == fs0[j].name);
                        }
                    }
                    Err(GenError::MalformedCollection(nm))
                },
                e2 => {
                    proof {
                        assert(false);
                    }
                    Err(e2)
                },
            }
        },
    }
}

} // verus!
