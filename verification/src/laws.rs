//! Laws of the builder's behaviour, stated over the mathematical models
//! that the setter, collector and finalize contracts use.

use vstd::prelude::*;

use crate::artifact_matches;
use crate::directives_of;
use crate::runtime::SlotModel;
use crate::runtime::ValueModel;
use crate::runtime::collect_model;
use crate::runtime::elems_of;
use crate::runtime::has_missing;
use crate::runtime::record_of;
use crate::runtime::set_model;
use crate::runtime::slot_missing;
use crate::schema::FieldSchema;
use crate::schema::distinct_field_names;
use crate::synth::GeneratedArtifact;

verus! {

/// The slot row after a run of collector calls appending `elems`, in
/// order, to slot `i`.
pub open spec fn collect_all(m: Seq<SlotModel>, i: int, elems: Seq<Seq<char>>) -> Seq<SlotModel>
    decreases elems.len(),
{
    if elems.len() == 0 {
        m
    } else {
        collect_all(collect_model(m, i, elems[0]), i, elems.drop_first())
    }
}

/// The slot row after every field's setter ran once, field `j` receiving
/// `values[j]`, from position `i` on.
pub open spec fn set_fields_from(
    m: Seq<SlotModel>,
    values: Seq<Option<ValueModel>>,
    i: int,
) -> Seq<SlotModel>
    decreases values.len() - i,
{
    if i < 0 || i >= values.len() {
        m
    } else {
        set_fields_from(set_model(m, i, values[i]), values, i + 1)
    }
}

proof fn lemma_collect_all_frame(m: Seq<SlotModel>, i: int, elems: Seq<Seq<char>>)
    requires
        0 <= i < m.len(),
    ensures
        collect_all(m, i, elems).len() == m.len(),
        forall|j: int| 0 <= j < m.len() && j != i ==> collect_all(m, i, elems)[j] == m[j],
        collect_all(m, i, elems)[i].name == m[i].name,
        collect_all(m, i, elems)[i].required == m[i].required,
    decreases elems.len(),
{
    if elems.len() > 0 {
        let m1 = collect_model(m, i, elems[0]);
        lemma_collect_all_frame(m1, i, elems.drop_first());
        assert(collect_all(m, i, elems) == collect_all(m1, i, elems.drop_first()));
        assert forall|j: int| 0 <= j < m.len() && j != i implies collect_all(m, i, elems)[j]
            == m[j] by {
            assert(collect_all(m1, i, elems.drop_first())[j] == m1[j]);
            assert(m1[j] == m[j]);
        }
    }
}

proof fn lemma_collect_all_list(m: Seq<SlotModel>, i: int, l: Seq<Seq<char>>, elems: Seq<Seq<char>>)
    requires
        0 <= i < m.len(),
        m[i].content == Some(ValueModel::List(l)),
    ensures
        collect_all(m, i, elems)[i].content == Some(ValueModel::List(l + elems)),
    decreases elems.len(),
{
    if elems.len() == 0 {
        assert(l + elems =~= l);
    } else {
        let m1 = collect_model(m, i, elems[0]);
        assert(m1[i].content == Some(ValueModel::List(l.push(elems[0]))));
        lemma_collect_all_list(m1, i, l.push(elems[0]), elems.drop_first());
        assert(l.push(elems[0]) + elems.drop_first() =~= l + elems);
    }
}

/// For any run of collector calls `e1, …, en` on a field whose slot is
/// absent, with no intervening bulk setter, the slot ends up holding
/// exactly the ordered collection `[e1, …, en]`, every other slot is
/// untouched, and the record finalize assembles carries that collection
/// for the field.
pub proof fn lemma_collector_sequence(m: Seq<SlotModel>, i: int, elems: Seq<Seq<char>>)
    requires
        0 <= i < m.len(),
        m[i].content is None,
        elems.len() > 0,
    ensures
        collect_all(m, i, elems).len() == m.len(),
        collect_all(m, i, elems)[i].content == Some(ValueModel::List(elems)),
        forall|j: int| 0 <= j < m.len() && j != i ==> collect_all(m, i, elems)[j] == m[j],
        record_of(collect_all(m, i, elems))[i].value == Some(ValueModel::List(elems)),
        record_of(collect_all(m, i, elems))[i].name == m[i].name,
{
    lemma_collect_all_frame(m, i, elems);
    let m1 = collect_model(m, i, elems[0]);
    assert(elems_of(m[i].content) =~= Seq::<Seq<char>>::empty());
    assert(m1[i].content == Some(ValueModel::List(Seq::<Seq<char>>::empty().push(elems[0]))));
    lemma_collect_all_list(m1, i, Seq::<Seq<char>>::empty().push(elems[0]), elems.drop_first());
    assert(Seq::<Seq<char>>::empty().push(elems[0]) + elems.drop_first() =~= elems);
}

/// A bulk setter call after any run of collector calls on the same field
/// replaces the whole slot value: the state is the same as if the setter
/// alone had run, and the collected elements are discarded.
pub proof fn lemma_setter_replaces(
    m: Seq<SlotModel>,
    i: int,
    elems: Seq<Seq<char>>,
    v: Option<ValueModel>,
)
    requires
        0 <= i < m.len(),
    ensures
        set_model(collect_all(m, i, elems), i, v) == set_model(m, i, v),
{
    lemma_collect_all_frame(m, i, elems);
    assert(set_model(collect_all(m, i, elems), i, v) =~= set_model(m, i, v));
}

/// A required field whose slot was never filled makes the row missing, so
/// finalize fails; if no earlier slot is missing, the failure names this
/// field.
pub proof fn lemma_missing_required_fails(m: Seq<SlotModel>, i: int)
    requires
        0 <= i < m.len(),
        m[i].required,
        m[i].content is None,
    ensures
        has_missing(m),
{
    assert(slot_missing(m[i]));
}

/// When every required field's slot holds a value, nothing is missing and
/// finalize succeeds.
pub proof fn lemma_all_required_set_succeeds(m: Seq<SlotModel>)
    requires
        forall|i: int| 0 <= i < m.len() && (#[trigger] m[i]).required ==> m[i].content is Some,
    ensures
        !has_missing(m),
{
}

/// An optional field left untouched never counts as missing, and its
/// absent state passes through finalize unchanged.
pub proof fn lemma_optional_passes_through(m: Seq<SlotModel>, i: int)
    requires
        0 <= i < m.len(),
        !m[i].required,
    ensures
        !slot_missing(m[i]),
        record_of(m)[i].name == m[i].name,
        record_of(m)[i].value == m[i].content,
{
}

proof fn lemma_set_fields_from(m: Seq<SlotModel>, values: Seq<Option<ValueModel>>, i: int)
    requires
        m.len() == values.len(),
        0 <= i <= m.len(),
    ensures
        set_fields_from(m, values, i).len() == m.len(),
        forall|j: int| 0 <= j < i ==> set_fields_from(m, values, i)[j] == m[j],
        forall|j: int|
            i <= j < m.len() ==> {
                &&& (#[trigger] set_fields_from(m, values, i)[j]).name == m[j].name
                &&& set_fields_from(m, values, i)[j].required == m[j].required
                &&& set_fields_from(m, values, i)[j].content == values[j]
            },
    decreases m.len() - i,
{
    if i < m.len() {
        lemma_set_fields_from(set_model(m, i, values[i]), values, i + 1);
    }
}

/// Round trip: running every field's setter with a target record's values
/// (a present value for every required field) and then finalizing yields
/// exactly that record — same names in order, same values.
pub proof fn lemma_round_trip(m: Seq<SlotModel>, values: Seq<Option<ValueModel>>)
    requires
        m.len() == values.len(),
        forall|i: int| 0 <= i < m.len() && (#[trigger] m[i]).required ==> values[i] is Some,
    ensures
        set_fields_from(m, values, 0).len() == m.len(),
        !has_missing(set_fields_from(m, values, 0)),
        record_of(set_fields_from(m, values, 0)).len() == m.len(),
        forall|i: int|
            0 <= i < m.len() ==> {
                &&& (#[trigger] record_of(set_fields_from(m, values, 0))[i]).name == m[i].name
                &&& record_of(set_fields_from(m, values, 0))[i].value == values[i]
            },
{
    lemma_set_fields_from(m, values, 0);
    let m2 = set_fields_from(m, values, 0);
    assert forall|i: int| 0 <= i < m2.len() implies !slot_missing(#[trigger] m2[i]) by {
        assert(m2[i].required == m[i].required);
    }
}

proof fn lemma_drop_last_distinct(fs: Seq<FieldSchema>)
    requires
        fs.len() > 0,
        distinct_field_names(fs),
    ensures
        distinct_field_names(fs.drop_last()),
{
    let d = fs.drop_last();
    assert forall|i: int, j: int|
        0 <= i < d.len() && 0 <= j < d.len() && i != j implies (#[trigger] d[i].name)@ != (
    #[trigger] d[j].name)@ by {
        assert(d[i] == fs[i]);
        assert(d[j] == fs[j]);
    }
}

/// Some field of the schema carries this name.
pub open spec fn some_field_named(fs: Seq<FieldSchema>, n: Seq<char>) -> bool {
    exists|i: int| 0 <= i < fs.len() && (#[trigger] fs[i].name)@ == n
}

proof fn lemma_directives_of_membership(fs: Seq<FieldSchema>)
    ensures
        forall|k: int|
            0 <= k < directives_of(fs).len() ==> some_field_named(
                fs,
                (#[trigger] directives_of(fs)[k]).0,
            ),
    decreases fs.len(),
{
    if fs.len() > 0 {
        let d = fs.drop_last();
        lemma_directives_of_membership(d);
        assert forall|k: int| 0 <= k < directives_of(fs).len() implies some_field_named(
            fs,
            (#[trigger] directives_of(fs)[k]).0,
        ) by {
            if k < directives_of(d).len() {
                assert(directives_of(fs)[k] == directives_of(d)[k]);
                assert(some_field_named(d, directives_of(d)[k].0));
                let i = choose|i: int|
                    0 <= i < d.len() && (#[trigger] d[i].name)@ == directives_of(d)[k].0;
                assert(d[i] == fs[i]);
                assert(fs[i].name@ == directives_of(fs)[k].0);
            } else {
                assert(directives_of(fs)[k].0 == fs.last().name@);
                assert(fs[fs.len() - 1].name@ == directives_of(fs)[k].0);
            }
        }
    }
}

proof fn lemma_directives_of_distinct(fs: Seq<FieldSchema>, k1: int, k2: int)
    requires
        distinct_field_names(fs),
        0 <= k1 < k2 < directives_of(fs).len(),
    ensures
        directives_of(fs)[k1].0 != directives_of(fs)[k2].0,
    decreases fs.len(),
{
    let d = fs.drop_last();
    lemma_drop_last_distinct(fs);
    if k2 < directives_of(d).len() {
        lemma_directives_of_distinct(d, k1, k2);
        assert(directives_of(fs)[k1] == directives_of(d)[k1]);
        assert(directives_of(fs)[k2] == directives_of(d)[k2]);
    } else {
        assert(directives_of(fs)[k2].0 == fs.last().name@);
        assert(directives_of(fs)[k1] == directives_of(d)[k1]);
        lemma_directives_of_membership(d);
        assert(some_field_named(d, directives_of(d)[k1].0));
        let i = choose|i: int| 0 <= i < d.len() && (#[trigger] d[i].name)@ == directives_of(d)[k1].0;
        assert(d[i] == fs[i]);
        assert(fs[i].name@ != fs[fs.len() - 1].name@);
    }
}

/// An artifact synthesized for a schema with distinct field names has
/// distinct slot names, so instantiating it yields a well-formed builder
/// whose setters and collectors are ready to call.
pub proof fn lemma_artifact_slots_distinct(
    a: GeneratedArtifact,
    name: Seq<char>,
    fs: Seq<FieldSchema>,
)
    requires
        distinct_field_names(fs),
        artifact_matches(a, name, fs),
    ensures
        crate::runtime::distinct_slot_names(a.slots@),
{
    assert forall|i: int, j: int|
        0 <= i < a.slots@.len() && 0 <= j < a.slots@.len() && i != j implies (
    #[trigger] a.slots@[i].field)@ != (#[trigger] a.slots@[j].field)@ by {
        assert(crate::schema_slot_matches(a.slots@[i], fs[i]));
        assert(crate::schema_slot_matches(a.slots@[j], fs[j]));
        assert(fs[i].name@ != fs[j].name@);
    }
}

/// For every field carrying a directive, exactly one collector method is
/// generated: the artifact has one collector per directive, and no two of
/// its collectors target the same field.
pub proof fn lemma_one_collector_per_field(
    a: GeneratedArtifact,
    name: Seq<char>,
    fs: Seq<FieldSchema>,
    k1: int,
    k2: int,
)
    requires
        distinct_field_names(fs),
        artifact_matches(a, name, fs),
        0 <= k1 < a.collectors@.len(),
        0 <= k2 < a.collectors@.len(),
        k1 != k2,
    ensures
        a.collectors@[k1].field@ != a.collectors@[k2].field@,
{
    if k1 < k2 {
        lemma_directives_of_distinct(fs, k1, k2);
    } else {
        lemma_directives_of_distinct(fs, k2, k1);
    }
}

} // verus!
