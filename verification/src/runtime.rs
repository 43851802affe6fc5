//! The runtime semantics of a synthesized builder.
//!
//! A builder instance is a row of slots, one per field, each either absent
//! or holding a value.  Setters replace a whole slot value; collectors
//! lazily initialize a slot to an empty collection and append one element,
//! preserving call order; finalize never mutates, it checks every required
//! slot in declaration order and either reports the first missing field or
//! assembles the record.

use vstd::prelude::*;
use vstd::string::StringExecFns;

use crate::synth::GeneratedArtifact;
use crate::types::clone_strings;

verus! {

/// A field value as the builder stores it: a single text value or a
/// collection of elements built up one by one.
#[derive(Debug, Clone, PartialEq, Eq)]
pub enum Value {
    Text(String),
    List(Vec<String>),
}

/// The mathematical shape of a stored value.
#[verifier::ext_equal]
pub enum ValueModel {
    Text(Seq<char>),
    List(Seq<Seq<char>>),
}

impl Value {
    pub open spec fn model(self) -> ValueModel {
        match self {
            Value::Text(s) => ValueModel::Text(s@),
            Value::List(v) => ValueModel::List(v@.map_values(|e: String| e@)),
        }
    }
}

pub open spec fn opt_model(v: Option<Value>) -> Option<ValueModel> {
    match v {
        Some(x) => Some(x.model()),
        None => None,
    }
}

/// One storage slot: the field's name, whether the field is required, and
/// the slot's state — absent or present with a value.
#[derive(Debug, Clone, PartialEq, Eq)]
pub struct Slot {
    pub name: String,
    pub required: bool,
    pub content: Option<Value>,
}

#[verifier::ext_equal]
pub struct SlotModel {
    pub name: Seq<char>,
    pub required: bool,
    pub content: Option<ValueModel>,
}

impl Slot {
    pub open spec fn model(self) -> SlotModel {
        SlotModel { name: self.name@, required: self.required, content: opt_model(self.content) }
    }
}

/// One entry of an assembled record: for a required field the value is
/// always present; an optional field's slot state passes through
/// unchanged.
#[derive(Debug, Clone, PartialEq, Eq)]
pub struct RecordEntry {
    pub name: String,
    pub value: Option<Value>,
}

#[verifier::ext_equal]
pub struct RecordEntryModel {
    pub name: Seq<char>,
    pub value: Option<ValueModel>,
}

impl RecordEntry {
    pub open spec fn model(self) -> RecordEntryModel {
        RecordEntryModel { name: self.name@, value: opt_model(self.value) }
    }
}

/// The record assembled by a successful finalize, field by field in
/// declaration order.
#[derive(Debug, Clone, PartialEq, Eq)]
pub struct Record {
    pub entries: Vec<RecordEntry>,
}

impl Record {
    pub open spec fn model(self) -> Seq<RecordEntryModel> {
        self.entries@.map_values(|e: RecordEntry| e.model())
    }
}

/// The failure finalize reports: the name of the first required field
/// whose slot is absent.
#[derive(Debug, Clone, PartialEq, Eq)]
pub struct BuildError {
    pub field: String,
}

impl BuildError {
    /// The failure rendered as text, naming the missing field.
    pub fn message(&self) -> (r: String)
        ensures
            r@ == self.field@ + " is not set!"@,
    {
        let mut m = self.field.clone();
        m.append(" is not set!");
        m
    }
}

/// An instance of the synthesized builder: its slots in field declaration
/// order.
#[derive(Debug, Clone, PartialEq, Eq)]
pub struct BuilderState {
    pub slots: Vec<Slot>,
}

/// A required slot that is still absent.
pub open spec fn slot_missing(s: SlotModel) -> bool {
    s.required && s.content is None
}

pub open spec fn has_missing(m: Seq<SlotModel>) -> bool {
    exists|i: int| 0 <= i < m.len() && slot_missing(#[trigger] m[i])
}

/// The slot row after a bulk setter replaced slot `i`'s whole value.
pub open spec fn set_model(m: Seq<SlotModel>, i: int, v: Option<ValueModel>) -> Seq<SlotModel> {
    m.update(i, SlotModel { name: m[i].name, required: m[i].required, content: v })
}

/// The elements already collected in a slot: none while the slot is
/// absent.
pub open spec fn elems_of(c: Option<ValueModel>) -> Seq<Seq<char>> {
    match c {
        Some(ValueModel::List(l)) => l,
        _ => Seq::empty(),
    }
}

/// The slot row after a collector appended `e` to slot `i`.
pub open spec fn collect_model(m: Seq<SlotModel>, i: int, e: Seq<char>) -> Seq<SlotModel> {
    m.update(
        i,
        SlotModel {
            name: m[i].name,
            required: m[i].required,
            content: Some(ValueModel::List(elems_of(m[i].content).push(e))),
        },
    )
}

/// The record a slot row assembles to: every slot's state passes through
/// under its field's name.
pub open spec fn record_of(m: Seq<SlotModel>) -> Seq<RecordEntryModel> {
    m.map_values(|s: SlotModel| RecordEntryModel { name: s.name, value: s.content })
}

/// Some slot carries this field name.
pub open spec fn field_exists(m: Seq<SlotModel>, name: Seq<char>) -> bool {
    exists|i: int| 0 <= i < m.len() && (#[trigger] m[i]).name == name
}

/// A collector may only run against a slot that is absent or already
/// holds a collection — the shape the generated code's types enforce.
pub open spec fn collectable(c: Option<ValueModel>) -> bool {
    c is None || c matches Some(ValueModel::List(_))
}

fn clone_value(v: &Value) -> (r: Value)
    ensures
        r.model() == v.model(),
{
    match v {
        Value::Text(s) => Value::Text(s.clone()),
        Value::List(l) => Value::List(clone_strings(l)),
    }
}

fn clone_content(c: &Option<Value>) -> (r: Option<Value>)
    ensures
        opt_model(r) == opt_model(*c),
{
    match c {
        Some(v) => Some(clone_value(v)),
        None => None,
    }
}

impl BuilderState {
    /// The slot row as a mathematical sequence.
    pub open spec fn model(self) -> Seq<SlotModel> {
        self.slots@.map_values(|s: Slot| s.model())
    }

    /// Field names are pairwise distinct, as the schema guarantees.
    pub open spec fn wf(self) -> bool {
        forall|i: int, j: int|
            0 <= i < self.model().len() && 0 <= j < self.model().len() && i != j ==> (
            #[trigger] self.model()[i]).name != (#[trigger] self.model()[j]).name
    }

    fn field_index(&self, name: &String) -> (r: Option<usize>)
        ensures
            match r {
                Some(i) => i < self.model().len() && self.model()[i as int].name == name@,
                None => !field_exists(self.model(), name@),
            },
    {
        let mut i: usize = 0;
        while i < self.slots.len()
            invariant
                i <= self.slots@.len(),
                self.model().len() == self.slots@.len(),
                forall|j: int| 0 <= j < i ==> (#[trigger] self.model()[j]).name != name@,
            decreases self.slots@.len() - i,
        {
            if self.slots[i].name == *name {
                return Some(i);
            }
            i = i + 1;
        }
        None
    }

    /// The bulk setter for the named field: replaces the slot's whole
    /// value, discarding whatever was there — including elements a
    /// collector gathered.  A required field's setter always stores a
    /// present value; an optional field's setter stores the given state
    /// verbatim, so a caller may explicitly set the field absent.
    pub fn set(&mut self, name: &String, value: Option<Value>)
        requires
            old(self).wf(),
            field_exists(old(self).model(), name@),
            forall|i: int|
                0 <= i < old(self).model().len() && (#[trigger] old(self).model()[i]).name == name@
                    && old(self).model()[i].required ==> value is Some,
        ensures
            final(self).wf(),
            forall|i: int|
                0 <= i < old(self).model().len() && (#[trigger] old(self).model()[i]).name == name@
                    ==> final(self).model() == set_model(old(self).model(), i, opt_model(value)),
    {
        let found = self.field_index(name);
        match found {
            Some(i) => {
                let old_slot = self.slots.remove(i);
                let new_slot = Slot {
                    name: old_slot.name,
                    required: old_slot.required,
                    content: value,
                };
                self.slots.insert(i, new_slot);
                proof {
                    assert(self.slots@ =~= old(self).slots@.update(i as int, new_slot));
                    assert(final(self).model() =~= set_model(
                        old(self).model(),
                        i as int,
                        opt_model(value),
                    ));
                    assert forall|i2: int|
                        0 <= i2 < old(self).model().len() && (#[trigger] old(
                            self,
                        ).model()[i2]).name == name@ implies final(self).model() == set_model(
                        old(self).model(),
                        i2,
                        opt_model(value),
                    ) by {
                        assert(i2 == i as int);
                    }
                }
            },
            None => {
                proof {
                    assert(false);
                }
            },
        }
    }

    /// The collector for the named field: lazily initializes the slot to
    /// an empty collection if it is absent, then appends the element,
    /// preserving call order.  It coexists with the field's bulk setter
    /// and never replaces it.
    pub fn collect(&mut self, name: &String, elem: String)
        requires
            old(self).wf(),
            field_exists(old(self).model(), name@),
            forall|i: int|
                0 <= i < old(self).model().len() && (#[trigger] old(self).model()[i]).name == name@
                    ==> collectable(old(self).model()[i].content),
        ensures
            final(self).wf(),
            forall|i: int|
                0 <= i < old(self).model().len() && (#[trigger] old(self).model()[i]).name == name@
                    ==> final(self).model() == collect_model(old(self).model(), i, elem@),
    {
        let found = self.field_index(name);
        match found {
            Some(i) => {
                let old_slot = self.slots.remove(i);
                let new_list: Vec<String> = match old_slot.content {
                    None => {
                        let mut l: Vec<String> = Vec::new();
                        l.push(elem);
                        l
                    },
                    Some(Value::List(mut l)) => {
                        l.push(elem);
                        l
                    },
                    Some(Value::Text(_)) => {
                        proof {
                            assert(false);
                        }
                        Vec::new()
                    },
                };
                let new_slot = Slot {
                    name: old_slot.name,
                    required: old_slot.required,
                    content: Some(Value::List(new_list)),
                };
                proof {
                    assert(new_slot.model().content == Some(
                        ValueModel::List(elems_of(old(self).model()[i as int].content).push(elem@)),
                    )) by {
                        assert(new_list@.map_values(|e: String| e@) =~= elems_of(
                            old(self).model()[i as int].content,
                        ).push(elem@));
                    }
                }
                self.slots.insert(i, new_slot);
                proof {
                    assert(self.slots@ =~= old(self).slots@.update(i as int, new_slot));
                    assert(final(self).model() =~= collect_model(
                        old(self).model(),
                        i as int,
                        elem@,
                    ));
                    assert forall|i2: int|
                        0 <= i2 < old(self).model().len() && (#[trigger] old(
                            self,
                        ).model()[i2]).name == name@ implies final(self).model() == collect_model(
                        old(self).model(),
                        i2,
                        elem@,
                    ) by {
                        assert(i2 == i as int);
                    }
                }
            },
            None => {
                proof {
                    assert(false);
                }
            },
        }
    }

    /// The validating finalize operation: reads the slots in declaration
    /// order and never mutates them.  If some required slot is absent, it
    /// fails, naming the first such field; otherwise it assembles the
    /// record, every slot's state passing through under its field's name.
    pub fn finalize(&self) -> (r: Result<Record, BuildError>)
        ensures
            match r {
                Ok(rec) => !has_missing(self.model()) && rec.model() == record_of(self.model()),
                Err(e) => exists|i: int|
                    0 <= i < self.model().len() && slot_missing(#[trigger] self.model()[i])
                        && e.field@ == self.model()[i].name && (forall|j: int|
                        0 <= j < i ==> !slot_missing(#[trigger] self.model()[j])),
            },
    {
        let mut entries: Vec<RecordEntry> = Vec::new();
        let mut i: usize = 0;
        while i < self.slots.len()
            invariant
                i <= self.slots@.len(),
                self.model().len() == self.slots@.len(),
                entries@.len() == i,
                forall|j: int| 0 <= j < i ==> !slot_missing(#[trigger] self.model()[j]),
                forall|j: int|
                    0 <= j < i ==> (#[trigger] entries@[j]).model() == record_of(self.model())[j],
            decreases self.slots@.len() - i,
        {
            let slot = &self.slots[i];
            if slot.required && slot.content.is_none() {
                proof {
                    assert(self.model()[i as int] == self.slots@[i as int].model());
                    assert(slot_missing(self.model()[i as int]));
                }
                return Err(BuildError { field: slot.name.clone() });
            }
            entries.push(RecordEntry { name: slot.name.clone(), value: clone_content(&slot.content) });
            i = i + 1;
        }
        let rec = Record { entries };
        proof {
            assert(rec.model() =~= record_of(self.model()));
        }
        Ok(rec)
    }
}

/// Distinct slot field names in an artifact's storage layout.
pub open spec fn distinct_slot_names(slots: Seq<crate::synth::SlotSpec>) -> bool {
    forall|i: int, j: int|
        0 <= i < slots.len() && 0 <= j < slots.len() && i != j ==> (#[trigger] slots[i].field)@
            != (#[trigger] slots[j].field)@
}

/// The artifact's constructor: a builder instance with every slot absent,
/// one slot per storage slot of the artifact, in order.
pub fn instantiate(artifact: &GeneratedArtifact) -> (r: BuilderState)
    ensures
        r.model().len() == artifact.slots@.len(),
        forall|i: int|
            0 <= i < artifact.slots@.len() ==> {
                &&& (#[trigger] r.model()[i]).name == artifact.slots@[i].field@
                &&& r.model()[i].required == artifact.slots@[i].required
                &&& r.model()[i].content is None
            },
        distinct_slot_names(artifact.slots@) ==> r.wf(),
{
    let mut slots: Vec<Slot> = Vec::new();
    let mut i: usize = 0;
    while i < artifact.slots.len()
        invariant
            i <= artifact.slots@.len(),
            slots@.len() == i,
            forall|j: int|
                0 <= j < i ==> {
                    &&& (#[trigger] slots@[j]).model().name == artifact.slots@[j].field@
                    &&& slots@[j].model().required == artifact.slots@[j].required
                    &&& slots@[j].model().content is None
                },
        decreases artifact.slots@.len() - i,
    {
        slots.push(
            Slot { name: artifact.slots[i].field.clone(), required: artifact.slots[i].required, content: None },
        );
        i = i + 1;
    }
    let r = BuilderState { slots };
    proof {
        assert forall|j: int| 0 <= j < artifact.slots@.len() implies {
            &&& (#[trigger] r.model()[j]).name == artifact.slots@[j].field@
            &&& r.model()[j].required == artifact.slots@[j].required
            &&& r.model()[j].content is None
        } by {
            assert(r.model()[j] == slots@[j].model());
        }
    }
    r
}

} // verus!
