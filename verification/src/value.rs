//! Values of any declared type, as the schema-driven codec handles them.

use vstd::prelude::*;

use crate::unique::{distinct_keys, distinct_of, key_position, merged};

verus! {

/// A value of some declared type.
///
/// A struct holds one slot for each field of its definition, in the order
/// of the definition; a slot is empty where the field is absent. A value
/// of an enum holds the index of its variant and the variant's payload. A
/// set holds its elements and a map its entries in the order in which
/// they travel; in a proper value no element of a set and no key of a map
/// occurs twice. A double is held as its IEEE-754 bit pattern.
#[derive(Debug, PartialEq, Eq)]
pub enum Value {
    Void,
    Bool(bool),
    Byte(u8),
    I8(i8),
    I16(i16),
    I32(i32),
    I64(i64),
    Double(u64),
    Text(String),
    Binary(Vec<u8>),
    List(Vec<Value>),
    SetOf(Vec<Value>),
    MapOf(Vec<(Value, Value)>),
    Struct(Vec<Option<Value>>),
    Variant(usize, Box<Value>),
}

/// A value as mathematics.
pub enum ValueModel {
    Void,
    Bool(bool),
    Byte(u8),
    I8(i8),
    I16(i16),
    I32(i32),
    I64(i64),
    Double(u64),
    Text(Seq<char>),
    Binary(Seq<u8>),
    List(Seq<ValueModel>),
    SetOf(Seq<ValueModel>),
    MapOf(Seq<(ValueModel, ValueModel)>),
    Struct(Seq<Option<ValueModel>>),
    Variant(int, Box<ValueModel>),
}

/// The models of the values of a vector.
pub open spec fn models_of(v: Vec<Value>) -> Seq<ValueModel>
    decreases v, 0nat,
{
    Seq::new(
        v.len() as nat,
        |i: int|
            if 0 <= i < v.len() {
                model_of(v[i])
            } else {
                ValueModel::Void
            },
    )
}

/// The models of the entries of a vector.
pub open spec fn entry_models_of(v: Vec<(Value, Value)>) -> Seq<(ValueModel, ValueModel)>
    decreases v, 0nat,
{
    Seq::new(
        v.len() as nat,
        |i: int|
            if 0 <= i < v.len() {
                (model_of(v[i].0), model_of(v[i].1))
            } else {
                (ValueModel::Void, ValueModel::Void)
            },
    )
}

/// The models of the slots of a vector.
pub open spec fn slot_models_of(v: Vec<Option<Value>>) -> Seq<Option<ValueModel>>
    decreases v, 0nat,
{
    Seq::new(
        v.len() as nat,
        |i: int|
            if 0 <= i < v.len() {
                match v[i] {
                    Some(x) => Some(model_of(x)),
                    None => None,
                }
            } else {
                None
            },
    )
}

/// The model of a value.
pub open spec fn model_of(v: Value) -> ValueModel
    decreases v, 1nat,
{
    match v {
        Value::Void => ValueModel::Void,
        Value::Bool(b) => ValueModel::Bool(b),
        Value::Byte(b) => ValueModel::Byte(b),
        Value::I8(i) => ValueModel::I8(i),
        Value::I16(i) => ValueModel::I16(i),
        Value::I32(i) => ValueModel::I32(i),
        Value::I64(i) => ValueModel::I64(i),
        Value::Double(bits) => ValueModel::Double(bits),
        Value::Text(s) => ValueModel::Text(s@),
        Value::Binary(b) => ValueModel::Binary(b@),
        Value::List(items) => ValueModel::List(models_of(items)),
        Value::SetOf(items) => ValueModel::SetOf(models_of(items)),
        Value::MapOf(entries) => ValueModel::MapOf(entry_models_of(entries)),
        Value::Struct(slots) => ValueModel::Struct(slot_models_of(slots)),
        Value::Variant(k, inner) => ValueModel::Variant(k as int, Box::new(model_of(*inner))),
    }
}

impl DeepView for Value {
    type V = ValueModel;

    open spec fn deep_view(&self) -> ValueModel {
        model_of(*self)
    }
}

/// The model of a slot.
pub open spec fn slot_model(slot: Option<Value>) -> Option<ValueModel> {
    match slot {
        Some(x) => Some(model_of(x)),
        None => None,
    }
}

/// A vector with one more value has the models of the old one and the
/// model of the new value.
pub proof fn lemma_models_push(before: Vec<Value>, after: Vec<Value>, v: Value)
    requires
        after@ == before@.push(v),
    ensures
        models_of(after) == models_of(before).push(model_of(v)),
{
    assert(models_of(after) =~= models_of(before).push(model_of(v)));
}

/// A vector with one more entry has the models of the old one and the
/// model of the new entry.
pub proof fn lemma_entry_models_push(
    before: Vec<(Value, Value)>,
    after: Vec<(Value, Value)>,
    k: Value,
    v: Value,
)
    requires
        after@ == before@.push((k, v)),
    ensures
        entry_models_of(after) == entry_models_of(before).push((model_of(k), model_of(v))),
{
    assert(entry_models_of(after) =~= entry_models_of(before).push((model_of(k), model_of(v))));
}

/// A vector with one slot replaced has the models of the old one with
/// that slot's model replaced.
pub proof fn lemma_slot_models_update(
    before: Vec<Option<Value>>,
    after: Vec<Option<Value>>,
    j: int,
    slot: Option<Value>,
)
    requires
        0 <= j < before@.len(),
        after@ == before@.update(j, slot),
    ensures
        slot_models_of(after) == slot_models_of(before).update(j, slot_model(slot)),
{
    assert(slot_models_of(after) =~= slot_models_of(before).update(j, slot_model(slot)));
}

/// A value is proper where no element of a set and no key of a map
/// occurs twice, in it and in every value that it holds.
pub open spec fn proper(v: ValueModel) -> bool
    decreases v,
{
    match v {
        ValueModel::List(items) => forall|i: int|
            0 <= i < items.len() ==> proper(#[trigger] items[i]),
        ValueModel::SetOf(items) => items.no_duplicates() && forall|i: int|
            0 <= i < items.len() ==> proper(#[trigger] items[i]),
        ValueModel::MapOf(entries) => distinct_keys(entries) && forall|i: int|
            0 <= i < entries.len() ==> proper((#[trigger] entries[i]).0) && proper(entries[i].1),
        ValueModel::Struct(slots) => forall|i: int|
            0 <= i < slots.len() ==> match #[trigger] slots[i] {
                Some(x) => proper(x),
                None => true,
            },
        ValueModel::Variant(_, inner) => proper(*inner),
        _ => true,
    }
}

/// Every value of the sequence is proper.
pub open spec fn all_proper(items: Seq<ValueModel>) -> bool {
    forall|i: int| 0 <= i < items.len() ==> proper(#[trigger] items[i])
}

/// Every key and every value of the entries is proper.
pub open spec fn entries_proper(entries: Seq<(ValueModel, ValueModel)>) -> bool {
    forall|i: int|
        0 <= i < entries.len() ==> proper((#[trigger] entries[i]).0) && proper(entries[i].1)
}

/// Every value in a slot is proper.
pub open spec fn slots_proper(slots: Seq<Option<ValueModel>>) -> bool {
    forall|i: int|
        0 <= i < slots.len() ==> match #[trigger] slots[i] {
            Some(x) => proper(x),
            None => true,
        }
}

/// Whether two byte strings are the same.
pub fn same_bytes(a: &Vec<u8>, b: &Vec<u8>) -> (r: bool)
    ensures
        r == (a@ == b@),
{
    if a.len() != b.len() {
        return false;
    }
    let mut i: usize = 0;
    while i < a.len()
        invariant
            i <= a.len(),
            a.len() == b.len(),
            forall|j: int| 0 <= j < i ==> a@[j] == b@[j],
        decreases a.len() - i,
    {
        if a[i] != b[i] {
            return false;
        }
        i = i + 1;
    }
    assert(a@ =~= b@);
    true
}

impl Value {
    /// Whether two values are the same: of one shape, and the same in
    /// every part.
    pub fn same(&self, other: &Value) -> (r: bool)
        ensures
            r == (model_of(*self) == model_of(*other)),
        decreases *self, 1nat,
    {
        match self {
            Value::Void => match other {
                Value::Void => true,
                _ => false,
            },
            Value::Bool(a) => match other {
                Value::Bool(b) => *a == *b,
                _ => false,
            },
            Value::Byte(a) => match other {
                Value::Byte(b) => *a == *b,
                _ => false,
            },
            Value::I8(a) => match other {
                Value::I8(b) => *a == *b,
                _ => false,
            },
            Value::I16(a) => match other {
                Value::I16(b) => *a == *b,
                _ => false,
            },
            Value::I32(a) => match other {
                Value::I32(b) => *a == *b,
                _ => false,
            },
            Value::I64(a) => match other {
                Value::I64(b) => *a == *b,
                _ => false,
            },
            Value::Double(a) => match other {
                Value::Double(b) => *a == *b,
                _ => false,
            },
            Value::Text(a) => match other {
                Value::Text(b) => *a == *b,
                _ => false,
            },
            Value::Binary(a) => match other {
                Value::Binary(b) => same_bytes(a, b),
                _ => false,
            },
            Value::List(a) => match other {
                Value::List(b) => same_items(a, b),
                _ => false,
            },
            Value::SetOf(a) => match other {
                Value::SetOf(b) => same_items(a, b),
                _ => false,
            },
            Value::MapOf(a) => match other {
                Value::MapOf(b) => same_entries(a, b),
                _ => false,
            },
            Value::Struct(a) => match other {
                Value::Struct(b) => same_slots(a, b),
                _ => false,
            },
            Value::Variant(k, inner) => match other {
                Value::Variant(j, other_inner) => *k == *j && inner.same(other_inner),
                _ => false,
            },
        }
    }
}

/// Whether two vectors hold the same values in the same order.
pub fn same_items(a: &Vec<Value>, b: &Vec<Value>) -> (r: bool)
    ensures
        r == (models_of(*a) == models_of(*b)),
    decreases *a, 0nat,
{
    if a.len() != b.len() {
        assert(models_of(*a).len() != models_of(*b).len());
        return false;
    }
    let mut i: usize = 0;
    while i < a.len()
        invariant
            i <= a.len(),
            a.len() == b.len(),
            forall|j: int| 0 <= j < i ==> model_of(a@[j]) == model_of(b@[j]),
        decreases a.len() - i,
    {
        if !a[i].same(&b[i]) {
            assert(models_of(*a)[i as int] != models_of(*b)[i as int]);
            return false;
        }
        i = i + 1;
    }
    assert(models_of(*a) =~= models_of(*b));
    true
}

/// Whether two vectors hold the same entries in the same order.
pub fn same_entries(a: &Vec<(Value, Value)>, b: &Vec<(Value, Value)>) -> (r: bool)
    ensures
        r == (entry_models_of(*a) == entry_models_of(*b)),
    decreases *a, 0nat,
{
    if a.len() != b.len() {
        assert(entry_models_of(*a).len() != entry_models_of(*b).len());
        return false;
    }
    let mut i: usize = 0;
    while i < a.len()
        invariant
            i <= a.len(),
            a.len() == b.len(),
            forall|j: int|
                0 <= j < i ==> model_of(a@[j].0) == model_of(b@[j].0) && model_of(a@[j].1)
                    == model_of(b@[j].1),
        decreases a.len() - i,
    {
        if !a[i].0.same(&b[i].0) || !a[i].1.same(&b[i].1) {
            assert(entry_models_of(*a)[i as int] != entry_models_of(*b)[i as int]);
            return false;
        }
        i = i + 1;
    }
    assert(entry_models_of(*a) =~= entry_models_of(*b));
    true
}

/// Whether two vectors hold the same slots in the same order.
pub fn same_slots(a: &Vec<Option<Value>>, b: &Vec<Option<Value>>) -> (r: bool)
    ensures
        r == (slot_models_of(*a) == slot_models_of(*b)),
    decreases *a, 0nat,
{
    if a.len() != b.len() {
        assert(slot_models_of(*a).len() != slot_models_of(*b).len());
        return false;
    }
    let mut i: usize = 0;
    while i < a.len()
        invariant
            i <= a.len(),
            a.len() == b.len(),
            forall|j: int| 0 <= j < i ==> slot_model(a@[j]) == slot_model(b@[j]),
        decreases a.len() - i,
    {
        let equal = match &a[i] {
            Some(x) => match &b[i] {
                Some(y) => x.same(y),
                None => false,
            },
            None => match &b[i] {
                Some(_) => false,
                None => true,
            },
        };
        if !equal {
            assert(slot_models_of(*a)[i as int] != slot_models_of(*b)[i as int]);
            return false;
        }
        i = i + 1;
    }
    assert(slot_models_of(*a) =~= slot_models_of(*b));
    true
}

/// The values of a vector in the opposite order.
pub fn reversed<T>(v: Vec<T>) -> (r: Vec<T>)
    ensures
        r@ == v@.reverse(),
{
    let mut source = v;
    let mut r: Vec<T> = Vec::new();
    while source.len() > 0
        invariant
            source@.len() + r@.len() == v@.len(),
            source@ == v@.take(source@.len() as int),
            forall|j: int| 0 <= j < r@.len() ==> r@[j] == v@[v@.len() - 1 - j],
        decreases source@.len(),
    {
        match source.pop() {
            Some(x) => {
                r.push(x);
            },
            None => {},
        }
    }
    assert(r@ =~= v@.reverse());
    r
}

/// Whether a value is among those of a vector.
pub fn holds(items: &Vec<Value>, x: &Value) -> (r: bool)
    ensures
        r == models_of(*items).contains(model_of(*x)),
{
    let mut i: usize = 0;
    while i < items.len()
        invariant
            i <= items.len(),
            forall|j: int| 0 <= j < i ==> models_of(*items)[j] != model_of(*x),
        decreases items.len() - i,
    {
        if items[i].same(x) {
            assert(models_of(*items)[i as int] == model_of(*x));
            return true;
        }
        i = i + 1;
    }
    false
}

/// The set of the values of a vector: each value where it first occurs.
pub fn distinct_items(items: Vec<Value>) -> (r: Vec<Value>)
    ensures
        models_of(r) == distinct_of(models_of(items)),
{
    let ghost given = models_of(items);
    let mut rest = reversed(items);
    let mut kept: Vec<Value> = Vec::new();
    let ghost mut done: int = 0;
    assert(models_of(kept) =~= distinct_of(given.take(0)));
    while rest.len() > 0
        invariant
            0 <= done <= given.len(),
            rest@.len() == given.len() - done,
            forall|j: int|
                0 <= j < rest@.len() ==> model_of(#[trigger] rest@[j]) == given[given.len()
                    - 1 - j],
            models_of(kept) == distinct_of(given.take(done)),
        decreases rest@.len(),
    {
        let ghost top = rest@[rest@.len() - 1];
        match rest.pop() {
            Some(x) => {
                proof {
                    assert(x == top);
                    assert(model_of(x) == given[done]);
                    assert(given.take(done + 1).drop_last() =~= given.take(done));
                    assert(given.take(done + 1).last() == model_of(x));
                }
                if !holds(&kept, &x) {
                    let ghost before = kept;
                    kept.push(x);
                    proof {
                        lemma_models_push(before, kept, x);
                    }
                }
                proof {
                    done = done + 1;
                }
            },
            None => {},
        }
    }
    proof {
        assert(given.take(done) =~= given);
    }
    kept
}

/// The position of the first entry with the key, if there is one.
pub fn key_index(entries: &Vec<(Value, Value)>, k: &Value) -> (r: Option<usize>)
    ensures
        match key_position(entry_models_of(*entries), model_of(*k), 0) {
            Some(i) => r matches Some(found) && found == i && i < entries@.len(),
            None => r is None,
        },
{
    let mut i: usize = 0;
    while i < entries.len()
        invariant
            i <= entries.len(),
            key_position(entry_models_of(*entries), model_of(*k), 0) == key_position(
                entry_models_of(*entries),
                model_of(*k),
                i as int,
            ),
        decreases entries.len() - i,
    {
        if entries[i].0.same(k) {
            return Some(i);
        }
        i = i + 1;
    }
    None
}

/// A vector with one entry replaced has the models of the old one with
/// that entry's model replaced.
pub proof fn lemma_entry_models_update(
    before: Vec<(Value, Value)>,
    after: Vec<(Value, Value)>,
    j: int,
    k: Value,
    v: Value,
)
    requires
        0 <= j < before@.len(),
        after@ == before@.update(j, (k, v)),
    ensures
        entry_models_of(after) == entry_models_of(before).update(j, (model_of(k), model_of(v))),
{
    assert(entry_models_of(after) =~= entry_models_of(before).update(
        j,
        (model_of(k), model_of(v)),
    ));
}

/// The map that the entries of a vector make: each key where it first
/// occurs, with the value it last came with.
pub fn merge_entries(entries: Vec<(Value, Value)>) -> (r: Vec<(Value, Value)>)
    ensures
        entry_models_of(r) == merged(entry_models_of(entries)),
{
    let ghost given = entry_models_of(entries);
    let mut rest = reversed(entries);
    let mut kept: Vec<(Value, Value)> = Vec::new();
    let ghost mut done: int = 0;
    assert(entry_models_of(kept) =~= merged(given.take(0)));
    while rest.len() > 0
        invariant
            0 <= done <= given.len(),
            rest@.len() == given.len() - done,
            forall|j: int|
                0 <= j < rest@.len() ==> (
                model_of((#[trigger] rest@[j]).0),
                model_of(rest@[j].1),
            ) == given[given.len() - 1 - j],
            entry_models_of(kept) == merged(given.take(done)),
        decreases rest@.len(),
    {
        let ghost top = rest@[rest@.len() - 1];
        match rest.pop() {
            Some(entry) => {
                let (k, v) = entry;
                proof {
                    assert(entry == top);
                    assert((model_of(k), model_of(v)) == given[done]);
                    assert(given.take(done + 1).drop_last() =~= given.take(done));
                    assert(given.take(done + 1).last() == (model_of(k), model_of(v)));
                }
                let ghost before = kept;
                match key_index(&kept, &k) {
                    Some(i) => {
                        kept.set(i, (k, v));
                        proof {
                            lemma_entry_models_update(before, kept, i as int, k, v);
                        }
                    },
                    None => {
                        kept.push((k, v));
                        proof {
                            lemma_entry_models_push(before, kept, k, v);
                        }
                    },
                }
                proof {
                    done = done + 1;
                }
            },
            None => {},
        }
    }
    proof {
        assert(given.take(done) =~= given);
    }
    kept
}

} // verus!
