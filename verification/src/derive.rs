//! The codec that a definition induces: writing and reading values of
//! declared types through the binary protocol.

use vstd::prelude::*;
use vstd::string::*;
use vstd::utf8::*;

use crate::binary::{TBinaryInputProtocol, TBinaryOutputProtocol, MAXIMUM_SKIP_DEPTH};
use crate::context::MsgContext;
use crate::errors::{
    new_application_error, new_protocol_error, ApplicationErrorKind, Error, Fault,
    ProtocolErrorKind,
};
use crate::protocol::{
    TFieldIdentifier, TListIdentifier, TMapIdentifier, TSetIdentifier, TStructIdentifier, TType,
};
use crate::schema::{
    announced, behind, empty_slots, find_definition, find_field, find_variant, find_variant_id,
    find_variant_name, first_missing, image_content, image_definition, image_dispatch,
    image_entries, image_fields, image_items, image_struct, mismatch, missing_field,
    missing_required, parse_content, parse_definition, parse_dispatch, parse_entries, parse_fields,
    parse_items, Definition, EnumSchema, Registry, Required, StructSchema,
};
use crate::types::{rank, ttype_of, FieldType};
use crate::utils::ttype_comparing;
use crate::value::{
    distinct_items, entry_models_of, lemma_entry_models_push, lemma_models_push,
    lemma_slot_models_update, merge_entries, model_of, models_of, slot_models_of, Value, ValueModel,
};
use crate::wire::{
    lemma_bytes_consumes, lemma_field_begin_consumes, lemma_list_begin_consumes,
    lemma_map_begin_consumes, lemma_parse_skip_suffix, Parsed,
};

verus! {

/// The writer came from `before` by a write with result `r`, where the
/// wire format expects `expected`: the image was appended, or the write
/// was refused with the expected fault.
pub open spec fn has_written(
    after: TBinaryOutputProtocol<bytes::BytesMut>,
    before: TBinaryOutputProtocol<bytes::BytesMut>,
    r: Result<(), Error>,
    expected: Result<Seq<u8>, Fault>,
) -> bool {
    &&& after.is_strict() == before.is_strict()
    &&& match expected {
        Ok(image) => r is Ok && after.written() == before.written() + image,
        Err(f) => r is Err && r->Err_0.fault() == f,
    }
}

/// The reader came from `before` by a read with result `r`, where the
/// wire format expects `expected`: the value read has the expected model
/// and exactly its bytes are gone, or the read failed with the expected
/// fault.
pub open spec fn has_decoded(
    after: TBinaryInputProtocol<bytes::BytesMut>,
    before: TBinaryInputProtocol<bytes::BytesMut>,
    r: Result<Value, Error>,
    expected: Parsed<ValueModel>,
) -> bool {
    &&& after.is_strict() == before.is_strict()
    &&& match expected {
        Ok((m, rest)) => r is Ok && model_of(r->Ok_0) == m && after.remaining() == rest
            && rest.len() <= before.remaining().len(),
        Err(f) => r is Err && r->Err_0.fault() == f,
    }
}

/// An error of invalid data whose text names something.
fn named_error(before: &str, name: &String, after: &str) -> (e: Error)
    ensures
        e.fault() == Fault::Protocol(ProtocolErrorKind::InvalidData, before@ + name@ + after@),
{
    let mut message = String::from_str(before);
    message.append(name.as_str());
    message.append(after);
    new_protocol_error(ProtocolErrorKind::InvalidData, message.as_str())
}

fn mismatch_error() -> (e: Error)
    ensures
        e.fault() == mismatch(),
{
    new_protocol_error(ProtocolErrorKind::InvalidData, "value does not match its type")
}

fn oversize_error() -> (e: Error)
    ensures
        e.fault() == crate::schema::oversize(),
{
    new_protocol_error(ProtocolErrorKind::SizeLimit, "length does not fit its prefix")
}

/// Whether two strings spell the same text.
pub fn same_text(a: &String, b: &String) -> (r: bool)
    ensures
        r == (a@ == b@),
{
    *a == *b
}

impl Registry {
    /// A registry of the given definitions.
    pub fn new(definitions: Vec<Definition>) -> (r: Self)
        ensures
            r.definitions == definitions,
    {
        Registry { definitions }
    }

    /// The index of the first definition with this name.
    pub fn find(&self, name: &String) -> (r: Option<usize>)
        ensures
            match find_definition(self@.definitions, name@, 0) {
                Some(d) => r matches Some(found) && found == d && 0 <= d
                    < self.definitions@.len() && self@.definitions[d] == self.definitions@[d]@,
                None => r is None,
            },
    {
        let mut i: usize = 0;
        while i < self.definitions.len()
            invariant
                i <= self.definitions.len(),
                find_definition(self@.definitions, name@, 0) == find_definition(
                    self@.definitions,
                    name@,
                    i as int,
                ),
            decreases self.definitions.len() - i,
        {
            let same = match &self.definitions[i] {
                Definition::Struct(s) => same_text(&s.name, name),
                Definition::Enum(e) => same_text(&e.name, name),
            };
            if same {
                return Some(i);
            }
            i = i + 1;
        }
        None
    }
}

impl StructSchema {
    /// The index of the first field with this id.
    pub fn find_field(&self, id: i16) -> (r: Option<usize>)
        ensures
            match find_field(self@.fields, id, 0) {
                Some(j) => r matches Some(found) && found == j && 0 <= j < self.fields@.len()
                    && self@.fields[j] == self.fields@[j]@,
                None => r is None,
            },
    {
        let mut i: usize = 0;
        while i < self.fields.len()
            invariant
                i <= self.fields.len(),
                find_field(self@.fields, id, 0) == find_field(self@.fields, id, i as int),
            decreases self.fields.len() - i,
        {
            if self.fields[i].id == id {
                return Some(i);
            }
            i = i + 1;
        }
        None
    }

    /// The index of the first field that must be present and has an empty
    /// slot.
    pub fn first_missing(&self, slots: &Vec<Option<Value>>) -> (r: Option<usize>)
        ensures
            match first_missing(self@.fields, slot_models_of(*slots), 0) {
                Some(j) => r matches Some(found) && found == j && j < self.fields@.len()
                    && self@.fields[j] == self.fields@[j]@,
                None => r is None,
            },
    {
        let mut i: usize = 0;
        while i < self.fields.len() && i < slots.len()
            invariant
                i <= self.fields.len(),
                i <= slots.len(),
                first_missing(self@.fields, slot_models_of(*slots), 0) == first_missing(
                    self@.fields,
                    slot_models_of(*slots),
                    i as int,
                ),
            decreases self.fields.len() - i,
        {
            if self.fields[i].required == Required::True && slots[i].is_none() {
                assert(slot_models_of(*slots)[i as int] is None);
                return Some(i);
            }
            assert(!(self@.fields[i as int].required == Required::True && slot_models_of(
                *slots,
            )[i as int] is None));
            i = i + 1;
        }
        None
    }

    /// Whether a field that must be present has an empty slot.
    pub fn missing_required(&self, slots: &Vec<Option<Value>>) -> (r: bool)
        ensures
            r == missing_required(self@.fields, slot_models_of(*slots)),
    {
        let mut i: usize = 0;
        while i < self.fields.len() && i < slots.len()
            invariant
                i <= self.fields.len(),
                i <= slots.len(),
                forall|j: int|
                    0 <= j < i ==> !(self@.fields[j].required == Required::True && (
                    #[trigger] slot_models_of(*slots)[j]) is None),
            decreases self.fields.len() - i,
        {
            if self.fields[i].required == Required::True && slots[i].is_none() {
                assert(slot_models_of(*slots)[i as int] is None);
                return true;
            }
            i = i + 1;
        }
        false
    }
}

impl EnumSchema {
    /// The index of the first variant with this id, from `from` on.
    fn find_id_from(&self, id: i16) -> (r: Option<usize>)
        ensures
            match find_variant_id(self@.variants, id, 0) {
                Some(k) => r matches Some(found) && found == k && 0 <= k < self.variants@.len()
                    && self@.variants[k] == self.variants@[k]@,
                None => r is None,
            },
    {
        let mut i: usize = 0;
        while i < self.variants.len()
            invariant
                i <= self.variants.len(),
                find_variant_id(self@.variants, id, 0) == find_variant_id(
                    self@.variants,
                    id,
                    i as int,
                ),
            decreases self.variants.len() - i,
        {
            if self.variants[i].id == id {
                return Some(i);
            }
            i = i + 1;
        }
        None
    }

    /// The variant that a field id selects.
    pub fn find_variant(&self, id: i16) -> (r: Option<usize>)
        ensures
            match find_variant(self@.variants, id) {
                Some(k) => r matches Some(found) && found == k && 0 <= k < self.variants@.len()
                    && self@.variants[k] == self.variants@[k]@,
                None => r is None,
            },
    {
        match self.find_id_from(id) {
            Some(k) => Some(k),
            None => if id == 0 {
                self.find_id_from(1)
            } else {
                None
            },
        }
    }

    /// The index of the first variant with this name.
    pub fn find_variant_name(&self, name: &String) -> (r: Option<usize>)
        ensures
            match find_variant_name(self@.variants, name@, 0) {
                Some(k) => r matches Some(found) && found == k && 0 <= k < self.variants@.len()
                    && self@.variants[k] == self.variants@[k]@,
                None => r is None,
            },
    {
        let mut i: usize = 0;
        while i < self.variants.len()
            invariant
                i <= self.variants.len(),
                find_variant_name(self@.variants, name@, 0) == find_variant_name(
                    self@.variants,
                    name@,
                    i as int,
                ),
            decreases self.variants.len() - i,
        {
            if same_text(&self.variants[i].name, name) {
                return Some(i);
            }
            i = i + 1;
        }
        None
    }
}

// ---------------------------------------------------------------------
// Writing
// ---------------------------------------------------------------------
/// Writes a value of the given type.
pub fn encode_content(
    reg: &Registry,
    ty: &FieldType,
    value: &Value,
    cx: &MsgContext,
    protocol: &mut TBinaryOutputProtocol<bytes::BytesMut>,
) -> (r: Result<(), Error>)
    ensures
        has_written(
            *final(protocol),
            *old(protocol),
            r,
            image_content(reg@, ty@, model_of(*value)),
        ),
    decreases *value, 1nat,
{
    let ghost start = protocol.written();
    match ty {
        FieldType::String => match value {
            Value::Text(s) => {
                protocol.write_string(s.as_str())?;
                Ok(())
            },
            _ => Err(mismatch_error()),
        },
        FieldType::Bool => match value {
            Value::Bool(b) => {
                protocol.write_bool(*b)?;
                Ok(())
            },
            _ => Err(mismatch_error()),
        },
        FieldType::I8 => match value {
            Value::I8(i) => {
                protocol.write_i8(*i)?;
                Ok(())
            },
            _ => Err(mismatch_error()),
        },
        FieldType::I16 => match value {
            Value::I16(i) => {
                protocol.write_i16(*i)?;
                Ok(())
            },
            _ => Err(mismatch_error()),
        },
        FieldType::I32 => match value {
            Value::I32(i) => {
                protocol.write_i32(*i)?;
                Ok(())
            },
            _ => Err(mismatch_error()),
        },
        FieldType::I64 => match value {
            Value::I64(i) => {
                protocol.write_i64(*i)?;
                Ok(())
            },
            _ => Err(mismatch_error()),
        },
        FieldType::Double => match value {
            Value::Double(bits) => {
                protocol.write_double(*bits)?;
                Ok(())
            },
            _ => Err(mismatch_error()),
        },
        FieldType::Byte => match value {
            Value::Byte(b) => {
                protocol.write_byte(*b)?;
                Ok(())
            },
            _ => Err(mismatch_error()),
        },
        FieldType::Binary => match value {
            Value::Binary(b) => {
                protocol.write_bytes(b.as_slice())?;
                Ok(())
            },
            _ => Err(mismatch_error()),
        },
        FieldType::Void => match value {
            Value::Void => {
                assert(start + Seq::<u8>::empty() =~= start);
                Ok(())
            },
            _ => Err(mismatch_error()),
        },
        FieldType::Ident(name) => {
            match reg.find(name) {
                None => Err(mismatch_error()),
                Some(d) => encode_definition(reg, &reg.definitions[d], value, cx, protocol),
            }
        },
        FieldType::List(e) => match value {
            Value::List(items) => {
                if items.len() > 0x7fff_ffff {
                    return Err(oversize_error());
                }
                protocol.write_list_begin(
                    &TListIdentifier::new(e.to_ttype(), items.len() as i32),
                )?;
                encode_items(reg, e, items, cx, protocol)?;
                protocol.write_list_end()?;
                proof {
                    let tail = image_items(reg@, e@, models_of(*items), 0)->Ok_0;
                    assert(protocol.written() =~= start + (crate::wire::wire_list_begin(
                        ttype_of(e@),
                        items.len() as i32,
                    ) + tail));
                }
                Ok(())
            },
            _ => Err(mismatch_error()),
        },
        FieldType::SetOf(e) => match value {
            Value::SetOf(items) => {
                if items.len() > 0x7fff_ffff {
                    return Err(oversize_error());
                }
                protocol.write_set_begin(
                    &TSetIdentifier::new(e.to_ttype(), items.len() as i32),
                )?;
                encode_items(reg, e, items, cx, protocol)?;
                protocol.write_set_end()?;
                proof {
                    let tail = image_items(reg@, e@, models_of(*items), 0)->Ok_0;
                    assert(protocol.written() =~= start + (crate::wire::wire_list_begin(
                        ttype_of(e@),
                        items.len() as i32,
                    ) + tail));
                }
                Ok(())
            },
            _ => Err(mismatch_error()),
        },
        FieldType::MapOf(k, v) => match value {
            Value::MapOf(entries) => {
                if entries.len() > 0x7fff_ffff {
                    return Err(oversize_error());
                }
                protocol.write_map_begin(
                    &TMapIdentifier::new(k.to_ttype(), v.to_ttype(), entries.len() as i32),
                )?;
                encode_entries(reg, k, v, entries, cx, protocol)?;
                protocol.write_map_end()?;
                proof {
                    let tail = image_entries(reg@, k@, v@, entry_models_of(*entries), 0)->Ok_0;
                    assert(protocol.written() =~= start + (crate::wire::wire_map_begin(
                        ttype_of(k@),
                        ttype_of(v@),
                        entries.len() as i32,
                    ) + tail));
                }
                Ok(())
            },
            _ => Err(mismatch_error()),
        },
    }
}

/// Writes the elements of a list or a set, one after the other.
fn encode_items(
    reg: &Registry,
    elem: &FieldType,
    items: &Vec<Value>,
    cx: &MsgContext,
    protocol: &mut TBinaryOutputProtocol<bytes::BytesMut>,
) -> (r: Result<(), Error>)
    ensures
        has_written(
            *final(protocol),
            *old(protocol),
            r,
            image_items(reg@, elem@, models_of(*items), 0),
        ),
    decreases *items, 0nat,
{
    let ghost start = protocol.written();
    let ghost done = Seq::<u8>::empty();
    let ghost models = models_of(*items);
    let mut i: usize = 0;
    assert(start + done =~= start);
    while i < items.len()
        invariant
            i <= items.len(),
            models == models_of(*items),
            models.len() == items.len(),
            protocol.is_strict() == old(protocol).is_strict(),
            start == old(protocol).written(),
            protocol.written() == start + done,
            image_items(reg@, elem@, models, 0) == behind(
                done,
                image_items(reg@, elem@, models, i as int),
            ),
        decreases items.len() - i,
    {
        let ghost before = protocol.written();
        encode_content(reg, elem, &items[i], cx, protocol)?;
        proof {
            let b = image_content(reg@, elem@, models[i as int])->Ok_0;
            let tail = image_items(reg@, elem@, models, i + 1);
            assert(protocol.written() =~= start + (done + b));
            if tail is Ok {
                assert(done + (b + tail->Ok_0) =~= (done + b) + tail->Ok_0);
            }
            done = done + b;
        }
        i = i + 1;
    }
    proof {
        assert(done + Seq::<u8>::empty() =~= done);
    }
    Ok(())
}

/// Writes the entries of a map: each key, then its value.
fn encode_entries(
    reg: &Registry,
    key: &FieldType,
    value: &FieldType,
    entries: &Vec<(Value, Value)>,
    cx: &MsgContext,
    protocol: &mut TBinaryOutputProtocol<bytes::BytesMut>,
) -> (r: Result<(), Error>)
    ensures
        has_written(
            *final(protocol),
            *old(protocol),
            r,
            image_entries(reg@, key@, value@, entry_models_of(*entries), 0),
        ),
    decreases *entries, 0nat,
{
    let ghost start = protocol.written();
    let ghost done = Seq::<u8>::empty();
    let ghost models = entry_models_of(*entries);
    let mut i: usize = 0;
    assert(start + done =~= start);
    while i < entries.len()
        invariant
            i <= entries.len(),
            models == entry_models_of(*entries),
            models.len() == entries.len(),
            protocol.is_strict() == old(protocol).is_strict(),
            start == old(protocol).written(),
            protocol.written() == start + done,
            image_entries(reg@, key@, value@, models, 0) == behind(
                done,
                image_entries(reg@, key@, value@, models, i as int),
            ),
        decreases entries.len() - i,
    {
        encode_content(reg, key, &entries[i].0, cx, protocol)?;
        encode_content(reg, value, &entries[i].1, cx, protocol)?;
        proof {
            let kb = image_content(reg@, key@, models[i as int].0)->Ok_0;
            let vb = image_content(reg@, value@, models[i as int].1)->Ok_0;
            let tail = image_entries(reg@, key@, value@, models, i + 1);
            assert(protocol.written() =~= start + (done + kb + vb));
            if tail is Ok {
                assert(done + (kb + vb + tail->Ok_0) =~= (done + kb + vb) + tail->Ok_0);
            }
            done = done + kb + vb;
        }
        i = i + 1;
    }
    proof {
        assert(done + Seq::<u8>::empty() =~= done);
    }
    Ok(())
}

/// Writes a value of a named type: a struct as its fields, an enum as the
/// one field of its variant.
pub fn encode_definition(
    reg: &Registry,
    def: &Definition,
    value: &Value,
    cx: &MsgContext,
    protocol: &mut TBinaryOutputProtocol<bytes::BytesMut>,
) -> (r: Result<(), Error>)
    ensures
        has_written(
            *final(protocol),
            *old(protocol),
            r,
            image_definition(reg@, def@, model_of(*value)),
        ),
    decreases *value, 0nat,
{
    match (def, value) {
        (Definition::Struct(s), Value::Struct(slots)) => encode_struct(
            reg,
            s,
            slots,
            cx,
            protocol,
        ),
        (Definition::Enum(e), Value::Variant(k, inner)) => {
            if e.dispatch_only || *k >= e.variants.len() {
                return Err(mismatch_error());
            }
            let ghost start = protocol.written();
            let variant = &e.variants[*k];
            protocol.write_struct_begin(&TStructIdentifier::new(e.name.clone()))?;
            protocol.write_field_begin(
                &TFieldIdentifier::new(
                    Some(variant.name.clone()),
                    variant.inner.to_ttype(),
                    Some(variant.id),
                ),
            )?;
            encode_content(reg, &variant.inner, inner, cx, protocol)?;
            protocol.write_field_end()?;
            protocol.write_field_stop()?;
            protocol.write_struct_end()?;
            proof {
                let b = image_content(reg@, variant.inner@, model_of(**inner))->Ok_0;
                assert(protocol.written() =~= start + (crate::wire::wire_field_begin(
                    ttype_of(variant.inner@),
                    variant.id,
                ) + b + crate::wire::wire_field_stop()));
            }
            Ok(())
        },
        _ => Err(mismatch_error()),
    }
}

/// Writes a struct: each present field behind its header, in the order of
/// the definition, and the stop sentinel.
pub fn encode_struct(
    reg: &Registry,
    s: &StructSchema,
    slots: &Vec<Option<Value>>,
    cx: &MsgContext,
    protocol: &mut TBinaryOutputProtocol<bytes::BytesMut>,
) -> (r: Result<(), Error>)
    ensures
        has_written(
            *final(protocol),
            *old(protocol),
            r,
            image_struct(reg@, s@, slot_models_of(*slots)),
        ),
    decreases *slots, 1nat,
{
    if slots.len() != s.fields.len() {
        return Err(mismatch_error());
    }
    protocol.write_struct_begin(&TStructIdentifier::new(s.name.clone()))?;
    let ghost start = protocol.written();
    let ghost done = Seq::<u8>::empty();
    let ghost models = slot_models_of(*slots);
    let mut i: usize = 0;
    assert(start + done =~= start);
    while i < slots.len()
        invariant
            i <= slots.len(),
            slots.len() == s.fields.len(),
            models == slot_models_of(*slots),
            models.len() == slots.len(),
            protocol.is_strict() == old(protocol).is_strict(),
            start == old(protocol).written(),
            protocol.written() == start + done,
            image_fields(reg@, s@.fields, models, 0) == behind(
                done,
                image_fields(reg@, s@.fields, models, i as int),
            ),
        decreases slots.len() - i,
    {
        let field = &s.fields[i];
        match &slots[i] {
            Some(inner) => {
                protocol.write_field_begin(
                    &TFieldIdentifier::new(
                        Some(field.name.clone()),
                        field.field_type.to_ttype(),
                        Some(field.id),
                    ),
                )?;
                encode_content(reg, &field.field_type, inner, cx, protocol)?;
                protocol.write_field_end()?;
                proof {
                    let h = crate::wire::wire_field_begin(ttype_of(field.field_type@), field.id);
                    let b = image_content(reg@, field.field_type@, models[i as int]->Some_0)->Ok_0;
                    let tail = image_fields(reg@, s@.fields, models, i + 1);
                    assert(protocol.written() =~= start + (done + (h + b)));
                    if tail is Ok {
                        assert(done + (h + b + tail->Ok_0) =~= (done + (h + b)) + tail->Ok_0);
                    }
                    done = done + (h + b);
                }
            },
            None => {
                if field.required != Required::False {
                    return Err(named_error("field ", &field.name, " must be set"));
                }
            },
        }
        i = i + 1;
    }
    protocol.write_field_stop()?;
    protocol.write_struct_end()?;
    proof {
        assert(protocol.written() =~= start + (done + crate::wire::wire_field_stop()));
    }
    Ok(())
}

/// Writes a value of a dispatch enum: the payload of its variant, bare.
pub fn encode_dispatch(
    reg: &Registry,
    e: &EnumSchema,
    value: &Value,
    cx: &MsgContext,
    protocol: &mut TBinaryOutputProtocol<bytes::BytesMut>,
) -> (r: Result<(), Error>)
    ensures
        has_written(
            *final(protocol),
            *old(protocol),
            r,
            image_dispatch(reg@, e@, model_of(*value)),
        ),
{
    match value {
        Value::Variant(k, inner) => {
            if *k >= e.variants.len() {
                return Err(mismatch_error());
            }
            encode_content(reg, &e.variants[*k].inner, inner, cx, protocol)
        },
        _ => Err(mismatch_error()),
    }
}


// ---------------------------------------------------------------------
// Reading
// ---------------------------------------------------------------------
/// Reads a value of the given type.
pub fn decode_content(
    reg: &Registry,
    ty: &FieldType,
    cx: &MsgContext,
    protocol: &mut TBinaryInputProtocol<bytes::BytesMut>,
) -> (r: Result<Value, Error>)
    ensures
        has_decoded(
            *final(protocol),
            *old(protocol),
            r,
            parse_content(reg@, ty@, cx.header(), old(protocol).remaining()),
        ),
    decreases old(protocol).remaining().len(), rank(ty@), 0nat,
{
    let ghost input = protocol.remaining();
    match ty {
        FieldType::String => {
            proof {
                lemma_bytes_consumes(input);
            }
            let s = protocol.read_string()?;
            Ok(Value::Text(s))
        },
        FieldType::Bool => {
            let b = protocol.read_bool()?;
            Ok(Value::Bool(b))
        },
        FieldType::I8 => {
            let i = protocol.read_i8()?;
            Ok(Value::I8(i))
        },
        FieldType::I16 => {
            let i = protocol.read_i16()?;
            Ok(Value::I16(i))
        },
        FieldType::I32 => {
            let i = protocol.read_i32()?;
            Ok(Value::I32(i))
        },
        FieldType::I64 => {
            let i = protocol.read_i64()?;
            Ok(Value::I64(i))
        },
        FieldType::Double => {
            let bits = protocol.read_double()?;
            Ok(Value::Double(bits))
        },
        FieldType::Byte => {
            let b = protocol.read_byte()?;
            Ok(Value::Byte(b))
        },
        FieldType::Binary => {
            proof {
                lemma_bytes_consumes(input);
            }
            let b = protocol.read_bytes()?;
            Ok(Value::Binary(b))
        },
        FieldType::Void => Ok(Value::Void),
        FieldType::Ident(name) => {
            match reg.find(name) {
                None => Err(mismatch_error()),
                Some(d) => decode_definition(reg, &reg.definitions[d], cx, protocol),
            }
        },
        FieldType::List(e) => {
            proof {
                lemma_list_begin_consumes(input);
            }
            let list = protocol.read_list_begin()?;
            let items = decode_items(reg, e, list.size, cx, protocol)?;
            protocol.read_list_end()?;
            Ok(Value::List(items))
        },
        FieldType::SetOf(e) => {
            proof {
                lemma_list_begin_consumes(input);
            }
            let set = protocol.read_set_begin()?;
            let items = decode_items(reg, e, set.size, cx, protocol)?;
            protocol.read_set_end()?;
            Ok(Value::SetOf(distinct_items(items)))
        },
        FieldType::MapOf(k, v) => {
            proof {
                lemma_map_begin_consumes(input);
            }
            let map = protocol.read_map_begin()?;
            let entries = decode_entries(reg, k, v, map.size, cx, protocol)?;
            protocol.read_map_end()?;
            Ok(Value::MapOf(merge_entries(entries)))
        },
    }
}

/// Reads `size` elements of a list or a set; a size below one reads none.
fn decode_items(
    reg: &Registry,
    elem: &FieldType,
    size: i32,
    cx: &MsgContext,
    protocol: &mut TBinaryInputProtocol<bytes::BytesMut>,
) -> (r: Result<Vec<Value>, Error>)
    ensures
        final(protocol).is_strict() == old(protocol).is_strict(),
        match parse_items(
            reg@,
            elem@,
            cx.header(),
            announced(size),
            old(protocol).remaining(),
            Seq::empty(),
        ) {
            Ok((ms, rest)) => r is Ok && models_of(r->Ok_0) == ms && final(protocol).remaining()
                == rest && rest.len() <= old(protocol).remaining().len(),
            Err(f) => r is Err && r->Err_0.fault() == f,
        },
    decreases old(protocol).remaining().len(), rank(elem@) + 1, 0nat,
{
    let ghost input = protocol.remaining();
    let ghost total = announced(size);
    let mut val: Vec<Value> = Vec::new();
    let mut i: i32 = 0;
    assert(models_of(val) =~= Seq::<ValueModel>::empty());
    while i < size
        invariant
            protocol.is_strict() == old(protocol).is_strict(),
            input == old(protocol).remaining(),
            protocol.remaining().len() <= input.len(),
            0 <= i,
            i <= total,
            total == announced(size),
            parse_items(
                reg@,
                elem@,
                cx.header(),
                (total - i) as nat,
                protocol.remaining(),
                models_of(val),
            ) == parse_items(reg@, elem@, cx.header(), total, input, Seq::empty()),
        decreases size - i,
    {
        let r_val = decode_content(reg, elem, cx, protocol)?;
        let ghost before = val;
        val.push(r_val);
        proof {
            lemma_models_push(before, val, r_val);
        }
        i = i + 1;
    }
    Ok(val)
}

/// Reads `size` entries of a map; a size below one reads none.
fn decode_entries(
    reg: &Registry,
    key: &FieldType,
    value: &FieldType,
    size: i32,
    cx: &MsgContext,
    protocol: &mut TBinaryInputProtocol<bytes::BytesMut>,
) -> (r: Result<Vec<(Value, Value)>, Error>)
    ensures
        final(protocol).is_strict() == old(protocol).is_strict(),
        match parse_entries(
            reg@,
            key@,
            value@,
            cx.header(),
            announced(size),
            old(protocol).remaining(),
            Seq::empty(),
        ) {
            Ok((ms, rest)) => r is Ok && entry_models_of(r->Ok_0) == ms
                && final(protocol).remaining() == rest
                && rest.len() <= old(protocol).remaining().len(),
            Err(f) => r is Err && r->Err_0.fault() == f,
        },
    decreases old(protocol).remaining().len(), rank(key@) + rank(value@) + 1, 0nat,
{
    let ghost input = protocol.remaining();
    let ghost total = announced(size);
    let mut val: Vec<(Value, Value)> = Vec::new();
    let mut i: i32 = 0;
    assert(entry_models_of(val) =~= Seq::<(ValueModel, ValueModel)>::empty());
    while i < size
        invariant
            protocol.is_strict() == old(protocol).is_strict(),
            input == old(protocol).remaining(),
            protocol.remaining().len() <= input.len(),
            0 <= i,
            i <= total,
            total == announced(size),
            parse_entries(
                reg@,
                key@,
                value@,
                cx.header(),
                (total - i) as nat,
                protocol.remaining(),
                entry_models_of(val),
            ) == parse_entries(reg@, key@, value@, cx.header(), total, input, Seq::empty()),
        decreases size - i,
    {
        let r_key = decode_content(reg, key, cx, protocol)?;
        let r_val = decode_content(reg, value, cx, protocol)?;
        let ghost before = val;
        val.push((r_key, r_val));
        proof {
            lemma_entry_models_push(before, val, r_key, r_val);
        }
        i = i + 1;
    }
    Ok(val)
}

/// Reads a value of a named type.
pub fn decode_definition(
    reg: &Registry,
    def: &Definition,
    cx: &MsgContext,
    protocol: &mut TBinaryInputProtocol<bytes::BytesMut>,
) -> (r: Result<Value, Error>)
    ensures
        has_decoded(
            *final(protocol),
            *old(protocol),
            r,
            parse_definition(reg@, def@, cx.header(), old(protocol).remaining()),
        ),
    decreases old(protocol).remaining().len(), 0nat, 1nat,
{
    let ghost input = protocol.remaining();
    match def {
        Definition::Struct(s) => {
            let slots = decode_struct(reg, s, cx, protocol)?;
            Ok(Value::Struct(slots))
        },
        Definition::Enum(e) => {
            if e.dispatch_only {
                return Err(mismatch_error());
            }
            protocol.read_struct_begin()?;
            proof {
                lemma_field_begin_consumes(input);
            }
            let ident = protocol.read_field_begin()?;
            if ident.field_type == TType::Stop {
                return Err(
                    new_protocol_error(ProtocolErrorKind::InvalidData, "unexpected result field"),
                );
            }
            // There must be only one field
            let k = match e.find_variant(ident.id.unwrap()) {
                Some(k) => k,
                None => {
                    return Err(
                        new_protocol_error(
                            ProtocolErrorKind::InvalidData,
                            "unexpected result field",
                        ),
                    );
                },
            };
            let inner = decode_content(reg, &e.variants[k].inner, cx, protocol)?;
            protocol.read_field_end()?;
            let ghost after_inner = protocol.remaining();
            proof {
                lemma_field_begin_consumes(after_inner);
            }
            let stop = protocol.read_field_begin()?;
            if stop.field_type != TType::Stop {
                return Err(
                    new_protocol_error(ProtocolErrorKind::InvalidData, "unexpected result field"),
                );
            }
            protocol.read_field_end()?;
            protocol.read_struct_end()?;
            Ok(Value::Variant(k, Box::new(inner)))
        },
    }
}

/// Reads a struct: the fields up to the stop sentinel. A known field must
/// travel under the tag of its type; an unknown one is skipped; a field
/// that must be present and is not makes the struct invalid data.
pub fn decode_struct(
    reg: &Registry,
    s: &StructSchema,
    cx: &MsgContext,
    protocol: &mut TBinaryInputProtocol<bytes::BytesMut>,
) -> (r: Result<Vec<Option<Value>>, Error>)
    ensures
        final(protocol).is_strict() == old(protocol).is_strict(),
        match parse_fields(
            reg@,
            s@.fields,
            cx.header(),
            old(protocol).remaining(),
            empty_slots(s@.fields.len()),
        ) {
            Ok((ms, rest)) => r is Ok && slot_models_of(r->Ok_0) == ms
                && final(protocol).remaining() == rest
                && rest.len() <= old(protocol).remaining().len(),
            Err(f) => r is Err && r->Err_0.fault() == f,
        },
    decreases old(protocol).remaining().len(), 0nat, 0nat,
{
    let ghost input = protocol.remaining();
    let ghost init = empty_slots(s@.fields.len());
    let mut slots: Vec<Option<Value>> = Vec::new();
    let mut n: usize = 0;
    while n < s.fields.len()
        invariant
            n <= s.fields.len(),
            slots.len() == n,
            forall|j: int| 0 <= j < n ==> (#[trigger] slots[j]) is None,
        decreases s.fields.len() - n,
    {
        slots.push(None);
        n = n + 1;
    }
    assert(slot_models_of(slots) =~= init);
    protocol.read_struct_begin()?;
    loop
        invariant_except_break
            parse_fields(
                reg@,
                s@.fields,
                cx.header(),
                protocol.remaining(),
                slot_models_of(slots),
            ) == parse_fields(reg@, s@.fields, cx.header(), input, init),
        invariant
            protocol.is_strict() == old(protocol).is_strict(),
            input == old(protocol).remaining(),
            protocol.remaining().len() <= input.len(),
            slots.len() == s.fields.len(),
            init == empty_slots(s@.fields.len()),
        ensures
            parse_fields(reg@, s@.fields, cx.header(), input, init) == (match first_missing(
                s@.fields,
                slot_models_of(slots),
                0,
            ) {
                Some(j) => Err::<(Seq<Option<ValueModel>>, Seq<u8>), Fault>(
                    missing_field(s@.fields[j].name),
                ),
                None => Ok::<(Seq<Option<ValueModel>>, Seq<u8>), Fault>(
                    (slot_models_of(slots), protocol.remaining()),
                ),
            }),
        decreases protocol.remaining().len(),
    {
        let ghost here = protocol.remaining();
        proof {
            lemma_field_begin_consumes(here);
        }
        let ident = protocol.read_field_begin()?;
        if ident.field_type == TType::Stop {
            break ;
        }
        let ghost after_header = protocol.remaining();
        match s.find_field(ident.id.unwrap()) {
            Some(j) => {
                ttype_comparing(ident.field_type, s.fields[j].field_type.to_ttype())?;
                let content = decode_content(reg, &s.fields[j].field_type, cx, protocol)?;
                let ghost before = slots;
                slots.set(j, Some(content));
                proof {
                    lemma_slot_models_update(before, slots, j as int, Some(content));
                }
            },
            None => {
                proof {
                    lemma_parse_skip_suffix(
                        ident.field_type,
                        after_header,
                        MAXIMUM_SKIP_DEPTH as nat,
                    );
                }
                protocol.skip(ident.field_type)?;
            },
        }
        protocol.read_field_end()?;
    }
    protocol.read_struct_end()?;
    match s.first_missing(&slots) {
        Some(j) => Err(named_error("field ", &s.fields[j].name, " is required")),
        None => Ok(slots),
    }
}

/// Reads a value of a dispatch enum: the payload of the variant that
/// bears the method name of the context. A name that no variant bears is
/// refused before anything is read: the reader is left as it was.
pub fn decode_dispatch(
    reg: &Registry,
    e: &EnumSchema,
    cx: &MsgContext,
    protocol: &mut TBinaryInputProtocol<bytes::BytesMut>,
) -> (r: Result<Value, Error>)
    ensures
        has_decoded(
            *final(protocol),
            *old(protocol),
            r,
            parse_dispatch(reg@, e@, cx.header(), old(protocol).remaining()),
        ),
        find_variant_name(e@.variants, cx.header().name, 0) is None ==> *final(protocol) == *old(
            protocol,
        ),
{
    match e.find_variant_name(&cx.identifier.name) {
        None => {
            let mut message = String::from_str("unknown method ");
            message.append(cx.identifier.name.as_str());
            Err(new_application_error(ApplicationErrorKind::UnknownMethod, message.as_str()))
        },
        Some(k) => {
            let inner = decode_content(reg, &e.variants[k].inner, cx, protocol)?;
            Ok(Value::Variant(k, Box::new(inner)))
        },
    }
}

} // verus!
