//! Definitions of structs and enums, and the wire format they induce.
//!
//! A struct travels as its present fields, each behind a header with the
//! field's type and id, and a stop sentinel. An enum travels as a struct
//! with one field, whose id names the variant. A dispatch enum has no
//! image of its own: its payload travels bare and the variant is chosen by
//! the method name of the message.

use vstd::prelude::*;
use vstd::utf8::*;

use crate::binary::{fits_i32, MAXIMUM_SKIP_DEPTH};
use crate::context::Header;
use crate::errors::{ApplicationErrorKind, Fault, ProtocolErrorKind};
use crate::protocol::TType;
use crate::types::{rank, ttype_of, FieldType, TypeModel};
use crate::utils::mismatch_text;
use crate::unique::{distinct_of, merged};
use crate::value::ValueModel;
use crate::wire::{
    parse_bool, parse_byte, parse_bytes, parse_double_bits, parse_field_begin, parse_i16, parse_i32,
    parse_i64, parse_i8, parse_list_begin, parse_map_begin, parse_skip, parse_string, short_input,
    wire_bool, wire_byte, wire_bytes, wire_double_bits, wire_field_begin, wire_field_stop, wire_i16,
    wire_i32, wire_i64, wire_i8, wire_list_begin, wire_map_begin, wire_string, Parsed,
};

verus! {

/// Whether a field must be present.
#[derive(Clone, Copy, Debug, PartialEq, Eq, Structural)]
pub enum Required {
    /// The field is always written, and reading fails without it.
    True,
    /// The field is written where it is set, and may be missing.
    False,
    /// The field must be set to be written, and may be missing on
    /// reading.
    Unspecified,
}

impl Default for Required {
    fn default() -> (r: Self)
        ensures
            r == Required::Unspecified,
    {
        Self::Unspecified
    }
}

/// One field of a struct.
#[derive(Debug, Clone)]
pub struct FieldSchema {
    pub name: String,
    pub id: i16,
    pub required: Required,
    pub field_type: FieldType,
}

/// A struct: its name and its fields in declaration order.
#[derive(Debug, Clone)]
pub struct StructSchema {
    pub name: String,
    pub fields: Vec<FieldSchema>,
}

/// One variant of an enum: its name, the id of its field, and the type of
/// its payload. A dispatch enum does not use the id.
#[derive(Debug, Clone)]
pub struct VariantSchema {
    pub name: String,
    pub id: i16,
    pub inner: FieldType,
}

/// An enum: its name and its variants in declaration order.
#[derive(Debug, Clone)]
pub struct EnumSchema {
    pub name: String,
    pub variants: Vec<VariantSchema>,
    pub dispatch_only: bool,
}

/// A named type.
#[derive(Debug, Clone)]
pub enum Definition {
    Struct(StructSchema),
    Enum(EnumSchema),
}

/// The named types that descriptors may refer to.
#[derive(Debug, Clone)]
pub struct Registry {
    pub definitions: Vec<Definition>,
}

// ---------------------------------------------------------------------
// Definitions as mathematics
// ---------------------------------------------------------------------
/// One field of a struct, as mathematics.
pub struct FieldModel {
    pub name: Seq<char>,
    pub id: i16,
    pub required: Required,
    pub field_type: TypeModel,
}

/// A struct, as mathematics.
pub struct StructModel {
    pub name: Seq<char>,
    pub fields: Seq<FieldModel>,
}

/// One variant of an enum, as mathematics.
pub struct VariantModel {
    pub name: Seq<char>,
    pub id: i16,
    pub inner: TypeModel,
}

/// An enum, as mathematics.
pub struct EnumModel {
    pub name: Seq<char>,
    pub variants: Seq<VariantModel>,
    pub dispatch_only: bool,
}

/// A named type, as mathematics.
pub enum DefinitionModel {
    Struct(StructModel),
    Enum(EnumModel),
}

/// The named types that descriptors may refer to, as mathematics.
pub struct RegistryModel {
    pub definitions: Seq<DefinitionModel>,
}

impl DefinitionModel {
    /// The name that descriptors refer to.
    pub open spec fn name(self) -> Seq<char> {
        match self {
            DefinitionModel::Struct(s) => s.name,
            DefinitionModel::Enum(e) => e.name,
        }
    }
}

impl View for FieldSchema {
    type V = FieldModel;

    open spec fn view(&self) -> FieldModel {
        FieldModel {
            name: self.name@,
            id: self.id,
            required: self.required,
            field_type: self.field_type@,
        }
    }
}

impl View for StructSchema {
    type V = StructModel;

    open spec fn view(&self) -> StructModel {
        StructModel {
            name: self.name@,
            fields: Seq::new(self.fields@.len(), |i: int| self.fields@[i]@),
        }
    }
}

impl View for VariantSchema {
    type V = VariantModel;

    open spec fn view(&self) -> VariantModel {
        VariantModel { name: self.name@, id: self.id, inner: self.inner@ }
    }
}

impl View for EnumSchema {
    type V = EnumModel;

    open spec fn view(&self) -> EnumModel {
        EnumModel {
            name: self.name@,
            variants: Seq::new(self.variants@.len(), |i: int| self.variants@[i]@),
            dispatch_only: self.dispatch_only,
        }
    }
}

impl View for Definition {
    type V = DefinitionModel;

    open spec fn view(&self) -> DefinitionModel {
        match self {
            Definition::Struct(s) => DefinitionModel::Struct(s@),
            Definition::Enum(e) => DefinitionModel::Enum(e@),
        }
    }
}

impl View for Registry {
    type V = RegistryModel;

    open spec fn view(&self) -> RegistryModel {
        RegistryModel {
            definitions: Seq::new(self.definitions@.len(), |i: int| self.definitions@[i]@),
        }
    }
}

/// The fault of a value that does not have the shape of its type, and of
/// a descriptor that names no definition.
pub open spec fn mismatch() -> Fault {
    Fault::Protocol(ProtocolErrorKind::InvalidData, "value does not match its type"@)
}

/// The fault of a string or a container too long for its length prefix.
pub open spec fn oversize() -> Fault {
    crate::wire::oversize()
}

/// The fault of a method name that no variant of a dispatch enum bears.
pub open spec fn unknown_method(name: Seq<char>) -> Fault {
    Fault::Application(ApplicationErrorKind::UnknownMethod, "unknown method "@ + name)
}

/// The fault of writing a struct whose field of this name must be set
/// and is not.
pub open spec fn unset_field(name: Seq<char>) -> Fault {
    Fault::Protocol(ProtocolErrorKind::InvalidData, "field "@ + name + " must be set"@)
}

/// The fault of reading a struct without its field of this name, which
/// must be present.
pub open spec fn missing_field(name: Seq<char>) -> Fault {
    Fault::Protocol(ProtocolErrorKind::InvalidData, "field "@ + name + " is required"@)
}

/// The fault of reading an enum that is not one known variant and the
/// stop sentinel.
pub open spec fn unexpected_field() -> Fault {
    Fault::Protocol(ProtocolErrorKind::InvalidData, "unexpected result field"@)
}

/// The fault of a field that travels under another tag than that of its
/// type.
pub open spec fn wrong_tag(found: TType, expected: TType) -> Fault {
    Fault::Protocol(ProtocolErrorKind::InvalidData, mismatch_text(found, expected))
}

/// The index of the first definition at or after `from` with this name.
pub open spec fn find_definition(defs: Seq<DefinitionModel>, name: Seq<char>, from: int) -> Option<int>
    decreases defs.len() - from,
{
    if from < 0 || from >= defs.len() {
        None
    } else if defs[from].name() == name {
        Some(from)
    } else {
        find_definition(defs, name, from + 1)
    }
}

/// The index of the first field at or after `from` with this id.
pub open spec fn find_field(fields: Seq<FieldModel>, id: i16, from: int) -> Option<int>
    decreases fields.len() - from,
{
    if from < 0 || from >= fields.len() {
        None
    } else if fields[from].id == id {
        Some(from)
    } else {
        find_field(fields, id, from + 1)
    }
}

/// The index of the first variant at or after `from` with this id.
pub open spec fn find_variant_id(variants: Seq<VariantModel>, id: i16, from: int) -> Option<int>
    decreases variants.len() - from,
{
    if from < 0 || from >= variants.len() {
        None
    } else if variants[from].id == id {
        Some(from)
    } else {
        find_variant_id(variants, id, from + 1)
    }
}

/// The variant that a field id selects: the first with that id; and, for
/// peers that number the first variant 0, the first with id 1 where none
/// has id 0.
pub open spec fn find_variant(variants: Seq<VariantModel>, id: i16) -> Option<int> {
    match find_variant_id(variants, id, 0) {
        Some(k) => Some(k),
        None => if id == 0 {
            find_variant_id(variants, 1, 0)
        } else {
            None
        },
    }
}

/// The index of the first variant at or after `from` with this name.
pub open spec fn find_variant_name(variants: Seq<VariantModel>, name: Seq<char>, from: int)
    -> Option<int>
    decreases variants.len() - from,
{
    if from < 0 || from >= variants.len() {
        None
    } else if variants[from].name == name {
        Some(from)
    } else {
        find_variant_name(variants, name, from + 1)
    }
}

/// The number of elements that a size on the wire announces: a size below
/// one announces none.
pub open spec fn announced(n: i32) -> nat {
    if n > 0 {
        n as nat
    } else {
        0
    }
}

// ---------------------------------------------------------------------
// Images
// ---------------------------------------------------------------------
/// The image `r`, behind the bytes `done`.
pub open spec fn behind(done: Seq<u8>, r: Result<Seq<u8>, Fault>) -> Result<Seq<u8>, Fault> {
    match r {
        Ok(tail) => Ok(done + tail),
        Err(f) => Err(f),
    }
}

/// The bytes of a value of the given type, or the fault for which it is
/// refused: a value that does not have the shape of the type, a descriptor
/// that names no definition, a length that does not fit its prefix, a
/// field that must be set and is not.
pub open spec fn image_content(reg: RegistryModel, ty: TypeModel, v: ValueModel) -> Result<
    Seq<u8>,
    Fault,
>
    decreases v, 1nat, 0nat,
{
    match ty {
        TypeModel::String => match v {
            ValueModel::Text(s) => if fits_i32(encode_utf8(s).len()) {
                Ok(wire_string(s))
            } else {
                Err(oversize())
            },
            _ => Err(mismatch()),
        },
        TypeModel::Bool => match v {
            ValueModel::Bool(b) => Ok(wire_bool(b)),
            _ => Err(mismatch()),
        },
        TypeModel::I8 => match v {
            ValueModel::I8(i) => Ok(wire_i8(i)),
            _ => Err(mismatch()),
        },
        TypeModel::I16 => match v {
            ValueModel::I16(i) => Ok(wire_i16(i)),
            _ => Err(mismatch()),
        },
        TypeModel::I32 => match v {
            ValueModel::I32(i) => Ok(wire_i32(i)),
            _ => Err(mismatch()),
        },
        TypeModel::I64 => match v {
            ValueModel::I64(i) => Ok(wire_i64(i)),
            _ => Err(mismatch()),
        },
        TypeModel::Double => match v {
            ValueModel::Double(bits) => Ok(wire_double_bits(bits)),
            _ => Err(mismatch()),
        },
        TypeModel::Byte => match v {
            ValueModel::Byte(b) => Ok(wire_byte(b)),
            _ => Err(mismatch()),
        },
        TypeModel::Binary => match v {
            ValueModel::Binary(b) => if fits_i32(b.len()) {
                Ok(wire_bytes(b))
            } else {
                Err(oversize())
            },
            _ => Err(mismatch()),
        },
        TypeModel::Void => match v {
            ValueModel::Void => Ok(Seq::empty()),
            _ => Err(mismatch()),
        },
        TypeModel::Ident(name) => match find_definition(reg.definitions, name, 0) {
            None => Err(mismatch()),
            Some(d) => image_definition(reg, reg.definitions[d], v),
        },
        TypeModel::List(e) => match v {
            ValueModel::List(items) => if !fits_i32(items.len()) {
                Err(oversize())
            } else {
                behind(
                    wire_list_begin(ttype_of(*e), items.len() as i32),
                    image_items(reg, *e, items, 0),
                )
            },
            _ => Err(mismatch()),
        },
        TypeModel::SetOf(e) => match v {
            ValueModel::SetOf(items) => if !fits_i32(items.len()) {
                Err(oversize())
            } else {
                behind(
                    wire_list_begin(ttype_of(*e), items.len() as i32),
                    image_items(reg, *e, items, 0),
                )
            },
            _ => Err(mismatch()),
        },
        TypeModel::MapOf(k, val) => match v {
            ValueModel::MapOf(entries) => if !fits_i32(entries.len()) {
                Err(oversize())
            } else {
                behind(
                    wire_map_begin(ttype_of(*k), ttype_of(*val), entries.len() as i32),
                    image_entries(reg, *k, *val, entries, 0),
                )
            },
            _ => Err(mismatch()),
        },
    }
}

/// The bytes of the elements from index `i` on, one after the other.
pub open spec fn image_items(reg: RegistryModel, elem: TypeModel, items: Seq<ValueModel>, i: int)
    -> Result<Seq<u8>, Fault>
    decreases items, 0nat, items.len() - i,
{
    if i < 0 || i >= items.len() {
        Ok(Seq::empty())
    } else {
        match image_content(reg, elem, items[i]) {
            Err(f) => Err(f),
            Ok(b) => match image_items(reg, elem, items, i + 1) {
                Err(f) => Err(f),
                Ok(tail) => Ok(b + tail),
            },
        }
    }
}

/// The bytes of the entries from index `i` on: each key, then its value.
pub open spec fn image_entries(
    reg: RegistryModel,
    key: TypeModel,
    value: TypeModel,
    entries: Seq<(ValueModel, ValueModel)>,
    i: int,
) -> Result<Seq<u8>, Fault>
    decreases entries, 0nat, entries.len() - i,
{
    if i < 0 || i >= entries.len() {
        Ok(Seq::empty())
    } else {
        match image_content(reg, key, entries[i].0) {
            Err(f) => Err(f),
            Ok(kb) => match image_content(reg, value, entries[i].1) {
                Err(f) => Err(f),
                Ok(vb) => match image_entries(reg, key, value, entries, i + 1) {
                    Err(f) => Err(f),
                    Ok(tail) => Ok(kb + vb + tail),
                },
            },
        }
    }
}

/// The bytes of a value of a named type. A dispatch enum has none.
pub open spec fn image_definition(reg: RegistryModel, def: DefinitionModel, v: ValueModel) -> Result<
    Seq<u8>,
    Fault,
>
    decreases v, 0nat, 0nat,
{
    match (def, v) {
        (DefinitionModel::Struct(s), ValueModel::Struct(slots)) => image_struct(reg, s, slots),
        (DefinitionModel::Enum(e), ValueModel::Variant(k, inner)) => if e.dispatch_only || !(0 <= k
            < e.variants.len()) {
            Err(mismatch())
        } else {
            match image_content(reg, e.variants[k].inner, *inner) {
                Err(f) => Err(f),
                Ok(b) => Ok(
                    wire_field_begin(ttype_of(e.variants[k].inner), e.variants[k].id) + b
                        + wire_field_stop(),
                ),
            }
        },
        _ => Err(mismatch()),
    }
}

/// The bytes of a struct with the given slots.
pub open spec fn image_struct(reg: RegistryModel, s: StructModel, slots: Seq<Option<ValueModel>>)
    -> Result<Seq<u8>, Fault>
    decreases slots, 1nat, 0nat,
{
    if slots.len() != s.fields.len() {
        Err(mismatch())
    } else {
        image_fields(reg, s.fields, slots, 0)
    }
}

/// The bytes of the fields from index `i` on, and the stop sentinel. An
/// empty slot is passed over where the field may be missing, and is
/// refused where it must be set.
pub open spec fn image_fields(
    reg: RegistryModel,
    fields: Seq<FieldModel>,
    slots: Seq<Option<ValueModel>>,
    i: int,
) -> Result<Seq<u8>, Fault>
    decreases slots, 0nat, slots.len() - i,
{
    if i < 0 || i >= slots.len() || i >= fields.len() {
        Ok(wire_field_stop())
    } else {
        match slots[i] {
            None => if fields[i].required == Required::False {
                image_fields(reg, fields, slots, i + 1)
            } else {
                Err(unset_field(fields[i].name))
            },
            Some(x) => match image_content(reg, fields[i].field_type, x) {
                Err(f) => Err(f),
                Ok(b) => match image_fields(reg, fields, slots, i + 1) {
                    Err(f) => Err(f),
                    Ok(tail) => Ok(
                        wire_field_begin(ttype_of(fields[i].field_type), fields[i].id) + b + tail,
                    ),
                },
            },
        }
    }
}

/// The bytes of a value of a dispatch enum: those of its payload.
pub open spec fn image_dispatch(reg: RegistryModel, e: EnumModel, v: ValueModel) -> Result<
    Seq<u8>,
    Fault,
> {
    match v {
        ValueModel::Variant(k, inner) => if 0 <= k < e.variants.len() {
            image_content(reg, e.variants[k].inner, *inner)
        } else {
            Err(mismatch())
        },
        _ => Err(mismatch()),
    }
}

// ---------------------------------------------------------------------
// The shape of a value
// ---------------------------------------------------------------------
/// Whether a value has the shape of a type: the constructor that the type
/// asks for, and values of the shape of the element types within.
pub open spec fn shaped(reg: RegistryModel, ty: TypeModel, v: ValueModel) -> bool
    decreases v, 1nat,
{
    match ty {
        TypeModel::String => v is Text,
        TypeModel::Bool => v is Bool,
        TypeModel::I8 => v is I8,
        TypeModel::I16 => v is I16,
        TypeModel::I32 => v is I32,
        TypeModel::I64 => v is I64,
        TypeModel::Double => v is Double,
        TypeModel::Byte => v is Byte,
        TypeModel::Binary => v is Binary,
        TypeModel::Void => v is Void,
        TypeModel::Ident(name) => match find_definition(reg.definitions, name, 0) {
            None => false,
            Some(d) => shaped_definition(reg, reg.definitions[d], v),
        },
        TypeModel::List(e) => match v {
            ValueModel::List(items) => forall|i: int|
                0 <= i < items.len() ==> shaped(reg, *e, #[trigger] items[i]),
            _ => false,
        },
        TypeModel::SetOf(e) => match v {
            ValueModel::SetOf(items) => forall|i: int|
                0 <= i < items.len() ==> shaped(reg, *e, #[trigger] items[i]),
            _ => false,
        },
        TypeModel::MapOf(k, val) => match v {
            ValueModel::MapOf(entries) => forall|i: int|
                0 <= i < entries.len() ==> shaped(reg, *k, (#[trigger] entries[i]).0) && shaped(
                    reg,
                    *val,
                    entries[i].1,
                ),
            _ => false,
        },
    }
}

/// Whether a value has the shape of a named type: a struct with one slot
/// for each field, each filled slot of the shape of its field; or a
/// variant of the enum with a payload of the variant's shape.
pub open spec fn shaped_definition(reg: RegistryModel, def: DefinitionModel, v: ValueModel) -> bool
    decreases v, 0nat,
{
    match def {
        DefinitionModel::Struct(s) => match v {
            ValueModel::Struct(slots) => slots.len() == s.fields.len() && forall|j: int|
                0 <= j < slots.len() ==> match #[trigger] slots[j] {
                    Some(x) => shaped(reg, s.fields[j].field_type, x),
                    None => true,
                },
            _ => false,
        },
        DefinitionModel::Enum(e) => match v {
            ValueModel::Variant(k, inner) => 0 <= k < e.variants.len() && shaped(
                reg,
                e.variants[k].inner,
                *inner,
            ),
            _ => false,
        },
    }
}

/// Every value of the sequence has the shape of the type.
pub open spec fn all_shaped(reg: RegistryModel, elem: TypeModel, items: Seq<ValueModel>) -> bool {
    forall|i: int| 0 <= i < items.len() ==> shaped(reg, elem, #[trigger] items[i])
}

/// Every key and every value of the entries has the shape of its type.
pub open spec fn entries_shaped(
    reg: RegistryModel,
    key: TypeModel,
    value: TypeModel,
    entries: Seq<(ValueModel, ValueModel)>,
) -> bool {
    forall|i: int|
        0 <= i < entries.len() ==> shaped(reg, key, (#[trigger] entries[i]).0) && shaped(
            reg,
            value,
            entries[i].1,
        )
}

/// There is one slot for each field, and every filled slot has the shape
/// of its field.
pub open spec fn slots_shaped(
    reg: RegistryModel,
    fields: Seq<FieldModel>,
    slots: Seq<Option<ValueModel>>,
) -> bool {
    slots.len() == fields.len() && forall|j: int|
        0 <= j < slots.len() ==> match #[trigger] slots[j] {
            Some(x) => shaped(reg, fields[j].field_type, x),
            None => true,
        }
}

// ---------------------------------------------------------------------
// Reading
// ---------------------------------------------------------------------
/// Puts a constructor around the item that was read.
pub open spec fn parse_as<T>(p: Parsed<T>, wrap: spec_fn(T) -> ValueModel) -> Parsed<ValueModel> {
    match p {
        Ok((x, rest)) => Ok((wrap(x), rest)),
        Err(f) => Err(f),
    }
}

/// What a reader recovers for the given type from the front of `input`.
/// The element types that the headers of containers announce are not
/// consulted: the elements are read as the descriptor says. An element
/// that a set already holds is dropped, and a key that a map already
/// holds gets the value it came with last.
pub open spec fn parse_content(reg: RegistryModel, ty: TypeModel, cx: Header, input: Seq<u8>) -> Parsed<
    ValueModel,
>
    decreases input.len(), rank(ty), 0nat,
{
    match ty {
        TypeModel::String => parse_as(parse_string(input), |s: Seq<char>| ValueModel::Text(s)),
        TypeModel::Bool => parse_as(parse_bool(input), |b: bool| ValueModel::Bool(b)),
        TypeModel::I8 => parse_as(parse_i8(input), |i: i8| ValueModel::I8(i)),
        TypeModel::I16 => parse_as(parse_i16(input), |i: i16| ValueModel::I16(i)),
        TypeModel::I32 => parse_as(parse_i32(input), |i: i32| ValueModel::I32(i)),
        TypeModel::I64 => parse_as(parse_i64(input), |i: i64| ValueModel::I64(i)),
        TypeModel::Double => parse_as(
            parse_double_bits(input),
            |bits: u64| ValueModel::Double(bits),
        ),
        TypeModel::Byte => parse_as(parse_byte(input), |b: u8| ValueModel::Byte(b)),
        TypeModel::Binary => parse_as(parse_bytes(input), |b: Seq<u8>| ValueModel::Binary(b)),
        TypeModel::Void => Ok((ValueModel::Void, input)),
        TypeModel::Ident(name) => match find_definition(reg.definitions, name, 0) {
            None => Err(mismatch()),
            Some(d) => parse_definition(reg, reg.definitions[d], cx, input),
        },
        TypeModel::List(e) => match parse_list_begin(input) {
            Err(f) => Err(f),
            Ok(((_, n), rest)) => if rest.len() < input.len() {
                parse_as(
                    parse_items(reg, *e, cx, announced(n), rest, Seq::empty()),
                    |items: Seq<ValueModel>| ValueModel::List(items),
                )
            } else {
                Err(short_input())
            },
        },
        TypeModel::SetOf(e) => match parse_list_begin(input) {
            Err(f) => Err(f),
            Ok(((_, n), rest)) => if rest.len() < input.len() {
                parse_as(
                    parse_items(reg, *e, cx, announced(n), rest, Seq::empty()),
                    |items: Seq<ValueModel>| ValueModel::SetOf(distinct_of(items)),
                )
            } else {
                Err(short_input())
            },
        },
        TypeModel::MapOf(k, v) => match parse_map_begin(input) {
            Err(f) => Err(f),
            Ok(((_, _, n), rest)) => if rest.len() < input.len() {
                parse_as(
                    parse_entries(reg, *k, *v, cx, announced(n), rest, Seq::empty()),
                    |entries: Seq<(ValueModel, ValueModel)>| ValueModel::MapOf(merged(entries)),
                )
            } else {
                Err(short_input())
            },
        },
    }
}

/// What a reader recovers for `count` elements, behind those in `acc`.
pub open spec fn parse_items(
    reg: RegistryModel,
    elem: TypeModel,
    cx: Header,
    count: nat,
    input: Seq<u8>,
    acc: Seq<ValueModel>,
) -> Parsed<Seq<ValueModel>>
    decreases input.len(), rank(elem) + 1, count,
{
    if count == 0 {
        Ok((acc, input))
    } else {
        match parse_content(reg, elem, cx, input) {
            Err(f) => Err(f),
            Ok((v, rest)) => if rest.len() <= input.len() {
                parse_items(reg, elem, cx, (count - 1) as nat, rest, acc.push(v))
            } else {
                Err(short_input())
            },
        }
    }
}

/// What a reader recovers for `count` entries, behind those in `acc`.
pub open spec fn parse_entries(
    reg: RegistryModel,
    key: TypeModel,
    value: TypeModel,
    cx: Header,
    count: nat,
    input: Seq<u8>,
    acc: Seq<(ValueModel, ValueModel)>,
) -> Parsed<Seq<(ValueModel, ValueModel)>>
    decreases input.len(), rank(key) + rank(value) + 1, count,
{
    if count == 0 {
        Ok((acc, input))
    } else {
        match parse_content(reg, key, cx, input) {
            Err(f) => Err(f),
            Ok((k, rest)) => if rest.len() <= input.len() {
                match parse_content(reg, value, cx, rest) {
                    Err(f) => Err(f),
                    Ok((v, rest2)) => if rest2.len() <= rest.len() {
                        parse_entries(
                            reg,
                            key,
                            value,
                            cx,
                            (count - 1) as nat,
                            rest2,
                            acc.push((k, v)),
                        )
                    } else {
                        Err(short_input())
                    },
                }
            } else {
                Err(short_input())
            },
        }
    }
}

/// What a reader recovers for a named type. An enum is one field, whose
/// id selects the variant, and the stop sentinel. A dispatch enum cannot
/// be read here.
pub open spec fn parse_definition(reg: RegistryModel, def: DefinitionModel, cx: Header, input: Seq<u8>)
    -> Parsed<ValueModel>
    decreases input.len(), 0nat, 1nat,
{
    match def {
        DefinitionModel::Struct(s) => parse_as(
            parse_fields(
                reg,
                s.fields,
                cx,
                input,
                empty_slots(s.fields.len()),
            ),
            |slots: Seq<Option<ValueModel>>| ValueModel::Struct(slots),
        ),
        DefinitionModel::Enum(e) => if e.dispatch_only {
            Err(mismatch())
        } else {
            match parse_field_begin(input) {
                Err(f) => Err(f),
                Ok(((t, id), rest)) => if t == TType::Stop {
                    Err(unexpected_field())
                } else {
                    match find_variant(e.variants, id) {
                        None => Err(unexpected_field()),
                        Some(k) => if rest.len() < input.len() && 0 <= k < e.variants.len() {
                            match parse_content(reg, e.variants[k].inner, cx, rest) {
                                Err(f) => Err(f),
                                Ok((inner, rest2)) => match parse_field_begin(rest2) {
                                    Err(f) => Err(f),
                                    Ok(((t2, _), rest3)) => if t2 == TType::Stop {
                                        Ok((ValueModel::Variant(k, Box::new(inner)), rest3))
                                    } else {
                                        Err(unexpected_field())
                                    },
                                },
                            }
                        } else {
                            Err(short_input())
                        },
                    }
                },
            }
        },
    }
}

/// As many empty slots as a struct has fields.
pub open spec fn empty_slots(n: nat) -> Seq<Option<ValueModel>> {
    Seq::new(n, |i: int| None::<ValueModel>)
}

/// The index of the first field at or after `from` that must be present
/// and has an empty slot.
pub open spec fn first_missing(
    fields: Seq<FieldModel>,
    slots: Seq<Option<ValueModel>>,
    from: int,
) -> Option<int>
    decreases fields.len() - from,
{
    if from < 0 || from >= fields.len() || from >= slots.len() {
        None
    } else if fields[from].required == Required::True && slots[from] is None {
        Some(from)
    } else {
        first_missing(fields, slots, from + 1)
    }
}

/// Whether a field that must be present has an empty slot.
pub open spec fn missing_required(fields: Seq<FieldModel>, slots: Seq<Option<ValueModel>>)
    -> bool {
    exists|j: int|
        0 <= j < fields.len() && j < slots.len() && fields[j].required == Required::True
            && (#[trigger] slots[j]) is None
}

/// What a reader recovers for the fields of a struct, starting from the
/// slots gathered so far. Each header is looked up by id among the fields:
/// a known field must travel under the tag of its type and fills its slot;
/// an unknown one is skipped. At the stop sentinel every field that must
/// be present has to be there: the first that is not is named in the
/// fault.
pub open spec fn parse_fields(
    reg: RegistryModel,
    fields: Seq<FieldModel>,
    cx: Header,
    input: Seq<u8>,
    slots: Seq<Option<ValueModel>>,
) -> Parsed<Seq<Option<ValueModel>>>
    decreases input.len(), 0nat, 0nat,
{
    match parse_field_begin(input) {
        Err(f) => Err(f),
        Ok(((t, id), rest)) => if t == TType::Stop {
            match first_missing(fields, slots, 0) {
                Some(j) => Err(missing_field(fields[j].name)),
                None => Ok((slots, rest)),
            }
        } else {
            match find_field(fields, id, 0) {
                Some(j) => if t != ttype_of(fields[j].field_type) {
                    Err(wrong_tag(t, ttype_of(fields[j].field_type)))
                } else if rest.len() < input.len() {
                    match parse_content(reg, fields[j].field_type, cx, rest) {
                        Err(f) => Err(f),
                        Ok((v, rest2)) => if rest2.len() < input.len() {
                            parse_fields(reg, fields, cx, rest2, slots.update(j, Some(v)))
                        } else {
                            Err(short_input())
                        },
                    }
                } else {
                    Err(short_input())
                },
                None => match parse_skip(t, rest, MAXIMUM_SKIP_DEPTH as nat) {
                    Err(f) => Err(f),
                    Ok((_, rest2)) => if rest2.len() < input.len() {
                        parse_fields(reg, fields, cx, rest2, slots)
                    } else {
                        Err(short_input())
                    },
                },
            }
        },
    }
}

/// What a reader recovers for a dispatch enum: the payload of the variant
/// that bears the method name of the message. A name that no variant
/// bears is answered with an application error of kind `UnknownMethod`.
pub open spec fn parse_dispatch(reg: RegistryModel, e: EnumModel, cx: Header, input: Seq<u8>)
    -> Parsed<ValueModel> {
    match find_variant_name(e.variants, cx.name, 0) {
        None => Err(unknown_method(cx.name)),
        Some(k) => parse_as(
            parse_content(reg, e.variants[k].inner, cx, input),
            |inner: ValueModel| ValueModel::Variant(k, Box::new(inner)),
        ),
    }
}

} // verus!
