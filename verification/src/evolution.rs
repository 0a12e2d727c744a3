//! What holds between a reader and a writer whose definitions of a struct
//! differ by one field: a reader that does not know a field passes over
//! it, and a reader that insists on a field refuses a struct without it.

use vstd::prelude::*;

use crate::binary::MAXIMUM_SKIP_DEPTH;
use crate::context::Header;
use crate::errors::Fault;
use crate::protocol::TType;
use crate::roundtrip::{
    distinct_field_ids, gathered, lemma_content_roundtrip, lemma_find_definition_range,
    lemma_first_missing, lemma_gathered_start, lemma_known_field_step, lemma_ttype_of_not_stop,
    required_present, valid_registry,
};
use crate::schema::{
    empty_slots, find_definition, find_field, first_missing, image_content, image_definition,
    image_entries, image_fields, image_items, missing_field, missing_required, parse_content,
    parse_fields, DefinitionModel, FieldModel, RegistryModel, Required,
};
use crate::types::{ttype_of, TypeModel};
use crate::value::{proper, slots_proper, ValueModel};
use crate::wire::{
    lemma_be_bytes_len, lemma_bytes_roundtrip, lemma_field_begin_roundtrip,
    lemma_field_stop_roundtrip, lemma_list_begin_roundtrip, lemma_map_begin_roundtrip,
    lemma_take_prefix, parse_skip, parse_skip_entries, parse_skip_fields, parse_skip_items,
    wire_field_begin, wire_field_stop, wire_list_begin, wire_map_begin,
};

verus! {

// ---------------------------------------------------------------------
// Every struct that is read has the fields that must be present
// ---------------------------------------------------------------------
/// Whatever the bytes, a struct that the reader accepts has every field
/// that must be present: where one is missing at the stop sentinel, the
/// reader fails with invalid data.
pub proof fn lemma_required_enforced(
    reg: RegistryModel,
    fields: Seq<FieldModel>,
    cx: Header,
    input: Seq<u8>,
    acc: Seq<Option<ValueModel>>,
)
    ensures
        parse_fields(reg, fields, cx, input, acc) matches Ok((slots, _)) ==> !missing_required(
            fields,
            slots,
        ),
    decreases input.len(),
{
    match crate::wire::parse_field_begin(input) {
        Err(_) => {},
        Ok(((t, id), rest)) => {
            if t == TType::Stop {
                lemma_first_missing(fields, acc, 0);
            } else {
                match find_field(fields, id, 0) {
                    Some(j) => {
                        if t == ttype_of(fields[j].field_type) && rest.len() < input.len() {
                            match parse_content(reg, fields[j].field_type, cx, rest) {
                                Err(_) => {},
                                Ok((v, rest2)) => {
                                    if rest2.len() < input.len() {
                                        lemma_required_enforced(
                                            reg,
                                            fields,
                                            cx,
                                            rest2,
                                            acc.update(j, Some(v)),
                                        );
                                    }
                                },
                            }
                        }
                    },
                    None => {
                        match parse_skip(t, rest, MAXIMUM_SKIP_DEPTH as nat) {
                            Err(_) => {},
                            Ok((_, rest2)) => {
                                if rest2.len() < input.len() {
                                    lemma_required_enforced(reg, fields, cx, rest2, acc);
                                }
                            },
                        }
                    },
                }
            }
        },
    }
}

/// No field at or after `from` has this id.
pub open spec fn id_unused(fields: Seq<FieldModel>, id: i16) -> bool {
    forall|j: int| 0 <= j < fields.len() ==> (#[trigger] fields[j]).id != id
}

/// An id that no field has is not found.
pub proof fn lemma_find_field_unused(fields: Seq<FieldModel>, id: i16, from: int)
    requires
        id_unused(fields, id),
        0 <= from,
    ensures
        find_field(fields, id, from) is None,
    decreases fields.len() - from,
{
    if from < fields.len() {
        assert(fields[from].id != id);
        lemma_find_field_unused(fields, id, from + 1);
    }
}

/// A struct written without a field is refused with invalid data by a
/// reader whose definition has that field in addition and insists on it;
/// the fault names the field.
pub proof fn lemma_missing_required_field(
    reg: RegistryModel,
    written: Seq<FieldModel>,
    extra: FieldModel,
    cx: Header,
    slots: Seq<Option<ValueModel>>,
    rest: Seq<u8>,
)
    requires
        valid_registry(reg),
        distinct_field_ids(written),
        id_unused(written, extra.id),
        extra.required == Required::True,
        slots.len() == written.len(),
        slots_proper(slots),
        image_fields(reg, written, slots, 0) is Ok,
    ensures
        parse_fields(
            reg,
            written.push(extra),
            cx,
            image_fields(reg, written, slots, 0)->Ok_0 + rest,
            empty_slots(written.len() + 1),
        ) == Err::<(Seq<Option<ValueModel>>, Seq<u8>), Fault>(missing_field(extra.name)),
{
    lemma_missing_from(reg, written, extra, cx, slots, 0, rest, empty_slots(written.len() + 1));
}

/// The ids of the fields stay distinct when a field with an unused id is
/// added.
pub proof fn lemma_distinct_push(fields: Seq<FieldModel>, extra: FieldModel)
    requires
        distinct_field_ids(fields),
        id_unused(fields, extra.id),
    ensures
        distinct_field_ids(fields.push(extra)),
{
    let all = fields.push(extra);
    assert forall|i: int, j: int| 0 <= i < all.len() && 0 <= j < all.len() && i != j implies (
    #[trigger] all[i]).id != (#[trigger] all[j]).id by {
        if i < fields.len() {
            assert(all[i] == fields[i]);
        }
        if j < fields.len() {
            assert(all[j] == fields[j]);
        }
    }
}

proof fn lemma_missing_from(
    reg: RegistryModel,
    written: Seq<FieldModel>,
    extra: FieldModel,
    cx: Header,
    slots: Seq<Option<ValueModel>>,
    i: int,
    rest: Seq<u8>,
    acc: Seq<Option<ValueModel>>,
)
    requires
        valid_registry(reg),
        distinct_field_ids(written),
        id_unused(written, extra.id),
        extra.required == Required::True,
        slots.len() == written.len(),
        0 <= i <= written.len(),
        slots_proper(slots),
        image_fields(reg, written, slots, i) is Ok,
        acc.len() == written.len() + 1,
        acc[written.len() as int] is None,
        forall|j: int|
            0 <= j < i && (#[trigger] written[j]).required == Required::True ==> acc[j] is Some,
    ensures
        parse_fields(
            reg,
            written.push(extra),
            cx,
            image_fields(reg, written, slots, i)->Ok_0 + rest,
            acc,
        ) == Err::<(Seq<Option<ValueModel>>, Seq<u8>), Fault>(missing_field(extra.name)),
    decreases written.len() - i,
{
    let read = written.push(extra);
    if i == written.len() {
        lemma_field_stop_roundtrip(rest);
        assert(read[written.len() as int].required == Required::True);
        lemma_first_missing(read, acc, 0);
        assert(first_missing(read, acc, 0) == Some(written.len() as int)) by {
            assert forall|j: int| 0 <= j < written.len() implies !((#[trigger] read[j]).required
                == Required::True && acc[j] is None) by {
                assert(read[j] == written[j]);
            }
        }
    } else {
        crate::roundtrip::lemma_image_fields_unfold(reg, written, slots, i);
        match slots[i] {
            None => {
                lemma_missing_from(reg, written, extra, cx, slots, i + 1, rest, acc);
            },
            Some(x) => {
                let ty = written[i].field_type;
                let b = image_content(reg, ty, x)->Ok_0;
                let tail = image_fields(reg, written, slots, i + 1)->Ok_0;
                let head = wire_field_begin(ttype_of(ty), written[i].id);
                let behind_it = tail + rest;
                assert(head + (b + tail) + rest =~= head + (b + behind_it));
                lemma_content_roundtrip(reg, ty, cx, x, behind_it);
                lemma_distinct_push(written, extra);
                assert(read[i] == written[i]);
                lemma_known_field_step(reg, read, cx, i, x, b, behind_it, acc);
                lemma_missing_from(
                    reg,
                    written,
                    extra,
                    cx,
                    slots,
                    i + 1,
                    rest,
                    acc.update(i, Some(x)),
                );
            },
        }
    }
}


// ---------------------------------------------------------------------
// Passing over what was written
// ---------------------------------------------------------------------
/// A value that a reader can pass over with `depth` levels to spare: it
/// holds no void, a type without an image, and every container and struct
/// in it takes one level.
pub open spec fn skippable(v: ValueModel, depth: nat) -> bool
    decreases v,
{
    depth >= 1 && match v {
        ValueModel::Void => false,
        ValueModel::List(items) => forall|i: int|
            0 <= i < items.len() ==> skippable(#[trigger] items[i], (depth - 1) as nat),
        ValueModel::SetOf(items) => forall|i: int|
            0 <= i < items.len() ==> skippable(#[trigger] items[i], (depth - 1) as nat),
        ValueModel::MapOf(entries) => forall|i: int|
            0 <= i < entries.len() ==> skippable((#[trigger] entries[i]).0, (depth - 1) as nat)
                && skippable(entries[i].1, (depth - 1) as nat),
        ValueModel::Struct(slots) => forall|i: int|
            0 <= i < slots.len() ==> ((#[trigger] slots[i]) matches Some(x) ==> skippable(
                x,
                (depth - 1) as nat,
            )),
        ValueModel::Variant(_, inner) => skippable(*inner, (depth - 1) as nat),
        _ => true,
    }
}

/// Skipping an image of `n` bytes that is all there takes exactly it.
proof fn lemma_discard_prefix(image: Seq<u8>, rest: Seq<u8>)
    ensures
        crate::wire::parse_discard(crate::wire::parse_take(image + rest, image.len())) == Ok::<
            ((), Seq<u8>),
            Fault,
        >(((), rest)),
{
    lemma_take_prefix(image, rest);
}

/// A reader passes over the image of any value that can be written and
/// is skippable, and stands behind it.
pub proof fn lemma_skip_content(
    reg: RegistryModel,
    ty: TypeModel,
    v: ValueModel,
    rest: Seq<u8>,
    depth: nat,
)
    requires
        image_content(reg, ty, v) is Ok,
        skippable(v, depth),
    ensures
        parse_skip(ttype_of(ty), image_content(reg, ty, v)->Ok_0 + rest, depth) == Ok::<
            ((), Seq<u8>),
            Fault,
        >(((), rest)),
    decreases v, 1nat, 0nat,
{
    let image = image_content(reg, ty, v)->Ok_0;
    match ty {
        TypeModel::String => {
            lemma_bytes_roundtrip(vstd::utf8::encode_utf8(v->Text_0), rest);
        },
        TypeModel::Bool => {
            lemma_discard_prefix(image, rest);
        },
        TypeModel::I8 => {
            lemma_be_bytes_len(v->I8_0 as int, 1);
            lemma_discard_prefix(image, rest);
        },
        TypeModel::I16 => {
            lemma_be_bytes_len(v->I16_0 as int, 2);
            lemma_discard_prefix(image, rest);
        },
        TypeModel::I32 => {
            lemma_be_bytes_len(v->I32_0 as int, 4);
            lemma_discard_prefix(image, rest);
        },
        TypeModel::I64 => {
            lemma_be_bytes_len(v->I64_0 as int, 8);
            lemma_discard_prefix(image, rest);
        },
        TypeModel::Double => {
            lemma_be_bytes_len(v->Double_0 as int, 8);
            lemma_discard_prefix(image, rest);
        },
        TypeModel::Byte => {
            lemma_discard_prefix(image, rest);
        },
        TypeModel::Binary => {
            lemma_bytes_roundtrip(v->Binary_0, rest);
        },
        TypeModel::Void => {},
        TypeModel::Ident(name) => {
            lemma_find_definition_range(reg.definitions, name, 0);
            let d = find_definition(reg.definitions, name, 0)->Some_0;
            lemma_skip_definition(reg, reg.definitions[d], v, rest, depth);
        },
        TypeModel::List(e) => {
            let items = v->List_0;
            let body = image_items(reg, *e, items, 0)->Ok_0;
            let head = wire_list_begin(ttype_of(*e), items.len() as i32);
            assert(image + rest =~= head + (body + rest));
            lemma_list_begin_roundtrip(ttype_of(*e), items.len() as i32, body + rest);
            lemma_skip_items(reg, *e, items, 0, rest, (depth - 1) as nat);
        },
        TypeModel::SetOf(e) => {
            let items = v->SetOf_0;
            let body = image_items(reg, *e, items, 0)->Ok_0;
            let head = wire_list_begin(ttype_of(*e), items.len() as i32);
            assert(image + rest =~= head + (body + rest));
            lemma_list_begin_roundtrip(ttype_of(*e), items.len() as i32, body + rest);
            lemma_skip_items(reg, *e, items, 0, rest, (depth - 1) as nat);
        },
        TypeModel::MapOf(k, val) => {
            let entries = v->MapOf_0;
            let body = image_entries(reg, *k, *val, entries, 0)->Ok_0;
            let head = wire_map_begin(ttype_of(*k), ttype_of(*val), entries.len() as i32);
            assert(image + rest =~= head + (body + rest));
            lemma_map_begin_roundtrip(
                ttype_of(*k),
                ttype_of(*val),
                entries.len() as i32,
                body + rest,
            );
            lemma_skip_entries(reg, *k, *val, entries, 0, rest, (depth - 1) as nat);
        },
    }
}

/// A reader passes over the elements from index `i` on.
pub proof fn lemma_skip_items(
    reg: RegistryModel,
    elem: TypeModel,
    items: Seq<ValueModel>,
    i: int,
    rest: Seq<u8>,
    depth: nat,
)
    requires
        0 <= i <= items.len(),
        image_items(reg, elem, items, i) is Ok,
        forall|j: int| 0 <= j < items.len() ==> skippable(#[trigger] items[j], depth),
    ensures
        parse_skip_items(
            ttype_of(elem),
            (items.len() - i) as nat,
            image_items(reg, elem, items, i)->Ok_0 + rest,
            depth,
        ) == Ok::<((), Seq<u8>), Fault>(((), rest)),
    decreases items, 0nat, items.len() - i,
{
    let image = image_items(reg, elem, items, i)->Ok_0;
    if i == items.len() {
        assert(image + rest =~= rest);
    } else {
        let b = image_content(reg, elem, items[i])->Ok_0;
        let tail = image_items(reg, elem, items, i + 1)->Ok_0;
        assert(image + rest =~= b + (tail + rest));
        lemma_skip_content(reg, elem, items[i], tail + rest, depth);
        lemma_skip_items(reg, elem, items, i + 1, rest, depth);
    }
}

/// A reader passes over the entries from index `i` on.
pub proof fn lemma_skip_entries(
    reg: RegistryModel,
    key: TypeModel,
    value: TypeModel,
    entries: Seq<(ValueModel, ValueModel)>,
    i: int,
    rest: Seq<u8>,
    depth: nat,
)
    requires
        0 <= i <= entries.len(),
        image_entries(reg, key, value, entries, i) is Ok,
        forall|j: int|
            0 <= j < entries.len() ==> skippable((#[trigger] entries[j]).0, depth) && skippable(
                entries[j].1,
                depth,
            ),
    ensures
        parse_skip_entries(
            ttype_of(key),
            ttype_of(value),
            (entries.len() - i) as nat,
            image_entries(reg, key, value, entries, i)->Ok_0 + rest,
            depth,
        ) == Ok::<((), Seq<u8>), Fault>(((), rest)),
    decreases entries, 0nat, entries.len() - i,
{
    let image = image_entries(reg, key, value, entries, i)->Ok_0;
    if i == entries.len() {
        assert(image + rest =~= rest);
    } else {
        let kb = image_content(reg, key, entries[i].0)->Ok_0;
        let vb = image_content(reg, value, entries[i].1)->Ok_0;
        let tail = image_entries(reg, key, value, entries, i + 1)->Ok_0;
        assert(image + rest =~= kb + (vb + (tail + rest)));
        lemma_skip_content(reg, key, entries[i].0, vb + (tail + rest), depth);
        lemma_skip_content(reg, value, entries[i].1, tail + rest, depth);
        lemma_skip_entries(reg, key, value, entries, i + 1, rest, depth);
    }
}

/// A reader passes over the image of a value of a named type as over a
/// struct.
pub proof fn lemma_skip_definition(
    reg: RegistryModel,
    def: DefinitionModel,
    v: ValueModel,
    rest: Seq<u8>,
    depth: nat,
)
    requires
        image_definition(reg, def, v) is Ok,
        skippable(v, depth),
    ensures
        parse_skip(TType::Struct, image_definition(reg, def, v)->Ok_0 + rest, depth) == Ok::<
            ((), Seq<u8>),
            Fault,
        >(((), rest)),
    decreases v, 0nat, 0nat,
{
    let image = image_definition(reg, def, v)->Ok_0;
    match def {
        DefinitionModel::Struct(s) => {
            let slots = v->Struct_0;
            lemma_skip_fields(reg, s.fields, slots, 0, rest, (depth - 1) as nat);
        },
        DefinitionModel::Enum(e) => {
            let k = v->Variant_0;
            let inner = *v->Variant_1;
            let variant = e.variants[k];
            let b = image_content(reg, variant.inner, inner)->Ok_0;
            let head = wire_field_begin(ttype_of(variant.inner), variant.id);
            let behind_it = wire_field_stop() + rest;
            assert(image + rest =~= head + (b + behind_it));
            lemma_skip_content(reg, variant.inner, inner, behind_it, (depth - 1) as nat);
            lemma_skip_field_step(
                ttype_of(variant.inner),
                variant.id,
                b,
                behind_it,
                (depth - 1) as nat,
            );
            lemma_field_stop_roundtrip(rest);
            lemma_ttype_of_not_stop(variant.inner);
        },
    }
}

/// A field that is passed over leaves the reader behind it, where the
/// skipping of fields goes on.
pub proof fn lemma_skip_field_step(t: TType, id: i16, b: Seq<u8>, behind_it: Seq<u8>, depth: nat)
    requires
        t != TType::Stop,
        parse_skip(t, b + behind_it, depth) == Ok::<((), Seq<u8>), Fault>(((), behind_it)),
    ensures
        parse_skip_fields(wire_field_begin(t, id) + (b + behind_it), depth) == parse_skip_fields(
            behind_it,
            depth,
        ),
{
    let head = wire_field_begin(t, id);
    lemma_field_begin_roundtrip(t, id, b + behind_it);
    assert(head.len() == 3) by {
        lemma_be_bytes_len(id as int, 2);
    }
    assert(behind_it.len() < (head + (b + behind_it)).len());
}

/// A reader passes over the fields from index `i` on and the stop
/// sentinel.
pub proof fn lemma_skip_fields(
    reg: RegistryModel,
    fields: Seq<FieldModel>,
    slots: Seq<Option<ValueModel>>,
    i: int,
    rest: Seq<u8>,
    depth: nat,
)
    requires
        slots.len() == fields.len(),
        0 <= i <= fields.len(),
        image_fields(reg, fields, slots, i) is Ok,
        forall|j: int|
            0 <= j < slots.len() ==> ((#[trigger] slots[j]) matches Some(x) ==> skippable(
                x,
                depth,
            )),
    ensures
        parse_skip_fields(image_fields(reg, fields, slots, i)->Ok_0 + rest, depth) == Ok::<
            ((), Seq<u8>),
            Fault,
        >(((), rest)),
    decreases slots, 0nat, slots.len() - i,
{
    if i == fields.len() {
        lemma_field_stop_roundtrip(rest);
    } else {
        crate::roundtrip::lemma_image_fields_unfold(reg, fields, slots, i);
        match slots[i] {
            None => {
                lemma_skip_fields(reg, fields, slots, i + 1, rest, depth);
            },
            Some(x) => {
                let ty = fields[i].field_type;
                let b = image_content(reg, ty, x)->Ok_0;
                let tail = image_fields(reg, fields, slots, i + 1)->Ok_0;
                let head = wire_field_begin(ttype_of(ty), fields[i].id);
                let behind_it = tail + rest;
                assert(head + (b + tail) + rest =~= head + (b + behind_it));
                lemma_ttype_of_not_stop(ty);
                lemma_skip_content(reg, ty, x, behind_it, depth);
                lemma_skip_field_step(ttype_of(ty), fields[i].id, b, behind_it, depth);
                lemma_skip_fields(reg, fields, slots, i + 1, rest, depth);
            },
        }
    }
}

// ---------------------------------------------------------------------
// A reader that does not know the last field
// ---------------------------------------------------------------------
/// A struct written with one more field than the reader knows is read as
/// the struct without that field: the reader passes over the field it
/// does not know.
pub proof fn lemma_unknown_field_skipped(
    reg: RegistryModel,
    known: Seq<FieldModel>,
    extra: FieldModel,
    cx: Header,
    slots: Seq<Option<ValueModel>>,
    rest: Seq<u8>,
)
    requires
        valid_registry(reg),
        distinct_field_ids(known),
        id_unused(known, extra.id),
        slots.len() == known.len() + 1,
        slots_proper(slots),
        image_fields(reg, known.push(extra), slots, 0) is Ok,
        slots.last() matches Some(x) ==> skippable(x, MAXIMUM_SKIP_DEPTH as nat),
    ensures
        parse_fields(
            reg,
            known,
            cx,
            image_fields(reg, known.push(extra), slots, 0)->Ok_0 + rest,
            empty_slots(known.len()),
        ) == Ok::<(Seq<Option<ValueModel>>, Seq<u8>), Fault>((slots.drop_last(), rest)),
{
    lemma_gathered_start(slots.drop_last(), known);
    lemma_extended_from(reg, known, extra, cx, slots, 0, rest, empty_slots(known.len()));
}

/// A field that the reader knows, written with a value, is read into its
/// slot, and reading goes on behind it.
proof fn lemma_extended_known_step(
    reg: RegistryModel,
    known: Seq<FieldModel>,
    extra: FieldModel,
    cx: Header,
    slots: Seq<Option<ValueModel>>,
    i: int,
    rest: Seq<u8>,
    acc: Seq<Option<ValueModel>>,
)
    requires
        valid_registry(reg),
        distinct_field_ids(known),
        slots.len() == known.len() + 1,
        0 <= i < known.len(),
        slots[i] is Some,
        proper(slots[i]->Some_0),
        image_fields(reg, known.push(extra), slots, i) is Ok,
    ensures
        image_fields(reg, known.push(extra), slots, i + 1) is Ok,
        parse_fields(
            reg,
            known,
            cx,
            image_fields(reg, known.push(extra), slots, i)->Ok_0 + rest,
            acc,
        ) == parse_fields(
            reg,
            known,
            cx,
            image_fields(reg, known.push(extra), slots, i + 1)->Ok_0 + rest,
            acc.update(i, slots[i]),
        ),
{
    let written = known.push(extra);
    crate::roundtrip::lemma_image_fields_unfold(reg, written, slots, i);
    assert(written[i] == known[i]);
    let x = slots[i]->Some_0;
    let ty = known[i].field_type;
    let b = image_content(reg, ty, x)->Ok_0;
    let tail = image_fields(reg, written, slots, i + 1)->Ok_0;
    let behind_it = tail + rest;
    let head = wire_field_begin(ttype_of(ty), known[i].id);
    assert(head + (b + tail) + rest =~= head + (b + behind_it));
    lemma_content_roundtrip(reg, ty, cx, x, behind_it);
    lemma_known_field_step(reg, known, cx, i, x, b, behind_it, acc);
}

/// The field that the reader does not know, written with a value, is
/// passed over, and reading goes on behind it.
proof fn lemma_extended_unknown_step(
    reg: RegistryModel,
    known: Seq<FieldModel>,
    extra: FieldModel,
    cx: Header,
    slots: Seq<Option<ValueModel>>,
    rest: Seq<u8>,
    acc: Seq<Option<ValueModel>>,
)
    requires
        valid_registry(reg),
        id_unused(known, extra.id),
        slots.len() == known.len() + 1,
        slots.last() is Some,
        skippable(slots.last()->Some_0, MAXIMUM_SKIP_DEPTH as nat),
        image_fields(reg, known.push(extra), slots, known.len() as int) is Ok,
    ensures
        image_fields(reg, known.push(extra), slots, known.len() as int + 1) is Ok,
        parse_fields(
            reg,
            known,
            cx,
            image_fields(reg, known.push(extra), slots, known.len() as int)->Ok_0 + rest,
            acc,
        ) == parse_fields(
            reg,
            known,
            cx,
            image_fields(reg, known.push(extra), slots, known.len() as int + 1)->Ok_0 + rest,
            acc,
        ),
{
    let written = known.push(extra);
    let i = known.len() as int;
    crate::roundtrip::lemma_image_fields_unfold(reg, written, slots, i);
    assert(written[i] == extra);
    assert(slots[i] == slots.last());
    let x = slots[i]->Some_0;
    let ty = extra.field_type;
    let b = image_content(reg, ty, x)->Ok_0;
    let tail = image_fields(reg, written, slots, i + 1)->Ok_0;
    let behind_it = tail + rest;
    let head = wire_field_begin(ttype_of(ty), extra.id);
    assert(head + (b + tail) + rest =~= head + (b + behind_it));
    lemma_skip_content(reg, ty, x, behind_it, MAXIMUM_SKIP_DEPTH as nat);
    lemma_unknown_field_step(reg, known, cx, ty, extra.id, b, behind_it, acc);
}

proof fn lemma_extended_from(
    reg: RegistryModel,
    known: Seq<FieldModel>,
    extra: FieldModel,
    cx: Header,
    slots: Seq<Option<ValueModel>>,
    i: int,
    rest: Seq<u8>,
    acc: Seq<Option<ValueModel>>,
)
    requires
        valid_registry(reg),
        distinct_field_ids(known),
        id_unused(known, extra.id),
        slots.len() == known.len() + 1,
        0 <= i <= known.len() + 1,
        slots_proper(slots),
        image_fields(reg, known.push(extra), slots, i) is Ok,
        slots.last() matches Some(x) ==> skippable(x, MAXIMUM_SKIP_DEPTH as nat),
        gathered(slots.drop_last(), acc, if i <= known.len() {
            i
        } else {
            known.len() as int
        }),
        required_present(known, slots.drop_last(), if i <= known.len() {
            i
        } else {
            known.len() as int
        }),
    ensures
        parse_fields(
            reg,
            known,
            cx,
            image_fields(reg, known.push(extra), slots, i)->Ok_0 + rest,
            acc,
        ) == Ok::<(Seq<Option<ValueModel>>, Seq<u8>), Fault>((slots.drop_last(), rest)),
    decreases known.len() + 1 - i,
{
    let written = known.push(extra);
    let kept = slots.drop_last();
    if i == known.len() + 1 {
        crate::roundtrip::lemma_gathered_done(known, kept, acc);
        crate::roundtrip::lemma_fields_finish(reg, known, cx, kept, rest);
    } else {
        crate::roundtrip::lemma_image_fields_unfold(reg, written, slots, i);
        if i < known.len() {
            assert(written[i] == known[i]);
            assert(kept[i] == slots[i]);
            crate::roundtrip::lemma_gathered_step(known, kept, acc, i);
            if slots[i] is Some {
                lemma_extended_known_step(reg, known, extra, cx, slots, i, rest, acc);
                lemma_extended_from(
                    reg,
                    known,
                    extra,
                    cx,
                    slots,
                    i + 1,
                    rest,
                    acc.update(i, slots[i]),
                );
            } else {
                lemma_extended_from(reg, known, extra, cx, slots, i + 1, rest, acc);
            }
        } else {
            assert(slots[i] == slots.last());
            if slots[i] is Some {
                lemma_extended_unknown_step(reg, known, extra, cx, slots, rest, acc);
            }
            lemma_extended_from(reg, known, extra, cx, slots, i + 1, rest, acc);
        }
    }
}

/// A field whose id the reader does not know is passed over, and reading
/// goes on behind it with the slots as they were.
pub proof fn lemma_unknown_field_step(
    reg: RegistryModel,
    fields: Seq<FieldModel>,
    cx: Header,
    ty: TypeModel,
    id: i16,
    b: Seq<u8>,
    behind_it: Seq<u8>,
    acc: Seq<Option<ValueModel>>,
)
    requires
        id_unused(fields, id),
        parse_skip(ttype_of(ty), b + behind_it, MAXIMUM_SKIP_DEPTH as nat) == Ok::<
            ((), Seq<u8>),
            Fault,
        >(((), behind_it)),
    ensures
        parse_fields(reg, fields, cx, wire_field_begin(ttype_of(ty), id) + (b + behind_it), acc)
            == parse_fields(reg, fields, cx, behind_it, acc),
{
    let head = wire_field_begin(ttype_of(ty), id);
    lemma_ttype_of_not_stop(ty);
    lemma_field_begin_roundtrip(ttype_of(ty), id, b + behind_it);
    lemma_find_field_unused(fields, id, 0);
    assert(head.len() == 3) by {
        lemma_be_bytes_len(id as int, 2);
    }
    assert(behind_it.len() < (head + (b + behind_it)).len());
}

} // verus!
