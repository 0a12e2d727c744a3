//! What the codec of a definition guarantees: a proper value that can be
//! written is read back as it was, and what is read is proper and has the
//! shape of its type.

use vstd::prelude::*;

use crate::binary::MAXIMUM_SKIP_DEPTH;
use crate::context::Header;
use crate::errors::Fault;
use crate::protocol::TType;
use crate::schema::{
    all_shaped, announced, behind, empty_slots, entries_shaped, find_definition, find_field,
    find_variant, find_variant_id, find_variant_name, first_missing, image_content,
    image_definition, image_dispatch, image_entries, image_fields, image_items, missing_field,
    missing_required, parse_content, parse_definition, parse_dispatch, parse_entries, parse_fields,
    parse_items, shaped, shaped_definition, slots_shaped, unknown_method, DefinitionModel,
    EnumModel, FieldModel, RegistryModel, Required, VariantModel,
};
use crate::types::{rank, ttype_of, TypeModel};
use crate::unique::{
    distinct_of, lemma_distinct_of, lemma_distinct_of_set, lemma_merged, lemma_merged_map, merged,
};
use crate::value::{all_proper, entries_proper, proper, slots_proper, ValueModel};
use crate::wire::{
    lemma_bool_roundtrip, lemma_byte_roundtrip, lemma_bytes_roundtrip, lemma_double_roundtrip,
    lemma_field_begin_roundtrip, lemma_field_stop_roundtrip, lemma_i16_roundtrip,
    lemma_i32_roundtrip, lemma_i64_roundtrip, lemma_i8_roundtrip, lemma_list_begin_roundtrip,
    lemma_map_begin_roundtrip, lemma_string_roundtrip, parse_field_begin, parse_list_begin,
    parse_map_begin, parse_skip, wire_field_begin, wire_field_stop, wire_list_begin, wire_map_begin,
};

verus! {

/// No two fields of the struct share an id.
pub open spec fn distinct_field_ids(fields: Seq<FieldModel>) -> bool {
    forall|i: int, j: int|
        0 <= i < fields.len() && 0 <= j < fields.len() && i != j ==> (#[trigger] fields[i]).id != (
        #[trigger] fields[j]).id
}

/// No two variants of the enum share an id.
pub open spec fn distinct_variant_ids(variants: Seq<VariantModel>) -> bool {
    forall|i: int, j: int|
        0 <= i < variants.len() && 0 <= j < variants.len() && i != j ==> (
        #[trigger] variants[i]).id != (#[trigger] variants[j]).id
}

/// No two variants of the enum share a name.
pub open spec fn distinct_variant_names(variants: Seq<VariantModel>) -> bool {
    forall|i: int, j: int|
        0 <= i < variants.len() && 0 <= j < variants.len() && i != j ==> (
        #[trigger] variants[i]).name != (#[trigger] variants[j]).name
}

/// The ids within the definition are unambiguous.
pub open spec fn valid_definition(def: DefinitionModel) -> bool {
    match def {
        DefinitionModel::Struct(s) => distinct_field_ids(s.fields),
        DefinitionModel::Enum(e) => distinct_variant_ids(e.variants),
    }
}

/// The ids within every definition are unambiguous.
pub open spec fn valid_registry(reg: RegistryModel) -> bool {
    forall|d: int| 0 <= d < reg.definitions.len() ==> valid_definition(#[trigger] reg.definitions[d])
}

/// No tag of a type is the stop sentinel.
pub proof fn lemma_ttype_of_not_stop(t: TypeModel)
    ensures
        ttype_of(t) != TType::Stop,
{
}

/// Where ids are distinct, looking up the id of field `i` finds `i`.
pub proof fn lemma_find_field_unique(fields: Seq<FieldModel>, i: int, from: int)
    requires
        distinct_field_ids(fields),
        0 <= from <= i < fields.len(),
    ensures
        find_field(fields, fields[i].id, from) == Some(i),
    decreases i - from,
{
    if from < i {
        assert(fields[from].id != fields[i].id);
        lemma_find_field_unique(fields, i, from + 1);
    }
}

/// Where ids are distinct, looking up the id of variant `k` finds `k`.
pub proof fn lemma_find_variant_unique(variants: Seq<VariantModel>, k: int, from: int)
    requires
        distinct_variant_ids(variants),
        0 <= from <= k < variants.len(),
    ensures
        find_variant_id(variants, variants[k].id, from) == Some(k),
    decreases k - from,
{
    if from < k {
        assert(variants[from].id != variants[k].id);
        lemma_find_variant_unique(variants, k, from + 1);
    }
}

/// Where names are distinct, looking up the name of variant `k` finds
/// `k`.
pub proof fn lemma_find_variant_name_unique(variants: Seq<VariantModel>, k: int, from: int)
    requires
        distinct_variant_names(variants),
        0 <= from <= k < variants.len(),
    ensures
        find_variant_name(variants, variants[k].name, from) == Some(k),
    decreases k - from,
{
    if from < k {
        assert(variants[from].name != variants[k].name);
        lemma_find_variant_name_unique(variants, k, from + 1);
    }
}

/// A definition that a lookup finds is one of the registry.
pub proof fn lemma_find_definition_range(defs: Seq<DefinitionModel>, name: Seq<char>, from: int)
    ensures
        find_definition(defs, name, from) matches Some(d) ==> 0 <= d < defs.len() && from <= d,
    decreases defs.len() - from,
{
    if 0 <= from < defs.len() && defs[from].name() != name {
        lemma_find_definition_range(defs, name, from + 1);
    }
}

/// A proper value of any type that can be written is read back as it
/// was, and the reader stands behind its image.
pub proof fn lemma_content_roundtrip(
    reg: RegistryModel,
    ty: TypeModel,
    cx: Header,
    v: ValueModel,
    rest: Seq<u8>,
)
    requires
        valid_registry(reg),
        proper(v),
        image_content(reg, ty, v) is Ok,
    ensures
        parse_content(reg, ty, cx, image_content(reg, ty, v)->Ok_0 + rest) == Ok::<
            (ValueModel, Seq<u8>),
            Fault,
        >((v, rest)),
    decreases v, 1nat, 0nat,
{
    let image = image_content(reg, ty, v)->Ok_0;
    match ty {
        TypeModel::String => {
            lemma_string_roundtrip(v->Text_0, rest);
        },
        TypeModel::Bool => {
            lemma_bool_roundtrip(v->Bool_0, rest);
        },
        TypeModel::I8 => {
            lemma_i8_roundtrip(v->I8_0, rest);
        },
        TypeModel::I16 => {
            lemma_i16_roundtrip(v->I16_0, rest);
        },
        TypeModel::I32 => {
            lemma_i32_roundtrip(v->I32_0, rest);
        },
        TypeModel::I64 => {
            lemma_i64_roundtrip(v->I64_0, rest);
        },
        TypeModel::Double => {
            lemma_double_roundtrip(v->Double_0, rest);
        },
        TypeModel::Byte => {
            lemma_byte_roundtrip(v->Byte_0, rest);
        },
        TypeModel::Binary => {
            lemma_bytes_roundtrip(v->Binary_0, rest);
        },
        TypeModel::Void => {
            assert(image + rest =~= rest);
        },
        TypeModel::Ident(name) => {
            lemma_find_definition_range(reg.definitions, name, 0);
            let d = find_definition(reg.definitions, name, 0)->Some_0;
            lemma_definition_roundtrip(reg, reg.definitions[d], cx, v, rest);
        },
        TypeModel::List(e) => {
            let items = v->List_0;
            let body = image_items(reg, *e, items, 0)->Ok_0;
            let head = wire_list_begin(ttype_of(*e), items.len() as i32);
            assert(image + rest =~= head + (body + rest));
            lemma_list_begin_roundtrip(ttype_of(*e), items.len() as i32, body + rest);
            assert(items.subrange(0, 0) =~= Seq::<ValueModel>::empty());
            lemma_items_roundtrip(reg, *e, cx, items, 0, rest, Seq::empty());
        },
        TypeModel::SetOf(e) => {
            let items = v->SetOf_0;
            let body = image_items(reg, *e, items, 0)->Ok_0;
            let head = wire_list_begin(ttype_of(*e), items.len() as i32);
            assert(image + rest =~= head + (body + rest));
            lemma_list_begin_roundtrip(ttype_of(*e), items.len() as i32, body + rest);
            assert(items.subrange(0, 0) =~= Seq::<ValueModel>::empty());
            lemma_items_roundtrip(reg, *e, cx, items, 0, rest, Seq::empty());
            lemma_distinct_of_set(items);
        },
        TypeModel::MapOf(k, val) => {
            let entries = v->MapOf_0;
            let body = image_entries(reg, *k, *val, entries, 0)->Ok_0;
            let head = wire_map_begin(ttype_of(*k), ttype_of(*val), entries.len() as i32);
            assert(image + rest =~= head + (body + rest));
            lemma_map_begin_roundtrip(
                ttype_of(*k),
                ttype_of(*val),
                entries.len() as i32,
                body + rest,
            );
            assert(entries.subrange(0, 0) =~= Seq::<(ValueModel, ValueModel)>::empty());
            lemma_entries_roundtrip(reg, *k, *val, cx, entries, 0, rest, Seq::empty());
            lemma_merged_map(entries);
        },
    }
}

/// The elements from index `i` on are read back behind those before.
pub proof fn lemma_items_roundtrip(
    reg: RegistryModel,
    elem: TypeModel,
    cx: Header,
    items: Seq<ValueModel>,
    i: int,
    rest: Seq<u8>,
    acc: Seq<ValueModel>,
)
    requires
        valid_registry(reg),
        0 <= i <= items.len(),
        all_proper(items),
        image_items(reg, elem, items, i) is Ok,
        acc == items.subrange(0, i),
    ensures
        parse_items(
            reg,
            elem,
            cx,
            (items.len() - i) as nat,
            image_items(reg, elem, items, i)->Ok_0 + rest,
            acc,
        ) == Ok::<(Seq<ValueModel>, Seq<u8>), Fault>((items, rest)),
    decreases items, 0nat, items.len() - i,
{
    let image = image_items(reg, elem, items, i)->Ok_0;
    if i == items.len() {
        assert(image + rest =~= rest);
        assert(acc =~= items);
    } else {
        let b = image_content(reg, elem, items[i])->Ok_0;
        let tail = image_items(reg, elem, items, i + 1)->Ok_0;
        assert(image + rest =~= b + (tail + rest));
        lemma_content_roundtrip(reg, elem, cx, items[i], tail + rest);
        assert(acc.push(items[i]) =~= items.subrange(0, i + 1));
        lemma_items_roundtrip(reg, elem, cx, items, i + 1, rest, acc.push(items[i]));
    }
}

/// What the image of the entries from index `i` on is made of.
pub proof fn lemma_image_entries_unfold(
    reg: RegistryModel,
    key: TypeModel,
    value: TypeModel,
    entries: Seq<(ValueModel, ValueModel)>,
    i: int,
)
    requires
        0 <= i < entries.len(),
        image_entries(reg, key, value, entries, i) is Ok,
    ensures
        image_content(reg, key, entries[i].0) is Ok,
        image_content(reg, value, entries[i].1) is Ok,
        image_entries(reg, key, value, entries, i + 1) is Ok,
        image_entries(reg, key, value, entries, i)->Ok_0 == image_content(
            reg,
            key,
            entries[i].0,
        )->Ok_0 + (image_content(reg, value, entries[i].1)->Ok_0 + image_entries(
            reg,
            key,
            value,
            entries,
            i + 1,
        )->Ok_0),
{
    let kb = image_content(reg, key, entries[i].0)->Ok_0;
    let vb = image_content(reg, value, entries[i].1)->Ok_0;
    let tail = image_entries(reg, key, value, entries, i + 1)->Ok_0;
    assert(kb + vb + tail =~= kb + (vb + tail));
}

/// An entry that is read back joins those read before, and reading goes
/// on behind it.
pub proof fn lemma_entry_step(
    reg: RegistryModel,
    key: TypeModel,
    value: TypeModel,
    cx: Header,
    count: nat,
    k: ValueModel,
    v: ValueModel,
    kb: Seq<u8>,
    vb: Seq<u8>,
    behind_it: Seq<u8>,
    acc: Seq<(ValueModel, ValueModel)>,
)
    requires
        count > 0,
        parse_content(reg, key, cx, kb + (vb + behind_it)) == Ok::<(ValueModel, Seq<u8>), Fault>(
            (k, vb + behind_it),
        ),
        parse_content(reg, value, cx, vb + behind_it) == Ok::<(ValueModel, Seq<u8>), Fault>(
            (v, behind_it),
        ),
    ensures
        parse_entries(reg, key, value, cx, count, kb + (vb + behind_it), acc) == parse_entries(
            reg,
            key,
            value,
            cx,
            (count - 1) as nat,
            behind_it,
            acc.push((k, v)),
        ),
{
    assert((vb + behind_it).len() <= (kb + (vb + behind_it)).len());
    assert(behind_it.len() <= (vb + behind_it).len());
}

/// The entry at index `i` is read back and joins those read before, and
/// reading goes on with the entries behind it.
pub proof fn lemma_entries_roundtrip_step(
    reg: RegistryModel,
    key: TypeModel,
    value: TypeModel,
    cx: Header,
    entries: Seq<(ValueModel, ValueModel)>,
    i: int,
    rest: Seq<u8>,
    acc: Seq<(ValueModel, ValueModel)>,
)
    requires
        valid_registry(reg),
        0 <= i < entries.len(),
        proper(entries[i].0),
        proper(entries[i].1),
        image_entries(reg, key, value, entries, i) is Ok,
    ensures
        image_entries(reg, key, value, entries, i + 1) is Ok,
        parse_entries(
            reg,
            key,
            value,
            cx,
            (entries.len() - i) as nat,
            image_entries(reg, key, value, entries, i)->Ok_0 + rest,
            acc,
        ) == parse_entries(
            reg,
            key,
            value,
            cx,
            (entries.len() - i - 1) as nat,
            image_entries(reg, key, value, entries, i + 1)->Ok_0 + rest,
            acc.push(entries[i]),
        ),
    decreases entries, 0nat, 0nat,
{
    lemma_image_entries_unfold(reg, key, value, entries, i);
    let kb = image_content(reg, key, entries[i].0)->Ok_0;
    let vb = image_content(reg, value, entries[i].1)->Ok_0;
    let tail = image_entries(reg, key, value, entries, i + 1)->Ok_0;
    let behind_it = tail + rest;
    assert(kb + (vb + tail) + rest == kb + (vb + behind_it)) by {
        assert(kb + (vb + tail) + rest =~= kb + (vb + behind_it));
    }
    lemma_content_roundtrip(reg, key, cx, entries[i].0, vb + behind_it);
    lemma_content_roundtrip(reg, value, cx, entries[i].1, behind_it);
    lemma_entry_step(
        reg,
        key,
        value,
        cx,
        (entries.len() - i) as nat,
        entries[i].0,
        entries[i].1,
        kb,
        vb,
        behind_it,
        acc,
    );
    assert((entries[i].0, entries[i].1) == entries[i]);
}

/// The entries from index `i` on are read back behind those before.
pub proof fn lemma_entries_roundtrip(
    reg: RegistryModel,
    key: TypeModel,
    value: TypeModel,
    cx: Header,
    entries: Seq<(ValueModel, ValueModel)>,
    i: int,
    rest: Seq<u8>,
    acc: Seq<(ValueModel, ValueModel)>,
)
    requires
        valid_registry(reg),
        0 <= i <= entries.len(),
        entries_proper(entries),
        image_entries(reg, key, value, entries, i) is Ok,
        acc == entries.subrange(0, i),
    ensures
        parse_entries(
            reg,
            key,
            value,
            cx,
            (entries.len() - i) as nat,
            image_entries(reg, key, value, entries, i)->Ok_0 + rest,
            acc,
        ) == Ok::<(Seq<(ValueModel, ValueModel)>, Seq<u8>), Fault>((entries, rest)),
    decreases entries, 0nat, entries.len() - i,
{
    if i == entries.len() {
        assert(image_entries(reg, key, value, entries, i)->Ok_0 + rest =~= rest);
        assert(acc =~= entries);
    } else {
        assert(proper(entries[i].0) && proper(entries[i].1));
        lemma_entries_roundtrip_step(reg, key, value, cx, entries, i, rest, acc);
        assert(acc.push(entries[i]) =~= entries.subrange(0, i + 1));
        lemma_entries_roundtrip(reg, key, value, cx, entries, i + 1, rest, acc.push(entries[i]));
    }
}

/// A proper value of a named type that can be written is read back as
/// it was.
pub proof fn lemma_definition_roundtrip(
    reg: RegistryModel,
    def: DefinitionModel,
    cx: Header,
    v: ValueModel,
    rest: Seq<u8>,
)
    requires
        valid_registry(reg),
        valid_definition(def),
        proper(v),
        image_definition(reg, def, v) is Ok,
    ensures
        parse_definition(reg, def, cx, image_definition(reg, def, v)->Ok_0 + rest) == Ok::<
            (ValueModel, Seq<u8>),
            Fault,
        >((v, rest)),
    decreases v, 0nat, 0nat,
{
    let image = image_definition(reg, def, v)->Ok_0;
    match def {
        DefinitionModel::Struct(s) => {
            let slots = v->Struct_0;
            let acc = empty_slots(s.fields.len());
            lemma_gathered_start(slots, s.fields);
            lemma_fields_roundtrip(reg, s.fields, cx, slots, 0, rest, acc);
        },
        DefinitionModel::Enum(e) => {
            let k = v->Variant_0;
            let inner = *v->Variant_1;
            let variant = e.variants[k];
            let b = image_content(reg, variant.inner, inner)->Ok_0;
            let head = wire_field_begin(ttype_of(variant.inner), variant.id);
            let after_inner = wire_field_stop() + rest;
            let after_head = b + after_inner;
            assert(image + rest =~= head + after_head);
            lemma_ttype_of_not_stop(variant.inner);
            lemma_field_begin_roundtrip(ttype_of(variant.inner), variant.id, after_head);
            lemma_find_variant_unique(e.variants, k, 0);
            lemma_content_roundtrip(reg, variant.inner, cx, inner, after_inner);
            lemma_field_stop_roundtrip(rest);
            assert(ValueModel::Variant(k, Box::new(inner)) == v);
        },
    }
}

/// A field that is read back fills its slot, and reading goes on behind
/// it.
pub proof fn lemma_known_field_step(
    reg: RegistryModel,
    fields: Seq<FieldModel>,
    cx: Header,
    i: int,
    x: ValueModel,
    b: Seq<u8>,
    behind_it: Seq<u8>,
    acc: Seq<Option<ValueModel>>,
)
    requires
        distinct_field_ids(fields),
        0 <= i < fields.len(),
        parse_content(reg, fields[i].field_type, cx, b + behind_it) == Ok::<
            (ValueModel, Seq<u8>),
            Fault,
        >((x, behind_it)),
    ensures
        parse_fields(
            reg,
            fields,
            cx,
            wire_field_begin(ttype_of(fields[i].field_type), fields[i].id) + (b + behind_it),
            acc,
        ) == parse_fields(reg, fields, cx, behind_it, acc.update(i, Some(x))),
{
    let ty = fields[i].field_type;
    let head = wire_field_begin(ttype_of(ty), fields[i].id);
    let after_head = b + behind_it;
    lemma_ttype_of_not_stop(ty);
    lemma_field_begin_roundtrip(ttype_of(ty), fields[i].id, after_head);
    lemma_find_field_unique(fields, i, 0);
    assert(head.len() == 3) by {
        crate::wire::lemma_be_bytes_len(fields[i].id as int, 2);
    }
    assert(behind_it.len() < (head + after_head).len());
    assert(after_head.len() < (head + after_head).len());
}

/// What `first_missing` finds is the first field that must be present and
/// has an empty slot; it finds none only where there is none.
pub proof fn lemma_first_missing(
    fields: Seq<FieldModel>,
    slots: Seq<Option<ValueModel>>,
    from: int,
)
    requires
        0 <= from,
    ensures
        match first_missing(fields, slots, from) {
            Some(j) => from <= j < fields.len() && j < slots.len() && fields[j].required
                == Required::True && slots[j] is None && forall|i: int|
                from <= i < j ==> !((#[trigger] fields[i]).required == Required::True
                    && slots[i] is None),
            None => forall|j: int|
                from <= j < fields.len() && j < slots.len() ==> !((#[trigger] fields[j]).required
                    == Required::True && slots[j] is None),
        },
    decreases fields.len() - from,
{
    if from < fields.len() && from < slots.len() && !(fields[from].required == Required::True
        && slots[from] is None) {
        lemma_first_missing(fields, slots, from + 1);
    }
}

/// At the stop sentinel, slots that hold every field that must be present
/// are what the reader returns.
pub proof fn lemma_fields_finish(
    reg: RegistryModel,
    fields: Seq<FieldModel>,
    cx: Header,
    slots: Seq<Option<ValueModel>>,
    rest: Seq<u8>,
)
    requires
        slots.len() == fields.len(),
        forall|j: int|
            0 <= j < fields.len() && (#[trigger] fields[j]).required == Required::True
                ==> slots[j] is Some,
    ensures
        parse_fields(reg, fields, cx, wire_field_stop() + rest, slots) == Ok::<
            (Seq<Option<ValueModel>>, Seq<u8>),
            Fault,
        >((slots, rest)),
{
    lemma_field_stop_roundtrip(rest);
    lemma_first_missing(fields, slots, 0);
    assert(first_missing(fields, slots, 0) is None) by {
        if first_missing(fields, slots, 0) is Some {
            let j = first_missing(fields, slots, 0)->Some_0;
            assert(fields[j].required == Required::True);
        }
    }
}

/// At the stop sentinel, slots that lack a field that must be present are
/// refused with invalid data, and the fault names the first such field.
pub proof fn lemma_fields_refused(
    reg: RegistryModel,
    fields: Seq<FieldModel>,
    cx: Header,
    slots: Seq<Option<ValueModel>>,
    rest: Seq<u8>,
)
    requires
        missing_required(fields, slots),
    ensures
        first_missing(fields, slots, 0) matches Some(j) && 0 <= j < fields.len() && parse_fields(
            reg,
            fields,
            cx,
            wire_field_stop() + rest,
            slots,
        ) == Err::<(Seq<Option<ValueModel>>, Seq<u8>), Fault>(missing_field(fields[j].name)),
{
    lemma_field_stop_roundtrip(rest);
    lemma_first_missing(fields, slots, 0);
    let j = choose|j: int|
        0 <= j < fields.len() && j < slots.len() && fields[j].required == Required::True && (
        #[trigger] slots[j]) is None;
    assert(fields[j].required == Required::True);
}

/// The slots agree with `acc` before index `i`, and `acc` is empty from
/// there on.
#[verifier::opaque]
pub open spec fn gathered(
    slots: Seq<Option<ValueModel>>,
    acc: Seq<Option<ValueModel>>,
    i: int,
) -> bool {
    &&& acc.len() == slots.len()
    &&& forall|j: int| 0 <= j < i && j < slots.len() ==> (#[trigger] acc[j]) == slots[j]
    &&& forall|j: int| i <= j < slots.len() ==> (#[trigger] acc[j]) is None
}

/// Every field before index `i` that must be present has its slot filled.
#[verifier::opaque]
pub open spec fn required_present(
    fields: Seq<FieldModel>,
    slots: Seq<Option<ValueModel>>,
    i: int,
) -> bool {
    forall|j: int|
        0 <= j < i && j < fields.len() && (#[trigger] fields[j]).required == Required::True
            ==> slots[j] is Some
}

/// Nothing is gathered at the start.
pub proof fn lemma_gathered_start(slots: Seq<Option<ValueModel>>, fields: Seq<FieldModel>)
    ensures
        gathered(slots, empty_slots(slots.len()), 0),
        required_present(fields, slots, 0),
{
    reveal(gathered);
    reveal(required_present);
}

/// Gathering moves on by one slot: an empty slot needs nothing, a filled
/// one is put in place.
pub proof fn lemma_gathered_step(
    fields: Seq<FieldModel>,
    slots: Seq<Option<ValueModel>>,
    acc: Seq<Option<ValueModel>>,
    i: int,
)
    requires
        slots.len() == fields.len(),
        0 <= i < slots.len(),
        gathered(slots, acc, i),
        required_present(fields, slots, i),
        slots[i] is None ==> fields[i].required == Required::False,
    ensures
        gathered(
            slots,
            if slots[i] is Some {
                acc.update(i, slots[i])
            } else {
                acc
            },
            i + 1,
        ),
        required_present(fields, slots, i + 1),
{
    reveal(gathered);
    reveal(required_present);
}

/// Once every slot is gathered, `acc` is the slots, and every field that
/// must be present is there.
pub proof fn lemma_gathered_done(
    fields: Seq<FieldModel>,
    slots: Seq<Option<ValueModel>>,
    acc: Seq<Option<ValueModel>>,
)
    requires
        slots.len() == fields.len(),
        gathered(slots, acc, slots.len() as int),
        required_present(fields, slots, slots.len() as int),
    ensures
        acc == slots,
        forall|j: int|
            0 <= j < fields.len() && (#[trigger] fields[j]).required == Required::True
                ==> slots[j] is Some,
{
    reveal(gathered);
    reveal(required_present);
    assert(acc =~= slots);
}

/// What the image of the fields from index `i` on is made of.
pub proof fn lemma_image_fields_unfold(
    reg: RegistryModel,
    fields: Seq<FieldModel>,
    slots: Seq<Option<ValueModel>>,
    i: int,
)
    requires
        slots.len() == fields.len(),
        0 <= i < fields.len(),
        image_fields(reg, fields, slots, i) is Ok,
    ensures
        image_fields(reg, fields, slots, i + 1) is Ok,
        match slots[i] {
            None => fields[i].required == Required::False && image_fields(reg, fields, slots, i)
                == image_fields(reg, fields, slots, i + 1),
            Some(x) => image_content(reg, fields[i].field_type, x) is Ok && image_fields(
                reg,
                fields,
                slots,
                i,
            )->Ok_0 == wire_field_begin(ttype_of(fields[i].field_type), fields[i].id) + (
            image_content(reg, fields[i].field_type, x)->Ok_0 + image_fields(
                reg,
                fields,
                slots,
                i + 1,
            )->Ok_0),
        },
{
    match slots[i] {
        None => {},
        Some(x) => {
            let head = wire_field_begin(ttype_of(fields[i].field_type), fields[i].id);
            let b = image_content(reg, fields[i].field_type, x)->Ok_0;
            let tail = image_fields(reg, fields, slots, i + 1)->Ok_0;
            assert(head + b + tail =~= head + (b + tail));
        },
    }
}

/// The fields from index `i` on are read back into their slots, beside
/// those read before.
pub proof fn lemma_fields_roundtrip(
    reg: RegistryModel,
    fields: Seq<FieldModel>,
    cx: Header,
    slots: Seq<Option<ValueModel>>,
    i: int,
    rest: Seq<u8>,
    acc: Seq<Option<ValueModel>>,
)
    requires
        valid_registry(reg),
        distinct_field_ids(fields),
        slots.len() == fields.len(),
        0 <= i <= fields.len(),
        slots_proper(slots),
        image_fields(reg, fields, slots, i) is Ok,
        gathered(slots, acc, i),
        required_present(fields, slots, i),
    ensures
        parse_fields(reg, fields, cx, image_fields(reg, fields, slots, i)->Ok_0 + rest, acc)
            == Ok::<(Seq<Option<ValueModel>>, Seq<u8>), Fault>((slots, rest)),
    decreases slots, 0nat, slots.len() - i,
{
    if i == fields.len() {
        lemma_gathered_done(fields, slots, acc);
        lemma_fields_finish(reg, fields, cx, slots, rest);
    } else {
        lemma_image_fields_unfold(reg, fields, slots, i);
        lemma_gathered_step(fields, slots, acc, i);
        match slots[i] {
            None => {
                lemma_fields_roundtrip(reg, fields, cx, slots, i + 1, rest, acc);
            },
            Some(x) => {
                let ty = fields[i].field_type;
                let b = image_content(reg, ty, x)->Ok_0;
                let tail = image_fields(reg, fields, slots, i + 1)->Ok_0;
                let head = wire_field_begin(ttype_of(ty), fields[i].id);
                let behind_it = tail + rest;
                assert(head + (b + tail) + rest =~= head + (b + behind_it));
                lemma_content_roundtrip(reg, ty, cx, x, behind_it);
                lemma_known_field_step(reg, fields, cx, i, x, b, behind_it, acc);
                lemma_fields_roundtrip(reg, fields, cx, slots, i + 1, rest, acc.update(i, Some(x)));
            },
        }
    }
}

/// A proper value of a dispatch enum that can be written is read back as
/// it was under the method name of its variant, where no two variants
/// share a name.
pub proof fn lemma_dispatch_roundtrip(
    reg: RegistryModel,
    e: EnumModel,
    cx: Header,
    v: ValueModel,
    rest: Seq<u8>,
)
    requires
        valid_registry(reg),
        distinct_variant_names(e.variants),
        proper(v),
        image_dispatch(reg, e, v) is Ok,
        cx.name == e.variants[v->Variant_0].name,
    ensures
        parse_dispatch(reg, e, cx, image_dispatch(reg, e, v)->Ok_0 + rest) == Ok::<
            (ValueModel, Seq<u8>),
            Fault,
        >((v, rest)),
{
    let k = v->Variant_0;
    let inner = *v->Variant_1;
    lemma_find_variant_name_unique(e.variants, k, 0);
    lemma_content_roundtrip(reg, e.variants[k].inner, cx, inner, rest);
    assert(ValueModel::Variant(k, Box::new(inner)) == v);
}

/// Whatever the bytes, a dispatch enum is not read under a method name
/// that none of its variants bears: the reader answers with an
/// application error of kind `UnknownMethod` that names the method.
pub proof fn lemma_dispatch_unknown(
    reg: RegistryModel,
    e: EnumModel,
    cx: Header,
    input: Seq<u8>,
)
    requires
        forall|k: int| 0 <= k < e.variants.len() ==> (#[trigger] e.variants[k]).name != cx.name,
    ensures
        parse_dispatch(reg, e, cx, input) == Err::<(ValueModel, Seq<u8>), Fault>(
            unknown_method(cx.name),
        ),
{
    lemma_find_variant_name_none(e.variants, cx.name, 0);
}

/// Where no variant bears the name, none is found.
pub proof fn lemma_find_variant_name_none(variants: Seq<VariantModel>, name: Seq<char>, from: int)
    requires
        0 <= from,
        forall|k: int| from <= k < variants.len() ==> (#[trigger] variants[k]).name != name,
    ensures
        find_variant_name(variants, name, from) is None,
    decreases variants.len() - from,
{
    if from < variants.len() {
        assert(variants[from].name != name);
        lemma_find_variant_name_none(variants, name, from + 1);
    }
}

// ---------------------------------------------------------------------
// What is read is proper
// ---------------------------------------------------------------------
/// Whatever the bytes, a value that the reader returns is proper: no
/// element of a set and no key of a map occurs twice in it.
pub proof fn lemma_read_proper(reg: RegistryModel, ty: TypeModel, cx: Header, input: Seq<u8>)
    ensures
        parse_content(reg, ty, cx, input) matches Ok((v, _)) ==> proper(v),
    decreases input.len(), rank(ty), 0nat,
{
    match ty {
        TypeModel::Ident(name) => {
            match find_definition(reg.definitions, name, 0) {
                None => {},
                Some(d) => {
                    lemma_read_definition_proper(reg, reg.definitions[d], cx, input);
                },
            }
        },
        TypeModel::List(e) => {
            match parse_list_begin(input) {
                Err(_) => {},
                Ok(((_, n), rest)) => {
                    if rest.len() < input.len() {
                        lemma_read_items_proper(reg, *e, cx, announced(n), rest, Seq::empty());
                    }
                },
            }
        },
        TypeModel::SetOf(e) => {
            match parse_list_begin(input) {
                Err(_) => {},
                Ok(((_, n), rest)) => {
                    if rest.len() < input.len() {
                        lemma_read_items_proper(reg, *e, cx, announced(n), rest, Seq::empty());
                        match parse_items(reg, *e, cx, announced(n), rest, Seq::empty()) {
                            Err(_) => {},
                            Ok((items, _)) => {
                                lemma_distinct_of(items);
                                let held = distinct_of(items);
                                assert forall|i: int| 0 <= i < held.len() implies proper(
                                    #[trigger] held[i],
                                ) by {
                                    assert(held.contains(held[i]));
                                    assert(items.contains(held[i]));
                                }
                            },
                        }
                    }
                },
            }
        },
        TypeModel::MapOf(k, val) => {
            match parse_map_begin(input) {
                Err(_) => {},
                Ok(((_, _, n), rest)) => {
                    if rest.len() < input.len() {
                        lemma_read_entries_proper(
                            reg,
                            *k,
                            *val,
                            cx,
                            announced(n),
                            rest,
                            Seq::empty(),
                        );
                        match parse_entries(reg, *k, *val, cx, announced(n), rest, Seq::empty()) {
                            Err(_) => {},
                            Ok((entries, _)) => {
                                lemma_merged(entries);
                                let held = merged(entries);
                                assert forall|i: int| 0 <= i < held.len() implies proper(
                                    (#[trigger] held[i]).0,
                                ) && proper(held[i].1) by {
                                    assert(entries.contains(held[i]));
                                }
                            },
                        }
                    }
                },
            }
        },
        _ => {},
    }
}

/// The elements that the reader returns are proper, where those it
/// started from are.
pub proof fn lemma_read_items_proper(
    reg: RegistryModel,
    elem: TypeModel,
    cx: Header,
    count: nat,
    input: Seq<u8>,
    acc: Seq<ValueModel>,
)
    requires
        all_proper(acc),
    ensures
        parse_items(reg, elem, cx, count, input, acc) matches Ok((items, _)) ==> all_proper(items),
    decreases input.len(), rank(elem) + 1, count,
{
    if count > 0 {
        lemma_read_proper(reg, elem, cx, input);
        match parse_content(reg, elem, cx, input) {
            Err(_) => {},
            Ok((v, rest)) => {
                if rest.len() <= input.len() {
                    lemma_read_items_proper(reg, elem, cx, (count - 1) as nat, rest, acc.push(v));
                }
            },
        }
    }
}

/// The entries that the reader returns are proper, where those it
/// started from are.
pub proof fn lemma_read_entries_proper(
    reg: RegistryModel,
    key: TypeModel,
    value: TypeModel,
    cx: Header,
    count: nat,
    input: Seq<u8>,
    acc: Seq<(ValueModel, ValueModel)>,
)
    requires
        entries_proper(acc),
    ensures
        parse_entries(reg, key, value, cx, count, input, acc) matches Ok((entries, _))
            ==> entries_proper(entries),
    decreases input.len(), rank(key) + rank(value) + 1, count,
{
    if count > 0 {
        lemma_read_proper(reg, key, cx, input);
        match parse_content(reg, key, cx, input) {
            Err(_) => {},
            Ok((k, rest)) => {
                if rest.len() <= input.len() {
                    lemma_read_proper(reg, value, cx, rest);
                    match parse_content(reg, value, cx, rest) {
                        Err(_) => {},
                        Ok((v, rest2)) => {
                            if rest2.len() <= rest.len() {
                                lemma_read_entries_proper(
                                    reg,
                                    key,
                                    value,
                                    cx,
                                    (count - 1) as nat,
                                    rest2,
                                    acc.push((k, v)),
                                );
                            }
                        },
                    }
                }
            },
        }
    }
}

/// A value of a named type that the reader returns is proper.
pub proof fn lemma_read_definition_proper(
    reg: RegistryModel,
    def: DefinitionModel,
    cx: Header,
    input: Seq<u8>,
)
    ensures
        parse_definition(reg, def, cx, input) matches Ok((v, _)) ==> proper(v),
    decreases input.len(), 0nat, 1nat,
{
    match def {
        DefinitionModel::Struct(s) => {
            lemma_read_fields_proper(reg, s.fields, cx, input, empty_slots(s.fields.len()));
        },
        DefinitionModel::Enum(e) => {
            if !e.dispatch_only {
                match parse_field_begin(input) {
                    Err(_) => {},
                    Ok(((t, id), rest)) => {
                        match find_variant(e.variants, id) {
                            None => {},
                            Some(k) => {
                                if t != TType::Stop && rest.len() < input.len() && 0 <= k
                                    < e.variants.len() {
                                    lemma_read_proper(reg, e.variants[k].inner, cx, rest);
                                }
                            },
                        }
                    },
                }
            }
        },
    }
}

/// What `find_field` finds is a field.
pub proof fn lemma_find_field_range(fields: Seq<FieldModel>, id: i16, from: int)
    requires
        0 <= from,
    ensures
        find_field(fields, id, from) matches Some(j) ==> from <= j < fields.len(),
    decreases fields.len() - from,
{
    if from < fields.len() && fields[from].id != id {
        lemma_find_field_range(fields, id, from + 1);
    }
}

/// The slots that the reader returns hold proper values, where those it
/// started from do.
pub proof fn lemma_read_fields_proper(
    reg: RegistryModel,
    fields: Seq<FieldModel>,
    cx: Header,
    input: Seq<u8>,
    slots: Seq<Option<ValueModel>>,
)
    requires
        slots.len() == fields.len(),
        slots_proper(slots),
    ensures
        parse_fields(reg, fields, cx, input, slots) matches Ok((read, _)) ==> slots_proper(read),
    decreases input.len(), 0nat, 0nat,
{
    match parse_field_begin(input) {
        Err(_) => {},
        Ok(((t, id), rest)) => {
            if t != TType::Stop {
                match find_field(fields, id, 0) {
                    Some(j) => {
                        lemma_find_field_range(fields, id, 0);
                        if t == ttype_of(fields[j].field_type) && rest.len() < input.len() {
                            lemma_read_proper(reg, fields[j].field_type, cx, rest);
                            match parse_content(reg, fields[j].field_type, cx, rest) {
                                Err(_) => {},
                                Ok((v, rest2)) => {
                                    if rest2.len() < input.len() {
                                        lemma_read_fields_proper(
                                            reg,
                                            fields,
                                            cx,
                                            rest2,
                                            slots.update(j, Some(v)),
                                        );
                                    }
                                },
                            }
                        }
                    },
                    None => {
                        match parse_skip(t, rest, MAXIMUM_SKIP_DEPTH as nat) {
                            Err(_) => {},
                            Ok((_, rest2)) => {
                                if rest2.len() < input.len() {
                                    lemma_read_fields_proper(reg, fields, cx, rest2, slots);
                                }
                            },
                        }
                    },
                }
            }
        },
    }
}

/// A value of a dispatch enum that the reader returns is proper.
pub proof fn lemma_read_dispatch_proper(
    reg: RegistryModel,
    e: EnumModel,
    cx: Header,
    input: Seq<u8>,
)
    ensures
        parse_dispatch(reg, e, cx, input) matches Ok((v, _)) ==> proper(v),
{
    match find_variant_name(e.variants, cx.name, 0) {
        None => {},
        Some(k) => {
            lemma_read_proper(reg, e.variants[k].inner, cx, input);
        },
    }
}

// ---------------------------------------------------------------------
// What is read has the shape of its type
// ---------------------------------------------------------------------
/// Whatever the bytes, a value that the reader returns has the shape of
/// the type it was read for.
pub proof fn lemma_read_shaped(reg: RegistryModel, ty: TypeModel, cx: Header, input: Seq<u8>)
    ensures
        parse_content(reg, ty, cx, input) matches Ok((v, _)) ==> shaped(reg, ty, v),
    decreases input.len(), rank(ty), 0nat,
{
    match ty {
        TypeModel::Ident(name) => {
            match find_definition(reg.definitions, name, 0) {
                None => {},
                Some(d) => {
                    lemma_read_definition_shaped(reg, reg.definitions[d], cx, input);
                },
            }
        },
        TypeModel::List(e) => {
            match parse_list_begin(input) {
                Err(_) => {},
                Ok(((_, n), rest)) => {
                    if rest.len() < input.len() {
                        lemma_read_items_shaped(reg, *e, cx, announced(n), rest, Seq::empty());
                    }
                },
            }
        },
        TypeModel::SetOf(e) => {
            match parse_list_begin(input) {
                Err(_) => {},
                Ok(((_, n), rest)) => {
                    if rest.len() < input.len() {
                        lemma_read_items_shaped(reg, *e, cx, announced(n), rest, Seq::empty());
                        match parse_items(reg, *e, cx, announced(n), rest, Seq::empty()) {
                            Err(_) => {},
                            Ok((items, _)) => {
                                lemma_distinct_of(items);
                                let held = distinct_of(items);
                                assert forall|i: int| 0 <= i < held.len() implies shaped(
                                    reg,
                                    *e,
                                    #[trigger] held[i],
                                ) by {
                                    assert(held.contains(held[i]));
                                    assert(items.contains(held[i]));
                                }
                            },
                        }
                    }
                },
            }
        },
        TypeModel::MapOf(k, val) => {
            match parse_map_begin(input) {
                Err(_) => {},
                Ok(((_, _, n), rest)) => {
                    if rest.len() < input.len() {
                        lemma_read_entries_shaped(
                            reg,
                            *k,
                            *val,
                            cx,
                            announced(n),
                            rest,
                            Seq::empty(),
                        );
                        match parse_entries(reg, *k, *val, cx, announced(n), rest, Seq::empty()) {
                            Err(_) => {},
                            Ok((entries, _)) => {
                                lemma_merged(entries);
                                let held = merged(entries);
                                assert forall|i: int| 0 <= i < held.len() implies shaped(
                                    reg,
                                    *k,
                                    (#[trigger] held[i]).0,
                                ) && shaped(reg, *val, held[i].1) by {
                                    assert(entries.contains(held[i]));
                                }
                            },
                        }
                    }
                },
            }
        },
        _ => {},
    }
}

/// The elements that the reader returns have the shape of the element
/// type, where those it started from have.
pub proof fn lemma_read_items_shaped(
    reg: RegistryModel,
    elem: TypeModel,
    cx: Header,
    count: nat,
    input: Seq<u8>,
    acc: Seq<ValueModel>,
)
    requires
        all_shaped(reg, elem, acc),
    ensures
        parse_items(reg, elem, cx, count, input, acc) matches Ok((items, _)) ==> all_shaped(
            reg,
            elem,
            items,
        ),
    decreases input.len(), rank(elem) + 1, count,
{
    if count > 0 {
        lemma_read_shaped(reg, elem, cx, input);
        match parse_content(reg, elem, cx, input) {
            Err(_) => {},
            Ok((v, rest)) => {
                if rest.len() <= input.len() {
                    lemma_read_items_shaped(reg, elem, cx, (count - 1) as nat, rest, acc.push(v));
                }
            },
        }
    }
}

/// The entries that the reader returns have the shape of the key and the
/// value type, where those it started from have.
pub proof fn lemma_read_entries_shaped(
    reg: RegistryModel,
    key: TypeModel,
    value: TypeModel,
    cx: Header,
    count: nat,
    input: Seq<u8>,
    acc: Seq<(ValueModel, ValueModel)>,
)
    requires
        entries_shaped(reg, key, value, acc),
    ensures
        parse_entries(reg, key, value, cx, count, input, acc) matches Ok((entries, _))
            ==> entries_shaped(reg, key, value, entries),
    decreases input.len(), rank(key) + rank(value) + 1, count,
{
    if count > 0 {
        lemma_read_shaped(reg, key, cx, input);
        match parse_content(reg, key, cx, input) {
            Err(_) => {},
            Ok((k, rest)) => {
                if rest.len() <= input.len() {
                    lemma_read_shaped(reg, value, cx, rest);
                    match parse_content(reg, value, cx, rest) {
                        Err(_) => {},
                        Ok((v, rest2)) => {
                            if rest2.len() <= rest.len() {
                                lemma_read_entries_shaped(
                                    reg,
                                    key,
                                    value,
                                    cx,
                                    (count - 1) as nat,
                                    rest2,
                                    acc.push((k, v)),
                                );
                            }
                        },
                    }
                }
            },
        }
    }
}

/// A value of a named type that the reader returns has the shape of that
/// type.
pub proof fn lemma_read_definition_shaped(
    reg: RegistryModel,
    def: DefinitionModel,
    cx: Header,
    input: Seq<u8>,
)
    ensures
        parse_definition(reg, def, cx, input) matches Ok((v, _)) ==> shaped_definition(reg, def, v),
    decreases input.len(), 0nat, 1nat,
{
    match def {
        DefinitionModel::Struct(s) => {
            lemma_read_fields_shaped(reg, s.fields, cx, input, empty_slots(s.fields.len()));
        },
        DefinitionModel::Enum(e) => {
            if !e.dispatch_only {
                match parse_field_begin(input) {
                    Err(_) => {},
                    Ok(((t, id), rest)) => {
                        match find_variant(e.variants, id) {
                            None => {},
                            Some(k) => {
                                if t != TType::Stop && rest.len() < input.len() && 0 <= k
                                    < e.variants.len() {
                                    lemma_read_shaped(reg, e.variants[k].inner, cx, rest);
                                }
                            },
                        }
                    },
                }
            }
        },
    }
}

/// The slots that the reader returns have the shape of the fields, where
/// those it started from have.
pub proof fn lemma_read_fields_shaped(
    reg: RegistryModel,
    fields: Seq<FieldModel>,
    cx: Header,
    input: Seq<u8>,
    slots: Seq<Option<ValueModel>>,
)
    requires
        slots_shaped(reg, fields, slots),
    ensures
        parse_fields(reg, fields, cx, input, slots) matches Ok((read, _)) ==> slots_shaped(
            reg,
            fields,
            read,
        ),
    decreases input.len(), 0nat, 0nat,
{
    match parse_field_begin(input) {
        Err(_) => {},
        Ok(((t, id), rest)) => {
            if t != TType::Stop {
                match find_field(fields, id, 0) {
                    Some(j) => {
                        lemma_find_field_range(fields, id, 0);
                        if t == ttype_of(fields[j].field_type) && rest.len() < input.len() {
                            lemma_read_shaped(reg, fields[j].field_type, cx, rest);
                            match parse_content(reg, fields[j].field_type, cx, rest) {
                                Err(_) => {},
                                Ok((v, rest2)) => {
                                    if rest2.len() < input.len() {
                                        lemma_read_fields_shaped(
                                            reg,
                                            fields,
                                            cx,
                                            rest2,
                                            slots.update(j, Some(v)),
                                        );
                                    }
                                },
                            }
                        }
                    },
                    None => {
                        match parse_skip(t, rest, MAXIMUM_SKIP_DEPTH as nat) {
                            Err(_) => {},
                            Ok((_, rest2)) => {
                                if rest2.len() < input.len() {
                                    lemma_read_fields_shaped(reg, fields, cx, rest2, slots);
                                }
                            },
                        }
                    },
                }
            }
        },
    }
}

} // verus!
