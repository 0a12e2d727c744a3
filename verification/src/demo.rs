//! A worked service: the definitions of `ItemService`, its data types, and
//! the codec that the definitions induce for them.

use vstd::prelude::*;
use vstd::string::*;

use crate::binary::{TBinaryInputProtocol, TBinaryOutputProtocol};
use crate::context::{Header, MsgContext};
use crate::declared::{
    declared_parse, declared_proper, declared_refusal, declared_wire, decode_declared,
    encode_declared, lemma_declared_roundtrip, Declared,
};
use crate::derive::{decode_dispatch, encode_dispatch};
use crate::errors::{
    new_application_error, ApplicationError, ApplicationErrorKind, ApplicationResult, Error, Fault,
};
use crate::server::answer_context;
use crate::message::Message;
use crate::protocol::{TMessageType, TType};
use crate::roundtrip::{
    distinct_field_ids, distinct_variant_ids, distinct_variant_names, lemma_dispatch_roundtrip,
    lemma_read_proper, lemma_read_shaped, valid_definition, valid_registry,
};
use crate::schema::{
    find_definition, find_variant_name, image_dispatch, parse_content, parse_dispatch, shaped,
    shaped_definition, Definition, DefinitionModel, EnumModel, EnumSchema, FieldModel, FieldSchema,
    Registry, RegistryModel, Required, StructModel, StructSchema, VariantModel, VariantSchema,
};
use crate::types::{type_model, FieldType, OrigType, TypeModel};
use crate::unique::distinct_keys;
use crate::value::{model_of, models_of, proper, Value, ValueModel};
use crate::wire::Parsed;

verus! {

// ---------------------------------------------------------------------
// The definitions
// ---------------------------------------------------------------------
/// The descriptor `ident(name)`.
pub open spec fn named(name: Seq<char>) -> TypeModel {
    TypeModel::Ident(name)
}

/// The descriptor `ident(name)`.
pub fn ident(name: &str) -> (t: FieldType)
    ensures
        t@ == named(name@),
{
    FieldType::Ident(String::from_str(name))
}

/// A field of a struct.
pub fn field(name: &str, id: i16, required: Required, field_type: FieldType) -> (f: FieldSchema)
    ensures
        f@ == (FieldModel { name: name@, id, required, field_type: field_type@ }),
{
    FieldSchema { name: String::from_str(name), id, required, field_type }
}

/// A variant of an enum.
pub fn variant(name: &str, id: i16, inner: FieldType) -> (v: VariantSchema)
    ensures
        v@ == (VariantModel { name: name@, id, inner: inner@ }),
{
    VariantSchema { name: String::from_str(name), id, inner }
}

/// `struct User { 1: required i32 user_id, 2: required string user_name,
/// 3: required bool is_male, 10: optional map<string, string> extra }`
pub open spec fn user_definition() -> StructModel {
    StructModel {
        name: "User"@,
        fields: seq![
            FieldModel {
                name: "user_id"@,
                id: 1,
                required: Required::True,
                field_type: TypeModel::I32,
            },
            FieldModel {
                name: "user_name"@,
                id: 2,
                required: Required::True,
                field_type: TypeModel::String,
            },
            FieldModel {
                name: "is_male"@,
                id: 3,
                required: Required::True,
                field_type: TypeModel::Bool,
            },
            FieldModel {
                name: "extra"@,
                id: 10,
                required: Required::False,
                field_type: TypeModel::MapOf(
                    Box::new(TypeModel::String),
                    Box::new(TypeModel::String),
                ),
            },
        ],
    }
}

/// `struct GetUserRequest { 1: required i32 user_id, 2: required string
/// user_name, 3: required bool is_male }`
pub open spec fn get_user_request_definition() -> StructModel {
    StructModel {
        name: "GetUserRequest"@,
        fields: seq![
            FieldModel {
                name: "user_id"@,
                id: 1,
                required: Required::True,
                field_type: TypeModel::I32,
            },
            FieldModel {
                name: "user_name"@,
                id: 2,
                required: Required::True,
                field_type: TypeModel::String,
            },
            FieldModel {
                name: "is_male"@,
                id: 3,
                required: Required::True,
                field_type: TypeModel::Bool,
            },
        ],
    }
}

/// `struct GetUserResponse { 1: required list<User> users }`
pub open spec fn get_user_response_definition() -> StructModel {
    StructModel {
        name: "GetUserResponse"@,
        fields: seq![
            FieldModel {
                name: "users"@,
                id: 1,
                required: Required::True,
                field_type: TypeModel::List(Box::new(named("User"@))),
            },
        ],
    }
}

/// The arguments of `GetUser(1: GetUserRequest req, 2: bool shuffle)`.
pub open spec fn get_user_args_definition() -> StructModel {
    StructModel {
        name: "AnonymousItemServiceGetUserArgs"@,
        fields: seq![
            FieldModel {
                name: "req"@,
                id: 1,
                required: Required::True,
                field_type: named("GetUserRequest"@),
            },
            FieldModel {
                name: "shuffle"@,
                id: 2,
                required: Required::True,
                field_type: TypeModel::Bool,
            },
        ],
    }
}

/// The outcome of `GetUser`: success travels under field id 1.
pub open spec fn get_user_result_definition() -> EnumModel {
    EnumModel {
        name: "AnonymousItemServiceGetUserResult"@,
        variants: seq![
            VariantModel { name: "Success"@, id: 1, inner: named("GetUserResponse"@) },
        ],
        dispatch_only: false,
    }
}

/// The requests of `ItemService`, one variant for each method.
pub open spec fn item_service_request_definition() -> EnumModel {
    EnumModel {
        name: "AnonymousItemServiceRequest"@,
        variants: seq![
            VariantModel {
                name: "GetUser"@,
                id: 0,
                inner: named("AnonymousItemServiceGetUserArgs"@),
            },
        ],
        dispatch_only: true,
    }
}

/// The responses of `ItemService`, one variant for each method.
pub open spec fn item_service_response_definition() -> EnumModel {
    EnumModel {
        name: "AnonymousItemServiceResponse"@,
        variants: seq![
            VariantModel {
                name: "GetUser"@,
                id: 0,
                inner: named("AnonymousItemServiceGetUserResult"@),
            },
        ],
        dispatch_only: true,
    }
}

/// The named types of the service.
pub open spec fn registry_model() -> RegistryModel {
    RegistryModel {
        definitions: seq![
            DefinitionModel::Struct(user_definition()),
            DefinitionModel::Struct(get_user_request_definition()),
            DefinitionModel::Struct(get_user_response_definition()),
            DefinitionModel::Struct(get_user_args_definition()),
            DefinitionModel::Enum(get_user_result_definition()),
        ],
    }
}

/// The ids within every definition of the service are unambiguous.
pub proof fn lemma_registry_valid()
    ensures
        valid_registry(registry_model()),
{
    let reg = registry_model();
    assert forall|d: int| 0 <= d < reg.definitions.len() implies valid_definition(
        #[trigger] reg.definitions[d],
    ) by {
        if d == 0 {
            let f = user_definition().fields;
            assert(f[0].id == 1 && f[1].id == 2 && f[2].id == 3 && f[3].id == 10);
            assert(distinct_field_ids(f));
        } else if d == 1 {
            let f = get_user_request_definition().fields;
            assert(f[0].id == 1 && f[1].id == 2 && f[2].id == 3);
            assert(distinct_field_ids(f));
        } else if d == 2 {
            assert(distinct_field_ids(get_user_response_definition().fields));
        } else if d == 3 {
            let f = get_user_args_definition().fields;
            assert(f[0].id == 1 && f[1].id == 2);
            assert(distinct_field_ids(f));
        } else {
            assert(distinct_variant_ids(get_user_result_definition().variants));
        }
    }
}

/// The definition of `User`.
pub fn user_schema() -> (s: StructSchema)
    ensures
        s@ == user_definition(),
{
    let mut fields: Vec<FieldSchema> = Vec::new();
    fields.push(field("user_id", 1, Required::True, FieldType::I32));
    fields.push(field("user_name", 2, Required::True, FieldType::String));
    fields.push(field("is_male", 3, Required::True, FieldType::Bool));
    fields.push(
        field(
            "extra",
            10,
            Required::False,
            FieldType::MapOf(Box::new(FieldType::String), Box::new(FieldType::String)),
        ),
    );
    let s = StructSchema { name: String::from_str("User"), fields };
    proof {
        reveal_with_fuel(type_model, 3);
        assert(s@.fields =~= user_definition().fields);
    }
    s
}

/// The definition of `GetUserRequest`.
pub fn get_user_request_schema() -> (s: StructSchema)
    ensures
        s@ == get_user_request_definition(),
{
    let mut fields: Vec<FieldSchema> = Vec::new();
    fields.push(field("user_id", 1, Required::True, FieldType::I32));
    fields.push(field("user_name", 2, Required::True, FieldType::String));
    fields.push(field("is_male", 3, Required::True, FieldType::Bool));
    let s = StructSchema { name: String::from_str("GetUserRequest"), fields };
    proof {
        assert(s@.fields =~= get_user_request_definition().fields);
    }
    s
}

/// The definition of `GetUserResponse`.
pub fn get_user_response_schema() -> (s: StructSchema)
    ensures
        s@ == get_user_response_definition(),
{
    let mut fields: Vec<FieldSchema> = Vec::new();
    fields.push(field("users", 1, Required::True, FieldType::List(Box::new(ident("User")))));
    let s = StructSchema { name: String::from_str("GetUserResponse"), fields };
    proof {
        reveal_with_fuel(type_model, 3);
        assert(s@.fields =~= get_user_response_definition().fields);
    }
    s
}

/// The definition of the arguments of `GetUser`.
pub fn get_user_args_schema() -> (s: StructSchema)
    ensures
        s@ == get_user_args_definition(),
{
    let mut fields: Vec<FieldSchema> = Vec::new();
    fields.push(field("req", 1, Required::True, ident("GetUserRequest")));
    fields.push(field("shuffle", 2, Required::True, FieldType::Bool));
    let s = StructSchema { name: String::from_str("AnonymousItemServiceGetUserArgs"), fields };
    proof {
        assert(s@.fields =~= get_user_args_definition().fields);
    }
    s
}

/// The definition of the outcome of `GetUser`.
pub fn get_user_result_schema() -> (e: EnumSchema)
    ensures
        e@ == get_user_result_definition(),
{
    let mut variants: Vec<VariantSchema> = Vec::new();
    variants.push(variant("Success", 1, ident("GetUserResponse")));
    let e = EnumSchema {
        name: String::from_str("AnonymousItemServiceGetUserResult"),
        variants,
        dispatch_only: false,
    };
    proof {
        assert(e@.variants =~= get_user_result_definition().variants);
    }
    e
}

/// The definition of the requests of `ItemService`.
pub fn item_service_request_schema() -> (e: EnumSchema)
    ensures
        e@ == item_service_request_definition(),
{
    let mut variants: Vec<VariantSchema> = Vec::new();
    variants.push(variant("GetUser", 0, ident("AnonymousItemServiceGetUserArgs")));
    let e = EnumSchema {
        name: String::from_str("AnonymousItemServiceRequest"),
        variants,
        dispatch_only: true,
    };
    proof {
        assert(e@.variants =~= item_service_request_definition().variants);
    }
    e
}

/// The definition of the responses of `ItemService`.
pub fn item_service_response_schema() -> (e: EnumSchema)
    ensures
        e@ == item_service_response_definition(),
{
    let mut variants: Vec<VariantSchema> = Vec::new();
    variants.push(variant("GetUser", 0, ident("AnonymousItemServiceGetUserResult")));
    let e = EnumSchema {
        name: String::from_str("AnonymousItemServiceResponse"),
        variants,
        dispatch_only: true,
    };
    proof {
        assert(e@.variants =~= item_service_response_definition().variants);
    }
    e
}

/// The named types of the service.
pub fn registry() -> (r: Registry)
    ensures
        r@ == registry_model(),
{
    let mut definitions: Vec<Definition> = Vec::new();
    definitions.push(Definition::Struct(user_schema()));
    definitions.push(Definition::Struct(get_user_request_schema()));
    definitions.push(Definition::Struct(get_user_response_schema()));
    definitions.push(Definition::Struct(get_user_args_schema()));
    definitions.push(Definition::Enum(get_user_result_schema()));
    let r = Registry { definitions };
    proof {
        assert(r@.definitions =~= registry_model().definitions);
    }
    r
}


// ---------------------------------------------------------------------
// Conversions
// ---------------------------------------------------------------------
/// The slots of a struct value have the models of its slots.
pub proof fn lemma_slots_of_struct(v: Value)
    requires
        v is Struct,
    ensures
        model_of(v) == ValueModel::Struct(crate::value::slot_models_of(v->Struct_0)),
        crate::value::slot_models_of(v->Struct_0).len() == v->Struct_0.len(),
        forall|k: int|
            0 <= k < v->Struct_0.len() ==> #[trigger] crate::value::slot_models_of(
                v->Struct_0,
            )[k] == crate::value::slot_model(v->Struct_0[k]),
{
}

/// The text that a value holds; none where it holds no text.
pub open spec fn text_of(v: ValueModel) -> Seq<char> {
    match v {
        ValueModel::Text(s) => s,
        _ => Seq::empty(),
    }
}

/// The text that a value holds.
pub fn text_from_value(v: &Value) -> (s: String)
    ensures
        s@ == text_of(model_of(*v)),
{
    match v {
        Value::Text(s) => s.clone(),
        _ => String::new(),
    }
}

/// The number that a value holds; 0 where it holds none.
pub open spec fn i32_of(v: Option<ValueModel>) -> i32 {
    match v {
        Some(ValueModel::I32(i)) => i,
        _ => 0,
    }
}

/// The truth value that a value holds; `false` where it holds none.
pub open spec fn bool_of(v: Option<ValueModel>) -> bool {
    match v {
        Some(ValueModel::Bool(b)) => b,
        _ => false,
    }
}

/// The text that a slot holds; none where it holds no text.
pub open spec fn slot_text_of(v: Option<ValueModel>) -> Seq<char> {
    match v {
        Some(x) => text_of(x),
        None => Seq::empty(),
    }
}

/// The pairs of texts of a vector.
pub open spec fn pairs_of(e: Vec<(String, String)>) -> Seq<(Seq<char>, Seq<char>)> {
    Seq::new(e@.len(), |i: int| (e@[i].0@, e@[i].1@))
}

/// The map value of pairs of texts.
pub open spec fn pairs_value(e: Seq<(Seq<char>, Seq<char>)>) -> ValueModel {
    ValueModel::MapOf(
        Seq::new(e.len(), |i: int| (ValueModel::Text(e[i].0), ValueModel::Text(e[i].1))),
    )
}

/// The pairs of texts of a map value.
pub open spec fn pairs_of_value(v: ValueModel) -> Seq<(Seq<char>, Seq<char>)> {
    match v {
        ValueModel::MapOf(entries) => Seq::new(
            entries.len(),
            |i: int| (text_of(entries[i].0), text_of(entries[i].1)),
        ),
        _ => Seq::empty(),
    }
}

/// Pairs of texts as a map value.
pub fn pairs_to_value(e: &Vec<(String, String)>) -> (v: Value)
    ensures
        model_of(v) == pairs_value(pairs_of(*e)),
{
    let mut entries: Vec<(Value, Value)> = Vec::new();
    let mut i: usize = 0;
    while i < e.len()
        invariant
            i <= e.len(),
            entries.len() == i,
            forall|j: int|
                0 <= j < i ==> model_of((#[trigger] entries[j]).0) == ValueModel::Text(e@[j].0@)
                    && model_of(entries[j].1) == ValueModel::Text(e@[j].1@),
        decreases e.len() - i,
    {
        entries.push((Value::Text(e[i].0.clone()), Value::Text(e[i].1.clone())));
        i = i + 1;
    }
    let v = Value::MapOf(entries);
    proof {
        assert(crate::value::entry_models_of(entries) =~= pairs_value(pairs_of(*e))->MapOf_0);
    }
    v
}

/// The pairs of texts of a map value.
pub fn pairs_from_value(v: &Value) -> (e: Vec<(String, String)>)
    ensures
        pairs_of(e) == pairs_of_value(model_of(*v)),
{
    let mut out: Vec<(String, String)> = Vec::new();
    match v {
        Value::MapOf(entries) => {
            let mut i: usize = 0;
            while i < entries.len()
                invariant
                    i <= entries.len(),
                    out.len() == i,
                    forall|j: int|
                        0 <= j < i ==> (#[trigger] out[j]).0@ == text_of(model_of(entries[j].0))
                            && out[j].1@ == text_of(model_of(entries[j].1)),
                decreases entries.len() - i,
            {
                out.push((text_from_value(&entries[i].0), text_from_value(&entries[i].1)));
                i = i + 1;
            }
            proof {
                let models = crate::value::entry_models_of(*entries);
                assert(model_of(*v) == ValueModel::MapOf(models));
                assert forall|j: int| 0 <= j < entries.len() implies #[trigger] pairs_of(out)[j]
                    == (text_of(models[j].0), text_of(models[j].1)) by {
                    assert(out[j].0@ == text_of(model_of(entries[j].0)));
                }
                assert(pairs_of(out) =~= pairs_of_value(model_of(*v)));
            }
        },
        _ => {
            proof {
                assert(pairs_of(out) =~= pairs_of_value(model_of(*v)));
            }
        },
    }
    out
}

/// Pairs of texts are recovered from their map value.
pub proof fn lemma_pairs_roundtrip(e: Seq<(Seq<char>, Seq<char>)>)
    ensures
        pairs_of_value(pairs_value(e)) == e,
{
    assert(pairs_of_value(pairs_value(e)) =~= e);
}

/// The map value of pairs of texts is proper where no key occurs twice.
pub proof fn lemma_pairs_proper(e: Seq<(Seq<char>, Seq<char>)>)
    requires
        distinct_keys(e),
    ensures
        proper(pairs_value(e)),
{
    reveal_with_fuel(proper, 2);
    let entries = pairs_value(e)->MapOf_0;
    assert forall|i: int, j: int|
        0 <= i < entries.len() && 0 <= j < entries.len() && i != j implies entries[i].0
        != entries[j].0 by {
        assert(e[i].0 != e[j].0);
    }
    assert(distinct_keys(entries));
}

// ---------------------------------------------------------------------
// User
// ---------------------------------------------------------------------
/// A user. `extra` is a mapping from text to text, held as its entries in
/// the order in which they travel: no key occurs twice.
#[derive(Debug, Clone, PartialEq)]
pub struct User {
    pub user_id: i32,
    pub user_name: String,
    pub is_male: bool,
    pub extra: Option<Vec<(String, String)>>,
}

/// A user as mathematics.
pub struct UserModel {
    pub user_id: i32,
    pub user_name: Seq<char>,
    pub is_male: bool,
    pub extra: Option<Seq<(Seq<char>, Seq<char>)>>,
}

impl DeepView for User {
    type V = UserModel;

    open spec fn deep_view(&self) -> UserModel {
        UserModel {
            user_id: self.user_id,
            user_name: self.user_name@,
            is_male: self.is_male,
            extra: match self.extra {
                Some(e) => Some(pairs_of(e)),
                None => None,
            },
        }
    }
}

impl Default for User {
    fn default() -> (r: Self)
        ensures
            r.deep_view() == (UserModel {
                user_id: 0,
                user_name: Seq::empty(),
                is_male: false,
                extra: None,
            }),
    {
        User { user_id: 0, user_name: String::new(), is_male: false, extra: None }
    }
}

impl OrigType for User {
    fn orig_type() -> (t: TType) {
        TType::Struct
    }
}

impl Declared for User {
    open spec fn registry() -> RegistryModel {
        registry_model()
    }

    proof fn lemma_registry_valid() {
        lemma_registry_valid();
    }

    fn build_registry() -> (r: Registry) {
        registry()
    }

    open spec fn descriptor() -> TypeModel {
        named("User"@)
    }

    open spec fn value_of(m: UserModel) -> ValueModel {
        ValueModel::Struct(
            seq![
                Some(ValueModel::I32(m.user_id)),
                Some(ValueModel::Text(m.user_name)),
                Some(ValueModel::Bool(m.is_male)),
                match m.extra {
                    Some(e) => Some(pairs_value(e)),
                    None => None,
                },
            ],
        )
    }

    open spec fn of_value(v: ValueModel) -> UserModel {
        match v {
            ValueModel::Struct(slots) => if slots.len() == 4 {
                UserModel {
                    user_id: i32_of(slots[0]),
                    user_name: slot_text_of(slots[1]),
                    is_male: bool_of(slots[2]),
                    extra: match slots[3] {
                        Some(x) => Some(pairs_of_value(x)),
                        None => None,
                    },
                }
            } else {
                UserModel { user_id: 0, user_name: Seq::empty(), is_male: false, extra: None }
            },
            _ => UserModel { user_id: 0, user_name: Seq::empty(), is_male: false, extra: None },
        }
    }

    proof fn lemma_value_roundtrip(m: UserModel) {
        match m.extra {
            Some(e) => lemma_pairs_roundtrip(e),
            None => {},
        }
    }

    fn field_type() -> (t: FieldType) {
        ident("User")
    }

    fn to_value(&self) -> (v: Value) {
        let mut slots: Vec<Option<Value>> = Vec::new();
        slots.push(Some(Value::I32(self.user_id)));
        slots.push(Some(Value::Text(self.user_name.clone())));
        slots.push(Some(Value::Bool(self.is_male)));
        slots.push(
            match &self.extra {
                Some(e) => Some(pairs_to_value(e)),
                None => None,
            },
        );
        let v = Value::Struct(slots);
        proof {
            assert(crate::value::slot_models_of(slots) =~= Self::value_of(
                self.deep_view(),
            )->Struct_0);
        }
        v
    }

    fn from_value(v: &Value) -> (r: Self) {
        match v {
            Value::Struct(slots) => {
                proof {
                    lemma_slots_of_struct(*v);
                }
                if slots.len() == 4 {
                    let user_id = match &slots[0] {
                        Some(Value::I32(i)) => *i,
                        _ => 0,
                    };
                    let user_name = match &slots[1] {
                        Some(x) => text_from_value(x),
                        None => String::new(),
                    };
                    let is_male = match &slots[2] {
                        Some(Value::Bool(b)) => *b,
                        _ => false,
                    };
                    let extra = match &slots[3] {
                        Some(x) => Some(pairs_from_value(x)),
                        None => None,
                    };
                    User { user_id, user_name, is_male, extra }
                } else {
                    User::default()
                }
            },
            _ => User::default(),
        }
    }
}

impl Message for User {
    open spec fn refusal(m: UserModel) -> Option<Fault> {
        declared_refusal::<User>(m)
    }

    open spec fn wire(m: UserModel) -> Seq<u8> {
        declared_wire::<User>(m)
    }

    open spec fn parse(cx: Header, input: Seq<u8>) -> Parsed<UserModel> {
        declared_parse::<User>(cx, input)
    }

    open spec fn admits(cx: Header, m: UserModel) -> bool {
        declared_proper::<Self>(m)
    }

    open spec fn unread(cx: Header) -> bool {
        false
    }

    proof fn lemma_unread(cx: Header, input: Seq<u8>) {
    }

    proof fn lemma_roundtrip(cx: Header, m: UserModel, rest: Seq<u8>) {
        lemma_declared_roundtrip::<User>(cx, m, rest);
    }

    fn encode(&self, cx: &MsgContext, protocol: &mut TBinaryOutputProtocol<bytes::BytesMut>) -> (r:
        Result<(), Error>) {
        encode_declared(self, cx, protocol)
    }

    fn decode(cx: &mut MsgContext, protocol: &mut TBinaryInputProtocol<bytes::BytesMut>) -> (r:
        Result<Self, Error>) {
        decode_declared::<User>(cx, protocol)
    }
}


/// A user is proper where no key of `extra` occurs twice.
pub proof fn lemma_user_proper(m: UserModel)
    requires
        m.extra matches Some(e) ==> distinct_keys(e),
    ensures
        declared_proper::<User>(m),
{
    reveal_with_fuel(proper, 2);
    match m.extra {
        Some(e) => lemma_pairs_proper(e),
        None => {},
    }
    let slots = User::value_of(m)->Struct_0;
    assert forall|i: int| 0 <= i < slots.len() implies match #[trigger] slots[i] {
        Some(x) => proper(x),
        None => true,
    } by {
        if i == 0 {
        } else if i == 1 {
        } else if i == 2 {
        } else {
            assert(i == 3);
        }
    }
}

/// Whatever the bytes, a user that is read holds no key of `extra`
/// twice.
pub proof fn lemma_user_read_mapping(cx: Header, input: Seq<u8>)
    ensures
        <User as Message>::parse(cx, input) matches Ok((m, _)) ==> (m.extra matches Some(e)
            ==> distinct_keys(e)),
{
    let reg = registry_model();
    let ty = named("User"@);
    lemma_read_proper(reg, ty, cx, input);
    lemma_read_shaped(reg, ty, cx, input);
    match parse_content(reg, ty, cx, input) {
        Ok((v, _)) => {
            assert(find_definition(reg.definitions, "User"@, 0) == Some(0int));
            assert(shaped_definition(reg, reg.definitions[0], v));
            let slots = v->Struct_0;
            assert(slots.len() == 4);
            match slots[3] {
                Some(x) => {
                    assert(proper(x));
                    assert(shaped(reg, user_definition().fields[3].field_type, x));
                    let entries = x->MapOf_0;
                    let e = pairs_of_value(x);
                    assert forall|i: int, j: int|
                        0 <= i < e.len() && 0 <= j < e.len() && i != j implies e[i].0
                        != e[j].0 by {
                        assert(entries[i].0 != entries[j].0);
                        assert(shaped(reg, TypeModel::String, entries[i].0));
                        assert(shaped(reg, TypeModel::String, entries[j].0));
                    }
                },
                None => {},
            }
        },
        Err(_) => {},
    }
}

// ---------------------------------------------------------------------
// GetUserRequest
// ---------------------------------------------------------------------
/// The request of `GetUser`.
#[derive(Debug, Clone, PartialEq)]
pub struct GetUserRequest {
    pub user_id: i32,
    pub user_name: String,
    pub is_male: bool,
}

/// The request of `GetUser` as mathematics.
pub struct GetUserRequestModel {
    pub user_id: i32,
    pub user_name: Seq<char>,
    pub is_male: bool,
}

impl DeepView for GetUserRequest {
    type V = GetUserRequestModel;

    open spec fn deep_view(&self) -> GetUserRequestModel {
        GetUserRequestModel {
            user_id: self.user_id,
            user_name: self.user_name@,
            is_male: self.is_male,
        }
    }
}

impl Default for GetUserRequest {
    fn default() -> (r: Self)
        ensures
            r.deep_view() == (GetUserRequestModel {
                user_id: 0,
                user_name: Seq::empty(),
                is_male: false,
            }),
    {
        GetUserRequest { user_id: 0, user_name: String::new(), is_male: false }
    }
}

impl OrigType for GetUserRequest {
    fn orig_type() -> (t: TType) {
        TType::Struct
    }
}

impl Declared for GetUserRequest {
    open spec fn registry() -> RegistryModel {
        registry_model()
    }

    proof fn lemma_registry_valid() {
        lemma_registry_valid();
    }

    fn build_registry() -> (r: Registry) {
        registry()
    }

    open spec fn descriptor() -> TypeModel {
        named("GetUserRequest"@)
    }

    open spec fn value_of(m: GetUserRequestModel) -> ValueModel {
        ValueModel::Struct(
            seq![
                Some(ValueModel::I32(m.user_id)),
                Some(ValueModel::Text(m.user_name)),
                Some(ValueModel::Bool(m.is_male)),
            ],
        )
    }

    open spec fn of_value(v: ValueModel) -> GetUserRequestModel {
        match v {
            ValueModel::Struct(slots) => if slots.len() == 3 {
                GetUserRequestModel {
                    user_id: i32_of(slots[0]),
                    user_name: slot_text_of(slots[1]),
                    is_male: bool_of(slots[2]),
                }
            } else {
                GetUserRequestModel { user_id: 0, user_name: Seq::empty(), is_male: false }
            },
            _ => GetUserRequestModel { user_id: 0, user_name: Seq::empty(), is_male: false },
        }
    }

    proof fn lemma_value_roundtrip(m: GetUserRequestModel) {
    }

    fn field_type() -> (t: FieldType) {
        ident("GetUserRequest")
    }

    fn to_value(&self) -> (v: Value) {
        let mut slots: Vec<Option<Value>> = Vec::new();
        slots.push(Some(Value::I32(self.user_id)));
        slots.push(Some(Value::Text(self.user_name.clone())));
        slots.push(Some(Value::Bool(self.is_male)));
        let v = Value::Struct(slots);
        proof {
            assert(crate::value::slot_models_of(slots) =~= Self::value_of(
                self.deep_view(),
            )->Struct_0);
        }
        v
    }

    fn from_value(v: &Value) -> (r: Self) {
        match v {
            Value::Struct(slots) => {
                proof {
                    lemma_slots_of_struct(*v);
                }
                if slots.len() == 3 {
                    let user_id = match &slots[0] {
                        Some(Value::I32(i)) => *i,
                        _ => 0,
                    };
                    let user_name = match &slots[1] {
                        Some(x) => text_from_value(x),
                        None => String::new(),
                    };
                    let is_male = match &slots[2] {
                        Some(Value::Bool(b)) => *b,
                        _ => false,
                    };
                    GetUserRequest { user_id, user_name, is_male }
                } else {
                    GetUserRequest::default()
                }
            },
            _ => GetUserRequest::default(),
        }
    }
}

impl Message for GetUserRequest {
    open spec fn refusal(m: GetUserRequestModel) -> Option<Fault> {
        declared_refusal::<GetUserRequest>(m)
    }

    open spec fn wire(m: GetUserRequestModel) -> Seq<u8> {
        declared_wire::<GetUserRequest>(m)
    }

    open spec fn parse(cx: Header, input: Seq<u8>) -> Parsed<GetUserRequestModel> {
        declared_parse::<GetUserRequest>(cx, input)
    }

    open spec fn admits(cx: Header, m: GetUserRequestModel) -> bool {
        declared_proper::<Self>(m)
    }

    open spec fn unread(cx: Header) -> bool {
        false
    }

    proof fn lemma_unread(cx: Header, input: Seq<u8>) {
    }

    proof fn lemma_roundtrip(cx: Header, m: GetUserRequestModel, rest: Seq<u8>) {
        lemma_declared_roundtrip::<GetUserRequest>(cx, m, rest);
    }

    fn encode(&self, cx: &MsgContext, protocol: &mut TBinaryOutputProtocol<bytes::BytesMut>) -> (r:
        Result<(), Error>) {
        encode_declared(self, cx, protocol)
    }

    fn decode(cx: &mut MsgContext, protocol: &mut TBinaryInputProtocol<bytes::BytesMut>) -> (r:
        Result<Self, Error>) {
        decode_declared::<GetUserRequest>(cx, protocol)
    }
}

// ---------------------------------------------------------------------
// GetUserResponse
// ---------------------------------------------------------------------
/// The response of `GetUser`.
#[derive(Debug, Clone, PartialEq)]
pub struct GetUserResponse {
    pub users: Vec<User>,
}

/// The response of `GetUser` as mathematics.
pub struct GetUserResponseModel {
    pub users: Seq<UserModel>,
}

/// The models of the users of a vector.
pub open spec fn users_of(users: Vec<User>) -> Seq<UserModel> {
    Seq::new(users@.len(), |i: int| users@[i].deep_view())
}

/// The list value of users.
pub open spec fn users_value(users: Seq<UserModel>) -> ValueModel {
    ValueModel::List(Seq::new(users.len(), |i: int| User::value_of(users[i])))
}

/// The users of a list value.
pub open spec fn users_of_value(v: Option<ValueModel>) -> Seq<UserModel> {
    match v {
        Some(ValueModel::List(items)) => Seq::new(items.len(), |i: int| User::of_value(items[i])),
        _ => Seq::empty(),
    }
}

impl DeepView for GetUserResponse {
    type V = GetUserResponseModel;

    open spec fn deep_view(&self) -> GetUserResponseModel {
        GetUserResponseModel { users: users_of(self.users) }
    }
}

impl Default for GetUserResponse {
    fn default() -> (r: Self)
        ensures
            r.deep_view() == (GetUserResponseModel { users: Seq::empty() }),
    {
        let r = GetUserResponse { users: Vec::new() };
        proof {
            assert(users_of(r.users) =~= Seq::<UserModel>::empty());
        }
        r
    }
}

impl OrigType for GetUserResponse {
    fn orig_type() -> (t: TType) {
        TType::Struct
    }
}

impl Declared for GetUserResponse {
    open spec fn registry() -> RegistryModel {
        registry_model()
    }

    proof fn lemma_registry_valid() {
        lemma_registry_valid();
    }

    fn build_registry() -> (r: Registry) {
        registry()
    }

    open spec fn descriptor() -> TypeModel {
        named("GetUserResponse"@)
    }

    open spec fn value_of(m: GetUserResponseModel) -> ValueModel {
        ValueModel::Struct(seq![Some(users_value(m.users))])
    }

    open spec fn of_value(v: ValueModel) -> GetUserResponseModel {
        match v {
            ValueModel::Struct(slots) => if slots.len() == 1 {
                GetUserResponseModel { users: users_of_value(slots[0]) }
            } else {
                GetUserResponseModel { users: Seq::empty() }
            },
            _ => GetUserResponseModel { users: Seq::empty() },
        }
    }

    proof fn lemma_value_roundtrip(m: GetUserResponseModel) {
        assert forall|i: int| 0 <= i < m.users.len() implies User::of_value(
            #[trigger] User::value_of(m.users[i]),
        ) == m.users[i] by {
            User::lemma_value_roundtrip(m.users[i]);
        }
        assert(users_of_value(Some(users_value(m.users))) =~= m.users);
    }

    fn field_type() -> (t: FieldType) {
        ident("GetUserResponse")
    }

    fn to_value(&self) -> (v: Value) {
        let mut items: Vec<Value> = Vec::new();
        let mut i: usize = 0;
        while i < self.users.len()
            invariant
                i <= self.users.len(),
                items.len() == i,
                forall|j: int|
                    0 <= j < i ==> model_of(#[trigger] items[j]) == User::value_of(
                        self.users@[j].deep_view(),
                    ),
            decreases self.users.len() - i,
        {
            items.push(self.users[i].to_value());
            i = i + 1;
        }
        let mut slots: Vec<Option<Value>> = Vec::new();
        let list = Value::List(items);
        proof {
            assert(models_of(items) =~= users_value(users_of(self.users))->List_0);
        }
        slots.push(Some(list));
        let v = Value::Struct(slots);
        proof {
            assert(crate::value::slot_models_of(slots) =~= Self::value_of(
                self.deep_view(),
            )->Struct_0);
        }
        v
    }

    fn from_value(v: &Value) -> (r: Self) {
        match v {
            Value::Struct(slots) => {
                proof {
                    lemma_slots_of_struct(*v);
                }
                if slots.len() == 1 {
                    let mut users: Vec<User> = Vec::new();
                    match &slots[0] {
                        Some(Value::List(items)) => {
                            let mut i: usize = 0;
                            while i < items.len()
                                invariant
                                    i <= items.len(),
                                    users.len() == i,
                                    forall|j: int|
                                        0 <= j < i ==> (#[trigger] users[j]).deep_view()
                                            == User::of_value(model_of(items[j])),
                                decreases items.len() - i,
                            {
                                users.push(User::from_value(&items[i]));
                                i = i + 1;
                            }
                            proof {
                                let models = models_of(*items);
                                assert(model_of(slots[0]->Some_0) == ValueModel::List(models));
                                assert forall|j: int| 0 <= j < items.len() implies #[trigger] users_of(
                                    users,
                                )[j] == User::of_value(models[j]) by {
                                    assert(users[j].deep_view() == User::of_value(
                                        model_of(items[j]),
                                    ));
                                }
                                assert(users_of(users) =~= users_of_value(
                                    crate::value::slot_model(slots[0]),
                                ));
                            }
                        },
                        _ => {
                            proof {
                                assert(users_of(users) =~= users_of_value(
                                    crate::value::slot_model(slots[0]),
                                ));
                            }
                        },
                    }
                    GetUserResponse { users }
                } else {
                    GetUserResponse::default()
                }
            },
            _ => GetUserResponse::default(),
        }
    }
}

impl Message for GetUserResponse {
    open spec fn refusal(m: GetUserResponseModel) -> Option<Fault> {
        declared_refusal::<GetUserResponse>(m)
    }

    open spec fn wire(m: GetUserResponseModel) -> Seq<u8> {
        declared_wire::<GetUserResponse>(m)
    }

    open spec fn parse(cx: Header, input: Seq<u8>) -> Parsed<GetUserResponseModel> {
        declared_parse::<GetUserResponse>(cx, input)
    }

    open spec fn admits(cx: Header, m: GetUserResponseModel) -> bool {
        declared_proper::<Self>(m)
    }

    open spec fn unread(cx: Header) -> bool {
        false
    }

    proof fn lemma_unread(cx: Header, input: Seq<u8>) {
    }

    proof fn lemma_roundtrip(cx: Header, m: GetUserResponseModel, rest: Seq<u8>) {
        lemma_declared_roundtrip::<GetUserResponse>(cx, m, rest);
    }

    fn encode(&self, cx: &MsgContext, protocol: &mut TBinaryOutputProtocol<bytes::BytesMut>) -> (r:
        Result<(), Error>) {
        encode_declared(self, cx, protocol)
    }

    fn decode(cx: &mut MsgContext, protocol: &mut TBinaryInputProtocol<bytes::BytesMut>) -> (r:
        Result<Self, Error>) {
        decode_declared::<GetUserResponse>(cx, protocol)
    }
}

// ---------------------------------------------------------------------
// The arguments and the outcome of GetUser
// ---------------------------------------------------------------------
/// The arguments of `GetUser`.
#[derive(Debug, Clone, PartialEq)]
pub struct AnonymousItemServiceGetUserArgs {
    pub req: GetUserRequest,
    pub shuffle: bool,
}

/// The arguments of `GetUser` as mathematics.
pub struct GetUserArgsModel {
    pub req: GetUserRequestModel,
    pub shuffle: bool,
}

impl DeepView for AnonymousItemServiceGetUserArgs {
    type V = GetUserArgsModel;

    open spec fn deep_view(&self) -> GetUserArgsModel {
        GetUserArgsModel { req: self.req.deep_view(), shuffle: self.shuffle }
    }
}

impl Default for AnonymousItemServiceGetUserArgs {
    fn default() -> (r: Self)
        ensures
            r.deep_view() == (GetUserArgsModel {
                req: GetUserRequestModel { user_id: 0, user_name: Seq::empty(), is_male: false },
                shuffle: false,
            }),
    {
        AnonymousItemServiceGetUserArgs { req: GetUserRequest::default(), shuffle: false }
    }
}

impl OrigType for AnonymousItemServiceGetUserArgs {
    fn orig_type() -> (t: TType) {
        TType::Struct
    }
}

impl Declared for AnonymousItemServiceGetUserArgs {
    open spec fn registry() -> RegistryModel {
        registry_model()
    }

    proof fn lemma_registry_valid() {
        lemma_registry_valid();
    }

    fn build_registry() -> (r: Registry) {
        registry()
    }

    open spec fn descriptor() -> TypeModel {
        named("AnonymousItemServiceGetUserArgs"@)
    }

    open spec fn value_of(m: GetUserArgsModel) -> ValueModel {
        ValueModel::Struct(
            seq![Some(GetUserRequest::value_of(m.req)), Some(ValueModel::Bool(m.shuffle))],
        )
    }

    open spec fn of_value(v: ValueModel) -> GetUserArgsModel {
        match v {
            ValueModel::Struct(slots) => if slots.len() == 2 {
                GetUserArgsModel {
                    req: match slots[0] {
                        Some(x) => GetUserRequest::of_value(x),
                        None => GetUserRequestModel {
                            user_id: 0,
                            user_name: Seq::empty(),
                            is_male: false,
                        },
                    },
                    shuffle: bool_of(slots[1]),
                }
            } else {
                GetUserArgsModel {
                    req: GetUserRequestModel {
                        user_id: 0,
                        user_name: Seq::empty(),
                        is_male: false,
                    },
                    shuffle: false,
                }
            },
            _ => GetUserArgsModel {
                req: GetUserRequestModel { user_id: 0, user_name: Seq::empty(), is_male: false },
                shuffle: false,
            },
        }
    }

    proof fn lemma_value_roundtrip(m: GetUserArgsModel) {
        GetUserRequest::lemma_value_roundtrip(m.req);
    }

    fn field_type() -> (t: FieldType) {
        ident("AnonymousItemServiceGetUserArgs")
    }

    fn to_value(&self) -> (v: Value) {
        let mut slots: Vec<Option<Value>> = Vec::new();
        slots.push(Some(self.req.to_value()));
        slots.push(Some(Value::Bool(self.shuffle)));
        let v = Value::Struct(slots);
        proof {
            assert(crate::value::slot_models_of(slots) =~= Self::value_of(
                self.deep_view(),
            )->Struct_0);
        }
        v
    }

    fn from_value(v: &Value) -> (r: Self) {
        match v {
            Value::Struct(slots) => {
                proof {
                    lemma_slots_of_struct(*v);
                }
                if slots.len() == 2 {
                    let req = match &slots[0] {
                        Some(x) => GetUserRequest::from_value(x),
                        None => GetUserRequest::default(),
                    };
                    let shuffle = match &slots[1] {
                        Some(Value::Bool(b)) => *b,
                        _ => false,
                    };
                    AnonymousItemServiceGetUserArgs { req, shuffle }
                } else {
                    AnonymousItemServiceGetUserArgs::default()
                }
            },
            _ => AnonymousItemServiceGetUserArgs::default(),
        }
    }
}

impl Message for AnonymousItemServiceGetUserArgs {
    open spec fn refusal(m: GetUserArgsModel) -> Option<Fault> {
        declared_refusal::<AnonymousItemServiceGetUserArgs>(m)
    }

    open spec fn wire(m: GetUserArgsModel) -> Seq<u8> {
        declared_wire::<AnonymousItemServiceGetUserArgs>(m)
    }

    open spec fn parse(cx: Header, input: Seq<u8>) -> Parsed<GetUserArgsModel> {
        declared_parse::<AnonymousItemServiceGetUserArgs>(cx, input)
    }

    open spec fn admits(cx: Header, m: GetUserArgsModel) -> bool {
        declared_proper::<Self>(m)
    }

    open spec fn unread(cx: Header) -> bool {
        false
    }

    proof fn lemma_unread(cx: Header, input: Seq<u8>) {
    }

    proof fn lemma_roundtrip(cx: Header, m: GetUserArgsModel, rest: Seq<u8>) {
        lemma_declared_roundtrip::<AnonymousItemServiceGetUserArgs>(cx, m, rest);
    }

    fn encode(&self, cx: &MsgContext, protocol: &mut TBinaryOutputProtocol<bytes::BytesMut>) -> (r:
        Result<(), Error>) {
        encode_declared(self, cx, protocol)
    }

    fn decode(cx: &mut MsgContext, protocol: &mut TBinaryInputProtocol<bytes::BytesMut>) -> (r:
        Result<Self, Error>) {
        decode_declared::<AnonymousItemServiceGetUserArgs>(cx, protocol)
    }
}

/// The outcome of `GetUser`.
#[derive(Debug, Clone, PartialEq)]
pub enum AnonymousItemServiceGetUserResult {
    Success(GetUserResponse),
}

/// The outcome of `GetUser` as mathematics.
pub enum GetUserResultModel {
    Success(GetUserResponseModel),
}

impl DeepView for AnonymousItemServiceGetUserResult {
    type V = GetUserResultModel;

    open spec fn deep_view(&self) -> GetUserResultModel {
        match self {
            AnonymousItemServiceGetUserResult::Success(r) => GetUserResultModel::Success(
                r.deep_view(),
            ),
        }
    }
}

impl OrigType for AnonymousItemServiceGetUserResult {
    fn orig_type() -> (t: TType) {
        TType::Struct
    }
}

impl Declared for AnonymousItemServiceGetUserResult {
    open spec fn registry() -> RegistryModel {
        registry_model()
    }

    proof fn lemma_registry_valid() {
        lemma_registry_valid();
    }

    fn build_registry() -> (r: Registry) {
        registry()
    }

    open spec fn descriptor() -> TypeModel {
        named("AnonymousItemServiceGetUserResult"@)
    }

    open spec fn value_of(m: GetUserResultModel) -> ValueModel {
        match m {
            GetUserResultModel::Success(r) => ValueModel::Variant(
                0,
                Box::new(GetUserResponse::value_of(r)),
            ),
        }
    }

    open spec fn of_value(v: ValueModel) -> GetUserResultModel {
        match v {
            ValueModel::Variant(_, inner) => GetUserResultModel::Success(
                GetUserResponse::of_value(*inner),
            ),
            _ => GetUserResultModel::Success(GetUserResponseModel { users: Seq::empty() }),
        }
    }

    proof fn lemma_value_roundtrip(m: GetUserResultModel) {
        match m {
            GetUserResultModel::Success(r) => GetUserResponse::lemma_value_roundtrip(r),
        }
    }

    fn field_type() -> (t: FieldType) {
        ident("AnonymousItemServiceGetUserResult")
    }

    fn to_value(&self) -> (v: Value) {
        match self {
            AnonymousItemServiceGetUserResult::Success(r) => Value::Variant(
                0,
                Box::new(r.to_value()),
            ),
        }
    }

    fn from_value(v: &Value) -> (r: Self) {
        match v {
            Value::Variant(_, inner) => AnonymousItemServiceGetUserResult::Success(
                GetUserResponse::from_value(inner),
            ),
            _ => AnonymousItemServiceGetUserResult::Success(GetUserResponse::default()),
        }
    }
}

impl Message for AnonymousItemServiceGetUserResult {
    open spec fn refusal(m: GetUserResultModel) -> Option<Fault> {
        declared_refusal::<AnonymousItemServiceGetUserResult>(m)
    }

    open spec fn wire(m: GetUserResultModel) -> Seq<u8> {
        declared_wire::<AnonymousItemServiceGetUserResult>(m)
    }

    open spec fn parse(cx: Header, input: Seq<u8>) -> Parsed<GetUserResultModel> {
        declared_parse::<AnonymousItemServiceGetUserResult>(cx, input)
    }

    open spec fn admits(cx: Header, m: GetUserResultModel) -> bool {
        declared_proper::<Self>(m)
    }

    open spec fn unread(cx: Header) -> bool {
        false
    }

    proof fn lemma_unread(cx: Header, input: Seq<u8>) {
    }

    proof fn lemma_roundtrip(cx: Header, m: GetUserResultModel, rest: Seq<u8>) {
        lemma_declared_roundtrip::<AnonymousItemServiceGetUserResult>(cx, m, rest);
    }

    fn encode(&self, cx: &MsgContext, protocol: &mut TBinaryOutputProtocol<bytes::BytesMut>) -> (r:
        Result<(), Error>) {
        encode_declared(self, cx, protocol)
    }

    fn decode(cx: &mut MsgContext, protocol: &mut TBinaryInputProtocol<bytes::BytesMut>) -> (r:
        Result<Self, Error>) {
        decode_declared::<AnonymousItemServiceGetUserResult>(cx, protocol)
    }
}

// ---------------------------------------------------------------------
// The requests and responses of the service
// ---------------------------------------------------------------------
/// A request to `ItemService`: the arguments of one of its methods.
#[derive(Debug, Clone, PartialEq)]
pub enum AnonymousItemServiceRequest {
    GetUser(AnonymousItemServiceGetUserArgs),
}

/// A request to `ItemService` as mathematics.
pub enum ItemServiceRequestModel {
    GetUser(GetUserArgsModel),
}

impl DeepView for AnonymousItemServiceRequest {
    type V = ItemServiceRequestModel;

    open spec fn deep_view(&self) -> ItemServiceRequestModel {
        match self {
            AnonymousItemServiceRequest::GetUser(a) => ItemServiceRequestModel::GetUser(
                a.deep_view(),
            ),
        }
    }
}

impl OrigType for AnonymousItemServiceRequest {
    fn orig_type() -> (t: TType) {
        TType::Struct
    }
}

impl Declared for AnonymousItemServiceRequest {
    open spec fn registry() -> RegistryModel {
        registry_model()
    }

    proof fn lemma_registry_valid() {
        lemma_registry_valid();
    }

    fn build_registry() -> (r: Registry) {
        registry()
    }

    open spec fn descriptor() -> TypeModel {
        named("AnonymousItemServiceRequest"@)
    }

    open spec fn value_of(m: ItemServiceRequestModel) -> ValueModel {
        match m {
            ItemServiceRequestModel::GetUser(a) => ValueModel::Variant(
                0,
                Box::new(AnonymousItemServiceGetUserArgs::value_of(a)),
            ),
        }
    }

    open spec fn of_value(v: ValueModel) -> ItemServiceRequestModel {
        match v {
            ValueModel::Variant(_, inner) => ItemServiceRequestModel::GetUser(
                AnonymousItemServiceGetUserArgs::of_value(*inner),
            ),
            _ => ItemServiceRequestModel::GetUser(
                AnonymousItemServiceGetUserArgs::of_value(ValueModel::Void),
            ),
        }
    }

    proof fn lemma_value_roundtrip(m: ItemServiceRequestModel) {
        match m {
            ItemServiceRequestModel::GetUser(a) => {
                AnonymousItemServiceGetUserArgs::lemma_value_roundtrip(a)
            },
        }
    }

    fn field_type() -> (t: FieldType) {
        ident("AnonymousItemServiceRequest")
    }

    fn to_value(&self) -> (v: Value) {
        match self {
            AnonymousItemServiceRequest::GetUser(a) => Value::Variant(0, Box::new(a.to_value())),
        }
    }

    fn from_value(v: &Value) -> (r: Self) {
        match v {
            Value::Variant(_, inner) => AnonymousItemServiceRequest::GetUser(
                AnonymousItemServiceGetUserArgs::from_value(inner),
            ),
            _ => AnonymousItemServiceRequest::GetUser(
                AnonymousItemServiceGetUserArgs::from_value(&Value::Void),
            ),
        }
    }
}

impl Message for AnonymousItemServiceRequest {
    open spec fn refusal(m: ItemServiceRequestModel) -> Option<Fault> {
        match image_dispatch(registry_model(), item_service_request_definition(), Self::value_of(m)) {
            Ok(_) => None,
            Err(f) => Some(f),
        }
    }

    open spec fn wire(m: ItemServiceRequestModel) -> Seq<u8> {
        image_dispatch(registry_model(), item_service_request_definition(), Self::value_of(m))->Ok_0
    }

    open spec fn parse(cx: Header, input: Seq<u8>) -> Parsed<ItemServiceRequestModel> {
        match parse_dispatch(registry_model(), item_service_request_definition(), cx, input) {
            Ok((v, rest)) => Ok((Self::of_value(v), rest)),
            Err(f) => Err(f),
        }
    }

    /// The message must bear the name of the variant's method, and the
    /// value must be proper.
    open spec fn admits(cx: Header, m: ItemServiceRequestModel) -> bool {
        cx.name == "GetUser"@ && declared_proper::<Self>(m)
    }

    /// No variant bears the method name of the message.
    open spec fn unread(cx: Header) -> bool {
        find_variant_name(item_service_request_definition().variants, cx.name, 0) is None
    }

    proof fn lemma_unread(cx: Header, input: Seq<u8>) {
    }

    proof fn lemma_roundtrip(cx: Header, m: ItemServiceRequestModel, rest: Seq<u8>) {
        lemma_registry_valid();
        let e = item_service_request_definition();
        assert(distinct_variant_names(e.variants));
        lemma_dispatch_roundtrip(registry_model(), e, cx, Self::value_of(m), rest);
        Self::lemma_value_roundtrip(m);
    }

    fn encode(&self, cx: &MsgContext, protocol: &mut TBinaryOutputProtocol<bytes::BytesMut>) -> (r:
        Result<(), Error>) {
        let reg = registry();
        let e = item_service_request_schema();
        let v = self.to_value();
        encode_dispatch(&reg, &e, &v, cx, protocol)
    }

    fn decode(cx: &mut MsgContext, protocol: &mut TBinaryInputProtocol<bytes::BytesMut>) -> (r:
        Result<Self, Error>) {
        let reg = registry();
        let e = item_service_request_schema();
        let v = decode_dispatch(&reg, &e, cx, protocol)?;
        Ok(Self::from_value(&v))
    }
}

/// A response of `ItemService`: the outcome of one of its methods.
#[derive(Debug, Clone, PartialEq)]
pub enum AnonymousItemServiceResponse {
    GetUser(AnonymousItemServiceGetUserResult),
}

/// A response of `ItemService` as mathematics.
pub enum ItemServiceResponseModel {
    GetUser(GetUserResultModel),
}

impl DeepView for AnonymousItemServiceResponse {
    type V = ItemServiceResponseModel;

    open spec fn deep_view(&self) -> ItemServiceResponseModel {
        match self {
            AnonymousItemServiceResponse::GetUser(a) => ItemServiceResponseModel::GetUser(
                a.deep_view(),
            ),
        }
    }
}

impl OrigType for AnonymousItemServiceResponse {
    fn orig_type() -> (t: TType) {
        TType::Struct
    }
}

impl Declared for AnonymousItemServiceResponse {
    open spec fn registry() -> RegistryModel {
        registry_model()
    }

    proof fn lemma_registry_valid() {
        lemma_registry_valid();
    }

    fn build_registry() -> (r: Registry) {
        registry()
    }

    open spec fn descriptor() -> TypeModel {
        named("AnonymousItemServiceResponse"@)
    }

    open spec fn value_of(m: ItemServiceResponseModel) -> ValueModel {
        match m {
            ItemServiceResponseModel::GetUser(a) => ValueModel::Variant(
                0,
                Box::new(AnonymousItemServiceGetUserResult::value_of(a)),
            ),
        }
    }

    open spec fn of_value(v: ValueModel) -> ItemServiceResponseModel {
        match v {
            ValueModel::Variant(_, inner) => ItemServiceResponseModel::GetUser(
                AnonymousItemServiceGetUserResult::of_value(*inner),
            ),
            _ => ItemServiceResponseModel::GetUser(
                AnonymousItemServiceGetUserResult::of_value(ValueModel::Void),
            ),
        }
    }

    proof fn lemma_value_roundtrip(m: ItemServiceResponseModel) {
        match m {
            ItemServiceResponseModel::GetUser(a) => {
                AnonymousItemServiceGetUserResult::lemma_value_roundtrip(a)
            },
        }
    }

    fn field_type() -> (t: FieldType) {
        ident("AnonymousItemServiceResponse")
    }

    fn to_value(&self) -> (v: Value) {
        match self {
            AnonymousItemServiceResponse::GetUser(a) => Value::Variant(0, Box::new(a.to_value())),
        }
    }

    fn from_value(v: &Value) -> (r: Self) {
        match v {
            Value::Variant(_, inner) => AnonymousItemServiceResponse::GetUser(
                AnonymousItemServiceGetUserResult::from_value(inner),
            ),
            _ => AnonymousItemServiceResponse::GetUser(
                AnonymousItemServiceGetUserResult::from_value(&Value::Void),
            ),
        }
    }
}

impl Message for AnonymousItemServiceResponse {
    open spec fn refusal(m: ItemServiceResponseModel) -> Option<Fault> {
        match image_dispatch(registry_model(), item_service_response_definition(), Self::value_of(m)) {
            Ok(_) => None,
            Err(f) => Some(f),
        }
    }

    open spec fn wire(m: ItemServiceResponseModel) -> Seq<u8> {
        image_dispatch(registry_model(), item_service_response_definition(), Self::value_of(m))->Ok_0
    }

    open spec fn parse(cx: Header, input: Seq<u8>) -> Parsed<ItemServiceResponseModel> {
        match parse_dispatch(registry_model(), item_service_response_definition(), cx, input) {
            Ok((v, rest)) => Ok((Self::of_value(v), rest)),
            Err(f) => Err(f),
        }
    }

    /// The message must bear the name of the variant's method, and the
    /// value must be proper.
    open spec fn admits(cx: Header, m: ItemServiceResponseModel) -> bool {
        cx.name == "GetUser"@ && declared_proper::<Self>(m)
    }

    /// No variant bears the method name of the message.
    open spec fn unread(cx: Header) -> bool {
        find_variant_name(item_service_response_definition().variants, cx.name, 0) is None
    }

    proof fn lemma_unread(cx: Header, input: Seq<u8>) {
    }

    proof fn lemma_roundtrip(cx: Header, m: ItemServiceResponseModel, rest: Seq<u8>) {
        lemma_registry_valid();
        let e = item_service_response_definition();
        assert(distinct_variant_names(e.variants));
        lemma_dispatch_roundtrip(registry_model(), e, cx, Self::value_of(m), rest);
        Self::lemma_value_roundtrip(m);
    }

    fn encode(&self, cx: &MsgContext, protocol: &mut TBinaryOutputProtocol<bytes::BytesMut>) -> (r:
        Result<(), Error>) {
        let reg = registry();
        let e = item_service_response_schema();
        let v = self.to_value();
        encode_dispatch(&reg, &e, &v, cx, protocol)
    }

    fn decode(cx: &mut MsgContext, protocol: &mut TBinaryInputProtocol<bytes::BytesMut>) -> (r:
        Result<Self, Error>) {
        let reg = registry();
        let e = item_service_response_schema();
        let v = decode_dispatch(&reg, &e, cx, protocol)?;
        Ok(Self::from_value(&v))
    }
}


// ---------------------------------------------------------------------
// The client
// ---------------------------------------------------------------------
/// The request that a call of `GetUser` sends.
pub fn get_user_call(req: GetUserRequest, shuffle: bool) -> (r: AnonymousItemServiceRequest)
    ensures
        r == AnonymousItemServiceRequest::GetUser(AnonymousItemServiceGetUserArgs { req, shuffle }),
{
    AnonymousItemServiceRequest::GetUser(AnonymousItemServiceGetUserArgs { req, shuffle })
}

/// What a call of `GetUser` hands out of the response it got: the result
/// of the method. The service has no other method whose response could
/// come in its place.
pub fn get_user_result(resp: AnonymousItemServiceResponse) -> (r: Result<
    AnonymousItemServiceGetUserResult,
    Error,
>)
    ensures
        match resp {
            AnonymousItemServiceResponse::GetUser(x) => r == Ok::<
                AnonymousItemServiceGetUserResult,
                Error,
            >(x),
        },
{
    match resp {
        AnonymousItemServiceResponse::GetUser(x) => Ok(x),
    }
}

// ---------------------------------------------------------------------
// The service
// ---------------------------------------------------------------------
/// What an implementation of `ItemService` provides: one handler for each
/// method, and its own account of what the handler may answer. Nothing is
/// asked of that account; the adapter only says that what it answers is
/// an outcome of the handler on the arguments of the request.
pub trait ItemService {
    /// Whether the handler of `GetUser` may answer these arguments with
    /// this outcome.
    spec fn gets_user(
        &self,
        req: GetUserRequest,
        shuffle: bool,
        outcome: ApplicationResult<AnonymousItemServiceGetUserResult>,
    ) -> bool;

    /// The handler of `GetUser`.
    fn get_user(&self, req: GetUserRequest, shuffle: bool) -> (r: ApplicationResult<
        AnonymousItemServiceGetUserResult,
    >)
        ensures
            self.gets_user(req, shuffle, r),
    ;
}

/// The fault of a request that reached the adapter as an error of the
/// client.
pub open spec fn rejected() -> Fault {
    Fault::Application(ApplicationErrorKind::Unknown, "unexpected client error"@)
}

/// The adapter that turns an `ItemService` into a function from requests
/// to responses.
pub struct ItemServiceServer<S> {
    inner: std::sync::Arc<S>,
}

/// What the answer to `GetUser` is, given the context of the request and
/// the outcome of the handler.
pub open spec fn get_user_answer(
    cx: MsgContext,
    outcome: ApplicationResult<AnonymousItemServiceGetUserResult>,
    out: MsgContext,
    resp: ApplicationResult<AnonymousItemServiceResponse>,
) -> bool {
    &&& out.identifier.name == cx.identifier.name
    &&& out.identifier.sequence_number == cx.identifier.sequence_number
    &&& out.target == cx.target
    &&& match outcome {
        Ok(r) => out.identifier.message_type == TMessageType::Reply && resp == Ok::<
            AnonymousItemServiceResponse,
            ApplicationError,
        >(AnonymousItemServiceResponse::GetUser(r)),
        Err(e) => out.identifier.message_type == TMessageType::Exception && resp == Err::<
            AnonymousItemServiceResponse,
            ApplicationError,
        >(e),
    }
}

impl<S> ItemServiceServer<S> {
    /// An adapter around the implementation `inner`.
    pub fn new(inner: S) -> (r: Self)
        ensures
            r.handler() == inner,
    {
        Self { inner: std::sync::Arc::new(inner) }
    }

    /// The implementation that requests are handed to.
    pub closed spec fn handler(self) -> S {
        *self.inner
    }

    /// The answer to `GetUser`: the outcome of the handler under the
    /// context of the request, as a reply where the handler succeeded and
    /// as an exception where it failed.
    pub fn respond_get_user(
        cx: MsgContext,
        outcome: ApplicationResult<AnonymousItemServiceGetUserResult>,
    ) -> (r: Option<(MsgContext, ApplicationResult<AnonymousItemServiceResponse>)>)
        ensures
            r matches Some((out, resp)) && get_user_answer(cx, outcome, out, resp),
    {
        match outcome {
            Ok(r) => Some(
                (answer_context(cx, true), Ok(AnonymousItemServiceResponse::GetUser(r))),
            ),
            Err(e) => Some((answer_context(cx, false), Err(e))),
        }
    }

    /// The failure of a request that reached the adapter as an error of
    /// the client.
    pub fn reject() -> (e: Error)
        ensures
            e.fault() == rejected(),
    {
        new_application_error(ApplicationErrorKind::Unknown, "unexpected client error")
    }
}

impl<S: ItemService> ItemServiceServer<S> {
    /// Hands a request to the handler of its method and answers with the
    /// handler's outcome: a request of `GetUser` goes to `get_user` with
    /// the fields of its arguments, and the answer is what the handler
    /// gave for them, under the name and the sequence number of the
    /// request, as a reply or an exception as the handler succeeded or
    /// failed. A request that is no request but an error is handed to no
    /// handler and is rejected with an application error of kind
    /// `Unknown`.
    pub fn call(
        &mut self,
        req: (MsgContext, ApplicationResult<AnonymousItemServiceRequest>),
    ) -> (r: Result<Option<(MsgContext, ApplicationResult<AnonymousItemServiceResponse>)>, Error>)
        ensures
            final(self).handler() == old(self).handler(),
            match req.1 {
                Ok(AnonymousItemServiceRequest::GetUser(args)) => r matches Ok(Some((out, resp)))
                    && exists|outcome: ApplicationResult<AnonymousItemServiceGetUserResult>|
                    #[trigger] old(self).handler().gets_user(args.req, args.shuffle, outcome)
                        && get_user_answer(req.0, outcome, out, resp),
                Err(_) => r is Err && r->Err_0.fault() == rejected(),
            },
    {
        let (cx, req) = req;
        match req {
            Ok(AnonymousItemServiceRequest::GetUser(r)) => {
                let ghost args = r;
                let ret = self.inner.get_user(r.req, r.shuffle);
                let answer = Self::respond_get_user(cx, ret);
                proof {
                    assert(self.handler().gets_user(args.req, args.shuffle, ret));
                    assert(get_user_answer(cx, ret, answer->Some_0.0, answer->Some_0.1));
                }
                Ok(answer)
            },
            Err(_) => Err(Self::reject()),
        }
    }
}

} // verus!
