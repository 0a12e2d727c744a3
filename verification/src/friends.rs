//! A second worked example: friends and users, with a nested container,
//! a field whose requirement is left open, and an enum with more than one
//! variant.

use vstd::prelude::*;
use vstd::string::*;

use crate::binary::{TBinaryInputProtocol, TBinaryOutputProtocol};
use crate::context::{Header, MsgContext};
use crate::declared::{
    declared_parse, declared_proper, declared_refusal, declared_wire, decode_declared,
    encode_declared, lemma_declared_roundtrip, Declared,
};
use crate::demo::{
    field, i32_of, ident, lemma_slots_of_struct, named, slot_text_of, text_from_value, text_of,
    variant,
};
use crate::derive::{decode_dispatch, encode_dispatch};
use crate::errors::{Error, Fault};
use crate::message::Message;
use crate::protocol::TType;
use crate::roundtrip::{
    distinct_field_ids, distinct_variant_ids, distinct_variant_names, lemma_dispatch_roundtrip,
    valid_definition, valid_registry,
};
use crate::schema::{
    find_variant_name, image_dispatch, parse_dispatch, Definition, DefinitionModel, EnumModel,
    EnumSchema, FieldModel, FieldSchema, Registry, RegistryModel, Required, StructModel,
    StructSchema, VariantModel, VariantSchema,
};
use crate::types::{type_model, FieldType, OrigType, TypeModel};
use crate::value::{
    entry_models_of, model_of, models_of, slot_model, slot_models_of, Value, ValueModel,
};
use crate::wire::Parsed;

verus! {

// ---------------------------------------------------------------------
// The definitions
// ---------------------------------------------------------------------
/// `struct Friend { 1: required i32 id }`
pub open spec fn friend_definition() -> StructModel {
    StructModel {
        name: "Friend"@,
        fields: seq![
            FieldModel { name: "id"@, id: 1, required: Required::True, field_type: TypeModel::I32 },
        ],
    }
}

/// `struct TestUser { 1: required i32 id, 2: required string name,
/// 3: map<string, list<string>> accounts, 4: required list<Friend>
/// friends }`
pub open spec fn test_user_definition() -> StructModel {
    StructModel {
        name: "TestUser"@,
        fields: seq![
            FieldModel { name: "id"@, id: 1, required: Required::True, field_type: TypeModel::I32 },
            FieldModel {
                name: "name"@,
                id: 2,
                required: Required::True,
                field_type: TypeModel::String,
            },
            FieldModel {
                name: "accounts"@,
                id: 3,
                required: Required::Unspecified,
                field_type: TypeModel::MapOf(
                    Box::new(TypeModel::String),
                    Box::new(TypeModel::List(Box::new(TypeModel::String))),
                ),
            },
            FieldModel {
                name: "friends"@,
                id: 4,
                required: Required::True,
                field_type: TypeModel::List(Box::new(named("Friend"@))),
            },
        ],
    }
}

/// `MyResult`: a friend under field id 1, or a user under field id 2.
pub open spec fn my_result_definition() -> EnumModel {
    EnumModel {
        name: "MyResult"@,
        variants: seq![
            VariantModel { name: "Success"@, id: 1, inner: named("Friend"@) },
            VariantModel { name: "Exception"@, id: 2, inner: named("TestUser"@) },
        ],
        dispatch_only: false,
    }
}

/// `MyArgs`: the arguments of `MakeFriend` or of `CreateTestUser`.
pub open spec fn my_args_definition() -> EnumModel {
    EnumModel {
        name: "MyArgs"@,
        variants: seq![
            VariantModel { name: "MakeFriend"@, id: 0, inner: named("Friend"@) },
            VariantModel { name: "CreateTestUser"@, id: 0, inner: named("TestUser"@) },
        ],
        dispatch_only: true,
    }
}

/// The named types of the example.
pub open spec fn registry_model() -> RegistryModel {
    RegistryModel {
        definitions: seq![
            DefinitionModel::Struct(friend_definition()),
            DefinitionModel::Struct(test_user_definition()),
            DefinitionModel::Enum(my_result_definition()),
        ],
    }
}

/// The ids within every definition of the example are unambiguous.
pub proof fn lemma_registry_valid()
    ensures
        valid_registry(registry_model()),
{
    let reg = registry_model();
    assert forall|d: int| 0 <= d < reg.definitions.len() implies valid_definition(
        #[trigger] reg.definitions[d],
    ) by {
        if d == 0 {
            assert(distinct_field_ids(friend_definition().fields));
        } else if d == 1 {
            let f = test_user_definition().fields;
            assert(f[0].id == 1 && f[1].id == 2 && f[2].id == 3 && f[3].id == 4);
            assert(distinct_field_ids(f));
        } else {
            let v = my_result_definition().variants;
            assert(v[0].id == 1 && v[1].id == 2);
            assert(distinct_variant_ids(v));
        }
    }
}

/// The names of the variants of `MyArgs` differ.
pub proof fn lemma_my_args_names()
    ensures
        distinct_variant_names(my_args_definition().variants),
{
    reveal_strlit("MakeFriend");
    reveal_strlit("CreateTestUser");
    let v = my_args_definition().variants;
    assert(v[0].name.len() == 10);
    assert(v[1].name.len() == 14);
}

/// The definition of `Friend`.
pub fn friend_schema() -> (s: StructSchema)
    ensures
        s@ == friend_definition(),
{
    let mut fields: Vec<FieldSchema> = Vec::new();
    fields.push(field("id", 1, Required::True, FieldType::I32));
    let s = StructSchema { name: String::from_str("Friend"), fields };
    proof {
        assert(s@.fields =~= friend_definition().fields);
    }
    s
}

/// The definition of `TestUser`.
pub fn test_user_schema() -> (s: StructSchema)
    ensures
        s@ == test_user_definition(),
{
    let mut fields: Vec<FieldSchema> = Vec::new();
    fields.push(field("id", 1, Required::True, FieldType::I32));
    fields.push(field("name", 2, Required::True, FieldType::String));
    fields.push(
        field(
            "accounts",
            3,
            Required::Unspecified,
            FieldType::MapOf(
                Box::new(FieldType::String),
                Box::new(FieldType::List(Box::new(FieldType::String))),
            ),
        ),
    );
    fields.push(field("friends", 4, Required::True, FieldType::List(Box::new(ident("Friend")))));
    let s = StructSchema { name: String::from_str("TestUser"), fields };
    proof {
        reveal_with_fuel(type_model, 4);
        assert(s@.fields =~= test_user_definition().fields);
    }
    s
}

/// The definition of `MyResult`.
pub fn my_result_schema() -> (e: EnumSchema)
    ensures
        e@ == my_result_definition(),
{
    let mut variants: Vec<VariantSchema> = Vec::new();
    variants.push(variant("Success", 1, ident("Friend")));
    variants.push(variant("Exception", 2, ident("TestUser")));
    let e = EnumSchema { name: String::from_str("MyResult"), variants, dispatch_only: false };
    proof {
        assert(e@.variants =~= my_result_definition().variants);
    }
    e
}

/// The definition of `MyArgs`.
pub fn my_args_schema() -> (e: EnumSchema)
    ensures
        e@ == my_args_definition(),
{
    let mut variants: Vec<VariantSchema> = Vec::new();
    variants.push(variant("MakeFriend", 0, ident("Friend")));
    variants.push(variant("CreateTestUser", 0, ident("TestUser")));
    let e = EnumSchema { name: String::from_str("MyArgs"), variants, dispatch_only: true };
    proof {
        assert(e@.variants =~= my_args_definition().variants);
    }
    e
}

/// The named types of the example.
pub fn registry() -> (r: Registry)
    ensures
        r@ == registry_model(),
{
    let mut definitions: Vec<Definition> = Vec::new();
    definitions.push(Definition::Struct(friend_schema()));
    definitions.push(Definition::Struct(test_user_schema()));
    definitions.push(Definition::Enum(my_result_schema()));
    let r = Registry { definitions };
    proof {
        assert(r@.definitions =~= registry_model().definitions);
    }
    r
}

// ---------------------------------------------------------------------
// Conversions
// ---------------------------------------------------------------------
/// The texts of a vector.
pub open spec fn texts_of(v: Vec<String>) -> Seq<Seq<char>> {
    Seq::new(v@.len(), |i: int| v@[i]@)
}

/// The list value of texts.
pub open spec fn texts_value(t: Seq<Seq<char>>) -> ValueModel {
    ValueModel::List(Seq::new(t.len(), |i: int| ValueModel::Text(t[i])))
}

/// The texts of a list value.
pub open spec fn texts_of_value(v: ValueModel) -> Seq<Seq<char>> {
    match v {
        ValueModel::List(items) => Seq::new(items.len(), |i: int| text_of(items[i])),
        _ => Seq::empty(),
    }
}

/// Texts are recovered from their list value.
pub proof fn lemma_texts_roundtrip(t: Seq<Seq<char>>)
    ensures
        texts_of_value(texts_value(t)) == t,
{
    assert(texts_of_value(texts_value(t)) =~= t);
}

/// Texts as a list value.
pub fn texts_to_value(t: &Vec<String>) -> (v: Value)
    ensures
        model_of(v) == texts_value(texts_of(*t)),
{
    let mut items: Vec<Value> = Vec::new();
    let mut i: usize = 0;
    while i < t.len()
        invariant
            i <= t.len(),
            items.len() == i,
            forall|j: int| 0 <= j < i ==> model_of(#[trigger] items[j]) == ValueModel::Text(t@[j]@),
        decreases t.len() - i,
    {
        items.push(Value::Text(t[i].clone()));
        i = i + 1;
    }
    let v = Value::List(items);
    proof {
        assert(models_of(items) =~= texts_value(texts_of(*t))->List_0);
    }
    v
}

/// The texts of a list value.
pub fn texts_from_value(v: &Value) -> (t: Vec<String>)
    ensures
        texts_of(t) == texts_of_value(model_of(*v)),
{
    let mut out: Vec<String> = Vec::new();
    match v {
        Value::List(items) => {
            let mut i: usize = 0;
            while i < items.len()
                invariant
                    i <= items.len(),
                    out.len() == i,
                    forall|j: int| 0 <= j < i ==> (#[trigger] out[j])@ == text_of(model_of(items[j])),
                decreases items.len() - i,
            {
                out.push(text_from_value(&items[i]));
                i = i + 1;
            }
            proof {
                let models = models_of(*items);
                assert(model_of(*v) == ValueModel::List(models));
                assert forall|j: int| 0 <= j < items.len() implies #[trigger] texts_of(out)[j]
                    == text_of(models[j]) by {
                    assert(out[j]@ == text_of(model_of(items[j])));
                }
                assert(texts_of(out) =~= texts_of_value(model_of(*v)));
            }
        },
        _ => {
            proof {
                assert(texts_of(out) =~= texts_of_value(model_of(*v)));
            }
        },
    }
    out
}

/// The accounts of a vector: each name with its texts.
pub open spec fn accounts_of(a: Vec<(String, Vec<String>)>) -> Seq<(Seq<char>, Seq<Seq<char>>)> {
    Seq::new(a@.len(), |i: int| (a@[i].0@, texts_of(a@[i].1)))
}

/// The map value of accounts.
pub open spec fn accounts_value(a: Seq<(Seq<char>, Seq<Seq<char>>)>) -> ValueModel {
    ValueModel::MapOf(Seq::new(a.len(), |i: int| (ValueModel::Text(a[i].0), texts_value(a[i].1))))
}

/// The accounts of a map value.
pub open spec fn accounts_of_value(v: ValueModel) -> Seq<(Seq<char>, Seq<Seq<char>>)> {
    match v {
        ValueModel::MapOf(entries) => Seq::new(
            entries.len(),
            |i: int| (text_of(entries[i].0), texts_of_value(entries[i].1)),
        ),
        _ => Seq::empty(),
    }
}

/// Accounts are recovered from their map value.
pub proof fn lemma_accounts_roundtrip(a: Seq<(Seq<char>, Seq<Seq<char>>)>)
    ensures
        accounts_of_value(accounts_value(a)) == a,
{
    assert forall|i: int| 0 <= i < a.len() implies #[trigger] accounts_of_value(
        accounts_value(a),
    )[i] == a[i] by {
        lemma_texts_roundtrip(a[i].1);
    }
    assert(accounts_of_value(accounts_value(a)) =~= a);
}

/// Accounts as a map value.
pub fn accounts_to_value(a: &Vec<(String, Vec<String>)>) -> (v: Value)
    ensures
        model_of(v) == accounts_value(accounts_of(*a)),
{
    let mut entries: Vec<(Value, Value)> = Vec::new();
    let mut i: usize = 0;
    while i < a.len()
        invariant
            i <= a.len(),
            entries.len() == i,
            forall|j: int|
                0 <= j < i ==> model_of((#[trigger] entries[j]).0) == ValueModel::Text(a@[j].0@)
                    && model_of(entries[j].1) == texts_value(texts_of(a@[j].1)),
        decreases a.len() - i,
    {
        entries.push((Value::Text(a[i].0.clone()), texts_to_value(&a[i].1)));
        i = i + 1;
    }
    let v = Value::MapOf(entries);
    proof {
        assert(entry_models_of(entries) =~= accounts_value(accounts_of(*a))->MapOf_0);
    }
    v
}

/// The accounts of a map value.
pub fn accounts_from_value(v: &Value) -> (a: Vec<(String, Vec<String>)>)
    ensures
        accounts_of(a) == accounts_of_value(model_of(*v)),
{
    let mut out: Vec<(String, Vec<String>)> = Vec::new();
    match v {
        Value::MapOf(entries) => {
            let mut i: usize = 0;
            while i < entries.len()
                invariant
                    i <= entries.len(),
                    out.len() == i,
                    forall|j: int|
                        0 <= j < i ==> (#[trigger] out[j]).0@ == text_of(model_of(entries[j].0))
                            && texts_of(out[j].1) == texts_of_value(model_of(entries[j].1)),
                decreases entries.len() - i,
            {
                out.push((text_from_value(&entries[i].0), texts_from_value(&entries[i].1)));
                i = i + 1;
            }
            proof {
                let models = entry_models_of(*entries);
                assert(model_of(*v) == ValueModel::MapOf(models));
                assert forall|j: int| 0 <= j < entries.len() implies #[trigger] accounts_of(
                    out,
                )[j] == (text_of(models[j].0), texts_of_value(models[j].1)) by {
                    assert(out[j].0@ == text_of(model_of(entries[j].0)));
                }
                assert(accounts_of(out) =~= accounts_of_value(model_of(*v)));
            }
        },
        _ => {
            proof {
                assert(accounts_of(out) =~= accounts_of_value(model_of(*v)));
            }
        },
    }
    out
}

// ---------------------------------------------------------------------
// Friend
// ---------------------------------------------------------------------
/// A friend.
#[derive(Debug, Clone, PartialEq)]
pub struct Friend {
    pub id: i32,
}

impl DeepView for Friend {
    type V = i32;

    open spec fn deep_view(&self) -> i32 {
        self.id
    }
}

impl OrigType for Friend {
    fn orig_type() -> (t: TType) {
        TType::Struct
    }
}

impl Declared for Friend {
    open spec fn registry() -> RegistryModel {
        registry_model()
    }

    proof fn lemma_registry_valid() {
        lemma_registry_valid();
    }

    fn build_registry() -> (r: Registry) {
        registry()
    }

    open spec fn descriptor() -> TypeModel {
        named("Friend"@)
    }

    open spec fn value_of(m: i32) -> ValueModel {
        ValueModel::Struct(seq![Some(ValueModel::I32(m))])
    }

    open spec fn of_value(v: ValueModel) -> i32 {
        match v {
            ValueModel::Struct(slots) => if slots.len() == 1 {
                i32_of(slots[0])
            } else {
                0
            },
            _ => 0,
        }
    }

    proof fn lemma_value_roundtrip(m: i32) {
    }

    fn field_type() -> (t: FieldType) {
        ident("Friend")
    }

    fn to_value(&self) -> (v: Value) {
        let mut slots: Vec<Option<Value>> = Vec::new();
        slots.push(Some(Value::I32(self.id)));
        let v = Value::Struct(slots);
        proof {
            assert(slot_models_of(slots) =~= Self::value_of(self.deep_view())->Struct_0);
        }
        v
    }

    fn from_value(v: &Value) -> (r: Self) {
        match v {
            Value::Struct(slots) => {
                proof {
                    lemma_slots_of_struct(*v);
                }
                if slots.len() == 1 {
                    let id = match &slots[0] {
                        Some(Value::I32(i)) => *i,
                        _ => 0,
                    };
                    Friend { id }
                } else {
                    Friend { id: 0 }
                }
            },
            _ => Friend { id: 0 },
        }
    }
}

impl Message for Friend {
    open spec fn refusal(m: i32) -> Option<Fault> {
        declared_refusal::<Friend>(m)
    }

    open spec fn wire(m: i32) -> Seq<u8> {
        declared_wire::<Friend>(m)
    }

    open spec fn parse(cx: Header, input: Seq<u8>) -> Parsed<i32> {
        declared_parse::<Friend>(cx, input)
    }

    open spec fn admits(cx: Header, m: i32) -> bool {
        declared_proper::<Self>(m)
    }

    open spec fn unread(cx: Header) -> bool {
        false
    }

    proof fn lemma_unread(cx: Header, input: Seq<u8>) {
    }

    proof fn lemma_roundtrip(cx: Header, m: i32, rest: Seq<u8>) {
        lemma_declared_roundtrip::<Friend>(cx, m, rest);
    }

    fn encode(&self, cx: &MsgContext, protocol: &mut TBinaryOutputProtocol<bytes::BytesMut>) -> (r:
        Result<(), Error>) {
        encode_declared(self, cx, protocol)
    }

    fn decode(cx: &mut MsgContext, protocol: &mut TBinaryInputProtocol<bytes::BytesMut>) -> (r:
        Result<Self, Error>) {
        decode_declared::<Friend>(cx, protocol)
    }
}

// ---------------------------------------------------------------------
// TestUser
// ---------------------------------------------------------------------
/// A user with accounts and friends. The accounts are a mapping from a
/// name to texts, held as its entries in the order in which they travel;
/// they must be set for the user to be written.
#[derive(Debug, Clone, PartialEq)]
pub struct TestUser {
    pub id: i32,
    pub name: String,
    pub accounts: Option<Vec<(String, Vec<String>)>>,
    pub friends: Vec<Friend>,
}

/// A user as mathematics.
pub struct TestUserModel {
    pub id: i32,
    pub name: Seq<char>,
    pub accounts: Option<Seq<(Seq<char>, Seq<Seq<char>>)>>,
    pub friends: Seq<i32>,
}

/// The ids of the friends of a vector.
pub open spec fn friends_of(f: Vec<Friend>) -> Seq<i32> {
    Seq::new(f@.len(), |i: int| f@[i].id)
}

/// The list value of friends.
pub open spec fn friends_value(f: Seq<i32>) -> ValueModel {
    ValueModel::List(Seq::new(f.len(), |i: int| Friend::value_of(f[i])))
}

/// The friends of a list value.
pub open spec fn friends_of_value(v: Option<ValueModel>) -> Seq<i32> {
    match v {
        Some(ValueModel::List(items)) => Seq::new(items.len(), |i: int| Friend::of_value(items[i])),
        _ => Seq::empty(),
    }
}

/// The user that stands for a value of another shape.
pub open spec fn no_test_user() -> TestUserModel {
    TestUserModel { id: 0, name: Seq::empty(), accounts: None, friends: Seq::empty() }
}

impl DeepView for TestUser {
    type V = TestUserModel;

    open spec fn deep_view(&self) -> TestUserModel {
        TestUserModel {
            id: self.id,
            name: self.name@,
            accounts: match self.accounts {
                Some(a) => Some(accounts_of(a)),
                None => None,
            },
            friends: friends_of(self.friends),
        }
    }
}

impl Default for TestUser {
    fn default() -> (r: Self)
        ensures
            r.deep_view() == no_test_user(),
    {
        let r = TestUser { id: 0, name: String::new(), accounts: None, friends: Vec::new() };
        proof {
            assert(friends_of(r.friends) =~= Seq::<i32>::empty());
        }
        r
    }
}

impl OrigType for TestUser {
    fn orig_type() -> (t: TType) {
        TType::Struct
    }
}

impl Declared for TestUser {
    open spec fn registry() -> RegistryModel {
        registry_model()
    }

    proof fn lemma_registry_valid() {
        lemma_registry_valid();
    }

    fn build_registry() -> (r: Registry) {
        registry()
    }

    open spec fn descriptor() -> TypeModel {
        named("TestUser"@)
    }

    open spec fn value_of(m: TestUserModel) -> ValueModel {
        ValueModel::Struct(
            seq![
                Some(ValueModel::I32(m.id)),
                Some(ValueModel::Text(m.name)),
                match m.accounts {
                    Some(a) => Some(accounts_value(a)),
                    None => None,
                },
                Some(friends_value(m.friends)),
            ],
        )
    }

    open spec fn of_value(v: ValueModel) -> TestUserModel {
        match v {
            ValueModel::Struct(slots) => if slots.len() == 4 {
                TestUserModel {
                    id: i32_of(slots[0]),
                    name: slot_text_of(slots[1]),
                    accounts: match slots[2] {
                        Some(x) => Some(accounts_of_value(x)),
                        None => None,
                    },
                    friends: friends_of_value(slots[3]),
                }
            } else {
                no_test_user()
            },
            _ => no_test_user(),
        }
    }

    proof fn lemma_value_roundtrip(m: TestUserModel) {
        match m.accounts {
            Some(a) => lemma_accounts_roundtrip(a),
            None => {},
        }
        assert(friends_of_value(Some(friends_value(m.friends))) =~= m.friends);
    }

    fn field_type() -> (t: FieldType) {
        ident("TestUser")
    }

    fn to_value(&self) -> (v: Value) {
        let mut friends: Vec<Value> = Vec::new();
        let mut i: usize = 0;
        while i < self.friends.len()
            invariant
                i <= self.friends.len(),
                friends.len() == i,
                forall|j: int|
                    0 <= j < i ==> model_of(#[trigger] friends[j]) == Friend::value_of(
                        self.friends@[j].id,
                    ),
            decreases self.friends.len() - i,
        {
            friends.push(self.friends[i].to_value());
            i = i + 1;
        }
        let list = Value::List(friends);
        proof {
            assert(models_of(friends) =~= friends_value(friends_of(self.friends))->List_0);
        }
        let mut slots: Vec<Option<Value>> = Vec::new();
        slots.push(Some(Value::I32(self.id)));
        slots.push(Some(Value::Text(self.name.clone())));
        slots.push(
            match &self.accounts {
                Some(a) => Some(accounts_to_value(a)),
                None => None,
            },
        );
        slots.push(Some(list));
        let v = Value::Struct(slots);
        proof {
            assert(slot_models_of(slots) =~= Self::value_of(self.deep_view())->Struct_0);
        }
        v
    }

    fn from_value(v: &Value) -> (r: Self) {
        match v {
            Value::Struct(slots) => {
                proof {
                    lemma_slots_of_struct(*v);
                }
                if slots.len() == 4 {
                    let id = match &slots[0] {
                        Some(Value::I32(i)) => *i,
                        _ => 0,
                    };
                    let name = match &slots[1] {
                        Some(x) => text_from_value(x),
                        None => String::new(),
                    };
                    let accounts = match &slots[2] {
                        Some(x) => Some(accounts_from_value(x)),
                        None => None,
                    };
                    let mut friends: Vec<Friend> = Vec::new();
                    match &slots[3] {
                        Some(Value::List(items)) => {
                            let mut i: usize = 0;
                            while i < items.len()
                                invariant
                                    i <= items.len(),
                                    friends.len() == i,
                                    forall|j: int|
                                        0 <= j < i ==> (#[trigger] friends[j]).id
                                            == Friend::of_value(model_of(items[j])),
                                decreases items.len() - i,
                            {
                                friends.push(Friend::from_value(&items[i]));
                                i = i + 1;
                            }
                            proof {
                                let models = models_of(*items);
                                assert(model_of(slots[3]->Some_0) == ValueModel::List(models));
                                assert forall|j: int| 0 <= j < items.len() implies #[trigger] friends_of(
                                    friends,
                                )[j] == Friend::of_value(models[j]) by {
                                    assert(friends[j].id == Friend::of_value(model_of(items[j])));
                                }
                                assert(friends_of(friends) =~= friends_of_value(
                                    slot_model(slots[3]),
                                ));
                            }
                        },
                        _ => {
                            proof {
                                assert(friends_of(friends) =~= friends_of_value(
                                    slot_model(slots[3]),
                                ));
                            }
                        },
                    }
                    TestUser { id, name, accounts, friends }
                } else {
                    TestUser::default()
                }
            },
            _ => TestUser::default(),
        }
    }
}

impl Message for TestUser {
    open spec fn refusal(m: TestUserModel) -> Option<Fault> {
        declared_refusal::<TestUser>(m)
    }

    open spec fn wire(m: TestUserModel) -> Seq<u8> {
        declared_wire::<TestUser>(m)
    }

    open spec fn parse(cx: Header, input: Seq<u8>) -> Parsed<TestUserModel> {
        declared_parse::<TestUser>(cx, input)
    }

    open spec fn admits(cx: Header, m: TestUserModel) -> bool {
        declared_proper::<Self>(m)
    }

    open spec fn unread(cx: Header) -> bool {
        false
    }

    proof fn lemma_unread(cx: Header, input: Seq<u8>) {
    }

    proof fn lemma_roundtrip(cx: Header, m: TestUserModel, rest: Seq<u8>) {
        lemma_declared_roundtrip::<TestUser>(cx, m, rest);
    }

    fn encode(&self, cx: &MsgContext, protocol: &mut TBinaryOutputProtocol<bytes::BytesMut>) -> (r:
        Result<(), Error>) {
        encode_declared(self, cx, protocol)
    }

    fn decode(cx: &mut MsgContext, protocol: &mut TBinaryInputProtocol<bytes::BytesMut>) -> (r:
        Result<Self, Error>) {
        decode_declared::<TestUser>(cx, protocol)
    }
}

// ---------------------------------------------------------------------
// MyResult and MyArgs
// ---------------------------------------------------------------------
/// The outcome of a call: a friend, or a user in place of an exception.
#[derive(Debug, Clone, PartialEq)]
pub enum MyResult {
    Success(Friend),
    Exception(TestUser),
}

/// The outcome of a call as mathematics.
pub enum MyResultModel {
    Success(i32),
    Exception(TestUserModel),
}

impl DeepView for MyResult {
    type V = MyResultModel;

    open spec fn deep_view(&self) -> MyResultModel {
        match self {
            MyResult::Success(f) => MyResultModel::Success(f.id),
            MyResult::Exception(u) => MyResultModel::Exception(u.deep_view()),
        }
    }
}

impl OrigType for MyResult {
    fn orig_type() -> (t: TType) {
        TType::Struct
    }
}

impl Declared for MyResult {
    open spec fn registry() -> RegistryModel {
        registry_model()
    }

    proof fn lemma_registry_valid() {
        lemma_registry_valid();
    }

    fn build_registry() -> (r: Registry) {
        registry()
    }

    open spec fn descriptor() -> TypeModel {
        named("MyResult"@)
    }

    open spec fn value_of(m: MyResultModel) -> ValueModel {
        match m {
            MyResultModel::Success(f) => ValueModel::Variant(0, Box::new(Friend::value_of(f))),
            MyResultModel::Exception(u) => ValueModel::Variant(
                1,
                Box::new(TestUser::value_of(u)),
            ),
        }
    }

    open spec fn of_value(v: ValueModel) -> MyResultModel {
        match v {
            ValueModel::Variant(k, inner) => if k == 1 {
                MyResultModel::Exception(TestUser::of_value(*inner))
            } else {
                MyResultModel::Success(Friend::of_value(*inner))
            },
            _ => MyResultModel::Success(0),
        }
    }

    proof fn lemma_value_roundtrip(m: MyResultModel) {
        match m {
            MyResultModel::Success(f) => Friend::lemma_value_roundtrip(f),
            MyResultModel::Exception(u) => TestUser::lemma_value_roundtrip(u),
        }
    }

    fn field_type() -> (t: FieldType) {
        ident("MyResult")
    }

    fn to_value(&self) -> (v: Value) {
        match self {
            MyResult::Success(f) => Value::Variant(0, Box::new(f.to_value())),
            MyResult::Exception(u) => Value::Variant(1, Box::new(u.to_value())),
        }
    }

    fn from_value(v: &Value) -> (r: Self) {
        match v {
            Value::Variant(k, inner) => if *k == 1 {
                MyResult::Exception(TestUser::from_value(inner))
            } else {
                MyResult::Success(Friend::from_value(inner))
            },
            _ => MyResult::Success(Friend { id: 0 }),
        }
    }
}

impl Message for MyResult {
    open spec fn refusal(m: MyResultModel) -> Option<Fault> {
        declared_refusal::<MyResult>(m)
    }

    open spec fn wire(m: MyResultModel) -> Seq<u8> {
        declared_wire::<MyResult>(m)
    }

    open spec fn parse(cx: Header, input: Seq<u8>) -> Parsed<MyResultModel> {
        declared_parse::<MyResult>(cx, input)
    }

    open spec fn admits(cx: Header, m: MyResultModel) -> bool {
        declared_proper::<Self>(m)
    }

    open spec fn unread(cx: Header) -> bool {
        false
    }

    proof fn lemma_unread(cx: Header, input: Seq<u8>) {
    }

    proof fn lemma_roundtrip(cx: Header, m: MyResultModel, rest: Seq<u8>) {
        lemma_declared_roundtrip::<MyResult>(cx, m, rest);
    }

    fn encode(&self, cx: &MsgContext, protocol: &mut TBinaryOutputProtocol<bytes::BytesMut>) -> (r:
        Result<(), Error>) {
        encode_declared(self, cx, protocol)
    }

    fn decode(cx: &mut MsgContext, protocol: &mut TBinaryInputProtocol<bytes::BytesMut>) -> (r:
        Result<Self, Error>) {
        decode_declared::<MyResult>(cx, protocol)
    }
}

/// The arguments of a call: those of `MakeFriend` or of
/// `CreateTestUser`.
#[derive(Debug, Clone, PartialEq)]
pub enum MyArgs {
    MakeFriend(Friend),
    CreateTestUser(TestUser),
}

/// The arguments of a call as mathematics.
pub enum MyArgsModel {
    MakeFriend(i32),
    CreateTestUser(TestUserModel),
}

impl DeepView for MyArgs {
    type V = MyArgsModel;

    open spec fn deep_view(&self) -> MyArgsModel {
        match self {
            MyArgs::MakeFriend(f) => MyArgsModel::MakeFriend(f.id),
            MyArgs::CreateTestUser(u) => MyArgsModel::CreateTestUser(u.deep_view()),
        }
    }
}

/// The method that the arguments belong to.
pub open spec fn method_of(m: MyArgsModel) -> Seq<char> {
    match m {
        MyArgsModel::MakeFriend(_) => "MakeFriend"@,
        MyArgsModel::CreateTestUser(_) => "CreateTestUser"@,
    }
}

impl Declared for MyArgs {
    open spec fn registry() -> RegistryModel {
        registry_model()
    }

    proof fn lemma_registry_valid() {
        lemma_registry_valid();
    }

    fn build_registry() -> (r: Registry) {
        registry()
    }

    open spec fn descriptor() -> TypeModel {
        named("MyArgs"@)
    }

    open spec fn value_of(m: MyArgsModel) -> ValueModel {
        match m {
            MyArgsModel::MakeFriend(f) => ValueModel::Variant(0, Box::new(Friend::value_of(f))),
            MyArgsModel::CreateTestUser(u) => ValueModel::Variant(
                1,
                Box::new(TestUser::value_of(u)),
            ),
        }
    }

    open spec fn of_value(v: ValueModel) -> MyArgsModel {
        match v {
            ValueModel::Variant(k, inner) => if k == 1 {
                MyArgsModel::CreateTestUser(TestUser::of_value(*inner))
            } else {
                MyArgsModel::MakeFriend(Friend::of_value(*inner))
            },
            _ => MyArgsModel::MakeFriend(0),
        }
    }

    proof fn lemma_value_roundtrip(m: MyArgsModel) {
        match m {
            MyArgsModel::MakeFriend(f) => Friend::lemma_value_roundtrip(f),
            MyArgsModel::CreateTestUser(u) => TestUser::lemma_value_roundtrip(u),
        }
    }

    fn field_type() -> (t: FieldType) {
        ident("MyArgs")
    }

    fn to_value(&self) -> (v: Value) {
        match self {
            MyArgs::MakeFriend(f) => Value::Variant(0, Box::new(f.to_value())),
            MyArgs::CreateTestUser(u) => Value::Variant(1, Box::new(u.to_value())),
        }
    }

    fn from_value(v: &Value) -> (r: Self) {
        match v {
            Value::Variant(k, inner) => if *k == 1 {
                MyArgs::CreateTestUser(TestUser::from_value(inner))
            } else {
                MyArgs::MakeFriend(Friend::from_value(inner))
            },
            _ => MyArgs::MakeFriend(Friend { id: 0 }),
        }
    }
}

impl Message for MyArgs {
    open spec fn refusal(m: MyArgsModel) -> Option<Fault> {
        match image_dispatch(registry_model(), my_args_definition(), Self::value_of(m)) {
            Ok(_) => None,
            Err(f) => Some(f),
        }
    }

    open spec fn wire(m: MyArgsModel) -> Seq<u8> {
        image_dispatch(registry_model(), my_args_definition(), Self::value_of(m))->Ok_0
    }

    open spec fn parse(cx: Header, input: Seq<u8>) -> Parsed<MyArgsModel> {
        match parse_dispatch(registry_model(), my_args_definition(), cx, input) {
            Ok((v, rest)) => Ok((Self::of_value(v), rest)),
            Err(f) => Err(f),
        }
    }

    /// The message must bear the name of the method of the arguments, and
    /// the value must be proper.
    open spec fn admits(cx: Header, m: MyArgsModel) -> bool {
        cx.name == method_of(m) && declared_proper::<Self>(m)
    }

    /// No variant bears the method name of the message.
    open spec fn unread(cx: Header) -> bool {
        find_variant_name(my_args_definition().variants, cx.name, 0) is None
    }

    proof fn lemma_unread(cx: Header, input: Seq<u8>) {
    }

    proof fn lemma_roundtrip(cx: Header, m: MyArgsModel, rest: Seq<u8>) {
        lemma_registry_valid();
        lemma_my_args_names();
        lemma_dispatch_roundtrip(
            registry_model(),
            my_args_definition(),
            cx,
            Self::value_of(m),
            rest,
        );
        Self::lemma_value_roundtrip(m);
    }

    fn encode(&self, cx: &MsgContext, protocol: &mut TBinaryOutputProtocol<bytes::BytesMut>) -> (r:
        Result<(), Error>) {
        let reg = registry();
        let e = my_args_schema();
        let v = self.to_value();
        encode_dispatch(&reg, &e, &v, cx, protocol)
    }

    fn decode(cx: &mut MsgContext, protocol: &mut TBinaryInputProtocol<bytes::BytesMut>) -> (r:
        Result<Self, Error>) {
        let reg = registry();
        let e = my_args_schema();
        let v = decode_dispatch(&reg, &e, cx, protocol)?;
        Ok(Self::from_value(&v))
    }
}

} // verus!
