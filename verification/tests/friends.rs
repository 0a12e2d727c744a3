use bytes::BytesMut;
use mini_lust::binary::{TBinaryInputProtocol, TBinaryOutputProtocol};
use mini_lust::context::MsgContext;
use mini_lust::derive::{decode_content, encode_content};
use mini_lust::errors::{ApplicationErrorKind, Error, ProtocolErrorKind};
use mini_lust::friends::{Friend, MyArgs, MyResult, TestUser};
use mini_lust::message::Message;
use mini_lust::protocol::TType;
use mini_lust::schema::{Definition, Required};
use mini_lust::thrift_parser::document::Document;
use mini_lust::types::{FieldType, OrigType};
use mini_lust::value::Value;

fn test_user() -> TestUser {
    TestUser {
        id: 3,
        name: "n".to_string(),
        accounts: Some(vec![
            ("mail".to_string(), vec!["a@x".to_string(), "b@x".to_string()]),
            ("none".to_string(), vec![]),
        ]),
        friends: vec![Friend { id: 1 }, Friend { id: 2 }],
    }
}

fn written<T: Message>(cx: &MsgContext, value: &T) -> Result<BytesMut, Error> {
    let mut out = TBinaryOutputProtocol::new(BytesMut::new(), true);
    value.encode(cx, &mut out)?;
    Ok(out.into_inner())
}

fn read<T: Message>(cx: &mut MsgContext, bytes: BytesMut) -> Result<T, Error> {
    let mut input = TBinaryInputProtocol::new(bytes, true);
    T::decode(cx, &mut input)
}

fn named(method: &str) -> MsgContext {
    let mut cx = MsgContext::default();
    cx.identifier.name = method.to_string();
    cx
}

#[test]
fn friend_and_user_round_trip() {
    let cx = MsgContext::default();
    let bytes = written(&cx, &Friend { id: 9 }).unwrap();
    assert_eq!(bytes.to_vec(), vec![0x08, 0, 1, 0, 0, 0, 9, 0x00]);
    assert_eq!(read::<Friend>(&mut MsgContext::default(), bytes).unwrap(), Friend { id: 9 });

    let bytes = written(&cx, &test_user()).unwrap();
    assert_eq!(read::<TestUser>(&mut MsgContext::default(), bytes).unwrap(), test_user());
    assert_eq!(Friend::orig_type(), TType::Struct);
    assert_eq!(TestUser::orig_type(), TType::Struct);
}

#[test]
fn field_left_open_must_be_set_to_be_written() {
    let mut user = test_user();
    user.accounts = None;
    match written(&MsgContext::default(), &user) {
        Err(Error::Protocol(e)) => assert_eq!(e.kind, ProtocolErrorKind::InvalidData),
        other => panic!("expected invalid data, got {:?}", other),
    }
    // but it may be missing on the wire
    let bytes = BytesMut::from(
        &[0x08u8, 0, 1, 0, 0, 0, 3, 0x0B, 0, 2, 0, 0, 0, 0, 0x0F, 0, 4, 0x0C, 0, 0, 0, 0, 0x00][..],
    );
    let back = read::<TestUser>(&mut MsgContext::default(), bytes).unwrap();
    assert_eq!(back, TestUser { id: 3, name: String::new(), accounts: None, friends: vec![] });
}

#[test]
fn result_travels_under_the_id_of_its_variant() {
    let cx = MsgContext::default();
    let ok = MyResult::Success(Friend { id: 5 });
    let bytes = written(&cx, &ok).unwrap();
    assert_eq!(&bytes[..3], &[0x0C, 0, 1]);
    assert_eq!(read::<MyResult>(&mut MsgContext::default(), bytes).unwrap(), ok);
    let failed = MyResult::Exception(test_user());
    let bytes = written(&cx, &failed).unwrap();
    assert_eq!(&bytes[..3], &[0x0C, 0, 2]);
    assert_eq!(read::<MyResult>(&mut MsgContext::default(), bytes).unwrap(), failed);
}

#[test]
fn args_go_by_the_method_name() {
    let make = MyArgs::MakeFriend(Friend { id: 5 });
    let bytes = written(&named("whatever"), &make).unwrap();
    assert_eq!(bytes.to_vec(), written(&named(""), &Friend { id: 5 }).unwrap().to_vec());
    assert_eq!(read::<MyArgs>(&mut named("MakeFriend"), bytes.clone()).unwrap(), make);
    match read::<MyArgs>(&mut named("Other"), bytes) {
        Err(Error::Application(e)) => assert_eq!(e.kind, ApplicationErrorKind::UnknownMethod),
        other => panic!("expected an unknown method, got {:?}", other),
    }
    let create = MyArgs::CreateTestUser(test_user());
    let bytes = written(&named(""), &create).unwrap();
    assert_eq!(read::<MyArgs>(&mut named("CreateTestUser"), bytes).unwrap(), create);
}

#[test]
fn document_gives_the_definitions_of_its_codec() {
    let idl = "\
struct Friend { 1: required i32 id }
struct TestUser {
    1: required i32 id,
    2: required string name,
    3: map<string, list<string>> accounts,
    4: required list<Friend> friends,
}
exception Oops { 1: string why }
service Social {
    Friend MakeFriend(1: Friend friend) throws (2: TestUser user),
    oneway void Poke(1: required i32 id)
}";
    let doc = Document::parse(idl).unwrap().1;
    let reg = doc.registry();
    let names: Vec<String> = reg
        .definitions
        .iter()
        .map(|d| match d {
            Definition::Struct(s) => s.name.clone(),
            Definition::Enum(e) => e.name.clone(),
        })
        .collect();
    assert_eq!(
        names,
        vec![
            "Friend",
            "TestUser",
            "AnonymousSocialMakeFriendArgs",
            "AnonymousSocialMakeFriendResult",
            "AnonymousSocialPokeArgs"
        ]
    );
    match &reg.definitions[1] {
        Definition::Struct(s) => {
            assert_eq!(s.fields[2].name, "accounts");
            assert_eq!(s.fields[2].id, 3);
            assert_eq!(s.fields[2].required, Required::Unspecified);
            assert_eq!(
                s.fields[2].field_type,
                FieldType::MapOf(
                    Box::new(FieldType::String),
                    Box::new(FieldType::List(Box::new(FieldType::String)))
                )
            );
            assert_eq!(s.fields[3].required, Required::True);
        }
        other => panic!("expected a struct, got {:?}", other),
    }
    match &reg.definitions[3] {
        Definition::Enum(e) => {
            assert!(!e.dispatch_only);
            assert_eq!(e.variants.len(), 2);
            assert_eq!((e.variants[0].name.as_str(), e.variants[0].id), ("Success", 1));
            assert_eq!(e.variants[0].inner, FieldType::Ident("Friend".to_string()));
            assert_eq!((e.variants[1].name.as_str(), e.variants[1].id), ("user", 2));
        }
        other => panic!("expected an enum, got {:?}", other),
    }
    let requests = doc.services[0].request_definition();
    assert!(requests.dispatch_only);
    assert_eq!(requests.name, "AnonymousSocialRequest");
    assert_eq!(requests.variants[1].name, "Poke");
    let responses = doc.services[0].response_definition();
    assert_eq!(responses.variants[0].inner, FieldType::Ident("AnonymousSocialMakeFriendResult".to_string()));
    assert_eq!(responses.variants[1].inner, FieldType::Void);

    // the definitions of the document read what the Rust types write
    let bytes = written(&MsgContext::default(), &test_user()).unwrap();
    let mut input = TBinaryInputProtocol::new(bytes.clone(), true);
    let ty = FieldType::Ident("TestUser".to_string());
    let value = decode_content(&reg, &ty, &MsgContext::default(), &mut input).unwrap();
    match &value {
        Value::Struct(slots) => {
            assert_eq!(slots[0], Some(Value::I32(3)));
            assert_eq!(slots.len(), 4);
        }
        other => panic!("expected a struct, got {:?}", other),
    }
    let mut out = TBinaryOutputProtocol::new(BytesMut::new(), true);
    encode_content(&reg, &ty, &value, &MsgContext::default(), &mut out).unwrap();
    assert_eq!(out.into_inner().to_vec(), bytes.to_vec());
}
