use bytes::BytesMut;
use mini_lust::binary::{TBinaryInputProtocol, TBinaryOutputProtocol};
use mini_lust::context::MsgContext;
use mini_lust::derive::{
    decode_content, decode_dispatch, decode_struct, encode_content, encode_dispatch,
    encode_struct, same_text,
};
use mini_lust::errors::{ApplicationErrorKind, Error, ProtocolErrorKind};
use mini_lust::protocol::TType;
use mini_lust::schema::{
    Definition, EnumSchema, FieldSchema, Registry, Required, StructSchema, VariantSchema,
};
use mini_lust::types::{DescriptorError, FieldType};
use mini_lust::value::{distinct_items, holds, key_index, merge_entries, reversed, Value};

#[test]
fn test() {}

#[test]
fn field_type_tags() {
    assert_eq!(FieldType::String.to_ttype(), TType::String);
    assert_eq!(FieldType::Binary.to_ttype(), TType::String);
    assert_eq!(FieldType::Byte.to_ttype(), TType::I8);
    assert_eq!(FieldType::Void.to_ttype(), TType::Void);
    assert_eq!(FieldType::Ident("User".to_string()).to_ttype(), TType::Struct);
    assert_eq!(FieldType::List(Box::new(FieldType::I32)).to_ttype(), TType::List);
    assert_eq!(FieldType::SetOf(Box::new(FieldType::I32)).to_ttype(), TType::SetOf);
    assert_eq!(
        FieldType::MapOf(Box::new(FieldType::I32), Box::new(FieldType::Bool)).to_ttype(),
        TType::MapOf
    );
}

fn text(t: &FieldType) -> String {
    format!("{:?}", t)
}

#[test]
fn test_parse_field_type() {
    assert_eq!(text(&FieldType::parse("string").unwrap()), text(&FieldType::String));
    assert_eq!(
        text(&FieldType::parse("ident(my_name)").unwrap()),
        text(&FieldType::Ident("my_name".to_string()))
    );
    assert_eq!(
        text(&FieldType::parse("map(string, byte)").unwrap()),
        text(&FieldType::MapOf(Box::new(FieldType::String), Box::new(FieldType::Byte)))
    );
    assert_eq!(
        text(&FieldType::parse("list(i32)").unwrap()),
        text(&FieldType::List(Box::new(FieldType::I32)))
    );
    assert_eq!(
        text(&FieldType::parse("list(map(i8, map(i16, i32)))").unwrap()),
        text(&FieldType::List(Box::new(FieldType::MapOf(
            Box::new(FieldType::I8),
            Box::new(FieldType::MapOf(Box::new(FieldType::I16), Box::new(FieldType::I32)))
        ))))
    );
}

#[test]
fn descriptors_are_read_back() {
    let types = vec![
        FieldType::String,
        FieldType::Bool,
        FieldType::I8,
        FieldType::I16,
        FieldType::I32,
        FieldType::I64,
        FieldType::Double,
        FieldType::Byte,
        FieldType::Void,
        FieldType::Binary,
        FieldType::Ident("base.User".to_string()),
        FieldType::SetOf(Box::new(FieldType::Ident("X".to_string()))),
        FieldType::MapOf(
            Box::new(FieldType::String),
            Box::new(FieldType::List(Box::new(FieldType::String))),
        ),
    ];
    for t in types {
        let spelled = t.format();
        assert_eq!(text(&FieldType::parse(&spelled).unwrap()), text(&t), "{}", spelled);
        assert_eq!(text(&t.clone()), text(&t));
    }
    assert_eq!(
        FieldType::MapOf(Box::new(FieldType::String), Box::new(FieldType::I64)).format(),
        "map(string, i64)"
    );
    assert_eq!(
        text(&FieldType::parse("  map ( string ,list( i32 ) )  ").unwrap()),
        text(&FieldType::MapOf(
            Box::new(FieldType::String),
            Box::new(FieldType::List(Box::new(FieldType::I32)))
        ))
    );
}

#[test]
fn texts_that_are_no_descriptors() {
    for s in [
        "", " ", "strings", "list", "list()", "list(i32", "list(i32))", "map(i32)",
        "map(i32, i32, i32)", "ident()", "ident(a b)", "i32 i32", "unknown(i32)", "string()",
        "(i32)", "i32,",
    ] {
        assert!(FieldType::parse(s).is_err(), "{:?} is no descriptor", s);
    }
    assert_eq!(FieldType::parse("i32 x"), Err(DescriptorError { position: 4 }));
}

fn field(name: &str, id: i16, required: Required, field_type: FieldType) -> FieldSchema {
    FieldSchema { name: name.to_string(), id, required, field_type }
}

fn point() -> StructSchema {
    StructSchema {
        name: "Point".to_string(),
        fields: vec![
            field("x", 1, Required::True, FieldType::I32),
            field("y", 2, Required::False, FieldType::I32),
            field("label", 3, Required::Unspecified, FieldType::String),
        ],
    }
}

fn shape() -> EnumSchema {
    EnumSchema {
        name: "Shape".to_string(),
        variants: vec![
            VariantSchema {
                name: "Success".to_string(),
                id: 1,
                inner: FieldType::Ident("Point".to_string()),
            },
            VariantSchema { name: "Other".to_string(), id: 2, inner: FieldType::String },
        ],
        dispatch_only: false,
    }
}

fn calls() -> EnumSchema {
    EnumSchema {
        name: "Calls".to_string(),
        variants: vec![
            VariantSchema {
                name: "Move".to_string(),
                id: 0,
                inner: FieldType::Ident("Point".to_string()),
            },
            VariantSchema { name: "Name".to_string(), id: 0, inner: FieldType::String },
        ],
        dispatch_only: true,
    }
}

fn registry() -> Registry {
    Registry::new(vec![
        Definition::Struct(point()),
        Definition::Enum(shape()),
        Definition::Enum(calls()),
    ])
}

fn encoded(reg: &Registry, ty: &FieldType, v: &Value) -> Result<Vec<u8>, Error> {
    let mut out = TBinaryOutputProtocol::new(BytesMut::new(), true);
    encode_content(reg, ty, v, &MsgContext::default(), &mut out)?;
    Ok(out.into_inner().to_vec())
}

fn decoded(reg: &Registry, ty: &FieldType, bytes: &[u8]) -> Result<(Value, Vec<u8>), Error> {
    let mut input = TBinaryInputProtocol::new(BytesMut::from(bytes), true);
    let v = decode_content(reg, ty, &MsgContext::default(), &mut input)?;
    Ok((v, input.into_inner().to_vec()))
}

fn protocol_kind<T: std::fmt::Debug>(r: Result<T, Error>) -> ProtocolErrorKind {
    match r {
        Err(Error::Protocol(e)) => e.kind,
        other => panic!("expected a protocol error, got {:?}", other),
    }
}

fn same(a: &Value, b: &Value) -> bool {
    format!("{:?}", a) == format!("{:?}", b)
}

fn a_point() -> Value {
    Value::Struct(vec![Some(Value::I32(7)), None, Some(Value::Text("p".to_string()))])
}

#[test]
fn struct_bytes_and_back() {
    let reg = registry();
    let ty = FieldType::Ident("Point".to_string());
    let bytes = encoded(&reg, &ty, &a_point()).unwrap();
    assert_eq!(
        bytes,
        vec![0x08, 0, 1, 0, 0, 0, 7, 0x0B, 0, 3, 0, 0, 0, 1, b'p', 0x00]
    );
    let mut with_rest = bytes.clone();
    with_rest.push(0x55);
    let (v, rest) = decoded(&reg, &ty, &with_rest).unwrap();
    assert!(same(&v, &a_point()));
    assert_eq!(rest, vec![0x55]);
}

#[test]
fn every_kind_of_value_round_trips() {
    let reg = registry();
    let cases: Vec<(FieldType, Value)> = vec![
        (FieldType::Bool, Value::Bool(true)),
        (FieldType::Byte, Value::Byte(200)),
        (FieldType::I8, Value::I8(-8)),
        (FieldType::I16, Value::I16(-16)),
        (FieldType::I32, Value::I32(-32)),
        (FieldType::I64, Value::I64(-64)),
        (FieldType::Double, Value::Double(2.5f64.to_bits())),
        (FieldType::String, Value::Text("text".to_string())),
        (FieldType::Binary, Value::Binary(vec![0xC3, 0x28])),
        (FieldType::Void, Value::Void),
        (
            FieldType::List(Box::new(FieldType::Ident("Point".to_string()))),
            Value::List(vec![a_point(), a_point()]),
        ),
        (FieldType::SetOf(Box::new(FieldType::I16)), Value::SetOf(vec![Value::I16(1)])),
        (
            FieldType::MapOf(
                Box::new(FieldType::String),
                Box::new(FieldType::List(Box::new(FieldType::String))),
            ),
            Value::MapOf(vec![
                (
                    Value::Text("k".to_string()),
                    Value::List(vec![Value::Text("a".to_string()), Value::Text("b".to_string())]),
                ),
                (Value::Text("l".to_string()), Value::List(vec![])),
            ]),
        ),
        (FieldType::Ident("Shape".to_string()), Value::Variant(0, Box::new(a_point()))),
        (
            FieldType::Ident("Shape".to_string()),
            Value::Variant(1, Box::new(Value::Text("o".to_string()))),
        ),
    ];
    for (ty, v) in cases {
        let bytes = encoded(&reg, &ty, &v).unwrap();
        let (back, rest) = decoded(&reg, &ty, &bytes).unwrap();
        assert!(same(&back, &v), "{:?} came back as {:?}", v, back);
        assert!(rest.is_empty());
    }
}

#[test]
fn values_that_are_refused() {
    let reg = registry();
    let point = FieldType::Ident("Point".to_string());
    // a value of another shape
    assert_eq!(
        protocol_kind(encoded(&reg, &FieldType::I32, &Value::I64(1))),
        ProtocolErrorKind::InvalidData
    );
    assert_eq!(
        protocol_kind(encoded(&reg, &point, &Value::Struct(vec![Some(Value::I32(1))]))),
        ProtocolErrorKind::InvalidData
    );
    // a name that is not defined
    assert_eq!(
        protocol_kind(encoded(&reg, &FieldType::Ident("Nobody".to_string()), &a_point())),
        ProtocolErrorKind::InvalidData
    );
    assert_eq!(
        protocol_kind(decoded(&reg, &FieldType::Ident("Nobody".to_string()), &[0])),
        ProtocolErrorKind::InvalidData
    );
    // a field that must be set: required, or left open
    let no_x = Value::Struct(vec![None, None, Some(Value::Text("p".to_string()))]);
    assert_eq!(protocol_kind(encoded(&reg, &point, &no_x)), ProtocolErrorKind::InvalidData);
    let no_label = Value::Struct(vec![Some(Value::I32(1)), None, None]);
    assert_eq!(protocol_kind(encoded(&reg, &point, &no_label)), ProtocolErrorKind::InvalidData);
    // a variant that does not exist, and a dispatch enum inside a value
    let shape = FieldType::Ident("Shape".to_string());
    assert_eq!(
        protocol_kind(encoded(&reg, &shape, &Value::Variant(2, Box::new(Value::Void)))),
        ProtocolErrorKind::InvalidData
    );
    let calls = FieldType::Ident("Calls".to_string());
    assert_eq!(
        protocol_kind(encoded(&reg, &calls, &Value::Variant(0, Box::new(a_point())))),
        ProtocolErrorKind::InvalidData
    );
    assert_eq!(protocol_kind(decoded(&reg, &calls, &[0])), ProtocolErrorKind::InvalidData);
}

#[test]
fn required_field_must_be_on_the_wire() {
    let reg = registry();
    let ty = FieldType::Ident("Point".to_string());
    // only the label, then stop
    let bytes = vec![0x0B, 0, 3, 0, 0, 0, 1, b'p', 0x00];
    assert_eq!(protocol_kind(decoded(&reg, &ty, &bytes)), ProtocolErrorKind::InvalidData);
    // an empty struct
    assert_eq!(protocol_kind(decoded(&reg, &ty, &[0x00])), ProtocolErrorKind::InvalidData);
    // the other fields may be missing
    let (v, _) = decoded(&reg, &ty, &[0x08, 0, 1, 0, 0, 0, 7, 0x00]).unwrap();
    assert!(same(&v, &Value::Struct(vec![Some(Value::I32(7)), None, None])));
    let schema = point();
    assert!(schema.missing_required(&vec![None, Some(Value::I32(1)), None]));
    assert!(!schema.missing_required(&vec![Some(Value::I32(1)), None, None]));
}

#[test]
fn unknown_fields_are_passed_over() {
    // the writer knows one field more than the reader
    let mut wider = point();
    wider.fields.push(field(
        "tags",
        9,
        Required::True,
        FieldType::MapOf(Box::new(FieldType::String), Box::new(FieldType::Ident("Point".to_string()))),
    ));
    let writer = Registry::new(vec![Definition::Struct(point())]);
    let value = vec![
        Some(Value::I32(7)),
        Some(Value::I32(8)),
        Some(Value::Text("p".to_string())),
        Some(Value::MapOf(vec![(Value::Text("t".to_string()), a_point())])),
    ];
    let mut out = TBinaryOutputProtocol::new(BytesMut::new(), true);
    encode_struct(&writer, &wider, &value, &MsgContext::default(), &mut out).unwrap();
    let mut input = TBinaryInputProtocol::new(out.into_inner(), true);
    let slots = decode_struct(&writer, &point(), &MsgContext::default(), &mut input).unwrap();
    assert_eq!(input.into_inner().len(), 0);
    assert!(same(
        &Value::Struct(slots),
        &Value::Struct(vec![
            Some(Value::I32(7)),
            Some(Value::I32(8)),
            Some(Value::Text("p".to_string()))
        ])
    ));
}

#[test]
fn wire_type_must_match() {
    let reg = registry();
    let ty = FieldType::Ident("Point".to_string());
    // field 1 travels as i64 where the definition says i32
    let bytes = vec![0x0A, 0, 1, 0, 0, 0, 0, 0, 0, 0, 7, 0x00];
    assert_eq!(protocol_kind(decoded(&reg, &ty, &bytes)), ProtocolErrorKind::InvalidData);
}

#[test]
fn later_field_wins() {
    let reg = registry();
    let ty = FieldType::Ident("Point".to_string());
    let bytes = vec![0x08, 0, 1, 0, 0, 0, 7, 0x08, 0, 1, 0, 0, 0, 9, 0x00];
    let (v, _) = decoded(&reg, &ty, &bytes).unwrap();
    assert!(same(&v, &Value::Struct(vec![Some(Value::I32(9)), None, None])));
}

#[test]
fn enum_is_one_field_and_stop() {
    let reg = registry();
    let ty = FieldType::Ident("Shape".to_string());
    let v = Value::Variant(1, Box::new(Value::Text("o".to_string())));
    assert_eq!(encoded(&reg, &ty, &v).unwrap(), vec![0x0B, 0, 2, 0, 0, 0, 1, b'o', 0x00]);
    // success travels under id 1, and is accepted under id 0 too
    let success = Value::Variant(0, Box::new(a_point()));
    let bytes = encoded(&reg, &ty, &success).unwrap();
    assert_eq!(&bytes[..3], &[0x0C, 0, 1]);
    let mut legacy = bytes.clone();
    legacy[2] = 0;
    assert!(same(&decoded(&reg, &ty, &legacy).unwrap().0, &success));
    // an id that names no variant, no field at all, and a second field
    let mut unknown = bytes.clone();
    unknown[2] = 5;
    assert_eq!(protocol_kind(decoded(&reg, &ty, &unknown)), ProtocolErrorKind::InvalidData);
    assert_eq!(protocol_kind(decoded(&reg, &ty, &[0x00])), ProtocolErrorKind::InvalidData);
    let mut two = bytes.clone();
    two.pop();
    two.extend_from_slice(&[0x0B, 0, 2, 0, 0, 0, 0, 0x00]);
    assert_eq!(protocol_kind(decoded(&reg, &ty, &two)), ProtocolErrorKind::InvalidData);
    assert_eq!(shape().find_variant(0), Some(0));
    assert_eq!(shape().find_variant(2), Some(1));
    assert_eq!(shape().find_variant(3), None);
}

fn named(method: &str) -> MsgContext {
    let mut cx = MsgContext::default();
    cx.identifier.name = method.to_string();
    cx
}

#[test]
fn dispatch_goes_by_the_method_name() {
    let reg = registry();
    let e = calls();
    let v = Value::Variant(1, Box::new(Value::Text("n".to_string())));
    let mut out = TBinaryOutputProtocol::new(BytesMut::new(), true);
    encode_dispatch(&reg, &e, &v, &named("ignored"), &mut out).unwrap();
    let bytes = out.into_inner();
    // the payload travels bare
    assert_eq!(bytes.to_vec(), vec![0, 0, 0, 1, b'n']);

    let mut input = TBinaryInputProtocol::new(bytes.clone(), true);
    let back = decode_dispatch(&reg, &e, &named("Name"), &mut input).unwrap();
    assert!(same(&back, &v));

    let mut input = TBinaryInputProtocol::new(bytes.clone(), true);
    match decode_dispatch(&reg, &e, &named("Nope"), &mut input) {
        Err(Error::Application(err)) => assert_eq!(err.kind, ApplicationErrorKind::UnknownMethod),
        other => panic!("expected an unknown method, got {:?}", other),
    }
    assert_eq!(input.into_inner().to_vec(), bytes.to_vec());
    assert_eq!(e.find_variant_name(&"Move".to_string()), Some(0));
    assert_eq!(e.find_variant_name(&"move".to_string()), None);
}

#[test]
fn lookups_take_the_first() {
    let reg = registry();
    assert_eq!(reg.find(&"Point".to_string()), Some(0));
    assert_eq!(reg.find(&"Calls".to_string()), Some(2));
    assert_eq!(reg.find(&"".to_string()), None);
    assert_eq!(point().find_field(3), Some(2));
    assert_eq!(point().find_field(4), None);
    assert!(same_text(&"a".to_string(), &"a".to_string()));
    assert!(!same_text(&"a".to_string(), &"b".to_string()));
    assert_eq!(Required::default(), Required::Unspecified);
}

fn text_value(s: &str) -> Value {
    Value::Text(s.to_string())
}

#[test]
fn a_key_that_comes_twice_keeps_its_place_and_takes_the_last_value() {
    let reg = registry();
    let ty = FieldType::MapOf(Box::new(FieldType::String), Box::new(FieldType::I32));
    // as written, the entries travel as they are
    let twice = Value::MapOf(vec![
        (text_value("a"), Value::I32(1)),
        (text_value("b"), Value::I32(2)),
        (text_value("a"), Value::I32(3)),
    ]);
    let bytes = encoded(&reg, &ty, &twice).unwrap();
    assert_eq!(
        bytes,
        vec![
            0x0B, 0x08, 0, 0, 0, 3, 0, 0, 0, 1, b'a', 0, 0, 0, 1, 0, 0, 0, 1, b'b', 0, 0, 0, 2, 0,
            0, 0, 1, b'a', 0, 0, 0, 3
        ]
    );
    // as read, the map holds each key once
    let (back, rest) = decoded(&reg, &ty, &bytes).unwrap();
    assert!(rest.is_empty());
    let expected =
        Value::MapOf(vec![(text_value("a"), Value::I32(3)), (text_value("b"), Value::I32(2))]);
    assert!(back.same(&expected), "came back as {:?}", back);
    assert_eq!(back, expected);
}

#[test]
fn an_element_that_comes_twice_is_held_once() {
    let reg = registry();
    let ty = FieldType::SetOf(Box::new(FieldType::I16));
    let twice = Value::SetOf(vec![Value::I16(5), Value::I16(4), Value::I16(5), Value::I16(4)]);
    let bytes = encoded(&reg, &ty, &twice).unwrap();
    assert_eq!(bytes, vec![0x06, 0, 0, 0, 4, 0, 5, 0, 4, 0, 5, 0, 4]);
    let (back, _) = decoded(&reg, &ty, &bytes).unwrap();
    assert_eq!(back, Value::SetOf(vec![Value::I16(5), Value::I16(4)]));

    // a list keeps what comes twice
    let ty = FieldType::List(Box::new(FieldType::I16));
    let (back, _) = decoded(&reg, &ty, &bytes).unwrap();
    assert_eq!(
        back,
        Value::List(vec![Value::I16(5), Value::I16(4), Value::I16(5), Value::I16(4)])
    );
}

#[test]
fn sets_and_maps_of_vectors() {
    assert_eq!(reversed(vec![1, 2, 3]), vec![3, 2, 1]);
    assert_eq!(reversed(Vec::<u8>::new()), Vec::<u8>::new());
    assert_eq!(distinct_items(vec![]), vec![]);
    assert_eq!(
        distinct_items(vec![text_value("x"), text_value("y"), text_value("x")]),
        vec![text_value("x"), text_value("y")]
    );
    assert!(holds(&vec![Value::I8(1), Value::I8(2)], &Value::I8(2)));
    assert!(!holds(&vec![Value::I8(1), Value::I8(2)], &Value::I16(2)));
    let entries = vec![
        (Value::I32(1), text_value("one")),
        (Value::I32(2), text_value("two")),
        (Value::I32(1), text_value("uno")),
        (Value::I32(3), text_value("three")),
        (Value::I32(2), text_value("dos")),
    ];
    assert_eq!(key_index(&entries, &Value::I32(2)), Some(1));
    assert_eq!(key_index(&entries, &Value::I32(4)), None);
    assert_eq!(
        merge_entries(entries),
        vec![
            (Value::I32(1), text_value("uno")),
            (Value::I32(2), text_value("dos")),
            (Value::I32(3), text_value("three")),
        ]
    );
}

#[test]
fn values_are_the_same_where_every_part_is() {
    let all = vec![
        Value::Void,
        Value::Bool(true),
        Value::Bool(false),
        Value::Byte(1),
        Value::I8(1),
        Value::I16(1),
        Value::I32(1),
        Value::I64(1),
        Value::Double(1),
        text_value("1"),
        Value::Binary(vec![b'1']),
        Value::Binary(vec![b'1', b'2']),
        Value::List(vec![Value::I8(1)]),
        Value::List(vec![Value::I8(1), Value::I8(1)]),
        Value::SetOf(vec![Value::I8(1)]),
        Value::MapOf(vec![(Value::I8(1), Value::I8(1))]),
        Value::MapOf(vec![(Value::I8(1), Value::I8(2))]),
        Value::MapOf(vec![(Value::I8(2), Value::I8(1))]),
        Value::Struct(vec![Some(Value::I8(1))]),
        Value::Struct(vec![None]),
        Value::Struct(vec![Some(Value::I8(1)), None]),
        Value::Variant(0, Box::new(Value::I8(1))),
        Value::Variant(1, Box::new(Value::I8(1))),
        Value::Variant(1, Box::new(Value::I8(2))),
    ];
    for (i, a) in all.iter().enumerate() {
        for (j, b) in all.iter().enumerate() {
            assert_eq!(a.same(b), i == j, "{:?} and {:?}", a, b);
            assert_eq!(a.same(b), a == b);
        }
    }
}

fn failure_text<T: std::fmt::Debug>(r: Result<T, Error>) -> String {
    match r {
        Err(e) => e.to_string(),
        Ok(v) => panic!("expected a failure, got {:?}", v),
    }
}

#[test]
fn failures_say_what_went_wrong() {
    let reg = registry();
    let point_ty = FieldType::Ident("Point".to_string());
    // reading: the first field that must be present and is not
    assert_eq!(failure_text(decoded(&reg, &point_ty, &[0x00])), "field x is required");
    assert_eq!(
        failure_text(decoded(&reg, &point_ty, &[0x0B, 0, 3, 0, 0, 0, 1, b'p', 0x00])),
        "field x is required"
    );
    assert_eq!(point().first_missing(&vec![None, None, None]), Some(0));
    assert_eq!(point().first_missing(&vec![Some(Value::I32(1)), None, None]), None);
    // reading: a field under the tag of another type
    assert_eq!(
        failure_text(decoded(
            &reg,
            &point_ty,
            &[0x0A, 0, 1, 0, 0, 0, 0, 0, 0, 0, 7, 0x00]
        )),
        "invalid ttype: i64, expect: i32"
    );
    // reading: too few bytes
    assert_eq!(failure_text(decoded(&reg, &point_ty, &[0x08, 0, 1, 0, 0])), "unexpected data length");
    assert_eq!(failure_text(decoded(&reg, &FieldType::I64, &[0, 0, 0])), "unexpected data length");
    // reading: an enum that is not one known variant and the stop
    let shape_ty = FieldType::Ident("Shape".to_string());
    assert_eq!(failure_text(decoded(&reg, &shape_ty, &[0x00])), "unexpected result field");
    assert_eq!(
        failure_text(decoded(&reg, &shape_ty, &[0x0B, 0, 9, 0, 0, 0, 0, 0x00])),
        "unexpected result field"
    );
    // writing: a field that must be set
    let no_x = Value::Struct(vec![None, None, Some(Value::Text("p".to_string()))]);
    assert_eq!(failure_text(encoded(&reg, &point_ty, &no_x)), "field x must be set");
    let no_label = Value::Struct(vec![Some(Value::I32(1)), None, None]);
    assert_eq!(failure_text(encoded(&reg, &point_ty, &no_label)), "field label must be set");
    // writing: a value of another shape than its type
    assert_eq!(
        failure_text(encoded(&reg, &FieldType::I32, &Value::Bool(true))),
        "value does not match its type"
    );
    // dispatch: a method that no variant bears
    let mut input = TBinaryInputProtocol::new(BytesMut::new(), true);
    match decode_dispatch(&reg, &calls(), &named("Nope"), &mut input) {
        Err(Error::Application(e)) => {
            assert_eq!(e.kind, ApplicationErrorKind::UnknownMethod);
            assert_eq!(e.message, "unknown method Nope");
        }
        other => panic!("expected an unknown method, got {:?}", other),
    }
}
