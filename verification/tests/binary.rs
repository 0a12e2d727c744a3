use bytes::{BufMut, BytesMut};
use mini_lust::binary::{TBinaryInputProtocol, TBinaryOutputProtocol, MAXIMUM_SKIP_DEPTH};
use mini_lust::errors::{Error, ProtocolErrorKind};
use mini_lust::protocol::{
    field_type_from_u8, TFieldIdentifier, TListIdentifier, TMapIdentifier, TMessageIdentifier,
    TMessageType, TSetIdentifier, TStructIdentifier, TType,
};
use mini_lust::utils::ttype_comparing;

fn writer() -> TBinaryOutputProtocol<BytesMut> {
    TBinaryOutputProtocol::new(BytesMut::new(), true)
}

fn reader(bytes: &[u8]) -> TBinaryInputProtocol<BytesMut> {
    TBinaryInputProtocol::new(BytesMut::from(bytes), true)
}

fn kind<T: std::fmt::Debug>(r: Result<T, Error>) -> ProtocolErrorKind {
    match r {
        Err(Error::Protocol(e)) => e.kind,
        other => panic!("expected a protocol error, got {:?}", other),
    }
}

#[test]
fn strict_message_begin_bytes() {
    let mut out = writer();
    let ident = TMessageIdentifier::new("GetUser".to_string(), TMessageType::Call, 1);
    out.write_message_begin(&ident).unwrap();
    out.write_message_end().unwrap();
    let buf = out.into_inner();
    let mut expected: Vec<u8> = vec![0x80, 0x01, 0x00, 0x01, 0, 0, 0, 7];
    expected.extend_from_slice(b"GetUser");
    expected.extend_from_slice(&[0, 0, 0, 1]);
    assert_eq!(buf.to_vec(), expected);

    let mut input = TBinaryInputProtocol::new(buf, true);
    let back = input.read_message_begin().unwrap();
    assert_eq!(back, ident);
    assert_eq!(input.into_inner().len(), 0);
}

#[test]
fn lenient_message_begin_bytes() {
    let mut out = TBinaryOutputProtocol::new(BytesMut::new(), false);
    let ident = TMessageIdentifier::new("Ping".to_string(), TMessageType::OneWay, -2);
    out.write_message_begin(&ident).unwrap();
    let buf = out.into_inner();
    let mut expected: Vec<u8> = vec![0, 0, 0, 4];
    expected.extend_from_slice(b"Ping");
    expected.push(0x04);
    expected.extend_from_slice(&[0xFF, 0xFF, 0xFF, 0xFE]);
    assert_eq!(buf.to_vec(), expected);

    let mut lenient = TBinaryInputProtocol::new(buf.clone(), false);
    assert_eq!(lenient.read_message_begin().unwrap(), ident);
    let mut strict = TBinaryInputProtocol::new(buf, true);
    assert_eq!(kind(strict.read_message_begin()), ProtocolErrorKind::BadVersion);
}

#[test]
fn message_begin_failures() {
    // too short for the first four bytes
    assert_eq!(kind(reader(&[0x80, 0x01]).read_message_begin()), ProtocolErrorKind::InvalidData);
    // the version word must have 0x01 as its second byte
    assert_eq!(
        kind(reader(&[0x80, 0x02, 0x00, 0x01, 0, 0, 0, 0, 0, 0, 0, 0]).read_message_begin()),
        ProtocolErrorKind::BadVersion
    );
    // a message type that does not exist
    assert_eq!(
        kind(reader(&[0x80, 0x01, 0x00, 0x09, 0, 0, 0, 0, 0, 0, 0, 0]).read_message_begin()),
        ProtocolErrorKind::InvalidData
    );
    // a name that is longer than what is left
    let mut lenient = TBinaryInputProtocol::new(BytesMut::from(&[0u8, 0, 0, 9, b'a'][..]), false);
    assert_eq!(kind(lenient.read_message_begin()), ProtocolErrorKind::InvalidData);
    // any first byte with the high bit set announces the version word
    let mut any = reader(&[0xFF, 0x01, 0x55, 0x02, 0, 0, 0, 1, b'm', 0, 0, 0, 3]);
    let ident = any.read_message_begin().unwrap();
    assert_eq!(ident, TMessageIdentifier::new("m".to_string(), TMessageType::Reply, 3));
}

#[test]
fn integers_are_big_endian() {
    let mut out = writer();
    out.write_bool(true).unwrap();
    out.write_bool(false).unwrap();
    out.write_i8(-2).unwrap();
    out.write_i16(0x0102).unwrap();
    out.write_i16(-2).unwrap();
    out.write_i32(0x01020304).unwrap();
    out.write_i32(i32::MIN).unwrap();
    out.write_i64(0x0102030405060708).unwrap();
    out.write_i64(-1).unwrap();
    out.write_byte(0xAB).unwrap();
    out.flush().unwrap();
    let buf = out.into_inner();
    assert_eq!(
        buf.to_vec(),
        vec![
            1, 0, 0xFE, 0x01, 0x02, 0xFF, 0xFE, 0x01, 0x02, 0x03, 0x04, 0x80, 0, 0, 0, 0x01, 0x02,
            0x03, 0x04, 0x05, 0x06, 0x07, 0x08, 0xFF, 0xFF, 0xFF, 0xFF, 0xFF, 0xFF, 0xFF, 0xFF,
            0xAB
        ]
    );
    let mut input = TBinaryInputProtocol::new(buf, true);
    assert_eq!(input.read_bool().unwrap(), true);
    assert_eq!(input.read_bool().unwrap(), false);
    assert_eq!(input.read_i8().unwrap(), -2);
    assert_eq!(input.read_i16().unwrap(), 0x0102);
    assert_eq!(input.read_i16().unwrap(), -2);
    assert_eq!(input.read_i32().unwrap(), 0x01020304);
    assert_eq!(input.read_i32().unwrap(), i32::MIN);
    assert_eq!(input.read_i64().unwrap(), 0x0102030405060708);
    assert_eq!(input.read_i64().unwrap(), -1);
    assert_eq!(input.read_byte().unwrap(), 0xAB);
    assert_eq!(kind(input.read_byte()), ProtocolErrorKind::InvalidData);
}

#[test]
fn primitives_round_trip() {
    for b in [true, false] {
        let mut out = writer();
        out.write_bool(b).unwrap();
        assert_eq!(TBinaryInputProtocol::new(out.into_inner(), true).read_bool().unwrap(), b);
    }
    for i in [i8::MIN, -1, 0, 1, i8::MAX] {
        let mut out = writer();
        out.write_i8(i).unwrap();
        assert_eq!(TBinaryInputProtocol::new(out.into_inner(), true).read_i8().unwrap(), i);
    }
    for i in [i16::MIN, -257, -1, 0, 1, 255, 256, i16::MAX] {
        let mut out = writer();
        out.write_i16(i).unwrap();
        assert_eq!(TBinaryInputProtocol::new(out.into_inner(), true).read_i16().unwrap(), i);
    }
    for i in [i32::MIN, -65537, -1, 0, 1, 65536, i32::MAX] {
        let mut out = writer();
        out.write_i32(i).unwrap();
        assert_eq!(TBinaryInputProtocol::new(out.into_inner(), true).read_i32().unwrap(), i);
    }
    for i in [i64::MIN, -4294967297, -1, 0, 1, 4294967296, i64::MAX] {
        let mut out = writer();
        out.write_i64(i).unwrap();
        assert_eq!(TBinaryInputProtocol::new(out.into_inner(), true).read_i64().unwrap(), i);
    }
    for d in [0.0f64, -0.0, 1.5, -2.25, f64::MAX, f64::MIN_POSITIVE, f64::INFINITY] {
        let mut out = writer();
        out.write_double(d.to_bits()).unwrap();
        let back = TBinaryInputProtocol::new(out.into_inner(), true).read_double().unwrap();
        assert_eq!(back, d.to_bits());
        assert_eq!(f64::from_bits(back).to_bits(), d.to_bits());
    }
    for s in ["", "a", "héllo wörld", "日本語", &"x".repeat(64 * 1024)] {
        let mut out = writer();
        out.write_string(s).unwrap();
        assert_eq!(TBinaryInputProtocol::new(out.into_inner(), true).read_string().unwrap(), s);
    }
    let bytes: Vec<u8> = (0..=255).collect();
    let mut out = writer();
    out.write_bytes(&bytes).unwrap();
    assert_eq!(TBinaryInputProtocol::new(out.into_inner(), true).read_bytes().unwrap(), bytes);
}

#[test]
fn double_is_its_bit_pattern() {
    let mut out = writer();
    out.write_double(1.0f64.to_bits()).unwrap();
    assert_eq!(out.into_inner().to_vec(), vec![0x3F, 0xF0, 0, 0, 0, 0, 0, 0]);
}

#[test]
fn any_byte_but_zero_is_true() {
    assert_eq!(reader(&[0x02]).read_bool().unwrap(), true);
    assert_eq!(reader(&[0xFF]).read_bool().unwrap(), true);
    assert_eq!(reader(&[0x00]).read_bool().unwrap(), false);
}

#[test]
fn reads_check_the_length_first() {
    assert_eq!(kind(reader(&[]).read_bool()), ProtocolErrorKind::InvalidData);
    assert_eq!(kind(reader(&[]).read_i8()), ProtocolErrorKind::InvalidData);
    assert_eq!(kind(reader(&[1]).read_i16()), ProtocolErrorKind::InvalidData);
    assert_eq!(kind(reader(&[1, 2, 3]).read_i32()), ProtocolErrorKind::InvalidData);
    assert_eq!(kind(reader(&[1, 2, 3, 4, 5, 6, 7]).read_i64()), ProtocolErrorKind::InvalidData);
    assert_eq!(kind(reader(&[1, 2, 3, 4, 5, 6, 7]).read_double()), ProtocolErrorKind::InvalidData);
    assert_eq!(kind(reader(&[0, 0, 0]).read_bytes()), ProtocolErrorKind::InvalidData);
    assert_eq!(kind(reader(&[0, 0, 0, 2, 1]).read_bytes()), ProtocolErrorKind::InvalidData);
    assert_eq!(kind(reader(&[0xFF, 0xFF, 0xFF, 0xFF]).read_bytes()), ProtocolErrorKind::InvalidData);
    match reader(&[1, 2, 3]).read_i32() {
        Err(e) => assert_eq!(e.to_string(), "unexpected data length"),
        Ok(_) => panic!("three bytes are no i32"),
    }
}

#[test]
fn bad_utf8_is_invalid_data() {
    assert_eq!(kind(reader(&[0, 0, 0, 2, 0xC3, 0x28]).read_string()), ProtocolErrorKind::InvalidData);
    assert_eq!(reader(&[0, 0, 0, 2, 0xC3, 0x28]).read_bytes().unwrap(), vec![0xC3, 0x28]);
}

#[test]
fn field_headers() {
    let mut out = writer();
    out.write_struct_begin(&TStructIdentifier::new("S".to_string())).unwrap();
    out.write_field_begin(&TFieldIdentifier::new(Some("a".to_string()), TType::I32, Some(1)))
        .unwrap();
    out.write_field_end().unwrap();
    out.write_field_begin(&TFieldIdentifier::new(None, TType::Stop, None)).unwrap();
    out.write_field_stop().unwrap();
    out.write_struct_end().unwrap();
    assert_eq!(
        kind(out.write_field_begin(&TFieldIdentifier::new(None, TType::I32, None))),
        ProtocolErrorKind::Unknown
    );
    let buf = out.into_inner();
    assert_eq!(buf.to_vec(), vec![0x08, 0x00, 0x01, 0x00, 0x00]);

    let mut input = TBinaryInputProtocol::new(buf, true);
    assert_eq!(input.read_struct_begin().unwrap(), None);
    assert_eq!(
        input.read_field_begin().unwrap(),
        TFieldIdentifier::new(None, TType::I32, Some(1))
    );
    input.read_field_end().unwrap();
    assert_eq!(
        input.read_field_begin().unwrap(),
        TFieldIdentifier::new(None, TType::Stop, Some(0))
    );
    input.read_struct_end().unwrap();
    assert_eq!(kind(reader(&[0x05, 0, 1]).read_field_begin()), ProtocolErrorKind::InvalidData);
    assert_eq!(kind(reader(&[0x08, 0]).read_field_begin()), ProtocolErrorKind::InvalidData);
}

#[test]
fn container_headers() {
    let mut out = writer();
    out.write_list_begin(&TListIdentifier::new(TType::Struct, 3)).unwrap();
    out.write_list_end().unwrap();
    out.write_set_begin(&TSetIdentifier::new(TType::I64, 0)).unwrap();
    out.write_set_end().unwrap();
    out.write_map_begin(&TMapIdentifier::new(TType::String, TType::List, 2)).unwrap();
    out.write_map_end().unwrap();
    let buf = out.into_inner();
    assert_eq!(
        buf.to_vec(),
        vec![0x0C, 0, 0, 0, 3, 0x0A, 0, 0, 0, 0, 0x0B, 0x0F, 0, 0, 0, 2]
    );
    let mut input = TBinaryInputProtocol::new(buf, true);
    assert_eq!(input.read_list_begin().unwrap(), TListIdentifier::new(TType::Struct, 3));
    input.read_list_end().unwrap();
    assert_eq!(input.read_set_begin().unwrap(), TSetIdentifier::new(TType::I64, 0));
    input.read_set_end().unwrap();
    assert_eq!(
        input.read_map_begin().unwrap(),
        TMapIdentifier::new(TType::String, TType::List, 2)
    );
    input.read_map_end().unwrap();
}

#[test]
fn type_tags_are_those_of_thrift() {
    let tags = [
        (TType::Stop, 0u8),
        (TType::Void, 1),
        (TType::Bool, 2),
        (TType::I8, 3),
        (TType::Double, 4),
        (TType::I16, 6),
        (TType::I32, 8),
        (TType::I64, 10),
        (TType::String, 11),
        (TType::Struct, 12),
        (TType::MapOf, 13),
        (TType::SetOf, 14),
        (TType::List, 15),
    ];
    for (t, b) in tags {
        assert_eq!(t.to_u8(), b);
        assert_eq!(field_type_from_u8(b).unwrap(), t);
    }
    for b in [5u8, 7, 9, 16, 255] {
        assert_eq!(kind(field_type_from_u8(b)), ProtocolErrorKind::InvalidData);
    }
    let kinds = [
        (TMessageType::Call, 1u8),
        (TMessageType::Reply, 2),
        (TMessageType::Exception, 3),
        (TMessageType::OneWay, 4),
    ];
    for (t, b) in kinds {
        assert_eq!(t.to_u8(), b);
        assert_eq!(TMessageType::try_from_u8(b).unwrap(), t);
    }
    assert_eq!(kind(TMessageType::try_from_u8(0)), ProtocolErrorKind::InvalidData);
    assert_eq!(kind(TMessageType::try_from_u8(5)), ProtocolErrorKind::InvalidData);
    assert_eq!(TMessageType::default(), TMessageType::Call);
    assert_eq!(TType::I8.name(), "i08");
}

#[test]
fn tags_are_compared() {
    assert!(ttype_comparing(TType::I32, TType::I32).is_ok());
    assert_eq!(kind(ttype_comparing(TType::I32, TType::I64)), ProtocolErrorKind::InvalidData);
    assert_eq!(
        ttype_comparing(TType::I32, TType::I64).unwrap_err().to_string(),
        "invalid ttype: i32, expect: i64"
    );
}

fn nested_lists(depth: usize) -> Vec<u8> {
    // depth lists of one list each, the innermost empty
    let mut bytes = Vec::new();
    for _ in 1..depth {
        bytes.extend_from_slice(&[0x0F, 0, 0, 0, 1]);
    }
    bytes.extend_from_slice(&[0x08, 0, 0, 0, 0]);
    bytes
}

#[test]
fn skip_passes_over_values() {
    let mut body = BytesMut::new();
    // a struct { 1: i32, 2: string "ab", 3: list<i16> [1, 2], 4: map<byte, bool> {1: true} }
    body.put_slice(&[0x08, 0, 1, 0, 0, 0, 7]);
    body.put_slice(&[0x0B, 0, 2, 0, 0, 0, 2, b'a', b'b']);
    body.put_slice(&[0x0F, 0, 3, 0x06, 0, 0, 0, 2, 0, 1, 0, 2]);
    body.put_slice(&[0x0D, 0, 4, 0x03, 0x02, 0, 0, 0, 1, 1, 1]);
    body.put_slice(&[0x00]);
    body.put_slice(&[0x77]);
    let mut input = TBinaryInputProtocol::new(body, true);
    input.skip(TType::Struct).unwrap();
    assert_eq!(input.into_inner().to_vec(), vec![0x77]);

    let mut input = reader(&[0, 0, 0, 0, 0, 0, 0, 1, 9]);
    input.skip(TType::Double).unwrap();
    input.skip(TType::Bool).unwrap();
    assert_eq!(input.into_inner().len(), 0);

    // a negative size announces nothing
    let mut input = reader(&[0x08, 0xFF, 0xFF, 0xFF, 0xFF, 5]);
    input.skip(TType::SetOf).unwrap();
    assert_eq!(input.into_inner().to_vec(), vec![5]);
    // bytes that are no text are passed over too
    let mut input = reader(&[0, 0, 0, 2, 0xC3, 0x28]);
    input.skip(TType::String).unwrap();
}

#[test]
fn skip_failures() {
    assert_eq!(kind(reader(&[]).skip(TType::Stop)), ProtocolErrorKind::InvalidData);
    assert_eq!(kind(reader(&[]).skip(TType::Void)), ProtocolErrorKind::InvalidData);
    assert_eq!(kind(reader(&[0, 0]).skip(TType::I32)), ProtocolErrorKind::InvalidData);
    assert_eq!(kind(reader(&[0x08, 0, 1]).skip(TType::Struct)), ProtocolErrorKind::InvalidData);
    assert_eq!(kind(reader(&[9]).skip_till_depth(TType::Bool, 0)), ProtocolErrorKind::DepthLimit);

    let deepest = MAXIMUM_SKIP_DEPTH as usize;
    let mut fits = reader(&nested_lists(deepest));
    fits.skip(TType::List).unwrap();
    assert_eq!(fits.into_inner().len(), 0);
    let mut too_deep = reader(&nested_lists(deepest + 1));
    assert_eq!(kind(too_deep.skip(TType::List)), ProtocolErrorKind::DepthLimit);
}

fn text<T: std::fmt::Debug>(r: Result<T, Error>) -> String {
    match r {
        Err(e) => e.to_string(),
        Ok(v) => panic!("expected a failure, got {:?}", v),
    }
}

#[test]
fn protocol_failures_say_what_went_wrong() {
    assert_eq!(text(reader(&[]).read_bool()), "unexpected data length");
    assert_eq!(text(reader(&[0, 0, 0, 2, 1]).read_string()), "unexpected data length");
    assert_eq!(text(reader(&[0xFF, 0xFF, 0xFF, 0xFF]).read_bytes()), "unexpected data length");
    assert_eq!(text(reader(&[0, 0, 0, 2, 0xC3, 0x28]).read_string()), "string is not valid UTF-8");
    assert_eq!(text(reader(&[0x80, 0x01]).read_message_begin()), "unexpected data length");
    assert_eq!(
        text(reader(&[0x80, 0x02, 0x00, 0x01, 0, 0, 0, 0, 0, 0, 0, 0]).read_message_begin()),
        "received bad version"
    );
    assert_eq!(
        text(reader(&[0, 0, 0, 1, b'm', 1, 0, 0, 0, 1]).read_message_begin()),
        "received bad version"
    );
    assert_eq!(
        text(reader(&[0x80, 0x01, 0x00, 0x09, 0, 0, 0, 0, 0, 0, 0, 0]).read_message_begin()),
        "cannot convert byte to TMessageType"
    );
    let mut lenient =
        TBinaryInputProtocol::new(BytesMut::from(&[0u8, 0, 0, 2, 0xC3, 0x28, 1, 0, 0, 0, 1][..]), false);
    assert_eq!(text(lenient.read_message_begin()), "string is not valid UTF-8");
    assert_eq!(text(reader(&[0x05, 0, 1]).read_field_begin()), "cannot convert byte to TType");
    assert_eq!(text(reader(&[]).skip(TType::Stop)), "cannot skip field type");
    assert_eq!(
        text(reader(&[9]).skip_till_depth(TType::Bool, 0)),
        "cannot parse past depth limit"
    );
    assert_eq!(
        text(writer().write_field_begin(&TFieldIdentifier::new(None, TType::I32, None))),
        "cannot write field identifier without sequence number"
    );
}

#[test]
fn the_stop_sentinel_travels_without_an_id() {
    let mut out = writer();
    out.write_field_begin(&TFieldIdentifier::new(None, TType::Stop, Some(5))).unwrap();
    out.write_field_begin(&TFieldIdentifier::new(None, TType::Stop, None)).unwrap();
    out.write_field_begin(&TFieldIdentifier::new(None, TType::Bool, Some(5))).unwrap();
    assert_eq!(out.into_inner().to_vec(), vec![0x00, 0x00, 0x02, 0x00, 0x05]);
}

#[test]
fn a_refused_fixed_size_read_takes_nothing() {
    let mut input = reader(&[1, 2, 3]);
    assert!(input.read_i32().is_err());
    assert!(input.read_i64().is_err());
    assert!(input.read_double().is_err());
    // the three bytes are still there
    assert_eq!(input.read_i16().unwrap(), 0x0102);
    assert_eq!(input.read_byte().unwrap(), 3);
    assert!(input.read_bool().is_err());
    assert!(input.read_i8().is_err());
    assert!(input.read_byte().is_err());
    assert_eq!(input.into_inner().len(), 0);
}
