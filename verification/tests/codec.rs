use bytes::{BufMut, BytesMut};
use mini_lust::binary::{TBinaryInputProtocol, TBinaryOutputProtocol};
use mini_lust::codec::{DefaultMakeCodec, FramedCodec, MessageCodec, MAX_MESSAGE_SIZE};
use mini_lust::context::{Header, MsgContext};
use mini_lust::demo::{GetUserRequest, User};
use mini_lust::errors::{
    ApplicationError, ApplicationErrorKind, Error, Fault, ProtocolErrorKind,
};
use mini_lust::message::Message;
use mini_lust::protocol::{
    TFieldIdentifier, TMessageIdentifier, TMessageType, TStructIdentifier, TType,
};
use vstd::seq::Seq;
use vstd::view::DeepView;

#[derive(Debug, Default, Clone, Eq, PartialEq)]
struct MockMessage {
    id: i32,
    is_male: bool,
}

// What verification would ask of an implementation is not run, so the
// items that only it reads are never reached.
impl DeepView for MockMessage {
    type V = (i32, bool);

    fn deep_view(&self) -> (i32, bool) {
        unreachable!()
    }
}

impl Message for MockMessage {
    fn refusal(_: (i32, bool)) -> Option<Fault> {
        unreachable!()
    }

    fn wire(_: (i32, bool)) -> Seq<u8> {
        unreachable!()
    }

    fn parse(_: Header, _: Seq<u8>) -> Result<((i32, bool), Seq<u8>), Fault> {
        unreachable!()
    }

    fn admits(_: Header, _: (i32, bool)) -> bool {
        unreachable!()
    }

    fn unread(_: Header) -> bool {
        unreachable!()
    }

    fn lemma_unread(_: Header, _: Seq<u8>) {
        unreachable!()
    }

    fn lemma_roundtrip(_: Header, _: (i32, bool), _: Seq<u8>) {
        unreachable!()
    }

    fn encode(
        &self,
        cx: &MsgContext,
        protocol: &mut TBinaryOutputProtocol<BytesMut>,
    ) -> Result<(), Error> {
        protocol.write_struct_begin(&TStructIdentifier { name: "MockMessage".to_string() })?;

        protocol.write_field_begin(&TFieldIdentifier {
            name: Some("id".to_string()),
            field_type: TType::I32,
            id: Some(1),
        })?;
        self.id.encode(cx, protocol)?;
        protocol.write_field_end()?;

        protocol.write_field_begin(&TFieldIdentifier {
            name: Some("is_male".to_string()),
            field_type: TType::Bool,
            id: Some(2),
        })?;
        self.is_male.encode(cx, protocol)?;
        protocol.write_field_end()?;

        protocol.write_field_stop()?;
        protocol.write_struct_end()?;
        Ok(())
    }

    fn decode(
        _cx: &mut MsgContext,
        protocol: &mut TBinaryInputProtocol<BytesMut>,
    ) -> Result<Self, Error> {
        protocol.read_struct_begin()?;
        let mut output = Self::default();

        loop {
            let ident = protocol.read_field_begin()?;
            if ident.field_type == TType::Stop {
                break;
            }
            match ident.id {
                Some(1) => {
                    // read id
                    output.id = protocol.read_i32()?;
                }
                Some(2) => {
                    // read is_male
                    output.is_male = protocol.read_bool()?;
                }
                _ => {
                    protocol.skip(ident.field_type)?;
                }
            }
            protocol.read_field_end()?;
        }

        protocol.read_struct_end()?;
        Ok(output)
    }
}

fn context(name: &str, message_type: TMessageType, sequence_number: i32) -> MsgContext {
    MsgContext {
        identifier: TMessageIdentifier { name: name.to_string(), message_type, sequence_number },
        ..MsgContext::default()
    }
}

#[test]
fn test_message_codec() {
    let mut codec = MessageCodec::<MockMessage, MockMessage>::new(true);
    let mut buf = bytes::BytesMut::new();

    let cx = context("TestMethod", TMessageType::Call, 1);
    let message = MockMessage { id: 1, is_male: true };

    codec.encode((cx, Ok(message.clone())), &mut buf).unwrap();
    let (_decoded_cx, decoded_message) = codec.decode(&mut buf).unwrap().unwrap();
    assert_eq!(message, decoded_message.unwrap());
}

#[test]
fn test_message_codec_error() {
    let mut codec: MessageCodec<MockMessage, MockMessage> = MessageCodec::new(true);
    let mut buf = bytes::BytesMut::new();

    let cx = context("TestMethod", TMessageType::Exception, 1);
    let error = ApplicationError::new(ApplicationErrorKind::InternalError, "the error");

    codec.encode((cx, Err(error.clone())), &mut buf).unwrap();
    let (_decoded_cx, decoded_message) = codec.decode(&mut buf).unwrap().unwrap();
    assert_eq!(error, decoded_message.unwrap_err());
}

#[test]
fn message_keeps_its_header() {
    let mut codec = MessageCodec::<GetUserRequest, GetUserRequest>::new(true);
    let mut buf = BytesMut::new();
    let request = GetUserRequest { user_id: 3, user_name: "x".to_string(), is_male: false };
    codec.encode((context("GetUser", TMessageType::Call, 41), Ok(request)), &mut buf).unwrap();
    buf.put_u8(0xAA);
    let (cx, _) = codec.decode(&mut buf).unwrap().unwrap();
    assert_eq!(cx.identifier.name, "GetUser");
    assert_eq!(cx.identifier.message_type, TMessageType::Call);
    assert_eq!(cx.identifier.sequence_number, 41);
    assert_eq!(cx.target, None);
    assert_eq!(buf.to_vec(), vec![0xAA]);
}

#[test]
fn failure_travels_as_exception() {
    // whatever message type the context has, a failure goes out as an exception
    let mut codec = MessageCodec::<User, User>::new(true);
    let mut buf = BytesMut::new();
    let error = ApplicationError::new(ApplicationErrorKind::InternalError, "boom");
    codec.encode((context("GetUser", TMessageType::Reply, 5), Err(error)), &mut buf).unwrap();
    let mut expected: Vec<u8> = vec![0x80, 0x01, 0x00, 0x03, 0, 0, 0, 7];
    expected.extend_from_slice(b"GetUser");
    expected.extend_from_slice(&[0, 0, 0, 5]);
    // struct { 1: string "boom", 2: i32 6 }
    expected.extend_from_slice(&[0x0B, 0x00, 0x01, 0, 0, 0, 4]);
    expected.extend_from_slice(b"boom");
    expected.extend_from_slice(&[0x08, 0x00, 0x02, 0, 0, 0, 6, 0x00]);
    assert_eq!(buf.to_vec(), expected);
}

#[test]
fn lenient_codec_reads_both() {
    let request = || GetUserRequest { user_id: 3, user_name: "x".to_string(), is_male: false };
    let mut strict = MessageCodec::<GetUserRequest, GetUserRequest>::new(true);
    let mut lenient = MessageCodec::<GetUserRequest, GetUserRequest>::new(false);

    let mut buf = BytesMut::new();
    lenient.encode((context("GetUser", TMessageType::Call, 1), Ok(request())), &mut buf).unwrap();
    assert_eq!(&buf[..4], &[0, 0, 0, 7]);
    let mut copy = buf.clone();
    assert_eq!(lenient.decode(&mut buf).unwrap().unwrap().1.unwrap(), request());
    match strict.decode(&mut copy) {
        Err(Error::Protocol(e)) => assert_eq!(e.kind, ProtocolErrorKind::BadVersion),
        other => panic!("expected a bad version, got {:?}", other),
    }

    let mut buf = BytesMut::new();
    strict.encode((context("GetUser", TMessageType::Call, 1), Ok(request())), &mut buf).unwrap();
    assert_eq!(lenient.decode(&mut buf).unwrap().unwrap().1.unwrap(), request());
}

/// Reads one frame with FramedCodec.
#[test]
fn test_framed_read() {
    let mut data = BytesMut::new();
    data.put_u32(7);
    for _ in 0..7 {
        data.put_u8(3);
    }
    let r = FramedCodec::<()>::frame_split(&mut data);
    assert!(r.is_ok() && r.as_ref().unwrap().is_some(), "there must be some data");
    let buf = r.unwrap().unwrap();
    assert_eq!(buf.len(), 7, "the data length must matches");
    assert!(buf.iter().all(|x| *x == 3), "the data byte must matches");
    assert_eq!(data.len(), 0);
}

/// Writes one frame with FramedCodec.
#[test]
fn test_framed_write() {
    let mut data = Vec::<u8>::new();
    data.put_u32(7);
    for i in 0..7 {
        data.put_u8(i);
    }
    let mut dst = BytesMut::new();
    let zero_index = FramedCodec::<()>::frame_begin(&mut dst);
    dst.put_slice(&data[4..]);
    let s = FramedCodec::<()>::frame_end(&mut dst, zero_index);
    assert!(s.is_ok(), "send must be success");
    assert_eq!(dst.to_vec(), data);
}

#[test]
fn frame_waits_for_all_of_its_bytes() {
    let mut data = BytesMut::new();
    data.put_slice(&[0, 0, 0]);
    assert!(FramedCodec::<()>::frame_split(&mut data).unwrap().is_none());
    assert_eq!(data.to_vec(), vec![0, 0, 0]);
    data.put_slice(&[5, 1, 2]);
    assert!(FramedCodec::<()>::frame_split(&mut data).unwrap().is_none());
    assert_eq!(data.to_vec(), vec![0, 0, 0, 5, 1, 2]);
    data.put_slice(&[3, 4, 5, 99]);
    let body = FramedCodec::<()>::frame_split(&mut data).unwrap().unwrap();
    assert_eq!(body.to_vec(), vec![1, 2, 3, 4, 5]);
    assert_eq!(data.to_vec(), vec![99]);
}

#[test]
fn frame_limit_on_read() {
    let mut data = BytesMut::new();
    data.put_u32(MAX_MESSAGE_SIZE as u32 + 1);
    data.put_slice(&[1, 2, 3]);
    let before = data.to_vec();
    match FramedCodec::<()>::frame_split(&mut data) {
        Err(Error::Protocol(e)) => {
            assert_eq!(e.kind, ProtocolErrorKind::SizeLimit);
            assert_eq!(e.message, "Frame of length 16777217 is too large.");
        }
        other => panic!("expected a size limit, got {:?}", other),
    }
    assert_eq!(data.to_vec(), before);

    // a frame of exactly the limit is taken once it is there
    let mut data = BytesMut::new();
    data.put_u32(MAX_MESSAGE_SIZE as u32);
    assert!(FramedCodec::<()>::frame_split(&mut data).unwrap().is_none());
}

#[test]
fn frame_limit_on_write() {
    let mut dst = BytesMut::new();
    dst.put_u8(9);
    let zero_index = FramedCodec::<()>::frame_begin(&mut dst);
    assert_eq!(zero_index, 1);
    dst.resize(1 + 4 + MAX_MESSAGE_SIZE + 1, 0);
    match FramedCodec::<()>::frame_end(&mut dst, zero_index) {
        Err(Error::Protocol(e)) => {
            assert_eq!(e.kind, ProtocolErrorKind::SizeLimit);
            assert_eq!(e.message, "Frame of length 16777217 is too large.");
        }
        other => panic!("expected a size limit, got {:?}", other),
    }
    dst.truncate(1 + 4 + MAX_MESSAGE_SIZE);
    assert!(FramedCodec::<()>::frame_end(&mut dst, zero_index).is_ok());
    assert_eq!(&dst[..5], &[9, 0x01, 0x00, 0x00, 0x00]);
}

#[test]
fn oversized_message_is_refused() {
    let mut codec: FramedCodec<MessageCodec<User, User>> = DefaultMakeCodec::new().make_codec();
    let user = User {
        user_id: 1,
        user_name: "a".repeat(MAX_MESSAGE_SIZE + 1),
        is_male: false,
        extra: None,
    };
    let mut dst = BytesMut::new();
    match codec.encode((context("GetUser", TMessageType::Call, 1), Ok(user)), &mut dst) {
        Err(Error::Protocol(e)) => assert_eq!(e.kind, ProtocolErrorKind::SizeLimit),
        other => panic!("expected a size limit, got {:?}", other),
    }
}

#[test]
fn two_frames_are_two_messages() {
    let mut codec: FramedCodec<MessageCodec<GetUserRequest, GetUserRequest>> =
        DefaultMakeCodec::new().make_codec();
    let first = GetUserRequest { user_id: 1, user_name: "one".to_string(), is_male: true };
    let second = GetUserRequest { user_id: 2, user_name: "two".to_string(), is_male: false };
    let mut stream = BytesMut::new();
    let copy = |r: &GetUserRequest| GetUserRequest {
        user_id: r.user_id,
        user_name: r.user_name.clone(),
        is_male: r.is_male,
    };
    codec.encode((context("GetUser", TMessageType::Call, 2), Ok(copy(&first))), &mut stream).unwrap();
    codec.encode((context("GetUser", TMessageType::Call, 3), Ok(copy(&second))), &mut stream).unwrap();

    let (cx, got) = codec.decode(&mut stream).unwrap().unwrap();
    assert_eq!(cx.identifier.sequence_number, 2);
    assert_eq!(got.unwrap(), first);
    let (cx, got) = codec.decode(&mut stream).unwrap().unwrap();
    assert_eq!(cx.identifier.sequence_number, 3);
    assert_eq!(got.unwrap(), second);
    assert_eq!(stream.len(), 0);
    assert!(codec.decode(&mut stream).unwrap().is_none());
}

#[test]
fn inner_decoder_must_not_ask_for_more() {
    assert_eq!(FramedCodec::<()>::frame_decoded(Some(5)).unwrap(), Some(5));
    match FramedCodec::<()>::frame_decoded(None::<i32>) {
        Err(Error::Protocol(e)) => assert_eq!(e.kind, ProtocolErrorKind::InvalidData),
        other => panic!("expected invalid data, got {:?}", other),
    }
}
