use bytes::BytesMut;
use mini_lust::binary::{TBinaryInputProtocol, TBinaryOutputProtocol};
use mini_lust::context::MsgContext;
use mini_lust::demo::{
    AnonymousItemServiceGetUserArgs, AnonymousItemServiceGetUserResult,
    AnonymousItemServiceRequest, GetUserRequest, GetUserResponse, User,
};
use mini_lust::message::Message;
use mini_lust::protocol::{TMessageIdentifier, TMessageType};

fn encode_then_decode<T: Message>(mut cx: MsgContext, input: &T) -> T {
    // Encode
    let mut output_protocol = TBinaryOutputProtocol::new(BytesMut::new(), true);
    input.encode(&cx, &mut output_protocol).unwrap();
    let buffer = output_protocol.into_inner();

    // Decode
    let mut input_protocol = TBinaryInputProtocol::new(buffer, true);
    let decoded = T::decode(&mut cx, &mut input_protocol).unwrap();
    assert_eq!(input_protocol.into_inner().len(), 0);
    decoded
}

fn user() -> User {
    let extra = vec![
        ("test_key1".to_string(), "test_val1".to_string()),
        ("test_key2".to_string(), "test_val2".to_string()),
    ];
    User { user_id: 7, user_name: "ihciah".to_string(), is_male: true, extra: Some(extra) }
}

fn get_user_request() -> GetUserRequest {
    GetUserRequest { user_id: 7, user_name: "ChiHai".to_string(), is_male: true }
}

fn get_user_response() -> GetUserResponse {
    GetUserResponse { users: vec![user(), user()] }
}

#[test]
fn lib_test_user_encode_decode() {
    let input = user();
    let decoded = encode_then_decode(MsgContext::default(), &input);
    assert_eq!(decoded, input, "message after encoding and decoding must equal");
}

#[test]
fn test_get_user_request_encode_decode() {
    let input = get_user_request();
    let decoded = encode_then_decode(MsgContext::default(), &input);
    assert_eq!(decoded, input, "message after encoding and decoding must equal");
}

#[test]
fn test_get_user_response_encode_decode() {
    let input = get_user_response();
    let decoded = encode_then_decode(MsgContext::default(), &input);
    assert_eq!(decoded, input, "message after encoding and decoding must equal");
}

#[test]
fn test_anonymous_item_service_get_user_args_encode_decode() {
    let input = AnonymousItemServiceGetUserArgs { req: get_user_request(), shuffle: true };
    let decoded = encode_then_decode(MsgContext::default(), &input);
    assert_eq!(decoded, input, "message after encoding and decoding must equal");
}

#[test]
fn test_anonymous_item_service_get_user_result_encode_decode() {
    let input = AnonymousItemServiceGetUserResult::Success(get_user_response());
    let decoded = encode_then_decode(MsgContext::default(), &input);
    assert_eq!(decoded, input, "message after encoding and decoding must equal");
}

#[test]
fn test_anonymous_item_service_request_encode_decode() {
    let cx = MsgContext {
        identifier: TMessageIdentifier {
            name: "GetUser".to_string(),
            message_type: TMessageType::Call,
            sequence_number: 1,
        },
        ..MsgContext::default()
    };
    let input = AnonymousItemServiceRequest::GetUser(AnonymousItemServiceGetUserArgs {
        req: get_user_request(),
        shuffle: true,
    });
    let decoded = encode_then_decode(cx, &input);
    assert_eq!(decoded, input, "message after encoding and decoding must equal");
}

#[test]
fn user_body_bytes() {
    let mut out = TBinaryOutputProtocol::new(BytesMut::new(), true);
    user().encode(&MsgContext::default(), &mut out).unwrap();
    let mut expected: Vec<u8> = Vec::new();
    expected.extend_from_slice(&[0x08, 0x00, 0x01, 0x00, 0x00, 0x00, 0x07]);
    expected.extend_from_slice(&[0x0B, 0x00, 0x02, 0x00, 0x00, 0x00, 0x06]);
    expected.extend_from_slice(b"ihciah");
    expected.extend_from_slice(&[0x02, 0x00, 0x03, 0x01]);
    expected.extend_from_slice(&[0x0D, 0x00, 0x0A, 0x0B, 0x0B, 0x00, 0x00, 0x00, 0x02]);
    for (k, v) in [("test_key1", "test_val1"), ("test_key2", "test_val2")] {
        expected.extend_from_slice(&[0, 0, 0, 9]);
        expected.extend_from_slice(k.as_bytes());
        expected.extend_from_slice(&[0, 0, 0, 9]);
        expected.extend_from_slice(v.as_bytes());
    }
    expected.push(0x00);
    let bytes = out.into_inner();
    assert_eq!(bytes.to_vec(), expected);

    let mut input = TBinaryInputProtocol::new(bytes, true);
    let back = User::decode(&mut MsgContext::default(), &mut input).unwrap();
    assert_eq!(back, user());
}

#[test]
fn user_read_with_a_key_twice_holds_it_once() {
    let written = User {
        user_id: 1,
        user_name: "n".to_string(),
        is_male: false,
        extra: Some(vec![
            ("k".to_string(), "first".to_string()),
            ("l".to_string(), "other".to_string()),
            ("k".to_string(), "last".to_string()),
        ]),
    };
    let read = encode_then_decode(MsgContext::default(), &written);
    assert_eq!(
        read.extra,
        Some(vec![("k".to_string(), "last".to_string()), ("l".to_string(), "other".to_string())])
    );
    // what was read is read back as it is
    assert_eq!(encode_then_decode(MsgContext::default(), &read), read);
}
