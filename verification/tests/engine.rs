use bytes::BytesMut;
use mini_lust::client::{
    call_context, call_outcome, ClientBuilder, TransportClient, DEFAULT_BUFFER,
};
use mini_lust::codec::{DefaultMakeCodec, FramedCodec, MessageCodec};
use mini_lust::connection::{DefaultMakeConnection, SocketOrUnix};
use mini_lust::context::MsgContext;
use mini_lust::demo::{
    AnonymousItemServiceGetUserArgs, AnonymousItemServiceGetUserResult,
    AnonymousItemServiceRequest, AnonymousItemServiceResponse, GetUserRequest, GetUserResponse,
    ItemService, ItemServiceServer, User,
};
use mini_lust::errors::{
    ApplicationError, ApplicationErrorKind, ApplicationResult, Error, ProtocolErrorKind,
};
use mini_lust::message::Message;
use mini_lust::protocol::{TMessageIdentifier, TMessageType};
use mini_lust::server::{
    answer_context, Incoming, Server, Step, DEFAULT_BUFFER as SERVER_BUFFER,
    DEFAULT_CONCURRENCY_LIMIT,
};
use mini_lust::binary::TBinaryInputProtocol;
use mini_lust::transport::FramedMakeTransport;

type ClientCodec = FramedCodec<MessageCodec<AnonymousItemServiceRequest, AnonymousItemServiceResponse>>;
type ServerCodec = FramedCodec<MessageCodec<AnonymousItemServiceResponse, AnonymousItemServiceRequest>>;

struct Svc;

impl ItemService for Svc {
    // read by verification only, which does not run
    fn gets_user(
        &self,
        _: GetUserRequest,
        _: bool,
        _: ApplicationResult<AnonymousItemServiceGetUserResult>,
    ) -> bool {
        unreachable!()
    }

    fn get_user(
        &self,
        req: GetUserRequest,
        shuffle: bool,
    ) -> ApplicationResult<AnonymousItemServiceGetUserResult> {
        if req.user_id < 0 {
            return Err(ApplicationError::new(ApplicationErrorKind::InternalError, "boom"));
        }
        let resp = GetUserResponse {
            users: vec![User {
                user_id: req.user_id,
                user_name: req.user_name,
                is_male: shuffle,
                extra: None,
            }],
        };
        Ok(AnonymousItemServiceGetUserResult::Success(resp))
    }
}

fn target() -> SocketOrUnix {
    SocketOrUnix::Socket("127.0.0.1:12345".to_string())
}

fn request(user_id: i32) -> AnonymousItemServiceRequest {
    AnonymousItemServiceRequest::GetUser(AnonymousItemServiceGetUserArgs {
        req: GetUserRequest { user_id, user_name: "A".to_string(), is_male: false },
        shuffle: true,
    })
}

fn transport() -> TransportClient<DefaultMakeConnection, DefaultMakeCodec<AnonymousItemServiceRequest, AnonymousItemServiceResponse>> {
    TransportClient::new(DefaultMakeConnection, DefaultMakeCodec::new())
}

#[test]
fn sequence_numbers_increase_from_two() {
    let mut client = transport();
    assert_eq!(client.last_sequence(), 1);
    let mut last = 1;
    for expected in 2..10 {
        let mut cx = call_context("GetUser", TMessageType::Call, &target());
        assert_eq!(cx.identifier.sequence_number, 0);
        // whatever number the context comes with is overwritten
        cx.identifier.sequence_number = 1000 - expected;
        assert!(!client.exhausted());
        let departure = client.call(cx);
        assert_eq!(departure.cx.identifier.sequence_number, expected);
        assert!(departure.cx.identifier.sequence_number > last);
        assert_eq!(departure.cx.identifier.name, "GetUser");
        assert_eq!(departure.target, target());
        assert!(!departure.oneway);
        assert!(TransportClient::<DefaultMakeConnection, ()>::awaits_reply(&departure));
        last = departure.cx.identifier.sequence_number;
        assert_eq!(client.last_sequence(), last);
    }
}

#[test]
fn oneway_call_awaits_no_reply() {
    let mut client = transport();
    let cx = call_context("Ping", TMessageType::OneWay, &target());
    let departure = client.call(cx);
    assert!(departure.oneway);
    assert!(!TransportClient::<DefaultMakeConnection, ()>::awaits_reply(&departure));
    assert_eq!(departure.cx.identifier.message_type, TMessageType::OneWay);
}

#[test]
fn call_hands_out_the_answer() {
    let ok: Option<(MsgContext, ApplicationResult<i32>)> = Some((MsgContext::default(), Ok(5)));
    assert_eq!(call_outcome(ok).unwrap(), 5);
    let app = ApplicationError::new(ApplicationErrorKind::InternalError, "boom");
    let failed: Option<(MsgContext, ApplicationResult<i32>)> =
        Some((MsgContext::default(), Err(app.clone())));
    assert_eq!(call_outcome(failed), Err(Error::Application(app)));
}

#[test]
fn builders_hold_their_parts() {
    let builder = ClientBuilder::with_codec(target(), 1u8).make_codec(2u8);
    assert_eq!(builder.into_parts(), (target(), 2u8));
    assert_eq!(DEFAULT_BUFFER, usize::MAX / 8);
    let transport = FramedMakeTransport::new("connection", "codec");
    assert_eq!(*transport.make_connection(), "connection");
    assert_eq!(*transport.make_codec(), "codec");
    assert_eq!(transport.into_parts(), ("connection", "codec"));
    let client = TransportClient::new(1u8, 2u8);
    assert_eq!(*client.make_transport().make_connection(), 1u8);
    assert_eq!(Incoming::new(1u8, "c").into_parts(), (1u8, "c"));
    let server: Server<u8, (), (), ()> = Server::new(7);
    assert_eq!(server.buffer_size(), SERVER_BUFFER);
    assert_eq!(server.concurrency_limit(), DEFAULT_CONCURRENCY_LIMIT);
    assert_eq!(SERVER_BUFFER, 1000);
    assert_eq!(DEFAULT_CONCURRENCY_LIMIT, 1000);
    assert_eq!(server.into_inner(), 7);
}

fn context(name: &str, message_type: TMessageType, sequence_number: i32) -> MsgContext {
    MsgContext {
        identifier: TMessageIdentifier { name: name.to_string(), message_type, sequence_number },
        target: None,
    }
}

/// One request through the wire, the server, and the wire again.
fn serve(client: &mut TransportClient<DefaultMakeConnection, DefaultMakeCodec<AnonymousItemServiceRequest, AnonymousItemServiceResponse>>, user_id: i32) -> (Vec<u8>, Option<(MsgContext, ApplicationResult<AnonymousItemServiceResponse>)>) {
    let mut client_codec: ClientCodec = client.make_transport().make_codec().make_codec();
    let mut server_codec: ServerCodec = DefaultMakeCodec::new().make_codec();
    let mut server = ItemServiceServer::new(Svc);

    let departure = client.call(call_context("GetUser", TMessageType::Call, &target()));
    let mut wire = BytesMut::new();
    client_codec.encode((departure.cx, Ok(request(user_id))), &mut wire).unwrap();

    let (cx, req) = server_codec.decode(&mut wire).unwrap().unwrap();
    assert_eq!(wire.len(), 0);
    let request_cx = cx.clone();
    let outcome = server.call((cx, req));
    let mut back = BytesMut::new();
    match Server::<(), (), (), AnonymousItemServiceResponse>::after_call(request_cx, outcome) {
        Step::Send(cx, resp) => server_codec.encode((cx, resp), &mut back).unwrap(),
        Step::Continue => panic!("a call is answered"),
    }
    let sent = back.to_vec();
    (sent, client_codec.decode(&mut back).unwrap())
}

#[test]
fn call_is_answered_with_a_reply() {
    let mut client = transport();
    let (sent, answer) = serve(&mut client, 1);
    // the frame holds a strict header with type Reply, the name and the number of the call
    let mut header: Vec<u8> = vec![0x80, 0x01, 0x00, 0x02, 0, 0, 0, 7];
    header.extend_from_slice(b"GetUser");
    header.extend_from_slice(&[0, 0, 0, 2]);
    assert_eq!(&sent[4..4 + header.len()], &header[..]);
    assert_eq!(u32::from_be_bytes([sent[0], sent[1], sent[2], sent[3]]) as usize, sent.len() - 4);
    // the body is the success variant: field id 1, a struct
    assert_eq!(&sent[4 + header.len()..4 + header.len() + 3], &[0x0C, 0x00, 0x01]);

    let (cx, resp) = answer.unwrap();
    assert_eq!(cx.identifier.message_type, TMessageType::Reply);
    assert_eq!(cx.identifier.sequence_number, 2);
    let expected = GetUserResponse {
        users: vec![User { user_id: 1, user_name: "A".to_string(), is_male: true, extra: None }],
    };
    assert_eq!(
        resp.unwrap(),
        AnonymousItemServiceResponse::GetUser(AnonymousItemServiceGetUserResult::Success(expected))
    );

    // the next call has the next number, and so has its answer
    let (_, answer) = serve(&mut client, 5);
    assert_eq!(answer.unwrap().0.identifier.sequence_number, 3);
}

#[test]
fn handler_failure_is_answered_with_an_exception() {
    let mut client = transport();
    let (sent, answer) = serve(&mut client, -1);
    let mut expected: Vec<u8> = vec![0x80, 0x01, 0x00, 0x03, 0, 0, 0, 7];
    expected.extend_from_slice(b"GetUser");
    expected.extend_from_slice(&[0, 0, 0, 2]);
    expected.extend_from_slice(&[0x0B, 0x00, 0x01, 0, 0, 0, 4]);
    expected.extend_from_slice(b"boom");
    expected.extend_from_slice(&[0x08, 0x00, 0x02, 0, 0, 0, 6, 0x00]);
    assert_eq!(&sent[4..], &expected[..]);

    let (cx, resp) = answer.unwrap();
    assert_eq!(cx.identifier.message_type, TMessageType::Exception);
    let app = resp.unwrap_err();
    assert_eq!(app, ApplicationError::new(ApplicationErrorKind::InternalError, "boom"));
    match call_outcome(Some((cx, Err::<AnonymousItemServiceResponse, _>(app.clone())))) {
        Err(Error::Application(e)) => assert_eq!(e, app),
        other => panic!("expected the application error, got {:?}", other),
    }
}

#[test]
fn adapter_rejects_what_is_no_request() {
    let mut server = ItemServiceServer::new(Svc);
    let app = ApplicationError::new(ApplicationErrorKind::Unknown, "x");
    match server.call((context("GetUser", TMessageType::Call, 1), Err(app))) {
        Err(Error::Application(e)) => {
            assert_eq!(e.kind, ApplicationErrorKind::Unknown);
            assert_eq!(e.message, "unexpected client error");
        }
        other => panic!("expected a rejection, got {:?}", other),
    }
}

#[test]
fn service_failure_on_a_call_is_reported() {
    let failure = Error::Protocol(mini_lust::errors::ProtocolError::new(
        ProtocolErrorKind::InvalidData,
        "bad".to_string(),
    ));
    let request = MsgContext {
        identifier: TMessageIdentifier {
            name: "GetUser".to_string(),
            message_type: TMessageType::Call,
            sequence_number: 9,
        },
        target: Some(target()),
    };
    match Server::<(), (), (), i32>::after_call(request.clone(), Err(failure)) {
        Step::Send(cx, Err(app)) => {
            assert_eq!(cx.identifier.name, "GetUser");
            assert_eq!(cx.identifier.sequence_number, 9);
            assert_eq!(cx.identifier.message_type, TMessageType::Exception);
            assert_eq!(cx.target, request.target);
            assert_eq!(app.kind, ApplicationErrorKind::Unknown);
            assert_eq!(app.message, "bad");
        }
        _ => panic!("a failed call is answered with an exception"),
    }
}

#[test]
fn oneway_request_is_never_answered() {
    let oneway = context("Ping", TMessageType::OneWay, 4);
    // the handler succeeded: the adapter of a one-way method hands out nothing
    assert!(matches!(
        Server::<(), (), (), i32>::after_call(oneway.clone(), Ok(None)),
        Step::Continue
    ));
    // the service failed: nothing is written either, and the connection
    // goes on with the next request
    let failure = Error::User("lost".to_string());
    assert!(matches!(
        Server::<(), (), (), i32>::after_call(oneway, Err(failure)),
        Step::Continue
    ));
}

#[test]
fn oneway_call_is_one_frame() {
    let mut client = transport();
    let mut codec: ClientCodec = DefaultMakeCodec::new().make_codec();
    let departure = client.call(call_context("Ping", TMessageType::OneWay, &target()));
    let oneway = departure.oneway;
    let mut wire = BytesMut::new();
    codec.encode((departure.cx, Ok(request(1))), &mut wire).unwrap();
    assert!(oneway);
    let declared = u32::from_be_bytes([wire[0], wire[1], wire[2], wire[3]]) as usize;
    assert_eq!(declared + 4, wire.len());
    assert_eq!(&wire[4..8], &[0x80, 0x01, 0x00, 0x04]);
}

#[test]
fn answer_context_keeps_the_call() {
    let cx = context("M", TMessageType::Call, 12);
    let reply = answer_context(cx.clone(), true);
    assert_eq!(reply.identifier.message_type, TMessageType::Reply);
    assert_eq!(reply.identifier.name, "M");
    assert_eq!(reply.identifier.sequence_number, 12);
    assert_eq!(answer_context(cx, false).identifier.message_type, TMessageType::Exception);
}

#[test]
fn request_arrives_as_its_method() {
    let mut out = mini_lust::binary::TBinaryOutputProtocol::new(BytesMut::new(), true);
    request(3).encode(&MsgContext::default(), &mut out).unwrap();
    let bytes = out.into_inner();

    let mut cx = context("GetUser", TMessageType::Call, 1);
    let mut input = TBinaryInputProtocol::new(bytes.clone(), true);
    assert_eq!(AnonymousItemServiceRequest::decode(&mut cx, &mut input).unwrap(), request(3));

    // a name that is no method is refused before anything is read
    for name in ["Unknown", "getuser", ""] {
        let mut cx = context(name, TMessageType::Call, 1);
        let mut input = TBinaryInputProtocol::new(bytes.clone(), true);
        match AnonymousItemServiceRequest::decode(&mut cx, &mut input) {
            Err(Error::Application(e)) => {
                assert_eq!(e.kind, ApplicationErrorKind::UnknownMethod);
                assert_eq!(e.message, format!("unknown method {}", name));
            }
            other => panic!("expected an unknown method, got {:?}", other),
        }
        assert_eq!(input.into_inner(), bytes);
        let mut input = TBinaryInputProtocol::new(BytesMut::new(), true);
        match AnonymousItemServiceResponse::decode(&mut cx, &mut input) {
            Err(Error::Application(e)) => assert_eq!(e.kind, ApplicationErrorKind::UnknownMethod),
            other => panic!("expected an unknown method, got {:?}", other),
        }
        assert_eq!(input.into_inner().len(), 0);
    }
}

#[test]
fn the_server_sets_the_type_of_what_it_sends() {
    // whatever type the service left in the context
    let cx = context("GetUser", TMessageType::Call, 5);
    match Server::<(), (), (), i32>::after_call(cx.clone(), Ok(Some((cx.clone(), Ok(1))))) {
        Step::Send(out, Ok(v)) => {
            assert_eq!(v, 1);
            assert_eq!(out.identifier.message_type, TMessageType::Reply);
            assert_eq!(out.identifier.name, "GetUser");
            assert_eq!(out.identifier.sequence_number, 5);
            assert_eq!(out.target, cx.target);
        }
        _ => panic!("a response is sent as a reply"),
    }
    let boom = ApplicationError::new(ApplicationErrorKind::InternalError, "boom");
    match Server::<(), (), (), i32>::after_call(cx.clone(), Ok(Some((cx.clone(), Err(boom))))) {
        Step::Send(out, Err(app)) => {
            assert_eq!(out.identifier.message_type, TMessageType::Exception);
            assert_eq!(out.identifier.sequence_number, 5);
            assert_eq!(app.kind, ApplicationErrorKind::InternalError);
            assert_eq!(app.message, "boom");
        }
        _ => panic!("an application error is sent as an exception"),
    }
}

#[test]
fn client_call_wraps_and_unwraps() {
    let req = GetUserRequest { user_id: 3, user_name: "A".to_string(), is_male: false };
    assert_eq!(mini_lust::demo::get_user_call(req, true), request(3));
    let result = AnonymousItemServiceGetUserResult::Success(GetUserResponse { users: vec![] });
    let resp = AnonymousItemServiceResponse::GetUser(result.clone());
    assert_eq!(mini_lust::demo::get_user_result(resp), Ok(result));
}

#[test]
fn builder_keeps_the_target() {
    let builder: ClientBuilder<DefaultMakeCodec<AnonymousItemServiceRequest, AnonymousItemServiceResponse>> =
        ClientBuilder::new(target());
    let (to, make_codec) = builder.into_parts();
    assert_eq!(to, target());
    let _codec: ClientCodec = make_codec.make_codec();
}
