use mini_lust::errors::{
    new_application_error, new_protocol_error, ApplicationError, ApplicationErrorKind, Error,
    ProtocolError, ProtocolErrorKind, TransportError, TransportErrorKind,
};

#[test]
fn application_kinds_are_those_of_thrift() {
    let kinds = [
        (ApplicationErrorKind::Unknown, 0),
        (ApplicationErrorKind::UnknownMethod, 1),
        (ApplicationErrorKind::InvalidMessageType, 2),
        (ApplicationErrorKind::WrongMethodName, 3),
        (ApplicationErrorKind::BadSequenceId, 4),
        (ApplicationErrorKind::MissingResult, 5),
        (ApplicationErrorKind::InternalError, 6),
        (ApplicationErrorKind::ProtocolError, 7),
        (ApplicationErrorKind::InvalidTransform, 8),
        (ApplicationErrorKind::InvalidProtocol, 9),
        (ApplicationErrorKind::UnsupportedClientType, 10),
    ];
    for (k, n) in kinds {
        assert_eq!(k.to_i32(), n);
        assert_eq!(ApplicationErrorKind::try_from_i32(n).unwrap(), k);
    }
    for n in [-1, 11, i32::MAX] {
        match ApplicationErrorKind::try_from_i32(n) {
            Err(Error::Application(e)) => assert_eq!(e.kind, ApplicationErrorKind::Unknown),
            other => panic!("expected an application error, got {:?}", other),
        }
    }
}

#[test]
fn errors_carry_their_text() {
    let e = new_protocol_error(ProtocolErrorKind::SizeLimit, "too large");
    assert_eq!(
        e,
        Error::Protocol(ProtocolError::new(ProtocolErrorKind::SizeLimit, "too large".to_string()))
    );
    assert_eq!(e.to_string(), "too large");
    let e = new_application_error(ApplicationErrorKind::WrongMethodName, "who");
    assert_eq!(
        e,
        Error::Application(ApplicationError::new(ApplicationErrorKind::WrongMethodName, "who"))
    );
    assert_eq!(e.to_string(), "who");
    let e = Error::Transport(TransportError::new(TransportErrorKind::NotOpen, "closed".to_string()));
    assert_eq!(e.to_string(), "closed");
    assert_eq!(Error::User("mine".to_string()).to_string(), "mine");
    let app = ApplicationError::new(ApplicationErrorKind::InternalError, "boom");
    assert_eq!(Error::from_application(app.clone()), Error::Application(app));
    let d = ApplicationError::default();
    assert_eq!(d.kind, ApplicationErrorKind::Unknown);
    assert_eq!(d.message, "");
}
