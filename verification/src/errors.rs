//! Failures: those of the local codec and framing layers, and those that
//! travel to the peer as a Thrift exception.

use vstd::prelude::*;
use vstd::string::*;

verus! {

/// Why the codec or the framing layer gave up. Never sent to the peer.
#[derive(Clone, Copy, Debug, PartialEq, Eq, Structural)]
pub enum ProtocolErrorKind {
    Unknown,
    InvalidData,
    NegativeSize,
    SizeLimit,
    BadVersion,
    NotImplemented,
    DepthLimit,
}

/// A failure of the codec or framing layer.
#[derive(Clone, Debug, PartialEq, Eq)]
pub struct ProtocolError {
    pub kind: ProtocolErrorKind,
    pub message: String,
}

impl ProtocolError {
    pub fn new(kind: ProtocolErrorKind, message: String) -> (r: Self)
        ensures
            r.kind == kind,
            r.message == message,
    {
        ProtocolError { kind, message }
    }
}

/// Why a connection could not be used.
#[derive(Clone, Copy, Debug, PartialEq, Eq, Structural)]
pub enum TransportErrorKind {
    Unknown,
    NotOpen,
    AlreadyOpen,
    TimedOut,
    EndOfFile,
    NegativeSize,
    SizeLimit,
}

/// A failure of the byte stream underneath.
#[derive(Clone, Debug, PartialEq, Eq)]
pub struct TransportError {
    pub kind: TransportErrorKind,
    pub message: String,
}

impl TransportError {
    pub fn new(kind: TransportErrorKind, message: String) -> (r: Self)
        ensures
            r.kind == kind,
            r.message == message,
    {
        TransportError { kind, message }
    }
}

/// Why a call failed at the application level. The numbers are those of
/// Apache Thrift and travel on the wire.
#[derive(Clone, Copy, Debug, PartialEq, Eq, Structural)]
pub enum ApplicationErrorKind {
    Unknown,
    UnknownMethod,
    InvalidMessageType,
    WrongMethodName,
    BadSequenceId,
    MissingResult,
    InternalError,
    ProtocolError,
    InvalidTransform,
    InvalidProtocol,
    UnsupportedClientType,
}

/// The wire number of an application error kind.
pub open spec fn application_kind_number(k: ApplicationErrorKind) -> i32 {
    match k {
        ApplicationErrorKind::Unknown => 0,
        ApplicationErrorKind::UnknownMethod => 1,
        ApplicationErrorKind::InvalidMessageType => 2,
        ApplicationErrorKind::WrongMethodName => 3,
        ApplicationErrorKind::BadSequenceId => 4,
        ApplicationErrorKind::MissingResult => 5,
        ApplicationErrorKind::InternalError => 6,
        ApplicationErrorKind::ProtocolError => 7,
        ApplicationErrorKind::InvalidTransform => 8,
        ApplicationErrorKind::InvalidProtocol => 9,
        ApplicationErrorKind::UnsupportedClientType => 10,
    }
}

/// The application error kind that a wire number stands for, if any.
pub open spec fn application_kind_of_number(n: i32) -> Option<ApplicationErrorKind> {
    if n == 0 {
        Some(ApplicationErrorKind::Unknown)
    } else if n == 1 {
        Some(ApplicationErrorKind::UnknownMethod)
    } else if n == 2 {
        Some(ApplicationErrorKind::InvalidMessageType)
    } else if n == 3 {
        Some(ApplicationErrorKind::WrongMethodName)
    } else if n == 4 {
        Some(ApplicationErrorKind::BadSequenceId)
    } else if n == 5 {
        Some(ApplicationErrorKind::MissingResult)
    } else if n == 6 {
        Some(ApplicationErrorKind::InternalError)
    } else if n == 7 {
        Some(ApplicationErrorKind::ProtocolError)
    } else if n == 8 {
        Some(ApplicationErrorKind::InvalidTransform)
    } else if n == 9 {
        Some(ApplicationErrorKind::InvalidProtocol)
    } else if n == 10 {
        Some(ApplicationErrorKind::UnsupportedClientType)
    } else {
        None
    }
}

/// Every kind is recovered from its own number.
pub proof fn lemma_application_kind_roundtrip(k: ApplicationErrorKind)
    ensures
        application_kind_of_number(application_kind_number(k)) == Some(k),
{
}

impl ApplicationErrorKind {
    /// The wire number of this kind.
    pub fn to_i32(self) -> (n: i32)
        ensures
            n == application_kind_number(self),
    {
        match self {
            ApplicationErrorKind::Unknown => 0,
            ApplicationErrorKind::UnknownMethod => 1,
            ApplicationErrorKind::InvalidMessageType => 2,
            ApplicationErrorKind::WrongMethodName => 3,
            ApplicationErrorKind::BadSequenceId => 4,
            ApplicationErrorKind::MissingResult => 5,
            ApplicationErrorKind::InternalError => 6,
            ApplicationErrorKind::ProtocolError => 7,
            ApplicationErrorKind::InvalidTransform => 8,
            ApplicationErrorKind::InvalidProtocol => 9,
            ApplicationErrorKind::UnsupportedClientType => 10,
        }
    }

    /// Decodes a wire number; a number that names no kind is answered with
    /// an application error of kind `Unknown`.
    pub fn try_from_i32(n: i32) -> (r: Result<ApplicationErrorKind, Error>)
        ensures
            match application_kind_of_number(n) {
                Some(k) => r == Ok::<ApplicationErrorKind, Error>(k),
                None => r is Err && r->Err_0.fault() == bad_application_kind(),
            },
    {
        if n == 0 {
            Ok(ApplicationErrorKind::Unknown)
        } else if n == 1 {
            Ok(ApplicationErrorKind::UnknownMethod)
        } else if n == 2 {
            Ok(ApplicationErrorKind::InvalidMessageType)
        } else if n == 3 {
            Ok(ApplicationErrorKind::WrongMethodName)
        } else if n == 4 {
            Ok(ApplicationErrorKind::BadSequenceId)
        } else if n == 5 {
            Ok(ApplicationErrorKind::MissingResult)
        } else if n == 6 {
            Ok(ApplicationErrorKind::InternalError)
        } else if n == 7 {
            Ok(ApplicationErrorKind::ProtocolError)
        } else if n == 8 {
            Ok(ApplicationErrorKind::InvalidTransform)
        } else if n == 9 {
            Ok(ApplicationErrorKind::InvalidProtocol)
        } else if n == 10 {
            Ok(ApplicationErrorKind::UnsupportedClientType)
        } else {
            Err(
                new_application_error(
                    ApplicationErrorKind::Unknown,
                    "cannot convert number to ApplicationErrorKind",
                ),
            )
        }
    }
}

/// A failure that is reported to the peer.
#[derive(Debug, PartialEq, Eq)]
pub struct ApplicationError {
    pub kind: ApplicationErrorKind,
    pub message: String,
}

impl ApplicationError {
    pub fn new(kind: ApplicationErrorKind, message: &str) -> (r: Self)
        ensures
            r.kind == kind,
            r.message@ == message@,
    {
        ApplicationError { kind, message: String::from_str(message) }
    }
}

impl Clone for ApplicationError {
    fn clone(&self) -> (r: Self)
        ensures
            r == *self,
    {
        ApplicationError { kind: self.kind, message: self.message.clone() }
    }
}

impl Default for ApplicationError {
    fn default() -> (r: Self)
        ensures
            r.kind == ApplicationErrorKind::Unknown,
            r.message@ == Seq::<char>::empty(),
    {
        ApplicationError { kind: ApplicationErrorKind::Unknown, message: String::new() }
    }
}

/// Any failure of a call.
#[derive(Clone, Debug, PartialEq, Eq)]
pub enum Error {
    Transport(TransportError),
    Protocol(ProtocolError),
    Application(ApplicationError),
    User(String),
}

/// The fault of a number that names no kind of application error.
pub open spec fn bad_application_kind() -> Fault {
    Fault::Application(
        ApplicationErrorKind::Unknown,
        "cannot convert number to ApplicationErrorKind"@,
    )
}

/// A failure as mathematics: its kind and its text.
pub enum Fault {
    Transport(TransportErrorKind, Seq<char>),
    Protocol(ProtocolErrorKind, Seq<char>),
    Application(ApplicationErrorKind, Seq<char>),
    User(Seq<char>),
}

impl Error {
    /// This failure as mathematics.
    pub open spec fn fault(self) -> Fault {
        match self {
            Error::Transport(e) => Fault::Transport(e.kind, e.message@),
            Error::Protocol(e) => Fault::Protocol(e.kind, e.message@),
            Error::Application(e) => Fault::Application(e.kind, e.message@),
            Error::User(s) => Fault::User(s@),
        }
    }

    /// The text of the failure, as it is reported to a peer or a log.
    pub open spec fn text(self) -> Seq<char> {
        match self {
            Error::Transport(e) => e.message@,
            Error::Protocol(e) => e.message@,
            Error::Application(e) => e.message@,
            Error::User(s) => s@,
        }
    }

    /// The text of the failure.
    pub fn to_string(&self) -> (s: String)
        ensures
            s@ == self.text(),
    {
        match self {
            Error::Transport(e) => e.message.clone(),
            Error::Protocol(e) => e.message.clone(),
            Error::Application(e) => e.message.clone(),
            Error::User(s) => s.clone(),
        }
    }

    /// Wraps an application error.
    pub fn from_application(e: ApplicationError) -> (r: Self)
        ensures
            r == Error::Application(e),
    {
        Error::Application(e)
    }
}

/// The result of a handler: a value or a failure to report to the peer.
pub type ApplicationResult<T> = Result<T, ApplicationError>;

/// A protocol error with the given kind and text.
pub fn new_protocol_error(kind: ProtocolErrorKind, message: &str) -> (e: Error)
    ensures
        e is Protocol,
        e->Protocol_0.kind == kind,
        e->Protocol_0.message@ == message@,
{
    Error::Protocol(ProtocolError { kind, message: String::from_str(message) })
}

/// An application error with the given kind and text.
pub fn new_application_error(kind: ApplicationErrorKind, message: &str) -> (e: Error)
    ensures
        e is Application,
        e->Application_0.kind == kind,
        e->Application_0.message@ == message@,
{
    Error::Application(ApplicationError { kind, message: String::from_str(message) })
}

} // verus!
