//! The decisions of the server engine: what is written back for each
//! outcome of the service. A connection ends where reading or writing
//! fails, never on account of an outcome of the service.

use vstd::prelude::*;
use vstd::string::*;

use crate::context::MsgContext;
use crate::errors::{ApplicationError, ApplicationErrorKind, ApplicationResult, Error};
use crate::protocol::TMessageType;

verus! {

/// How many requests may wait for the service where nothing else is
/// configured.
pub const DEFAULT_BUFFER: usize = 1000;

/// How many requests the service handles at a time where nothing else is
/// configured.
pub const DEFAULT_CONCURRENCY_LIMIT: usize = 1000;

/// Why the server stopped.
#[derive(Debug)]
pub enum ServerError {
    /// The listener failed; the text is that of the I/O error.
    IO(String),
}

/// The accepted connections of a listener, each to be framed with a codec
/// from the maker.
pub struct Incoming<LS, MC> {
    listener_stream: LS,
    make_codec: MC,
}

impl<LS, MC> Incoming<LS, MC> {
    /// The connections of `listener_stream`, framed by `make_codec`.
    pub fn new(listener_stream: LS, make_codec: MC) -> (r: Self)
        ensures
            r.listener() == listener_stream,
            r.codec_maker() == make_codec,
    {
        Self { listener_stream, make_codec }
    }

    /// The stream of accepted connections.
    pub closed spec fn listener(self) -> LS {
        self.listener_stream
    }

    /// The maker of codecs.
    pub closed spec fn codec_maker(self) -> MC {
        self.make_codec
    }

    /// Gives the two parts back.
    pub fn into_parts(self) -> (r: (LS, MC))
        ensures
            r.0 == self.listener(),
            r.1 == self.codec_maker(),
    {
        (self.listener_stream, self.make_codec)
    }
}

/// What the loop of a connection does after the service has handled a
/// request.
pub enum Step<Resp> {
    /// Write this message back and go on with the next request.
    Send(MsgContext, ApplicationResult<Resp>),
    /// Write nothing and go on with the next request.
    Continue,
}

/// A server: a service and the limits under which it runs.
pub struct Server<S, Addr, Req, Resp> {
    concurrency_limit: Option<usize>,
    buffer: Option<usize>,
    inner: S,
    _marker: std::marker::PhantomData<(Addr, Req, Resp)>,
}

impl<S, Addr, Req, Resp> Server<S, Addr, Req, Resp> {
    /// A server around `inner` with the default limits.
    pub fn new(inner: S) -> (r: Self)
        ensures
            r.service() == inner,
            r.buffer_limit() == DEFAULT_BUFFER,
            r.concurrency() == DEFAULT_CONCURRENCY_LIMIT,
    {
        Self { concurrency_limit: None, buffer: None, inner, _marker: std::marker::PhantomData }
    }

    /// The service.
    pub closed spec fn service(self) -> S {
        self.inner
    }

    /// How many requests may wait for the service.
    pub closed spec fn buffer_limit(self) -> usize {
        match self.buffer {
            Some(n) => n,
            None => DEFAULT_BUFFER,
        }
    }

    /// How many requests the service handles at a time.
    pub closed spec fn concurrency(self) -> usize {
        match self.concurrency_limit {
            Some(n) => n,
            None => DEFAULT_CONCURRENCY_LIMIT,
        }
    }

    /// How many requests may wait for the service.
    pub fn buffer_size(&self) -> (r: usize)
        ensures
            r == self.buffer_limit(),
    {
        match self.buffer {
            Some(n) => n,
            None => DEFAULT_BUFFER,
        }
    }

    /// How many requests the service handles at a time.
    pub fn concurrency_limit(&self) -> (r: usize)
        ensures
            r == self.concurrency(),
    {
        match self.concurrency_limit {
            Some(n) => n,
            None => DEFAULT_CONCURRENCY_LIMIT,
        }
    }

    /// Gives the service back.
    pub fn into_inner(self) -> (r: S)
        ensures
            r == self.service(),
    {
        self.inner
    }

    /// What follows the service's answer to a request that came with the
    /// context `request`.
    ///
    /// A response that the service hands out is written back as a reply,
    /// and an application error as an exception, under the context that
    /// came with it. No answer means none is written. Where the
    /// service itself failed, a one-way request is answered with nothing:
    /// the failure is suppressed, and the connection goes on with the next
    /// request. Any other request is answered with an exception of kind
    /// `Unknown` that carries the text of the failure, under the name and
    /// the sequence number of the request. The connection ends only where
    /// reading or writing fails, which is not decided here.
    pub fn after_call(
        request: MsgContext,
        outcome: Result<Option<(MsgContext, ApplicationResult<Resp>)>, Error>,
    ) -> (step: Step<Resp>)
        ensures
            match outcome {
                Ok(Some((cx, resp))) => step matches Step::Send(out, sent) && sent == resp
                    && out.identifier.name == cx.identifier.name
                    && out.identifier.sequence_number == cx.identifier.sequence_number
                    && out.target == cx.target && out.identifier.message_type == (if resp is Ok {
                    TMessageType::Reply
                } else {
                    TMessageType::Exception
                }),
                Ok(None) => step == Step::<Resp>::Continue,
                Err(e) => if request.identifier.message_type == TMessageType::OneWay {
                    step == Step::<Resp>::Continue
                } else {
                    step matches Step::Send(cx, Err(app)) && cx.identifier.name
                        == request.identifier.name && cx.identifier.sequence_number
                        == request.identifier.sequence_number && cx.identifier.message_type
                        == TMessageType::Exception && cx.target == request.target && app.kind
                        == ApplicationErrorKind::Unknown && app.message@ == e.text()
                },
            },
    {
        match outcome {
            Ok(Some((cx, resp))) => {
                let succeeded = resp.is_ok();
                Step::Send(answer_context(cx, succeeded), resp)
            },
            Ok(None) => {
                // oneway does not need response
                Step::Continue
            },
            Err(e) => {
                // the failure of a one-way request is suppressed
                if request.identifier.message_type == TMessageType::OneWay {
                    return Step::Continue;
                }
                // if not oneway, we must send the exception back

                let mut cx = request;
                cx.identifier.message_type = TMessageType::Exception;
                let text = e.to_string();
                let app_error = ApplicationError::new(ApplicationErrorKind::Unknown, text.as_str());
                Step::Send(cx, Err(app_error))
            },
        }
    }
}

/// The context under which the adapter of a service answers a request:
/// that of the request, as a reply where the handler succeeded and as an
/// exception where it failed.
pub fn answer_context(cx: MsgContext, succeeded: bool) -> (out: MsgContext)
    ensures
        out.identifier.name == cx.identifier.name,
        out.identifier.sequence_number == cx.identifier.sequence_number,
        out.target == cx.target,
        out.identifier.message_type == (if succeeded {
            TMessageType::Reply
        } else {
            TMessageType::Exception
        }),
{
    let mut cx = cx;
    if succeeded {
        cx.identifier.message_type = TMessageType::Reply;
    } else {
        cx.identifier.message_type = TMessageType::Exception;
    }
    cx
}

} // verus!
