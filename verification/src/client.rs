//! The decisions of the client engine: the context of each call, its
//! sequence number, and whether an answer is awaited.

use vstd::prelude::*;
use vstd::string::*;

use crate::codec::DefaultMakeCodec;
use crate::connection::SocketOrUnix;
use crate::context::MsgContext;
use crate::errors::{ApplicationResult, Error};
use crate::protocol::{TMessageIdentifier, TMessageType};
use crate::transport::FramedMakeTransport;

verus! {

/// How many requests may wait in the client's queue: the largest `usize`
/// divided by eight.
pub const DEFAULT_BUFFER: usize = usize::MAX >> 3;

/// The sequence number that a client starts from; the first call goes
/// out with the next one.
pub const INITIAL_SEQUENCE: i32 = 1;

/// Configures a client: where it calls, and how its codecs are made.
pub struct ClientBuilder<MCC> {
    target: SocketOrUnix,
    make_codec: MCC,
}

impl<MCC> ClientBuilder<MCC> {
    /// A builder for calls to `target` with the given maker of codecs.
    pub fn with_codec(target: SocketOrUnix, make_codec: MCC) -> (r: Self)
        ensures
            r.target() == target,
            r.codec_maker() == make_codec,
    {
        Self { target, make_codec }
    }

    /// Where the client will call.
    pub closed spec fn target(self) -> SocketOrUnix {
        self.target
    }

    /// How the client's codecs will be made.
    pub closed spec fn codec_maker(self) -> MCC {
        self.make_codec
    }

    /// Replaces the maker of codecs.
    pub fn make_codec(self, make_codec: MCC) -> (r: Self)
        ensures
            r.target() == self.target(),
            r.codec_maker() == make_codec,
    {
        Self { target: self.target, make_codec }
    }

    /// Gives the target and the maker of codecs, from which the client is
    /// put together.
    pub fn into_parts(self) -> (r: (SocketOrUnix, MCC))
        ensures
            r.0 == self.target(),
            r.1 == self.codec_maker(),
    {
        (self.target, self.make_codec)
    }
}

impl<E, D> ClientBuilder<DefaultMakeCodec<E, D>> {
    /// A builder for calls to `target` with the default maker of codecs.
    pub fn new(target: SocketOrUnix) -> (r: Self)
        ensures
            r.target() == target,
    {
        Self { target, make_codec: DefaultMakeCodec::new() }
    }
}

/// The context that a call to `method` starts with: the given message
/// type, no sequence number yet, and the target to reach.
pub fn call_context(method: &str, message_type: TMessageType, target: &SocketOrUnix) -> (cx:
    MsgContext)
    ensures
        cx.identifier.name@ == method@,
        cx.identifier.message_type == message_type,
        cx.identifier.sequence_number == 0,
        cx.target == Some(*target),
{
    MsgContext {
        identifier: TMessageIdentifier {
            name: String::from_str(method),
            message_type,
            sequence_number: 0,
        },
        target: Some(target.clone()),
    }
}

/// What a call hands out of the answer it got: the response, or the
/// failure that the server reported. A call always gets an answer.
pub fn call_outcome<Resp>(resp: Option<(MsgContext, ApplicationResult<Resp>)>) -> (r: Result<
    Resp,
    Error,
>)
    requires
        resp is Some,
    ensures
        match resp->Some_0.1 {
            Ok(v) => r == Ok::<Resp, Error>(v),
            Err(e) => r == Err::<Resp, Error>(Error::Application(e)),
        },
{
    match resp.unwrap().1 {
        Ok(v) => Ok(v),
        Err(e) => Err(Error::from_application(e)),
    }
}

/// What leaves for the wire on one call: the context with its sequence
/// number, the target, and whether no answer is awaited.
pub struct Departure {
    pub cx: MsgContext,
    pub target: SocketOrUnix,
    pub oneway: bool,
}

/// The part of the client that talks to the transport. It numbers the
/// calls: each call takes the next sequence number.
pub struct TransportClient<MCN, MCC> {
    make_transport: FramedMakeTransport<MCC, MCN>,
    seq_id: i32,
}

impl<MCN, MCC> TransportClient<MCN, MCC> {
    /// A transport client that has made no call yet.
    pub fn new(make_connection: MCN, make_codec: MCC) -> (r: Self)
        ensures
            r.sequence() == INITIAL_SEQUENCE,
            r.calls() == 0,
            r.transport().connection_maker() == make_connection,
            r.transport().codec_maker() == make_codec,
    {
        Self { make_transport: FramedMakeTransport::new(make_connection, make_codec), seq_id: 1 }
    }

    /// The sequence number of the last call, or the initial one.
    pub closed spec fn sequence(self) -> i32 {
        self.seq_id
    }

    /// How many calls the client has made.
    pub open spec fn calls(self) -> int {
        self.sequence() - INITIAL_SEQUENCE
    }

    /// The maker of transports.
    pub closed spec fn transport(self) -> FramedMakeTransport<MCC, MCN> {
        self.make_transport
    }

    /// The maker of transports.
    pub fn make_transport(&self) -> (r: &FramedMakeTransport<MCC, MCN>)
        ensures
            *r == self.transport(),
    {
        &self.make_transport
    }

    /// The sequence number of the last call, or the initial one.
    pub fn last_sequence(&self) -> (r: i32)
        ensures
            r == self.sequence(),
    {
        self.seq_id
    }

    /// Whether the sequence numbers are used up.
    pub fn exhausted(&self) -> (r: bool)
        ensures
            r == (self.sequence() == i32::MAX),
    {
        self.seq_id == i32::MAX
    }

    /// What one call does before anything is sent: it takes the next
    /// sequence number, whatever number the context came with, and puts
    /// it into the context. The message that leaves is this context with
    /// the request; it goes to the target, and an answer is read unless
    /// the call is one-way. The number is taken at this moment, whether or
    /// not connecting and sending succeed afterwards. The context must
    /// name its target, and a sequence number must be left.
    pub fn call(&mut self, cx: MsgContext) -> (r: Departure)
        requires
            cx.target is Some,
            old(self).sequence() < i32::MAX,
        ensures
            final(self).sequence() == old(self).sequence() + 1,
            final(self).calls() == old(self).calls() + 1,
            final(self).transport() == old(self).transport(),
            r.cx.identifier.sequence_number == final(self).sequence(),
            r.cx.identifier.sequence_number == nth_sequence(final(self).calls()),
            r.cx.identifier.name == cx.identifier.name,
            r.cx.identifier.message_type == cx.identifier.message_type,
            r.cx.target == cx.target,
            r.target == cx.target->Some_0,
            r.oneway == (cx.identifier.message_type == TMessageType::OneWay),
    {
        let mut cx = cx;
        let target = match &cx.target {
            Some(t) => t.clone(),
            None => vstd::pervasive::unreached(),
        };
        self.seq_id += 1;
        cx.identifier.sequence_number = self.seq_id;
        let oneway = cx.identifier.message_type == TMessageType::OneWay;
        Departure { cx, target, oneway }
    }

    /// Whether the client reads an answer after it has sent the message:
    /// it does, unless the call is one-way.
    pub fn awaits_reply(departure: &Departure) -> (r: bool)
        ensures
            r == !departure.oneway,
    {
        !departure.oneway
    }
}

/// The sequence number that the `n`-th call of a client takes, counting
/// from 1.
pub open spec fn nth_sequence(n: int) -> int {
    INITIAL_SEQUENCE + n
}

/// The sequence numbers of the calls of a client increase strictly: the
/// `k`-th call carries `k + 1`, so an earlier call has the smaller
/// number, and the first call has number 2.
pub proof fn lemma_sequence_monotonic(earlier: int, later: int)
    requires
        1 <= earlier < later,
    ensures
        nth_sequence(earlier) == earlier + 1,
        nth_sequence(later) == later + 1,
        nth_sequence(earlier) < nth_sequence(later),
        nth_sequence(1) == 2,
{
}

} // verus!
