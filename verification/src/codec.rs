//! Messages and frames: a message is a header and a payload; a frame is a
//! message behind its length.

use std::marker::PhantomData;
use vstd::prelude::*;
use vstd::string::*;
use vstd::utf8::*;

use crate::binary::{fits_i32, TBinaryInputProtocol, TBinaryOutputProtocol};
use crate::buffer::{
    buf_byte_at, buf_len, buf_new, buf_put_u32, buf_reserve, buf_set_u32, buf_split_to, buffered,
};
use crate::context::{Header, MsgContext};
use crate::errors::{new_protocol_error, ApplicationError, Error, Fault, ProtocolErrorKind};
use crate::message::{ApplicationErrorModel, Message};
use crate::protocol::TMessageType;
use crate::text::{decimal_text, unsigned_decimal};
use crate::wire::{
    be_bytes, be_unsigned, lemma_be_bytes_len, lemma_be_unsigned_roundtrip,
    lemma_message_begin_roundtrip, lemma_pow256_values, parse_message_begin, wire_message_begin,
    Parsed,
};

verus! {

/// No frame may carry more than 16 MiB.
pub const MAX_MESSAGE_SIZE: usize = 16 * 1024 * 1024;

// ---------------------------------------------------------------------
// Frames
// ---------------------------------------------------------------------
/// A frame: the length of the body as a big-endian unsigned 32-bit
/// integer, then the body.
pub open spec fn wire_frame(body: Seq<u8>) -> Seq<u8> {
    be_bytes(body.len() as int, 4) + body
}

/// What the reader of frames finds at the front of a byte stream.
pub enum FrameParse {
    /// The length prefix or the body has not arrived in full.
    NeedMore,
    /// The declared length exceeds the limit.
    TooLarge,
    /// A whole frame: its body, and the bytes behind it.
    Frame(Seq<u8>, Seq<u8>),
}

/// The length that the first four bytes declare.
pub open spec fn declared_length(input: Seq<u8>) -> int
    recommends
        input.len() >= 4,
{
    be_unsigned(input.subrange(0, 4))
}

/// What the reader of frames finds at the front of `input`. The limit is
/// checked as soon as the length prefix is there.
pub open spec fn parse_frame(input: Seq<u8>) -> FrameParse {
    if input.len() < 4 {
        FrameParse::NeedMore
    } else if declared_length(input) > MAX_MESSAGE_SIZE {
        FrameParse::TooLarge
    } else if input.len() < 4 + declared_length(input) {
        FrameParse::NeedMore
    } else {
        FrameParse::Frame(
            input.subrange(4, 4 + declared_length(input)),
            input.skip(4 + declared_length(input)),
        )
    }
}

/// A body within the limit is recovered from its frame, and what follows
/// the frame is left as it is.
pub proof fn lemma_frame_roundtrip(body: Seq<u8>, rest: Seq<u8>)
    requires
        body.len() <= MAX_MESSAGE_SIZE,
    ensures
        parse_frame(wire_frame(body) + rest) == FrameParse::Frame(body, rest),
{
    let n = body.len() as int;
    let input = wire_frame(body) + rest;
    lemma_pow256_values();
    lemma_be_unsigned_roundtrip(n, 4);
    assert(input.subrange(0, 4) =~= be_bytes(n, 4));
    assert(input.subrange(4, 4 + n) =~= body);
    assert(input.skip(4 + n) =~= rest);
}

/// A declared length above the limit is refused whatever follows it.
pub proof fn lemma_frame_limit(prefix: Seq<u8>, rest: Seq<u8>)
    requires
        prefix.len() == 4,
        be_unsigned(prefix) > MAX_MESSAGE_SIZE,
    ensures
        parse_frame(prefix + rest) == FrameParse::TooLarge,
{
    assert((prefix + rest).subrange(0, 4) =~= prefix);
}

/// Two frames in a row are read as the first body and then the second,
/// with nothing left over but what followed them.
pub proof fn lemma_two_frames(first: Seq<u8>, second: Seq<u8>, rest: Seq<u8>)
    requires
        first.len() <= MAX_MESSAGE_SIZE,
        second.len() <= MAX_MESSAGE_SIZE,
    ensures
        parse_frame(wire_frame(first) + wire_frame(second) + rest) == FrameParse::Frame(
            first,
            wire_frame(second) + rest,
        ),
        parse_frame(wire_frame(second) + rest) == FrameParse::Frame(second, rest),
{
    assert(wire_frame(first) + wire_frame(second) + rest =~= wire_frame(first) + (wire_frame(
        second,
    ) + rest));
    lemma_frame_roundtrip(first, wire_frame(second) + rest);
    lemma_frame_roundtrip(second, rest);
}

/// What is said of a frame above the limit.
pub open spec fn too_large_text(length: int) -> Seq<char> {
    "Frame of length "@ + decimal_text(length) + " is too large."@
}

/// The fault of a frame above the limit.
pub open spec fn oversized_frame(length: int) -> Fault {
    Fault::Protocol(ProtocolErrorKind::SizeLimit, too_large_text(length))
}

/// The fault of an inner decoder that asks for more than a whole body.
pub open spec fn undecodable() -> Fault {
    Fault::Protocol(
        ProtocolErrorKind::InvalidData,
        "unable to decode message which the data size is enough for decoding"@,
    )
}

/// The failure of a frame above the limit.
pub fn too_large(length: usize) -> (e: Error)
    ensures
        e.fault() == oversized_frame(length as int),
{
    let mut message = String::from_str("Frame of length ");
    let number = unsigned_decimal(length as u64);
    message.append(number.as_str());
    message.append(" is too large.");
    new_protocol_error(ProtocolErrorKind::SizeLimit, message.as_str())
}

/// Puts each message behind its length on the way out, and cuts the byte
/// stream into messages on the way in.
pub struct FramedCodec<C>(pub C);

impl<C> FramedCodec<C> {
    /// A framing codec around the codec of the body.
    pub fn new(c: C) -> (r: Self)
        ensures
            r.0 == c,
    {
        FramedCodec(c)
    }

    /// Opens a frame: appends four bytes that will hold the length, and
    /// says where they are.
    pub fn frame_begin(dst: &mut bytes::BytesMut) -> (zero_index: usize)
        ensures
            zero_index == buffered(old(dst)).len(),
            buffered(final(dst)) == buffered(old(dst)) + be_bytes(0, 4),
    {
        let zero_index = buf_len(dst);
        buf_reserve(dst, 4);
        buf_put_u32(dst, 0);
        zero_index
    }

    /// Closes the frame opened at `zero_index`: measures what was written
    /// behind the four bytes and fills them with that length. A body above
    /// the limit is refused, and the buffer is left as it is.
    pub fn frame_end(dst: &mut bytes::BytesMut, zero_index: usize) -> (r: Result<(), Error>)
        requires
            zero_index + 4 <= buffered(old(dst)).len(),
        ensures
            ({
                let before = buffered(old(dst));
                let body = before.skip(zero_index + 4);
                if body.len() > MAX_MESSAGE_SIZE {
                    r is Err && r->Err_0.fault() == oversized_frame(body.len() as int)
                        && buffered(final(dst)) == before
                } else {
                    r is Ok && buffered(final(dst)) == before.subrange(0, zero_index as int)
                        + wire_frame(body)
                }
            }),
    {
        let written = buf_len(dst) - 4 - zero_index;
        if written > MAX_MESSAGE_SIZE {
            return Err(too_large(written));
        }
        buf_set_u32(dst, zero_index, zero_index + 4, written as u32);
        proof {
            let before = buffered(old(dst));
            let body = before.skip(zero_index + 4);
            assert(buffered(dst) =~= before.subrange(0, zero_index as int) + wire_frame(body));
        }
        Ok(())
    }

    /// Takes the body of the frame at the front of `src`, if all of it is
    /// there. Until then, and where the declared length is above the
    /// limit, no byte is consumed.
    pub fn frame_split(src: &mut bytes::BytesMut) -> (r: Result<Option<bytes::BytesMut>, Error>)
        ensures
            match parse_frame(buffered(old(src))) {
                FrameParse::NeedMore => r matches Ok(None) && buffered(final(src)) == buffered(
                    old(src),
                ),
                FrameParse::TooLarge => r is Err && r->Err_0.fault() == oversized_frame(
                    declared_length(buffered(old(src))),
                ) && buffered(final(src)) == buffered(old(src)),
                FrameParse::Frame(body, rest) => r matches Ok(Some(b)) && buffered(&b) == body
                    && buffered(final(src)) == rest,
            },
    {
        let available = buf_len(src);
        if available < 4 {
            // Not enough data to read length marker.
            return Ok(None);
        }
        // Read length marker.

        let b0 = buf_byte_at(src, 0);
        let b1 = buf_byte_at(src, 1);
        let b2 = buf_byte_at(src, 2);
        let b3 = buf_byte_at(src, 3);
        let length: u64 = (b0 as u64) * 0x100_0000 + (b1 as u64) * 0x1_0000 + (b2 as u64) * 0x100
            + (b3 as u64);
        proof {
            lemma_be_unsigned_four(buffered(src).subrange(0, 4));
        }
        // A peer must not make the reader set aside more than the limit.
        if length > MAX_MESSAGE_SIZE as u64 {
            return Err(too_large(length as usize));
        }
        let length = length as usize;
        if available < 4 + length {
            // The full frame has not yet arrived; make room for it.
            buf_reserve(src, 4 + length - available);
            return Ok(None);
        }
        let mut frame = buf_split_to(src, 4 + length);
        let _ = buf_split_to(&mut frame, 4);
        proof {
            let input = buffered(old(src));
            assert(buffered(&frame) =~= input.subrange(4, 4 + length));
        }
        Ok(Some(frame))
    }

    /// What the framing layer makes of the inner decoder's answer on a
    /// whole body: a decoder that asks for more is at fault.
    pub fn frame_decoded<I>(decoded: Option<I>) -> (r: Result<Option<I>, Error>)
        ensures
            match decoded {
                Some(inner) => r == Ok::<Option<I>, Error>(Some(inner)),
                None => r is Err && r->Err_0.fault() == undecodable(),
            },
    {
        match decoded {
            None => Err(
                new_protocol_error(
                    ProtocolErrorKind::InvalidData,
                    "unable to decode message which the data size is enough for decoding",
                ),
            ),
            Some(inner) => Ok(Some(inner)),
        }
    }
}


// ---------------------------------------------------------------------
// Messages
// ---------------------------------------------------------------------
/// What a message carries: a payload, or the failure reported in its
/// place.
pub type Payload<V> = Result<V, ApplicationErrorModel>;

/// The payload of an item as mathematics.
pub open spec fn payload_of<M: Message>(item: Result<M, ApplicationError>) -> Payload<M::V> {
    match item {
        Ok(m) => Ok(m.deep_view()),
        Err(e) => Err(e.deep_view()),
    }
}

/// The header that goes out with a payload: a failure always travels as
/// an exception.
pub open spec fn sent_header<V>(cx: Header, item: Payload<V>) -> Header {
    Header {
        name: cx.name,
        message_type: if item is Err {
            TMessageType::Exception
        } else {
            cx.message_type
        },
        sequence_number: cx.sequence_number,
    }
}

/// Why a message cannot be written; `None` where it can. The name of the
/// method must fit its length prefix, and the payload must be writable.
pub open spec fn message_refusal<M: Message>(cx: Header, item: Payload<M::V>) -> Option<Fault> {
    if !fits_i32(encode_utf8(cx.name).len()) {
        Some(crate::wire::oversize())
    } else {
        match item {
            Ok(m) => M::refusal(m),
            Err(e) => <ApplicationError as Message>::refusal(e),
        }
    }
}

/// The bytes of a message: its header, then the payload or the failure.
pub open spec fn wire_message<M: Message>(strict: bool, cx: Header, item: Payload<M::V>) -> Seq<
    u8,
> {
    let h = sent_header(cx, item);
    wire_message_begin(strict, h.name, h.message_type, h.sequence_number) + match item {
        Ok(m) => M::wire(m),
        Err(e) => <ApplicationError as Message>::wire(e),
    }
}

/// What a reader recovers from a message: the header, and the payload or,
/// where the header announces an exception, the failure.
pub open spec fn parse_message<M: Message>(strict: bool, input: Seq<u8>) -> Parsed<
    (Header, Payload<M::V>),
> {
    match parse_message_begin(strict, input) {
        Err(f) => Err(f),
        Ok(((name, message_type, sequence_number), rest)) => parse_payload::<M>(
            (Header { name, message_type, sequence_number }),
            rest,
        ),
    }
}

/// What a reader recovers behind the header `h`: the payload, or the
/// failure where the header announces an exception.
pub open spec fn parse_payload<M: Message>(h: Header, input: Seq<u8>) -> Parsed<
    (Header, Payload<M::V>),
> {
    if h.message_type == TMessageType::Exception {
        match <ApplicationError as Message>::parse(h, input) {
            Ok((e, rest)) => Ok(((h, Err(e)), rest)),
            Err(f) => Err(f),
        }
    } else {
        match M::parse(h, input) {
            Ok((m, rest)) => Ok(((h, Ok(m)), rest)),
            Err(f) => Err(f),
        }
    }
}

/// A payload that can be written is read back behind its header.
pub proof fn lemma_payload_roundtrip<M: Message>(h: Header, m: M::V, rest: Seq<u8>)
    requires
        M::refusal(m) is None,
        M::admits(h, m),
        h.message_type != TMessageType::Exception,
    ensures
        parse_payload::<M>(h, M::wire(m) + rest) == Ok::<
            ((Header, Payload<M::V>), Seq<u8>),
            Fault,
        >(((h, Ok(m)), rest)),
{
    M::lemma_roundtrip(h, m, rest);
}

/// A failure that can be written is read back behind the header of an
/// exception.
pub proof fn lemma_failure_roundtrip<M: Message>(h: Header, e: ApplicationErrorModel, rest: Seq<u8>)
    requires
        <ApplicationError as Message>::refusal(e) is None,
        h.message_type == TMessageType::Exception,
    ensures
        parse_payload::<M>(h, <ApplicationError as Message>::wire(e) + rest) == Ok::<
            ((Header, Payload<M::V>), Seq<u8>),
            Fault,
        >(((h, Err(e)), rest)),
{
    <ApplicationError as Message>::lemma_roundtrip(h, e, rest);
}

/// Behind a header that was read, a message is its payload.
pub proof fn lemma_message_behind_header<M: Message>(
    strict: bool,
    h: Header,
    input: Seq<u8>,
    tail: Seq<u8>,
)
    requires
        parse_message_begin(strict, input) == Ok::<((Seq<char>, TMessageType, i32), Seq<u8>), Fault>(
            ((h.name, h.message_type, h.sequence_number), tail),
        ),
    ensures
        parse_message::<M>(strict, input) == parse_payload::<M>(h, tail),
{
}

/// The bytes of a message with more behind them: the header, then the
/// payload with the rest.
pub proof fn lemma_message_split<M: Message>(
    strict: bool,
    cx: Header,
    item: Payload<M::V>,
    rest: Seq<u8>,
)
    ensures
        wire_message::<M>(strict, cx, item) + rest == wire_message_begin(
            strict,
            cx.name,
            sent_header(cx, item).message_type,
            cx.sequence_number,
        ) + (match item {
            Ok(m) => M::wire(m),
            Err(e) => <ApplicationError as Message>::wire(e),
        } + rest),
{
    let head = wire_message_begin(
        strict,
        cx.name,
        sent_header(cx, item).message_type,
        cx.sequence_number,
    );
    let body = match item {
        Ok(m) => M::wire(m),
        Err(e) => <ApplicationError as Message>::wire(e),
    };
    assert(head + body + rest =~= head + (body + rest));
}

/// A message that can be written is read back with the header it went
/// out with, whatever follows it. The reader may be lenient where the
/// writer was strict, not the other way round; a payload does not travel
/// under the message type of an exception.
pub proof fn lemma_message_roundtrip<M: Message>(
    strict_writer: bool,
    strict_reader: bool,
    cx: Header,
    item: Payload<M::V>,
    rest: Seq<u8>,
)
    requires
        strict_writer || !strict_reader,
        message_refusal::<M>(cx, item) is None,
        item matches Ok(m) ==> cx.message_type != TMessageType::Exception && M::admits(cx, m),
    ensures
        parse_message::<M>(strict_reader, wire_message::<M>(strict_writer, cx, item) + rest)
            == Ok::<((Header, Payload<M::V>), Seq<u8>), Fault>(((sent_header(cx, item), item), rest)),
{
    let h = sent_header(cx, item);
    let body = match item {
        Ok(m) => M::wire(m),
        Err(e) => <ApplicationError as Message>::wire(e),
    };
    let input = wire_message::<M>(strict_writer, cx, item) + rest;
    lemma_message_split::<M>(strict_writer, cx, item, rest);
    lemma_message_begin_roundtrip(
        strict_writer,
        strict_reader,
        h.name,
        h.message_type,
        h.sequence_number,
        body + rest,
    );
    lemma_message_behind_header::<M>(strict_reader, h, input, body + rest);
    match item {
        Ok(m) => {
            assert(h == cx);
            lemma_payload_roundtrip::<M>(h, m, rest);
        },
        Err(e) => {
            lemma_failure_roundtrip::<M>(h, e, rest);
        },
    }
}

/// Writes and reads whole messages: `E` is what goes out, `D` what comes
/// in.
#[derive(Debug)]
pub struct MessageCodec<E, D> {
    strict: bool,
    _phantom: PhantomData<(E, D)>,
}

impl<E, D> MessageCodec<E, D> {
    /// A codec that writes, and insists on, the version word where
    /// `strict` is set.
    pub fn new(strict: bool) -> (r: Self)
        ensures
            r.is_strict() == strict,
    {
        Self { strict, _phantom: PhantomData }
    }

    /// Whether messages open with the version word.
    pub closed spec fn is_strict(self) -> bool {
        self.strict
    }
}

impl<E: Message, D: Message> MessageCodec<E, D> {
    /// Appends one message to `dst`: the header, then the payload or, for
    /// a failure, the application error under the message type
    /// `Exception`.
    pub fn encode(
        &mut self,
        item: (MsgContext, Result<E, ApplicationError>),
        dst: &mut bytes::BytesMut,
    ) -> (r: Result<(), Error>)
        ensures
            final(self).is_strict() == old(self).is_strict(),
            match message_refusal::<E>(item.0.header(), payload_of(item.1)) {
                None => r is Ok && buffered(final(dst)) == buffered(old(dst)) + wire_message::<E>(
                    old(self).is_strict(),
                    item.0.header(),
                    payload_of(item.1),
                ),
                Some(f) => r is Err && r->Err_0.fault() == f,
            },
    {
        let mut own = buf_new();
        std::mem::swap(dst, &mut own);
        let mut protocol = TBinaryOutputProtocol::new(own, self.strict);
        let r = Self::encode_into(&mut protocol, item);
        let mut back = protocol.into_inner();
        std::mem::swap(dst, &mut back);
        r
    }

    fn encode_into(
        protocol: &mut TBinaryOutputProtocol<bytes::BytesMut>,
        item: (MsgContext, Result<E, ApplicationError>),
    ) -> (r: Result<(), Error>)
        ensures
            final(protocol).is_strict() == old(protocol).is_strict(),
            match message_refusal::<E>(item.0.header(), payload_of(item.1)) {
                None => r is Ok && final(protocol).written() == old(protocol).written()
                    + wire_message::<E>(
                    old(protocol).is_strict(),
                    item.0.header(),
                    payload_of(item.1),
                ),
                Some(f) => r is Err && r->Err_0.fault() == f,
            },
    {
        let ghost start = protocol.written();
        let ghost header = item.0.header();
        let ghost payload = payload_of(item.1);
        let (mut cx, item) = item;
        match item {
            Ok(it) => {
                protocol.write_message_begin(&cx.identifier)?;
                it.encode(&cx, protocol)?;
            },
            Err(err) => {
                cx.identifier.message_type = TMessageType::Exception;
                protocol.write_message_begin(&cx.identifier)?;
                err.encode(&cx, protocol)?;
            },
        }
        protocol.write_message_end()?;
        assert(protocol.written() =~= start + wire_message::<E>(
            old(protocol).is_strict(),
            header,
            payload,
        ));
        Ok(())
    }

    /// Takes one message from the front of `src`. Where the header
    /// announces an exception the application error is read in place of
    /// the payload.
    pub fn decode(&mut self, src: &mut bytes::BytesMut) -> (r: Result<
        Option<(MsgContext, Result<D, ApplicationError>)>,
        Error,
    >)
        ensures
            final(self).is_strict() == old(self).is_strict(),
            match parse_message::<D>(old(self).is_strict(), buffered(old(src))) {
                Ok(((h, item), rest)) => r matches Ok(Some(got)) && got.0.header() == h
                    && got.0.target is None && payload_of(got.1) == item && buffered(final(src))
                    == rest,
                Err(f) => r is Err && r->Err_0.fault() == f,
            },
    {
        let mut own = buf_new();
        std::mem::swap(src, &mut own);
        let mut protocol = TBinaryInputProtocol::new(own, self.strict);
        let r = Self::decode_from(&mut protocol);
        let mut back = protocol.into_inner();
        std::mem::swap(src, &mut back);
        r
    }

    fn decode_from(protocol: &mut TBinaryInputProtocol<bytes::BytesMut>) -> (r: Result<
        Option<(MsgContext, Result<D, ApplicationError>)>,
        Error,
    >)
        ensures
            final(protocol).is_strict() == old(protocol).is_strict(),
            match parse_message::<D>(old(protocol).is_strict(), old(protocol).remaining()) {
                Ok(((h, item), rest)) => r matches Ok(Some(got)) && got.0.header() == h
                    && got.0.target is None && payload_of(got.1) == item
                    && final(protocol).remaining() == rest,
                Err(f) => r is Err && r->Err_0.fault() == f,
            },
    {
        let mut cx = MsgContext::default();
        cx.identifier = protocol.read_message_begin()?;
        if cx.identifier.message_type == TMessageType::Exception {
            let exception = ApplicationError::decode(&mut cx, protocol)?;
            protocol.read_message_end()?;
            return Ok(Some((cx, Err(exception))));
        }
        let item = D::decode(&mut cx, protocol)?;
        protocol.read_message_end()?;
        Ok(Some((cx, Ok(item))))
    }
}

impl<E: Message, D: Message> FramedCodec<MessageCodec<E, D>> {
    /// Appends one message to `dst` as a frame. A message above the limit
    /// is refused with `SizeLimit`.
    pub fn encode(
        &mut self,
        item: (MsgContext, Result<E, ApplicationError>),
        dst: &mut bytes::BytesMut,
    ) -> (r: Result<(), Error>)
        ensures
            final(self).0.is_strict() == old(self).0.is_strict(),
            match message_refusal::<E>(item.0.header(), payload_of(item.1)) {
                None => {
                    let body = wire_message::<E>(
                        old(self).0.is_strict(),
                        item.0.header(),
                        payload_of(item.1),
                    );
                    if body.len() > MAX_MESSAGE_SIZE {
                        r is Err && r->Err_0.fault() == oversized_frame(body.len() as int)
                    } else {
                        r is Ok && buffered(final(dst)) == buffered(old(dst)) + wire_frame(body)
                    }
                },
                Some(f) => r is Err && r->Err_0.fault() == f,
            },
    {
        let ghost before = buffered(dst);
        let zero_index = Self::frame_begin(dst);
        self.0.encode(item, dst)?;
        proof {
            lemma_be_bytes_len(0, 4);
            let body = wire_message::<E>(
                old(self).0.is_strict(),
                item.0.header(),
                payload_of(item.1),
            );
            assert(buffered(dst).skip(zero_index + 4) =~= body);
            assert(buffered(dst).subrange(0, zero_index as int) =~= before);
        }
        Self::frame_end(dst, zero_index)
    }

    /// Takes one message from the front of `src`, once its whole frame is
    /// there; until then nothing is consumed and `None` is returned. The
    /// inner decoder sees exactly the body of the frame.
    pub fn decode(&mut self, src: &mut bytes::BytesMut) -> (r: Result<
        Option<(MsgContext, Result<D, ApplicationError>)>,
        Error,
    >)
        ensures
            final(self).0.is_strict() == old(self).0.is_strict(),
            match parse_frame(buffered(old(src))) {
                FrameParse::NeedMore => r matches Ok(None) && buffered(final(src)) == buffered(
                    old(src),
                ),
                FrameParse::TooLarge => r is Err && r->Err_0.fault() == oversized_frame(
                    declared_length(buffered(old(src))),
                ) && buffered(final(src)) == buffered(old(src)),
                FrameParse::Frame(body, rest) => buffered(final(src)) == rest && match parse_message::<
                    D,
                >(old(self).0.is_strict(), body) {
                    Ok(((h, item), _)) => r matches Ok(Some(got)) && got.0.header() == h
                        && got.0.target is None && payload_of(got.1) == item,
                    Err(f) => r is Err && r->Err_0.fault() == f,
                },
            },
    {
        let mut body = match Self::frame_split(src)? {
            None => {
                return Ok(None);
            },
            Some(body) => body,
        };
        let decoded = self.0.decode(&mut body)?;
        Self::frame_decoded(decoded)
    }
}

/// Makes the codec of a connection: framed, strict binary messages with
/// `E` going out and `D` coming in.
#[derive(Debug)]
pub struct DefaultMakeCodec<E, D> {
    _phantom: PhantomData<(E, D)>,
}

impl<E, D> DefaultMakeCodec<E, D> {
    /// A maker of codecs.
    pub fn new() -> (r: Self) {
        Self { _phantom: PhantomData }
    }

    /// A fresh codec: messages behind their length, opening with the
    /// version word.
    pub fn make_codec(&self) -> (r: FramedCodec<MessageCodec<E, D>>)
        ensures
            r.0.is_strict(),
    {
        FramedCodec::new(MessageCodec::new(true))
    }
}

/// Four bytes spell, big-endian, the sum of their place values.
pub proof fn lemma_be_unsigned_four(s: Seq<u8>)
    requires
        s.len() == 4,
    ensures
        be_unsigned(s) == s[0] * 0x100_0000 + s[1] * 0x1_0000 + s[2] * 0x100 + s[3],
{
    reveal_with_fuel(be_unsigned, 5);
    let s3 = s.drop_last();
    let s2 = s3.drop_last();
    let s1 = s2.drop_last();
    assert(s1.drop_last().len() == 0);
    assert(be_unsigned(s1) == s[0]);
    assert(be_unsigned(s2) == s[0] * 256 + s[1]);
    assert(be_unsigned(s3) == (s[0] * 256 + s[1]) * 256 + s[2]);
}

} // verus!
