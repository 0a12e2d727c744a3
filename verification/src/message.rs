//! The contract of everything that travels as a payload: how a value is
//! written to the wire and how it is read back.

use vstd::prelude::*;
use vstd::utf8::*;

use crate::binary::{fits_i32, TBinaryInputProtocol, TBinaryOutputProtocol};
use crate::context::{Header, MsgContext};
use crate::errors::{
    application_kind_number, application_kind_of_number, lemma_application_kind_roundtrip,
    ApplicationError, ApplicationErrorKind, Error, Fault,
};
use crate::protocol::{TFieldIdentifier, TStructIdentifier, TType};
use crate::wire::{
    lemma_bool_roundtrip, lemma_bytes_consumes, lemma_field_begin_consumes,
    lemma_field_begin_roundtrip, lemma_field_stop_roundtrip, lemma_i16_roundtrip,
    lemma_i32_roundtrip, lemma_i64_roundtrip, lemma_i8_roundtrip, lemma_parse_skip_suffix,
    lemma_string_roundtrip, parse_bool, parse_field_begin, parse_i16, parse_i32, parse_i64,
    parse_i8, parse_skip, parse_string, wire_bool, wire_field_begin, wire_field_stop, wire_i16,
    wire_i32, wire_i64, wire_i8, wire_string, Parsed,
};

verus! {

/// A value that can be written to and read from the binary protocol.
///
/// The contract speaks of the value's deep view. `wire` is its image,
/// `refusal` says why a value cannot be written (and is `None` where it
/// can), `parse` is what a reader recovers from a byte sequence under a
/// context, `admits` says under which contexts a value is read back, and
/// `unread` under which contexts the reader refuses without reading.
/// Every implementation proves that what it writes, it reads back.
pub trait Message: Sized + DeepView {
    /// Why this value cannot be written; `None` where it can.
    spec fn refusal(m: Self::V) -> Option<Fault>;

    /// The bytes of this value on the wire.
    spec fn wire(m: Self::V) -> Seq<u8>;

    /// What a reader recovers from the front of `input`.
    spec fn parse(cx: Header, input: Seq<u8>) -> Parsed<Self::V>;

    /// Whether a reader in this context recovers this value.
    spec fn admits(cx: Header, m: Self::V) -> bool;

    /// Whether a reader in this context refuses whatever the bytes are,
    /// and so before it reads any of them.
    spec fn unread(cx: Header) -> bool;

    /// Where the context decides, nothing is recovered, whatever the
    /// bytes.
    proof fn lemma_unread(cx: Header, input: Seq<u8>)
        ensures
            Self::unread(cx) ==> Self::parse(cx, input) is Err,
    ;

    /// A value that can be written is read back from its image, whatever
    /// follows it, and the reader stands behind the image.
    proof fn lemma_roundtrip(cx: Header, m: Self::V, rest: Seq<u8>)
        requires
            Self::refusal(m) is None,
            Self::admits(cx, m),
        ensures
            Self::parse(cx, Self::wire(m) + rest) == Ok::<(Self::V, Seq<u8>), Fault>((m, rest)),
    ;

    /// Appends the image of this value, or refuses it.
    fn encode(&self, cx: &MsgContext, protocol: &mut TBinaryOutputProtocol<bytes::BytesMut>) -> (r:
        Result<(), Error>)
        ensures
            final(protocol).is_strict() == old(protocol).is_strict(),
            match Self::refusal(self.deep_view()) {
                None => r is Ok && final(protocol).written() == old(protocol).written()
                    + Self::wire(self.deep_view()),
                Some(f) => r is Err && r->Err_0.fault() == f,
            },
    ;

    /// Reads a value from the front of what is left. The context is
    /// consulted and left as it is. Where the context alone decides that
    /// nothing can be read, the reader is left as it was.
    fn decode(cx: &mut MsgContext, protocol: &mut TBinaryInputProtocol<bytes::BytesMut>) -> (r:
        Result<Self, Error>)
        ensures
            *final(cx) == *old(cx),
            final(protocol).is_strict() == old(protocol).is_strict(),
            Self::unread(old(cx).header()) ==> r is Err && *final(protocol) == *old(protocol),
            match Self::parse(old(cx).header(), old(protocol).remaining()) {
                Ok((m, rest)) => r is Ok && r->Ok_0.deep_view() == m
                    && final(protocol).remaining() == rest,
                Err(f) => r is Err && r->Err_0.fault() == f,
            },
    ;
}

impl Message for bool {
    open spec fn refusal(m: bool) -> Option<Fault> {
        None
    }

    open spec fn wire(m: bool) -> Seq<u8> {
        wire_bool(m)
    }

    open spec fn parse(cx: Header, input: Seq<u8>) -> Parsed<bool> {
        parse_bool(input)
    }

    open spec fn admits(cx: Header, m: bool) -> bool {
        true
    }

    open spec fn unread(cx: Header) -> bool {
        false
    }

    proof fn lemma_unread(cx: Header, input: Seq<u8>) {
    }

    proof fn lemma_roundtrip(cx: Header, m: bool, rest: Seq<u8>) {
        lemma_bool_roundtrip(m, rest);
    }

    fn encode(&self, _cx: &MsgContext, protocol: &mut TBinaryOutputProtocol<bytes::BytesMut>) -> (r:
        Result<(), Error>) {
        protocol.write_bool(*self)?;
        Ok(())
    }

    fn decode(_cx: &mut MsgContext, protocol: &mut TBinaryInputProtocol<bytes::BytesMut>) -> (r:
        Result<Self, Error>) {
        protocol.read_bool()
    }
}

impl Message for i8 {
    open spec fn refusal(m: i8) -> Option<Fault> {
        None
    }

    open spec fn wire(m: i8) -> Seq<u8> {
        wire_i8(m)
    }

    open spec fn parse(cx: Header, input: Seq<u8>) -> Parsed<i8> {
        parse_i8(input)
    }

    open spec fn admits(cx: Header, m: i8) -> bool {
        true
    }

    open spec fn unread(cx: Header) -> bool {
        false
    }

    proof fn lemma_unread(cx: Header, input: Seq<u8>) {
    }

    proof fn lemma_roundtrip(cx: Header, m: i8, rest: Seq<u8>) {
        lemma_i8_roundtrip(m, rest);
    }

    fn encode(&self, _cx: &MsgContext, protocol: &mut TBinaryOutputProtocol<bytes::BytesMut>) -> (r:
        Result<(), Error>) {
        protocol.write_i8(*self)?;
        Ok(())
    }

    fn decode(_cx: &mut MsgContext, protocol: &mut TBinaryInputProtocol<bytes::BytesMut>) -> (r:
        Result<Self, Error>) {
        protocol.read_i8()
    }
}

impl Message for i16 {
    open spec fn refusal(m: i16) -> Option<Fault> {
        None
    }

    open spec fn wire(m: i16) -> Seq<u8> {
        wire_i16(m)
    }

    open spec fn parse(cx: Header, input: Seq<u8>) -> Parsed<i16> {
        parse_i16(input)
    }

    open spec fn admits(cx: Header, m: i16) -> bool {
        true
    }

    open spec fn unread(cx: Header) -> bool {
        false
    }

    proof fn lemma_unread(cx: Header, input: Seq<u8>) {
    }

    proof fn lemma_roundtrip(cx: Header, m: i16, rest: Seq<u8>) {
        lemma_i16_roundtrip(m, rest);
    }

    fn encode(&self, _cx: &MsgContext, protocol: &mut TBinaryOutputProtocol<bytes::BytesMut>) -> (r:
        Result<(), Error>) {
        protocol.write_i16(*self)?;
        Ok(())
    }

    fn decode(_cx: &mut MsgContext, protocol: &mut TBinaryInputProtocol<bytes::BytesMut>) -> (r:
        Result<Self, Error>) {
        protocol.read_i16()
    }
}

impl Message for i32 {
    open spec fn refusal(m: i32) -> Option<Fault> {
        None
    }

    open spec fn wire(m: i32) -> Seq<u8> {
        wire_i32(m)
    }

    open spec fn parse(cx: Header, input: Seq<u8>) -> Parsed<i32> {
        parse_i32(input)
    }

    open spec fn admits(cx: Header, m: i32) -> bool {
        true
    }

    open spec fn unread(cx: Header) -> bool {
        false
    }

    proof fn lemma_unread(cx: Header, input: Seq<u8>) {
    }

    proof fn lemma_roundtrip(cx: Header, m: i32, rest: Seq<u8>) {
        lemma_i32_roundtrip(m, rest);
    }

    fn encode(&self, _cx: &MsgContext, protocol: &mut TBinaryOutputProtocol<bytes::BytesMut>) -> (r:
        Result<(), Error>) {
        protocol.write_i32(*self)?;
        Ok(())
    }

    fn decode(_cx: &mut MsgContext, protocol: &mut TBinaryInputProtocol<bytes::BytesMut>) -> (r:
        Result<Self, Error>) {
        protocol.read_i32()
    }
}

impl Message for i64 {
    open spec fn refusal(m: i64) -> Option<Fault> {
        None
    }

    open spec fn wire(m: i64) -> Seq<u8> {
        wire_i64(m)
    }

    open spec fn parse(cx: Header, input: Seq<u8>) -> Parsed<i64> {
        parse_i64(input)
    }

    open spec fn admits(cx: Header, m: i64) -> bool {
        true
    }

    open spec fn unread(cx: Header) -> bool {
        false
    }

    proof fn lemma_unread(cx: Header, input: Seq<u8>) {
    }

    proof fn lemma_roundtrip(cx: Header, m: i64, rest: Seq<u8>) {
        lemma_i64_roundtrip(m, rest);
    }

    fn encode(&self, _cx: &MsgContext, protocol: &mut TBinaryOutputProtocol<bytes::BytesMut>) -> (r:
        Result<(), Error>) {
        protocol.write_i64(*self)?;
        Ok(())
    }

    fn decode(_cx: &mut MsgContext, protocol: &mut TBinaryInputProtocol<bytes::BytesMut>) -> (r:
        Result<Self, Error>) {
        protocol.read_i64()
    }
}

impl Message for String {
    /// A string whose UTF-8 form does not fit the length prefix is
    /// refused.
    open spec fn refusal(m: Seq<char>) -> Option<Fault> {
        if fits_i32(encode_utf8(m).len()) {
            None
        } else {
            Some(crate::wire::oversize())
        }
    }

    open spec fn wire(m: Seq<char>) -> Seq<u8> {
        wire_string(m)
    }

    open spec fn parse(cx: Header, input: Seq<u8>) -> Parsed<Seq<char>> {
        parse_string(input)
    }

    open spec fn admits(cx: Header, m: Seq<char>) -> bool {
        true
    }

    open spec fn unread(cx: Header) -> bool {
        false
    }

    proof fn lemma_unread(cx: Header, input: Seq<u8>) {
    }

    proof fn lemma_roundtrip(cx: Header, m: Seq<char>, rest: Seq<u8>) {
        lemma_string_roundtrip(m, rest);
    }

    fn encode(&self, _cx: &MsgContext, protocol: &mut TBinaryOutputProtocol<bytes::BytesMut>) -> (r:
        Result<(), Error>) {
        protocol.write_string(self.as_str())?;
        Ok(())
    }

    fn decode(_cx: &mut MsgContext, protocol: &mut TBinaryInputProtocol<bytes::BytesMut>) -> (r:
        Result<Self, Error>) {
        protocol.read_string()
    }
}


/// The model of an application error: its kind and its text.
pub type ApplicationErrorModel = (ApplicationErrorKind, Seq<char>);

impl DeepView for ApplicationError {
    type V = ApplicationErrorModel;

    open spec fn deep_view(&self) -> ApplicationErrorModel {
        (self.kind, self.message@)
    }
}

/// What a reader makes of the fields of an application error, starting
/// from `acc`: field 1 is the text, field 2 the number of the kind, and
/// any other field is skipped. A number that names no kind is answered
/// with an application error of kind `Unknown`.
pub open spec fn parse_application_error_fields(
    input: Seq<u8>,
    acc: ApplicationErrorModel,
) -> Parsed<ApplicationErrorModel>
    decreases input.len(),
{
    match parse_field_begin(input) {
        Err(e) => Err(e),
        Ok(((t, id), rest)) => if t == TType::Stop {
            Ok((acc, rest))
        } else if id == 1 {
            match parse_string(rest) {
                Err(e) => Err(e),
                Ok((text, rest2)) => if rest2.len() < input.len() {
                    parse_application_error_fields(rest2, (acc.0, text))
                } else {
                    Err(crate::wire::short_input())
                },
            }
        } else if id == 2 {
            match parse_i32(rest) {
                Err(e) => Err(e),
                Ok((n, rest2)) => match application_kind_of_number(n) {
                    None => Err(crate::errors::bad_application_kind()),
                    Some(kind) => if rest2.len() < input.len() {
                        parse_application_error_fields(rest2, (kind, acc.1))
                    } else {
                        Err(crate::wire::short_input())
                    },
                },
            }
        } else {
            match parse_skip(t, rest, crate::binary::MAXIMUM_SKIP_DEPTH as nat) {
                Err(e) => Err(e),
                Ok((_, rest2)) => if rest2.len() < input.len() {
                    parse_application_error_fields(rest2, acc)
                } else {
                    Err(crate::wire::short_input())
                },
            }
        },
    }
}


/// A text field at the front replaces the text gathered so far.
pub proof fn lemma_application_error_text_field(
    text: Seq<char>,
    rest: Seq<u8>,
    acc: ApplicationErrorModel,
)
    requires
        fits_i32(encode_utf8(text).len()),
    ensures
        parse_application_error_fields(
            wire_field_begin(TType::String, 1) + (wire_string(text) + rest),
            acc,
        ) == parse_application_error_fields(rest, (acc.0, text)),
{
    let after_header = wire_string(text) + rest;
    lemma_field_begin_roundtrip(TType::String, 1, after_header);
    lemma_string_roundtrip(text, rest);
}

/// A kind field at the front replaces the kind gathered so far.
pub proof fn lemma_application_error_kind_field(
    kind: ApplicationErrorKind,
    rest: Seq<u8>,
    acc: ApplicationErrorModel,
)
    ensures
        parse_application_error_fields(
            wire_field_begin(TType::I32, 2) + (wire_i32(application_kind_number(kind)) + rest),
            acc,
        ) == parse_application_error_fields(rest, (kind, acc.1)),
{
    let number = application_kind_number(kind);
    let after_header = wire_i32(number) + rest;
    lemma_field_begin_roundtrip(TType::I32, 2, after_header);
    lemma_i32_roundtrip(number, rest);
    lemma_application_kind_roundtrip(kind);
}

/// The stop sentinel ends the fields with what was gathered.
pub proof fn lemma_application_error_stop(rest: Seq<u8>, acc: ApplicationErrorModel)
    ensures
        parse_application_error_fields(wire_field_stop() + rest, acc) == Ok::<
            (ApplicationErrorModel, Seq<u8>),
            Fault,
        >((acc, rest)),
{
    lemma_field_stop_roundtrip(rest);
}

/// An application error travels as the struct
/// `{ 1: string message, 2: i32 kind }`.
impl Message for ApplicationError {
    /// A text whose UTF-8 form does not fit the length prefix is refused.
    open spec fn refusal(m: ApplicationErrorModel) -> Option<Fault> {
        if fits_i32(encode_utf8(m.1).len()) {
            None
        } else {
            Some(crate::wire::oversize())
        }
    }

    open spec fn wire(m: ApplicationErrorModel) -> Seq<u8> {
        wire_field_begin(TType::String, 1) + wire_string(m.1) + wire_field_begin(TType::I32, 2)
            + wire_i32(application_kind_number(m.0)) + wire_field_stop()
    }

    open spec fn parse(cx: Header, input: Seq<u8>) -> Parsed<ApplicationErrorModel> {
        parse_application_error_fields(input, (ApplicationErrorKind::Unknown, Seq::empty()))
    }

    open spec fn admits(cx: Header, m: ApplicationErrorModel) -> bool {
        true
    }

    open spec fn unread(cx: Header) -> bool {
        false
    }

    proof fn lemma_unread(cx: Header, input: Seq<u8>) {
    }

    proof fn lemma_roundtrip(cx: Header, m: ApplicationErrorModel, rest: Seq<u8>) {
        let number = application_kind_number(m.0);
        let r3 = wire_field_stop() + rest;
        let r1 = wire_field_begin(TType::I32, 2) + (wire_i32(number) + r3);
        let input = wire_field_begin(TType::String, 1) + (wire_string(m.1) + r1);
        assert(Self::wire(m) + rest =~= input);
        let start = (ApplicationErrorKind::Unknown, Seq::<char>::empty());
        lemma_application_error_text_field(m.1, r1, start);
        lemma_application_error_kind_field(m.0, r3, (start.0, m.1));
        lemma_application_error_stop(rest, m);
    }

    fn encode(&self, _cx: &MsgContext, protocol: &mut TBinaryOutputProtocol<bytes::BytesMut>) -> (r:
        Result<(), Error>) {
        let ghost start = protocol.written();
        protocol.write_struct_begin(&TStructIdentifier::new("ApplicationError".to_string()))?;
        protocol.write_field_begin(
            &TFieldIdentifier::new(Some("message".to_string()), TType::String, Some(1)),
        )?;
        protocol.write_string(self.message.as_str())?;
        protocol.write_field_end()?;
        protocol.write_field_begin(
            &TFieldIdentifier::new(Some("type".to_string()), TType::I32, Some(2)),
        )?;
        protocol.write_i32(self.kind.to_i32())?;
        protocol.write_field_end()?;
        protocol.write_field_stop()?;
        protocol.write_struct_end()?;
        assert(protocol.written() =~= start + Self::wire(self.deep_view()));
        Ok(())
    }

    fn decode(cx: &mut MsgContext, protocol: &mut TBinaryInputProtocol<bytes::BytesMut>) -> (r:
        Result<Self, Error>) {
        protocol.read_struct_begin()?;
        let mut output = ApplicationError::default();
        let ghost input = protocol.remaining();
        let ghost start = (ApplicationErrorKind::Unknown, Seq::<char>::empty());
        loop
            invariant_except_break
                parse_application_error_fields(protocol.remaining(), output.deep_view())
                    == parse_application_error_fields(input, start),
            invariant
                protocol.is_strict() == old(protocol).is_strict(),
                input == old(protocol).remaining(),
                *cx == *old(cx),
                start == (ApplicationErrorKind::Unknown, Seq::<char>::empty()),
            ensures
                parse_application_error_fields(input, start) == Ok::<
                    (ApplicationErrorModel, Seq<u8>),
                    Fault,
                >((output.deep_view(), protocol.remaining())),
            decreases protocol.remaining().len(),
        {
            let ghost here = protocol.remaining();
            proof {
                lemma_field_begin_consumes(here);
            }
            let ident = protocol.read_field_begin()?;
            if ident.field_type == TType::Stop {
                break ;
            }
            let ghost after_header = protocol.remaining();
            proof {
                lemma_bytes_consumes(after_header);
                lemma_parse_skip_suffix(
                    ident.field_type,
                    after_header,
                    crate::binary::MAXIMUM_SKIP_DEPTH as nat,
                );
            }
            match ident.id {
                Some(1) => {
                    output.message = protocol.read_string()?;
                },
                Some(2) => {
                    let number = protocol.read_i32()?;
                    output.kind = ApplicationErrorKind::try_from_i32(number)?;
                },
                _ => {
                    protocol.skip(ident.field_type)?;
                },
            }
            protocol.read_field_end()?;
        }
        protocol.read_struct_end()?;
        Ok(output)
    }
}

/// The unit value has no image: nothing is written and nothing is read.
impl Message for () {
    open spec fn refusal(m: ()) -> Option<Fault> {
        None
    }

    open spec fn wire(m: ()) -> Seq<u8> {
        Seq::empty()
    }

    open spec fn parse(cx: Header, input: Seq<u8>) -> Parsed<()> {
        Ok(((), input))
    }

    open spec fn admits(cx: Header, m: ()) -> bool {
        true
    }

    open spec fn unread(cx: Header) -> bool {
        false
    }

    proof fn lemma_unread(cx: Header, input: Seq<u8>) {
    }

    proof fn lemma_roundtrip(cx: Header, m: (), rest: Seq<u8>) {
        assert(Seq::<u8>::empty() + rest =~= rest);
    }

    fn encode(&self, _cx: &MsgContext, protocol: &mut TBinaryOutputProtocol<bytes::BytesMut>) -> (r:
        Result<(), Error>) {
        assert(protocol.written() + Seq::<u8>::empty() =~= protocol.written());
        Ok(())
    }

    fn decode(_cx: &mut MsgContext, protocol: &mut TBinaryInputProtocol<bytes::BytesMut>) -> (r:
        Result<Self, Error>) {
        Ok(())
    }
}

} // verus!
