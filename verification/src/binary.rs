//! The Thrift binary protocol over a byte buffer: a writer that appends
//! the image of each item, and a reader that takes items from the front.

use vstd::prelude::*;
use vstd::slice::*;
use vstd::string::*;
use vstd::utf8::*;

use crate::buffer::{
    be_read_i32, buf_copy_to_vec, buf_get_i16, buf_get_i32, buf_get_i64, buf_get_i8, buf_get_u64,
    buf_get_u8, buf_put_i16, buf_put_i32, buf_put_i64, buf_put_i8, buf_put_slice, buf_put_u32,
    buf_put_u64, buf_put_u8, buf_remaining, buffered, string_from_utf8,
};
use crate::errors::{new_protocol_error, Error, Fault, ProtocolErrorKind};
use crate::protocol::{
    field_type_from_u8, TFieldIdentifier, TListIdentifier, TMapIdentifier, TMessageIdentifier,
    TMessageType, TSetIdentifier, TStructIdentifier, TType,
};
use crate::wire::{
    be_bytes, be_signed, lemma_field_begin_consumes, lemma_parse_skip_suffix, oversize, parse_bool,
    parse_byte, parse_bytes, parse_double_bits, parse_field_begin, parse_i16, parse_i32, parse_i64,
    parse_i8, parse_list_begin, parse_map_begin, parse_message_begin, parse_skip,
    parse_skip_entries, parse_skip_fields, parse_skip_items, parse_string, wire_bool, wire_byte,
    wire_bytes, wire_double_bits, wire_field_begin, wire_field_stop, wire_i16, wire_i32, wire_i64,
    wire_i8, wire_list_begin, wire_map_begin, wire_message_begin, wire_string, Parsed,
};

verus! {

/// Writer of the binary protocol. In strict mode a message opens with the
/// version word.
#[derive(Debug)]
pub struct TBinaryOutputProtocol<T> {
    buf: T,
    strict: bool,
}

impl<T> TBinaryOutputProtocol<T> {
    /// A writer that appends to `buf`.
    pub fn new(buf: T, strict: bool) -> (r: TBinaryOutputProtocol<T>)
        ensures
            r.buffer() == buf,
            r.is_strict() == strict,
    {
        TBinaryOutputProtocol { buf, strict }
    }

    /// The buffer written to.
    pub closed spec fn buffer(self) -> T {
        self.buf
    }

    /// Whether messages open with the version word.
    pub closed spec fn is_strict(self) -> bool {
        self.strict
    }

    /// Gives the buffer back.
    pub fn into_inner(self) -> (r: T)
        ensures
            r == self.buffer(),
    {
        self.buf
    }
}

/// A length as it travels: refused where it does not fit 32 signed bits.
pub open spec fn fits_i32(n: nat) -> bool {
    n <= 0x7fff_ffff
}

impl TBinaryOutputProtocol<bytes::BytesMut> {
    /// All bytes in the buffer, those written through this writer last.
    pub open spec fn written(self) -> Seq<u8> {
        buffered(&self.buffer())
    }

    /// This writer differs from `before` by `image` appended, and by
    /// nothing else.
    pub open spec fn appended(self, before: Self, image: Seq<u8>) -> bool {
        &&& self.written() == before.written() + image
        &&& self.is_strict() == before.is_strict()
    }

    /// Writes the header of a message.
    pub fn write_message_begin(&mut self, identifier: &TMessageIdentifier) -> (r: Result<
        (),
        Error,
    >)
        ensures
            fits_i32(encode_utf8(identifier.name@).len()) ==> r is Ok && final(self).appended(
                *old(self),
                wire_message_begin(
                    old(self).is_strict(),
                    identifier.name@,
                    identifier.message_type,
                    identifier.sequence_number,
                ),
            ),
            !fits_i32(encode_utf8(identifier.name@).len()) ==> r is Err && r->Err_0.fault()
                == oversize() && final(self).appended(
                *old(self),
                Seq::empty(),
            ),
    {
        let ghost start = self.written();
        if self.strict {
            if identifier.name.as_str().as_bytes().len() > 0x7fff_ffff {
                assert(self.written() + Seq::<u8>::empty() =~= self.written());
                return Err(
                    new_protocol_error(
                        ProtocolErrorKind::SizeLimit,
                        "length does not fit its prefix",
                    ),
                );
            }
            let message_type: u8 = identifier.message_type.to_u8();
            let header: u32 = 0x8001_0000u32 | (message_type as u32);
            proof {
                lemma_version_word(message_type);
            }
            buf_put_u32(&mut self.buf, header);
            let ghost mid = self.written();
            self.write_string(identifier.name.as_str())?;
            let ghost mid2 = self.written();
            self.write_i32(identifier.sequence_number)?;
            assert(self.written() =~= start + wire_message_begin(
                true,
                identifier.name@,
                identifier.message_type,
                identifier.sequence_number,
            ));
            Ok(())
        } else {
            match self.write_string(identifier.name.as_str()) {
                Ok(()) => {},
                Err(e) => {
                    return Err(e);
                },
            }
            self.write_byte(identifier.message_type.to_u8())?;
            self.write_i32(identifier.sequence_number)?;
            assert(self.written() =~= start + wire_message_begin(
                false,
                identifier.name@,
                identifier.message_type,
                identifier.sequence_number,
            ));
            Ok(())
        }
    }

    /// The end of a message leaves no trace on the wire.
    pub fn write_message_end(&mut self) -> (r: Result<(), Error>)
        ensures
            r is Ok,
            *final(self) == *old(self),
    {
        Ok(())
    }

    /// The start of a struct leaves no trace on the wire.
    pub fn write_struct_begin(&mut self, _identifier: &TStructIdentifier) -> (r: Result<
        (),
        Error,
    >)
        ensures
            r is Ok,
            *final(self) == *old(self),
    {
        Ok(())
    }

    /// The end of a struct leaves no trace on the wire.
    pub fn write_struct_end(&mut self) -> (r: Result<(), Error>)
        ensures
            r is Ok,
            *final(self) == *old(self),
    {
        Ok(())
    }

    /// Writes the header of a field: the stop byte alone for the stop
    /// sentinel, whether or not it comes with an id, else the type and the
    /// id. A field other than the sentinel that has no id is refused, and
    /// nothing is written.
    pub fn write_field_begin(&mut self, identifier: &TFieldIdentifier) -> (r: Result<(), Error>)
        ensures
            if identifier.field_type == TType::Stop {
                r is Ok && final(self).appended(*old(self), wire_field_stop())
            } else {
                match identifier.id {
                    Some(id) => r is Ok && final(self).appended(
                        *old(self),
                        wire_field_begin(identifier.field_type, id),
                    ),
                    None => r is Err && r->Err_0.fault() == crate::wire::missing_id()
                        && *final(self) == *old(self),
                }
            },
    {
        let ghost start = self.written();
        if identifier.field_type == TType::Stop {
            self.write_byte(identifier.field_type.to_u8())?;
            assert(self.written() =~= start + wire_field_stop());
            return Ok(());
        }
        match identifier.id {
            None => Err(
                new_protocol_error(
                    ProtocolErrorKind::Unknown,
                    "cannot write field identifier without sequence number",
                ),
            ),
            Some(id) => {
                self.write_byte(identifier.field_type.to_u8())?;
                self.write_i16(id)?;
                assert(self.written() =~= start + wire_field_begin(identifier.field_type, id));
                Ok(())
            },
        }
    }

    /// The end of a field leaves no trace on the wire.
    pub fn write_field_end(&mut self) -> (r: Result<(), Error>)
        ensures
            r is Ok,
            *final(self) == *old(self),
    {
        Ok(())
    }

    /// Writes the sentinel that ends the fields of a struct.
    pub fn write_field_stop(&mut self) -> (r: Result<(), Error>)
        ensures
            r is Ok,
            final(self).appended(*old(self), wire_field_stop()),
    {
        self.write_byte(TType::Stop.to_u8())
    }

    /// Writes a boolean as one byte, 1 or 0.
    pub fn write_bool(&mut self, b: bool) -> (r: Result<(), Error>)
        ensures
            r is Ok,
            final(self).appended(*old(self), wire_bool(b)),
    {
        proof {
            lemma_be_bytes_small(1);
            lemma_be_bytes_small(0);
        }
        if b {
            self.write_i8(1)
        } else {
            self.write_i8(0)
        }
    }

    /// Writes raw bytes behind their length. Bytes whose number does not
    /// fit the length prefix are refused, and nothing is written.
    pub fn write_bytes(&mut self, b: &[u8]) -> (r: Result<(), Error>)
        ensures
            fits_i32(b@.len()) ==> r is Ok && final(self).appended(*old(self), wire_bytes(b@)),
            !fits_i32(b@.len()) ==> r is Err && r->Err_0.fault() == oversize()
                && final(self).appended(*old(self), Seq::empty()),
    {
        let ghost start = self.written();
        if b.len() > 0x7fff_ffff {
            assert(start + Seq::<u8>::empty() =~= start);
            return Err(
                new_protocol_error(
                    ProtocolErrorKind::SizeLimit,
                    "length does not fit its prefix",
                ),
            );
        }
        self.write_i32(b.len() as i32)?;
        buf_put_slice(&mut self.buf, b);
        assert(self.written() =~= start + wire_bytes(b@));
        Ok(())
    }

    /// Writes a signed 8-bit integer.
    pub fn write_i8(&mut self, i: i8) -> (r: Result<(), Error>)
        ensures
            r is Ok,
            final(self).appended(*old(self), wire_i8(i)),
    {
        buf_put_i8(&mut self.buf, i);
        Ok(())
    }

    /// Writes a signed 16-bit integer, big-endian.
    pub fn write_i16(&mut self, i: i16) -> (r: Result<(), Error>)
        ensures
            r is Ok,
            final(self).appended(*old(self), wire_i16(i)),
    {
        buf_put_i16(&mut self.buf, i);
        Ok(())
    }

    /// Writes a signed 32-bit integer, big-endian.
    pub fn write_i32(&mut self, i: i32) -> (r: Result<(), Error>)
        ensures
            r is Ok,
            final(self).appended(*old(self), wire_i32(i)),
    {
        buf_put_i32(&mut self.buf, i);
        Ok(())
    }

    /// Writes a signed 64-bit integer, big-endian.
    pub fn write_i64(&mut self, i: i64) -> (r: Result<(), Error>)
        ensures
            r is Ok,
            final(self).appended(*old(self), wire_i64(i)),
    {
        buf_put_i64(&mut self.buf, i);
        Ok(())
    }

    /// Writes a double, given by its IEEE-754 bit pattern, big-endian.
    pub fn write_double(&mut self, bits: u64) -> (r: Result<(), Error>)
        ensures
            r is Ok,
            final(self).appended(*old(self), wire_double_bits(bits)),
    {
        buf_put_u64(&mut self.buf, bits);
        Ok(())
    }

    /// Writes a string as its UTF-8 bytes behind their length.
    pub fn write_string(&mut self, s: &str) -> (r: Result<(), Error>)
        ensures
            fits_i32(encode_utf8(s@).len()) ==> r is Ok && final(self).appended(
                *old(self),
                wire_string(s@),
            ),
            !fits_i32(encode_utf8(s@).len()) ==> r is Err && r->Err_0.fault() == oversize()
                && final(self).appended(
                *old(self),
                Seq::empty(),
            ),
    {
        self.write_bytes(s.as_bytes())
    }

    /// Writes the header of a list.
    pub fn write_list_begin(&mut self, identifier: &TListIdentifier) -> (r: Result<(), Error>)
        ensures
            r is Ok,
            final(self).appended(
                *old(self),
                wire_list_begin(identifier.element_type, identifier.size),
            ),
    {
        let ghost start = self.written();
        self.write_byte(identifier.element_type.to_u8())?;
        self.write_i32(identifier.size)?;
        assert(self.written() =~= start + wire_list_begin(
            identifier.element_type,
            identifier.size,
        ));
        Ok(())
    }

    /// The end of a list leaves no trace on the wire.
    pub fn write_list_end(&mut self) -> (r: Result<(), Error>)
        ensures
            r is Ok,
            *final(self) == *old(self),
    {
        Ok(())
    }

    /// Writes the header of a set.
    pub fn write_set_begin(&mut self, identifier: &TSetIdentifier) -> (r: Result<(), Error>)
        ensures
            r is Ok,
            final(self).appended(
                *old(self),
                wire_list_begin(identifier.element_type, identifier.size),
            ),
    {
        let ghost start = self.written();
        self.write_byte(identifier.element_type.to_u8())?;
        self.write_i32(identifier.size)?;
        assert(self.written() =~= start + wire_list_begin(
            identifier.element_type,
            identifier.size,
        ));
        Ok(())
    }

    /// The end of a set leaves no trace on the wire.
    pub fn write_set_end(&mut self) -> (r: Result<(), Error>)
        ensures
            r is Ok,
            *final(self) == *old(self),
    {
        Ok(())
    }

    /// Writes the header of a map. The identifier must name both types.
    pub fn write_map_begin(&mut self, identifier: &TMapIdentifier) -> (r: Result<(), Error>)
        requires
            identifier.key_type is Some,
            identifier.value_type is Some,
        ensures
            r is Ok,
            final(self).appended(
                *old(self),
                wire_map_begin(
                    identifier.key_type->Some_0,
                    identifier.value_type->Some_0,
                    identifier.size,
                ),
            ),
    {
        let ghost start = self.written();
        let key_type = identifier.key_type.unwrap();
        self.write_byte(key_type.to_u8())?;
        let val_type = identifier.value_type.unwrap();
        self.write_byte(val_type.to_u8())?;
        self.write_i32(identifier.size)?;
        assert(self.written() =~= start + wire_map_begin(key_type, val_type, identifier.size));
        Ok(())
    }

    /// The end of a map leaves no trace on the wire.
    pub fn write_map_end(&mut self) -> (r: Result<(), Error>)
        ensures
            r is Ok,
            *final(self) == *old(self),
    {
        Ok(())
    }

    /// Nothing is held back, so there is nothing to flush.
    pub fn flush(&mut self) -> (r: Result<(), Error>)
        ensures
            r is Ok,
            *final(self) == *old(self),
    {
        Ok(())
    }

    /// Writes one byte.
    pub fn write_byte(&mut self, b: u8) -> (r: Result<(), Error>)
        ensures
            r is Ok,
            final(self).appended(*old(self), wire_byte(b)),
    {
        buf_put_u8(&mut self.buf, b);
        assert(self.written() =~= old(self).written() + wire_byte(b));
        Ok(())
    }
}


/// How deep a value may nest for `skip` to pass over it.
pub const MAXIMUM_SKIP_DEPTH: u8 = 64;

/// Reader of the binary protocol. A strict reader refuses messages that
/// do not open with the version word.
#[derive(Debug)]
pub struct TBinaryInputProtocol<T> {
    buf: T,
    strict: bool,
}

impl<T> TBinaryInputProtocol<T> {
    /// A reader that takes from the front of `buf`.
    pub fn new(buf: T, strict: bool) -> (r: TBinaryInputProtocol<T>)
        ensures
            r.buffer() == buf,
            r.is_strict() == strict,
    {
        TBinaryInputProtocol { buf, strict }
    }

    /// The buffer read from.
    pub closed spec fn buffer(self) -> T {
        self.buf
    }

    /// Whether messages must open with the version word.
    pub closed spec fn is_strict(self) -> bool {
        self.strict
    }

    /// Gives the buffer back, with what has not been read.
    pub fn into_inner(self) -> (r: T)
        ensures
            r == self.buffer(),
    {
        self.buf
    }
}

impl TBinaryInputProtocol<bytes::BytesMut> {
    /// The bytes that have not been read yet.
    pub open spec fn remaining(self) -> Seq<u8> {
        buffered(&self.buffer())
    }

    /// This reader came from `before` by a read with result `r`, where
    /// the wire format expects `expected`: on success the item is the
    /// expected one and exactly its bytes are gone; on failure the fault is
    /// the expected one.
    pub open spec fn has_read<V>(self, before: Self, r: Result<V, Error>, expected: Parsed<V>) -> bool {
        &&& self.is_strict() == before.is_strict()
        &&& match expected {
            Ok((v, rest)) => r == Ok::<V, Error>(v) && self.remaining() == rest,
            Err(f) => r is Err && r->Err_0.fault() == f,
        }
    }

    /// Checks that `required_len` bytes are left.
    fn protocol_len_check(&self, required_len: usize) -> (r: Result<(), Error>)
        ensures
            self.remaining().len() >= required_len ==> r is Ok,
            self.remaining().len() < required_len ==> r is Err && r->Err_0.fault()
                == crate::wire::short_input(),
    {
        if buf_remaining(&self.buf) >= required_len {
            return Ok(());
        }
        Err(new_protocol_error(ProtocolErrorKind::InvalidData, "unexpected data length"))
    }

    /// Reads the header of a message.
    pub fn read_message_begin(&mut self) -> (r: Result<TMessageIdentifier, Error>)
        ensures
            final(self).is_strict() == old(self).is_strict(),
            match parse_message_begin(old(self).is_strict(), old(self).remaining()) {
                Ok(((name, message_type, sequence_number), rest)) => r is Ok && r->Ok_0.name@
                    == name && r->Ok_0.message_type == message_type && r->Ok_0.sequence_number
                    == sequence_number && final(self).remaining() == rest,
                Err(f) => r is Err && r->Err_0.fault() == f,
            },
    {
        let ghost input = self.remaining();
        self.protocol_len_check(4)?;
        let first_bytes = buf_copy_to_vec(&mut self.buf, 4);
        if first_bytes[0] >= 0x80 {
            if first_bytes[1] != 0x01 {
                Err(new_protocol_error(ProtocolErrorKind::BadVersion, "received bad version"))
            } else {
                let message_type = TMessageType::try_from_u8(first_bytes[3])?;
                let name = self.read_string()?;
                let sequence_number = self.read_i32()?;
                Ok(TMessageIdentifier::new(name, message_type, sequence_number))
            }
        } else {
            if self.strict {
                Err(new_protocol_error(ProtocolErrorKind::BadVersion, "received bad version"))
            } else {
                let name_size = be_read_i32(first_bytes.as_slice());
                assert(first_bytes@.subrange(0, 4) =~= first_bytes@);
                assert(parse_i32(input) == Ok::<(i32, Seq<u8>), Fault>((name_size, input.skip(4))));
                if name_size < 0 {
                    return Err(
                        new_protocol_error(
                            ProtocolErrorKind::InvalidData,
                            "unexpected data length",
                        ),
                    );
                }
                self.protocol_len_check(name_size as usize)?;
                let name_buf = buf_copy_to_vec(&mut self.buf, name_size as usize);
                let name = match string_from_utf8(name_buf) {
                    Some(s) => s,
                    None => {
                        return Err(
                            new_protocol_error(
                                ProtocolErrorKind::InvalidData,
                                "string is not valid UTF-8",
                            ),
                        );
                    },
                };
                let type_byte = self.read_byte()?;
                let message_type = TMessageType::try_from_u8(type_byte)?;
                let sequence_number = self.read_i32()?;
                Ok(TMessageIdentifier::new(name, message_type, sequence_number))
            }
        }
    }

    /// The end of a message takes nothing from the wire.
    pub fn read_message_end(&mut self) -> (r: Result<(), Error>)
        ensures
            r is Ok,
            *final(self) == *old(self),
    {
        Ok(())
    }

    /// The start of a struct takes nothing from the wire, and its name is
    /// not known.
    pub fn read_struct_begin(&mut self) -> (r: Result<Option<TStructIdentifier>, Error>)
        ensures
            r == Ok::<Option<TStructIdentifier>, Error>(None),
            *final(self) == *old(self),
    {
        Ok(None)
    }

    /// The end of a struct takes nothing from the wire.
    pub fn read_struct_end(&mut self) -> (r: Result<(), Error>)
        ensures
            r is Ok,
            *final(self) == *old(self),
    {
        Ok(())
    }

    /// Reads the header of a field. The name is not on the wire; the stop
    /// sentinel reads with id 0.
    pub fn read_field_begin(&mut self) -> (r: Result<TFieldIdentifier, Error>)
        ensures
            final(self).is_strict() == old(self).is_strict(),
            match parse_field_begin(old(self).remaining()) {
                Ok(((field_type, id), rest)) => r == Ok::<TFieldIdentifier, Error>(
                    (TFieldIdentifier { name: None, field_type, id: Some(id) }),
                ) && final(self).remaining() == rest,
                Err(f) => r is Err && r->Err_0.fault() == f,
            },
    {
        let field_type_byte = self.read_byte()?;
        let field_type: TType = field_type_from_u8(field_type_byte)?;
        let id = match field_type {
            TType::Stop => 0,
            _ => self.read_i16()?,
        };
        Ok(TFieldIdentifier::new(None, field_type, Some(id)))
    }

    /// The end of a field takes nothing from the wire.
    pub fn read_field_end(&mut self) -> (r: Result<(), Error>)
        ensures
            r is Ok,
            *final(self) == *old(self),
    {
        Ok(())
    }

    /// Reads a boolean: any byte but zero is `true`.
    /// Too few bytes are refused before any is taken.
    pub fn read_bool(&mut self) -> (r: Result<bool, Error>)
        ensures
            final(self).has_read(*old(self), r, parse_bool(old(self).remaining())),
            r is Err ==> *final(self) == *old(self),
    {
        let ghost input = self.remaining();
        let b = self.read_i8()?;
        proof {
            if input.len() >= 1 {
                lemma_signed_byte_zero(input.subrange(0, 1));
            }
        }
        match b {
            0 => Ok(false),
            _ => Ok(true),
        }
    }

    /// Reads length-prefixed bytes.
    pub fn read_bytes(&mut self) -> (r: Result<Vec<u8>, Error>)
        ensures
            final(self).is_strict() == old(self).is_strict(),
            match parse_bytes(old(self).remaining()) {
                Ok((b, rest)) => r is Ok && r->Ok_0@ == b && final(self).remaining() == rest,
                Err(f) => r is Err && r->Err_0.fault() == f,
            },
    {
        self.protocol_len_check(4)?;
        let num_bytes = buf_get_i32(&mut self.buf);
        if num_bytes < 0 {
            return Err(
                new_protocol_error(ProtocolErrorKind::InvalidData, "unexpected data length"),
            );
        }
        self.protocol_len_check(num_bytes as usize)?;
        let output = buf_copy_to_vec(&mut self.buf, num_bytes as usize);
        Ok(output)
    }

    /// Reads a signed 8-bit integer.
    /// Too few bytes are refused before any is taken.
    pub fn read_i8(&mut self) -> (r: Result<i8, Error>)
        ensures
            final(self).has_read(*old(self), r, parse_i8(old(self).remaining())),
            r is Err ==> *final(self) == *old(self),
    {
        self.protocol_len_check(1)?;
        Ok(buf_get_i8(&mut self.buf))
    }

    /// Reads a big-endian signed 16-bit integer.
    /// Too few bytes are refused before any is taken.
    pub fn read_i16(&mut self) -> (r: Result<i16, Error>)
        ensures
            final(self).has_read(*old(self), r, parse_i16(old(self).remaining())),
            r is Err ==> *final(self) == *old(self),
    {
        self.protocol_len_check(2)?;
        Ok(buf_get_i16(&mut self.buf))
    }

    /// Reads a big-endian signed 32-bit integer.
    /// Too few bytes are refused before any is taken.
    pub fn read_i32(&mut self) -> (r: Result<i32, Error>)
        ensures
            final(self).has_read(*old(self), r, parse_i32(old(self).remaining())),
            r is Err ==> *final(self) == *old(self),
    {
        self.protocol_len_check(4)?;
        Ok(buf_get_i32(&mut self.buf))
    }

    /// Reads a big-endian signed 64-bit integer.
    /// Too few bytes are refused before any is taken.
    pub fn read_i64(&mut self) -> (r: Result<i64, Error>)
        ensures
            final(self).has_read(*old(self), r, parse_i64(old(self).remaining())),
            r is Err ==> *final(self) == *old(self),
    {
        self.protocol_len_check(8)?;
        Ok(buf_get_i64(&mut self.buf))
    }

    /// Reads a double as its IEEE-754 bit pattern.
    /// Too few bytes are refused before any is taken.
    pub fn read_double(&mut self) -> (r: Result<u64, Error>)
        ensures
            final(self).has_read(*old(self), r, parse_double_bits(old(self).remaining())),
            r is Err ==> *final(self) == *old(self),
    {
        self.protocol_len_check(8)?;
        Ok(buf_get_u64(&mut self.buf))
    }

    /// Reads a length-prefixed string; bytes that are not UTF-8 are
    /// invalid data.
    pub fn read_string(&mut self) -> (r: Result<String, Error>)
        ensures
            final(self).is_strict() == old(self).is_strict(),
            match parse_string(old(self).remaining()) {
                Ok((s, rest)) => r is Ok && r->Ok_0@ == s && final(self).remaining() == rest,
                Err(f) => r is Err && r->Err_0.fault() == f,
            },
    {
        let bytes = self.read_bytes()?;
        match string_from_utf8(bytes) {
            Some(s) => Ok(s),
            None => Err(
                new_protocol_error(ProtocolErrorKind::InvalidData, "string is not valid UTF-8"),
            ),
        }
    }

    /// Reads the header of a list.
    pub fn read_list_begin(&mut self) -> (r: Result<TListIdentifier, Error>)
        ensures
            final(self).is_strict() == old(self).is_strict(),
            match parse_list_begin(old(self).remaining()) {
                Ok(((element_type, size), rest)) => r == Ok::<TListIdentifier, Error>(
                    (TListIdentifier { element_type, size }),
                ) && final(self).remaining() == rest,
                Err(f) => r is Err && r->Err_0.fault() == f,
            },
    {
        let b = self.read_byte()?;
        let element_type: TType = field_type_from_u8(b)?;
        let size = self.read_i32()?;
        Ok(TListIdentifier::new(element_type, size))
    }

    /// The end of a list takes nothing from the wire.
    pub fn read_list_end(&mut self) -> (r: Result<(), Error>)
        ensures
            r is Ok,
            *final(self) == *old(self),
    {
        Ok(())
    }

    /// Reads the header of a set.
    pub fn read_set_begin(&mut self) -> (r: Result<TSetIdentifier, Error>)
        ensures
            final(self).is_strict() == old(self).is_strict(),
            match parse_list_begin(old(self).remaining()) {
                Ok(((element_type, size), rest)) => r == Ok::<TSetIdentifier, Error>(
                    (TSetIdentifier { element_type, size }),
                ) && final(self).remaining() == rest,
                Err(f) => r is Err && r->Err_0.fault() == f,
            },
    {
        let b = self.read_byte()?;
        let element_type: TType = field_type_from_u8(b)?;
        let size = self.read_i32()?;
        Ok(TSetIdentifier::new(element_type, size))
    }

    /// The end of a set takes nothing from the wire.
    pub fn read_set_end(&mut self) -> (r: Result<(), Error>)
        ensures
            r is Ok,
            *final(self) == *old(self),
    {
        Ok(())
    }

    /// Reads the header of a map.
    pub fn read_map_begin(&mut self) -> (r: Result<TMapIdentifier, Error>)
        ensures
            final(self).is_strict() == old(self).is_strict(),
            match parse_map_begin(old(self).remaining()) {
                Ok(((key_type, value_type, size), rest)) => r == Ok::<TMapIdentifier, Error>(
                    (TMapIdentifier {
                        key_type: Some(key_type),
                        value_type: Some(value_type),
                        size,
                    }),
                ) && final(self).remaining() == rest,
                Err(f) => r is Err && r->Err_0.fault() == f,
            },
    {
        let kb = self.read_byte()?;
        let key_type: TType = field_type_from_u8(kb)?;
        let vb = self.read_byte()?;
        let value_type: TType = field_type_from_u8(vb)?;
        let size = self.read_i32()?;
        Ok(TMapIdentifier::new(key_type, value_type, size))
    }

    /// The end of a map takes nothing from the wire.
    pub fn read_map_end(&mut self) -> (r: Result<(), Error>)
        ensures
            r is Ok,
            *final(self) == *old(self),
    {
        Ok(())
    }


    /// Skips a value of the given type, to a nesting depth of
    /// `MAXIMUM_SKIP_DEPTH`.
    pub fn skip(&mut self, field_type: TType) -> (r: Result<(), Error>)
        ensures
            final(self).has_read(
                *old(self),
                r,
                parse_skip(field_type, old(self).remaining(), MAXIMUM_SKIP_DEPTH as nat),
            ),
    {
        self.skip_till_depth(field_type, MAXIMUM_SKIP_DEPTH)
    }

    /// Skips a value of the given type that nests no deeper than `depth`.
    pub fn skip_till_depth(&mut self, field_type: TType, depth: u8) -> (r: Result<(), Error>)
        ensures
            final(self).has_read(
                *old(self),
                r,
                parse_skip(field_type, old(self).remaining(), depth as nat),
            ),
        decreases depth, 0nat,
    {
        if depth == 0 {
            return Err(
                new_protocol_error(ProtocolErrorKind::DepthLimit, "cannot parse past depth limit"),
            );
        }
        match field_type {
            TType::Bool | TType::I8 => {
                let _ = self.read_i8()?;
                Ok(())
            },
            TType::I16 => {
                let _ = self.read_i16()?;
                Ok(())
            },
            TType::I32 => {
                let _ = self.read_i32()?;
                Ok(())
            },
            TType::I64 => {
                let _ = self.read_i64()?;
                Ok(())
            },
            TType::Double => {
                let _ = self.read_double()?;
                Ok(())
            },
            TType::String => {
                let _ = self.read_bytes()?;
                Ok(())
            },
            TType::Struct => {
                let _ = self.read_struct_begin()?;
                self.skip_fields(depth - 1)?;
                self.read_struct_end()?;
                Ok(())
            },
            TType::List => {
                let list_ident = self.read_list_begin()?;
                self.skip_items(list_ident.element_type, list_ident.size, depth - 1)?;
                self.read_list_end()?;
                Ok(())
            },
            TType::SetOf => {
                let set_ident = self.read_set_begin()?;
                self.skip_items(set_ident.element_type, set_ident.size, depth - 1)?;
                self.read_set_end()?;
                Ok(())
            },
            TType::MapOf => {
                let map_ident = self.read_map_begin()?;
                let key_type = map_ident.key_type.unwrap();
                let value_type = map_ident.value_type.unwrap();
                self.skip_entries(key_type, value_type, map_ident.size, depth - 1)?;
                self.read_map_end()?;
                Ok(())
            },
            TType::Stop | TType::Void => Err(
                new_protocol_error(ProtocolErrorKind::InvalidData, "cannot skip field type"),
            ),
        }
    }

    /// Skips the fields of a struct, the stop sentinel included.
    fn skip_fields(&mut self, depth: u8) -> (r: Result<(), Error>)
        ensures
            final(self).has_read(
                *old(self),
                r,
                parse_skip_fields(old(self).remaining(), depth as nat),
            ),
        decreases depth, 1nat,
    {
        let ghost input = self.remaining();
        loop
            invariant_except_break
                parse_skip_fields(self.remaining(), depth as nat) == parse_skip_fields(
                    input,
                    depth as nat,
                ),
            invariant
                self.is_strict() == old(self).is_strict(),
                input == old(self).remaining(),
            ensures
                parse_skip_fields(input, depth as nat) == Ok::<((), Seq<u8>), Fault>(
                    ((), self.remaining()),
                ),
            decreases self.remaining().len(),
        {
            let ghost here = self.remaining();
            proof {
                lemma_field_begin_consumes(here);
            }
            let field_ident = self.read_field_begin()?;
            if field_ident.field_type == TType::Stop {
                break ;
            }
            let ghost after_header = self.remaining();
            proof {
                lemma_parse_skip_suffix(field_ident.field_type, after_header, depth as nat);
            }
            self.skip_till_depth(field_ident.field_type, depth)?;
        }
        Ok(())
    }

    /// Skips `size` values of type `element_type`; a size below one skips
    /// nothing.
    fn skip_items(&mut self, element_type: TType, size: i32, depth: u8) -> (r: Result<(), Error>)
        ensures
            final(self).has_read(
                *old(self),
                r,
                parse_skip_items(
                    element_type,
                    if size > 0 {
                        size as nat
                    } else {
                        0
                    },
                    old(self).remaining(),
                    depth as nat,
                ),
            ),
        decreases depth, 1nat,
    {
        let ghost input = self.remaining();
        let ghost total: nat = if size > 0 {
            size as nat
        } else {
            0
        };
        let mut i: i32 = 0;
        while i < size
            invariant
                self.is_strict() == old(self).is_strict(),
                input == old(self).remaining(),
                0 <= i,
                i <= total,
                total == (if size > 0 {
                    size as nat
                } else {
                    0
                }),
                parse_skip_items(element_type, (total - i) as nat, self.remaining(), depth as nat)
                    == parse_skip_items(element_type, total, input, depth as nat),
            decreases size - i,
        {
            self.skip_till_depth(element_type, depth)?;
            i = i + 1;
        }
        Ok(())
    }

    /// Skips `size` pairs of a key and a value; a size below one skips
    /// nothing.
    fn skip_entries(&mut self, key_type: TType, value_type: TType, size: i32, depth: u8) -> (r:
        Result<(), Error>)
        ensures
            final(self).has_read(
                *old(self),
                r,
                parse_skip_entries(
                    key_type,
                    value_type,
                    if size > 0 {
                        size as nat
                    } else {
                        0
                    },
                    old(self).remaining(),
                    depth as nat,
                ),
            ),
        decreases depth, 1nat,
    {
        let ghost input = self.remaining();
        let ghost total: nat = if size > 0 {
            size as nat
        } else {
            0
        };
        let mut i: i32 = 0;
        while i < size
            invariant
                self.is_strict() == old(self).is_strict(),
                input == old(self).remaining(),
                0 <= i,
                i <= total,
                total == (if size > 0 {
                    size as nat
                } else {
                    0
                }),
                parse_skip_entries(
                    key_type,
                    value_type,
                    (total - i) as nat,
                    self.remaining(),
                    depth as nat,
                ) == parse_skip_entries(key_type, value_type, total, input, depth as nat),
            decreases size - i,
        {
            self.skip_till_depth(key_type, depth)?;
            self.skip_till_depth(value_type, depth)?;
            i = i + 1;
        }
        Ok(())
    }

    /// Reads one byte.
    /// Too few bytes are refused before any is taken.
    pub fn read_byte(&mut self) -> (r: Result<u8, Error>)
        ensures
            final(self).has_read(*old(self), r, parse_byte(old(self).remaining())),
            r is Err ==> *final(self) == *old(self),
    {
        self.protocol_len_check(1)?;
        Ok(buf_get_u8(&mut self.buf))
    }
}

/// A single byte spells zero in two's complement exactly when it is zero.
pub proof fn lemma_signed_byte_zero(s: Seq<u8>)
    requires
        s.len() == 1,
    ensures
        be_signed(s) == 0 <==> s[0] == 0,
        -128 <= be_signed(s) < 128,
{
    reveal_with_fuel(crate::wire::be_unsigned, 2);
    reveal_with_fuel(crate::wire::pow256, 2);
    assert(s.drop_last().len() == 0);
}

/// The image of a number below 256 in one byte is that byte.
pub proof fn lemma_be_bytes_small(v: int)
    requires
        0 <= v < 256,
    ensures
        be_bytes(v, 1) == seq![v as u8],
{
    reveal_with_fuel(be_bytes, 2);
    assert(be_bytes(v, 1) =~= seq![v as u8]);
}

/// The version word of strict mode, `0x80010000 | message type`, is
/// written as the bytes 80 01 00 and the message type.
pub proof fn lemma_version_word(message_type: u8)
    ensures
        be_bytes((0x8001_0000u32 | (message_type as u32)) as int, 4) == seq![
            0x80u8,
            0x01u8,
            0x00u8,
            message_type,
        ],
{
    let w: u32 = 0x8001_0000u32 | (message_type as u32);
    assert(0x8001_0000u32 | (message_type as u32) == 0x8001_0000u32 + (message_type as u32))
        by (bit_vector);
    reveal_with_fuel(be_bytes, 5);
    let v = w as int;
    assert(v % 256 == message_type);
    assert((v / 256) % 256 == 0);
    assert(((v / 256) / 256) % 256 == 1);
    assert((((v / 256) / 256) / 256) % 256 == 0x80);
    assert(be_bytes(v, 4) =~= seq![0x80u8, 0x01u8, 0x00u8, message_type]);
}

} // verus!
