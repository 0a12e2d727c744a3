//! The binary wire format as mathematics: what each primitive looks like as
//! bytes, and what a reader recovers from a byte sequence.

use vstd::prelude::*;
use vstd::utf8::*;

use crate::errors::{Fault, ProtocolErrorKind};
use crate::protocol::{
    message_type_byte, message_type_of_byte, ttype_byte, ttype_of_byte, TMessageType, TType,
};

verus! {

/// 256 to the power `n`.
pub open spec fn pow256(n: nat) -> int
    decreases n,
{
    if n == 0 {
        1
    } else {
        256 * pow256((n - 1) as nat)
    }
}

/// The `n` low-order bytes of `v` in two's complement, most significant
/// byte first.
pub open spec fn be_bytes(v: int, n: nat) -> Seq<u8>
    decreases n,
{
    if n == 0 {
        Seq::empty()
    } else {
        be_bytes(v / 256, (n - 1) as nat).push((v % 256) as u8)
    }
}

/// The number that a big-endian byte sequence spells, read as unsigned.
pub open spec fn be_unsigned(s: Seq<u8>) -> int
    decreases s.len(),
{
    if s.len() == 0 {
        0
    } else {
        be_unsigned(s.drop_last()) * 256 + s.last() as int
    }
}

/// The number that a big-endian byte sequence spells, read as two's
/// complement.
pub open spec fn be_signed(s: Seq<u8>) -> int {
    if s.len() > 0 && s[0] >= 128 {
        be_unsigned(s) - pow256(s.len())
    } else {
        be_unsigned(s)
    }
}

pub proof fn lemma_be_bytes_len(v: int, n: nat)
    ensures
        be_bytes(v, n).len() == n,
    decreases n,
{
    if n > 0 {
        lemma_be_bytes_len(v / 256, (n - 1) as nat);
    }
}

/// Reading back what was written gives the number modulo 256^n.
pub proof fn lemma_be_unsigned_of_bytes(v: int, n: nat)
    ensures
        be_unsigned(be_bytes(v, n)) == v % pow256(n),
        pow256(n) > 0,
    decreases n,
{
    if n == 0 {
        assert(be_bytes(v, 0).len() == 0);
    } else {
        let m = (n - 1) as nat;
        lemma_be_unsigned_of_bytes(v / 256, m);
        lemma_be_bytes_len(v / 256, m);
        let s = be_bytes(v, n);
        assert(s.drop_last() =~= be_bytes(v / 256, m));
        assert(s.last() == (v % 256) as u8);
        let p = pow256(m);
        assert(be_unsigned(s) == ((v / 256) % p) * 256 + v % 256);
        lemma_mod_step(v, p);
    }
}

/// ((v / 256) mod p) * 256 + v mod 256 is v mod (256 p).
proof fn lemma_mod_step(v: int, p: int)
    requires
        p > 0,
    ensures
        ((v / 256) % p) * 256 + v % 256 == v % (256 * p),
{
    let q = v / 256;
    let r = v % 256;
    let a = q / p;
    let b = q % p;
    assert(v == 256 * q + r);
    assert(q == p * a + b) by (nonlinear_arith)
        requires
            a == q / p,
            b == q % p,
            p > 0,
    ;
    assert(0 <= b < p) by (nonlinear_arith)
        requires
            b == q % p,
            p > 0,
    ;
    let w = b * 256 + r;
    assert(0 <= w < 256 * p) by (nonlinear_arith)
        requires
            0 <= b < p,
            0 <= r < 256,
            w == b * 256 + r,
    ;
    assert(v == (256 * p) * a + w) by (nonlinear_arith)
        requires
            v == 256 * q + r,
            q == p * a + b,
            w == b * 256 + r,
    ;
    vstd::arithmetic::div_mod::lemma_fundamental_div_mod_converse(v, 256 * p, a, w);
}

/// The first byte of a big-endian image is at least 128 exactly when the
/// number, taken modulo 256^n, lies in the upper half.
pub proof fn lemma_be_bytes_first(v: int, n: nat)
    requires
        n > 0,
    ensures
        be_bytes(v, n).len() == n,
        be_bytes(v, n)[0] >= 128 <==> 2 * (v % pow256(n)) >= pow256(n),
    decreases n,
{
    lemma_be_bytes_len(v, n);
    let m = (n - 1) as nat;
    lemma_be_bytes_len(v / 256, m);
    if n == 1 {
        assert(be_bytes(v / 256, 0) =~= Seq::<u8>::empty());
        assert(be_bytes(v, 1)[0] == (v % 256) as u8);
        assert(pow256(1) == 256) by {
            reveal_with_fuel(pow256, 2);
        }
    } else {
        lemma_be_bytes_first(v / 256, m);
        assert(be_bytes(v, n)[0] == be_bytes(v / 256, m)[0]);
        let p = pow256(m);
        lemma_be_unsigned_of_bytes(v, m);
        lemma_mod_step(v, p);
        assert(pow256(n) == 256 * p);
        let b = (v / 256) % p;
        let r = v % 256;
        assert(v % pow256(n) == b * 256 + r);
        let k = pow256((m - 1) as nat);
        assert(p == 256 * k);
        assert(2 * b >= p <==> 2 * (b * 256 + r) >= 256 * p);
    }
}

/// A number within the signed range of `n` bytes is recovered from its
/// big-endian image.
pub proof fn lemma_be_signed_roundtrip(v: int, n: nat)
    requires
        n > 0,
        -pow256(n) <= 2 * v < pow256(n),
    ensures
        be_signed(be_bytes(v, n)) == v,
        be_bytes(v, n).len() == n,
{
    lemma_be_bytes_first(v, n);
    lemma_be_unsigned_of_bytes(v, n);
    let p = pow256(n);
    if v >= 0 {
        vstd::arithmetic::div_mod::lemma_small_mod(v as nat, p as nat);
    } else {
        vstd::arithmetic::div_mod::lemma_fundamental_div_mod_converse(v, p, -1, v + p);
    }
}

/// A number within the unsigned range of `n` bytes is recovered from its
/// big-endian image.
pub proof fn lemma_be_unsigned_roundtrip(v: int, n: nat)
    requires
        0 <= v < pow256(n),
    ensures
        be_unsigned(be_bytes(v, n)) == v,
        be_bytes(v, n).len() == n,
{
    lemma_be_bytes_len(v, n);
    lemma_be_unsigned_of_bytes(v, n);
    vstd::arithmetic::div_mod::lemma_small_mod(v as nat, pow256(n) as nat);
}

/// The values of 256^n for the widths in use.
pub proof fn lemma_pow256_values()
    ensures
        pow256(1) == 0x100,
        pow256(2) == 0x1_0000,
        pow256(4) == 0x1_0000_0000,
        pow256(8) == 0x1_0000_0000_0000_0000,
{
    reveal_with_fuel(pow256, 9);
}

// ---------------------------------------------------------------------
// Images of the primitives
// ---------------------------------------------------------------------
pub open spec fn wire_bool(b: bool) -> Seq<u8> {
    seq![if b { 1u8 } else { 0u8 }]
}

pub open spec fn wire_byte(b: u8) -> Seq<u8> {
    seq![b]
}

pub open spec fn wire_i8(v: i8) -> Seq<u8> {
    be_bytes(v as int, 1)
}

pub open spec fn wire_i16(v: i16) -> Seq<u8> {
    be_bytes(v as int, 2)
}

pub open spec fn wire_i32(v: i32) -> Seq<u8> {
    be_bytes(v as int, 4)
}

pub open spec fn wire_i64(v: i64) -> Seq<u8> {
    be_bytes(v as int, 8)
}

/// A double travels as the eight bytes of its IEEE-754 bit pattern.
pub open spec fn wire_double_bits(bits: u64) -> Seq<u8> {
    be_bytes(bits as int, 8)
}

/// Raw bytes travel behind their length.
pub open spec fn wire_bytes(s: Seq<u8>) -> Seq<u8> {
    be_bytes(s.len() as int, 4) + s
}

/// A string travels as the bytes of its UTF-8 form.
pub open spec fn wire_string(s: Seq<char>) -> Seq<u8> {
    wire_bytes(encode_utf8(s))
}

/// Header of a field other than the stop sentinel.
pub open spec fn wire_field_begin(t: TType, id: i16) -> Seq<u8> {
    seq![ttype_byte(t)] + wire_i16(id)
}

/// The sentinel that ends the fields of a struct.
pub open spec fn wire_field_stop() -> Seq<u8> {
    seq![0u8]
}

/// Header of a list or a set.
pub open spec fn wire_list_begin(elem: TType, size: i32) -> Seq<u8> {
    seq![ttype_byte(elem)] + wire_i32(size)
}

/// Header of a map.
pub open spec fn wire_map_begin(key: TType, value: TType, size: i32) -> Seq<u8> {
    seq![ttype_byte(key), ttype_byte(value)] + wire_i32(size)
}

/// Header of a message. In strict mode it opens with the version word
/// `0x80010000 | message type`.
pub open spec fn wire_message_begin(
    strict: bool,
    name: Seq<char>,
    message_type: TMessageType,
    sequence_number: i32,
) -> Seq<u8> {
    if strict {
        seq![0x80u8, 0x01u8, 0x00u8, message_type_byte(message_type)] + wire_string(name)
            + wire_i32(sequence_number)
    } else {
        wire_string(name) + seq![message_type_byte(message_type)] + wire_i32(sequence_number)
    }
}

// ---------------------------------------------------------------------
// What a reader recovers
// ---------------------------------------------------------------------
/// Outcome of reading one item from the front of a byte sequence: the item
/// and the bytes behind it, or the reason for giving up.
pub type Parsed<T> = Result<(T, Seq<u8>), Fault>;

/// The fault of every read that finds too few bytes.
pub open spec fn short_input() -> Fault {
    Fault::Protocol(ProtocolErrorKind::InvalidData, "unexpected data length"@)
}

/// The fault of a string whose bytes are not UTF-8.
pub open spec fn invalid_utf8() -> Fault {
    Fault::Protocol(ProtocolErrorKind::InvalidData, "string is not valid UTF-8"@)
}

/// The fault of a byte that names no type tag.
pub open spec fn bad_ttype() -> Fault {
    Fault::Protocol(ProtocolErrorKind::InvalidData, "cannot convert byte to TType"@)
}

/// The fault of a byte that names no message type.
pub open spec fn bad_message_type() -> Fault {
    Fault::Protocol(ProtocolErrorKind::InvalidData, "cannot convert byte to TMessageType"@)
}

/// The fault of a header that a reader of this mode does not take.
pub open spec fn bad_version() -> Fault {
    Fault::Protocol(ProtocolErrorKind::BadVersion, "received bad version"@)
}

/// The fault of writing a field other than the stop sentinel without an
/// id.
pub open spec fn missing_id() -> Fault {
    Fault::Protocol(
        ProtocolErrorKind::Unknown,
        "cannot write field identifier without sequence number"@,
    )
}

/// The fault of a string or a container too long for its length prefix.
pub open spec fn oversize() -> Fault {
    Fault::Protocol(ProtocolErrorKind::SizeLimit, "length does not fit its prefix"@)
}

/// The first `n` bytes, if there are that many.
pub open spec fn parse_take(input: Seq<u8>, n: nat) -> Parsed<Seq<u8>> {
    if input.len() >= n {
        Ok((input.subrange(0, n as int), input.skip(n as int)))
    } else {
        Err(short_input())
    }
}

pub open spec fn parse_byte(input: Seq<u8>) -> Parsed<u8> {
    match parse_take(input, 1) {
        Ok((b, rest)) => Ok((b[0], rest)),
        Err(e) => Err(e),
    }
}

pub open spec fn parse_i8(input: Seq<u8>) -> Parsed<i8> {
    match parse_take(input, 1) {
        Ok((b, rest)) => Ok((be_signed(b) as i8, rest)),
        Err(e) => Err(e),
    }
}

/// Any byte but zero reads as `true`.
pub open spec fn parse_bool(input: Seq<u8>) -> Parsed<bool> {
    match parse_take(input, 1) {
        Ok((b, rest)) => Ok((b[0] != 0, rest)),
        Err(e) => Err(e),
    }
}

pub open spec fn parse_i16(input: Seq<u8>) -> Parsed<i16> {
    match parse_take(input, 2) {
        Ok((b, rest)) => Ok((be_signed(b) as i16, rest)),
        Err(e) => Err(e),
    }
}

pub open spec fn parse_i32(input: Seq<u8>) -> Parsed<i32> {
    match parse_take(input, 4) {
        Ok((b, rest)) => Ok((be_signed(b) as i32, rest)),
        Err(e) => Err(e),
    }
}

pub open spec fn parse_i64(input: Seq<u8>) -> Parsed<i64> {
    match parse_take(input, 8) {
        Ok((b, rest)) => Ok((be_signed(b) as i64, rest)),
        Err(e) => Err(e),
    }
}

pub open spec fn parse_double_bits(input: Seq<u8>) -> Parsed<u64> {
    match parse_take(input, 8) {
        Ok((b, rest)) => Ok((be_unsigned(b) as u64, rest)),
        Err(e) => Err(e),
    }
}

/// Length-prefixed bytes. A negative length, or one that exceeds what is
/// left, is a short input.
pub open spec fn parse_bytes(input: Seq<u8>) -> Parsed<Seq<u8>> {
    match parse_i32(input) {
        Ok((n, rest)) => if n < 0 {
            Err(short_input())
        } else {
            parse_take(rest, n as nat)
        },
        Err(e) => Err(e),
    }
}

/// A length-prefixed string; bytes that are not UTF-8 are invalid data.
pub open spec fn parse_string(input: Seq<u8>) -> Parsed<Seq<char>> {
    match parse_bytes(input) {
        Ok((b, rest)) => if valid_utf8(b) {
            Ok((decode_utf8(b), rest))
        } else {
            Err(invalid_utf8())
        },
        Err(e) => Err(e),
    }
}

/// A type tag; a byte that names none is invalid data.
pub open spec fn parse_ttype(input: Seq<u8>) -> Parsed<TType> {
    match parse_byte(input) {
        Ok((b, rest)) => match ttype_of_byte(b) {
            Some(t) => Ok((t, rest)),
            None => Err(bad_ttype()),
        },
        Err(e) => Err(e),
    }
}

/// A message type; a byte that names none is invalid data.
pub open spec fn parse_message_type(input: Seq<u8>) -> Parsed<TMessageType> {
    match parse_byte(input) {
        Ok((b, rest)) => match message_type_of_byte(b) {
            Some(t) => Ok((t, rest)),
            None => Err(bad_message_type()),
        },
        Err(e) => Err(e),
    }
}

/// Header of a field: the tag, and the id unless the tag is the stop
/// sentinel, which reads with id 0.
pub open spec fn parse_field_begin(input: Seq<u8>) -> Parsed<(TType, i16)> {
    match parse_ttype(input) {
        Ok((t, rest)) => if t == TType::Stop {
            Ok(((t, 0i16), rest))
        } else {
            match parse_i16(rest) {
                Ok((id, rest2)) => Ok(((t, id), rest2)),
                Err(e) => Err(e),
            }
        },
        Err(e) => Err(e),
    }
}

/// Header of a list or a set.
pub open spec fn parse_list_begin(input: Seq<u8>) -> Parsed<(TType, i32)> {
    match parse_ttype(input) {
        Ok((t, rest)) => match parse_i32(rest) {
            Ok((n, rest2)) => Ok(((t, n), rest2)),
            Err(e) => Err(e),
        },
        Err(e) => Err(e),
    }
}

/// Header of a map.
pub open spec fn parse_map_begin(input: Seq<u8>) -> Parsed<(TType, TType, i32)> {
    match parse_ttype(input) {
        Ok((k, rest)) => match parse_ttype(rest) {
            Ok((v, rest2)) => match parse_i32(rest2) {
                Ok((n, rest3)) => Ok(((k, v, n), rest3)),
                Err(e) => Err(e),
            },
            Err(e) => Err(e),
        },
        Err(e) => Err(e),
    }
}

/// Header of a message. A first byte with the high bit set announces the
/// version word, whose second byte must be `0x01`; the third is reserved
/// and the fourth is the message type. Without the high bit the first four
/// bytes are the length of the name, which strict readers refuse.
pub open spec fn parse_message_begin(strict: bool, input: Seq<u8>) -> Parsed<
    (Seq<char>, TMessageType, i32),
> {
    match parse_take(input, 4) {
        Err(e) => Err(e),
        Ok((first, rest)) => if first[0] >= 0x80 {
            if first[1] != 0x01 {
                Err(bad_version())
            } else {
                match message_type_of_byte(first[3]) {
                    None => Err(bad_message_type()),
                    Some(t) => match parse_string(rest) {
                        Err(e) => Err(e),
                        Ok((name, rest2)) => match parse_i32(rest2) {
                            Err(e) => Err(e),
                            Ok((seq_no, rest3)) => Ok(((name, t, seq_no), rest3)),
                        },
                    },
                }
            }
        } else if strict {
            Err(bad_version())
        } else {
            match parse_string(input) {
                Err(e) => Err(e),
                Ok((name, rest2)) => match parse_message_type(rest2) {
                    Err(e) => Err(e),
                    Ok((t, rest3)) => match parse_i32(rest3) {
                        Err(e) => Err(e),
                        Ok((seq_no, rest4)) => Ok(((name, t, seq_no), rest4)),
                    },
                },
            }
        },
    }
}



// ---------------------------------------------------------------------
// Skipping a value of a given type
// ---------------------------------------------------------------------
/// The fault of skipping a value that nests deeper than the reader allows.
pub open spec fn too_deep() -> Fault {
    Fault::Protocol(ProtocolErrorKind::DepthLimit, "cannot parse past depth limit"@)
}

/// The fault of skipping a type that has no image on the wire.
pub open spec fn cannot_skip() -> Fault {
    Fault::Protocol(ProtocolErrorKind::InvalidData, "cannot skip field type"@)
}

/// Drops the item and keeps what lies behind it.
pub open spec fn parse_discard<T>(p: Parsed<T>) -> Parsed<()> {
    match p {
        Ok((_, rest)) => Ok(((), rest)),
        Err(e) => Err(e),
    }
}

/// What is left after a value of type `t` at the front of `input`: the
/// fixed or length-prefixed bytes of a primitive; the header of a
/// container and each of its elements; the fields of a struct up to the
/// stop sentinel. `depth` bounds the nesting.
pub open spec fn parse_skip(t: TType, input: Seq<u8>, depth: nat) -> Parsed<()>
    decreases depth, 0nat, 0nat,
{
    if depth == 0 {
        Err(too_deep())
    } else {
        match t {
            TType::Bool | TType::I8 => parse_discard(parse_take(input, 1)),
            TType::I16 => parse_discard(parse_take(input, 2)),
            TType::I32 => parse_discard(parse_take(input, 4)),
            TType::I64 | TType::Double => parse_discard(parse_take(input, 8)),
            TType::String => parse_discard(parse_bytes(input)),
            TType::Struct => parse_skip_fields(input, (depth - 1) as nat),
            TType::List | TType::SetOf => match parse_list_begin(input) {
                Ok(((elem, n), rest)) => parse_skip_items(
                    elem,
                    if n > 0 {
                        n as nat
                    } else {
                        0
                    },
                    rest,
                    (depth - 1) as nat,
                ),
                Err(e) => Err(e),
            },
            TType::MapOf => match parse_map_begin(input) {
                Ok(((key, value, n), rest)) => parse_skip_entries(
                    key,
                    value,
                    if n > 0 {
                        n as nat
                    } else {
                        0
                    },
                    rest,
                    (depth - 1) as nat,
                ),
                Err(e) => Err(e),
            },
            TType::Stop | TType::Void => Err(cannot_skip()),
        }
    }
}

/// What is left after the fields of a struct, the stop sentinel included.
pub open spec fn parse_skip_fields(input: Seq<u8>, depth: nat) -> Parsed<()>
    decreases depth, 1nat, input.len(),
{
    match parse_field_begin(input) {
        Err(e) => Err(e),
        Ok(((t, _), rest)) => if t == TType::Stop {
            Ok(((), rest))
        } else {
            match parse_skip(t, rest, depth) {
                Err(e) => Err(e),
                Ok((_, rest2)) => if rest2.len() < input.len() {
                    parse_skip_fields(rest2, depth)
                } else {
                    Err(short_input())
                },
            }
        },
    }
}

/// What is left after `count` values of type `elem`.
pub open spec fn parse_skip_items(elem: TType, count: nat, input: Seq<u8>, depth: nat) -> Parsed<
    (),
>
    decreases depth, 1 + count, 0nat,
{
    if count == 0 {
        Ok(((), input))
    } else {
        match parse_skip(elem, input, depth) {
            Err(e) => Err(e),
            Ok((_, rest)) => parse_skip_items(elem, (count - 1) as nat, rest, depth),
        }
    }
}

/// What is left after `count` pairs of a key and a value.
pub open spec fn parse_skip_entries(
    key: TType,
    value: TType,
    count: nat,
    input: Seq<u8>,
    depth: nat,
) -> Parsed<()>
    decreases depth, 1 + count, 0nat,
{
    if count == 0 {
        Ok(((), input))
    } else {
        match parse_skip(key, input, depth) {
            Err(e) => Err(e),
            Ok((_, rest)) => match parse_skip(value, rest, depth) {
                Err(e) => Err(e),
                Ok((_, rest2)) => parse_skip_entries(key, value, (count - 1) as nat, rest2, depth),
            },
        }
    }
}

/// `rest` is what is left of `input` after some bytes at its front.
pub open spec fn is_suffix(rest: Seq<u8>, input: Seq<u8>) -> bool {
    rest.len() <= input.len() && rest == input.skip(input.len() - rest.len())
}

pub proof fn lemma_suffix_transitive(a: Seq<u8>, b: Seq<u8>, c: Seq<u8>)
    requires
        is_suffix(a, b),
        is_suffix(b, c),
    ensures
        is_suffix(a, c),
{
    assert(a =~= c.skip(c.len() - a.len()));
}

pub proof fn lemma_skip_is_suffix(input: Seq<u8>, n: int)
    requires
        0 <= n <= input.len(),
    ensures
        is_suffix(input.skip(n), input),
{
    assert(input.skip(n) =~= input.skip(input.len() - input.skip(n).len()));
}

/// Reading a field header leaves a proper suffix.
pub proof fn lemma_field_begin_consumes(input: Seq<u8>)
    ensures
        parse_field_begin(input) matches Ok((_, rest)) ==> is_suffix(rest, input) && rest.len()
            < input.len(),
{
    if input.len() >= 1 {
        lemma_skip_is_suffix(input, 1);
        let rest = input.skip(1);
        if rest.len() >= 2 {
            lemma_skip_is_suffix(rest, 2);
            lemma_suffix_transitive(rest.skip(2), rest, input);
        }
    }
}

/// Reading a list header leaves a suffix.
pub proof fn lemma_list_begin_consumes(input: Seq<u8>)
    ensures
        parse_list_begin(input) matches Ok((_, rest)) ==> is_suffix(rest, input) && rest.len()
            < input.len(),
{
    if input.len() >= 1 {
        lemma_skip_is_suffix(input, 1);
        let rest = input.skip(1);
        if rest.len() >= 4 {
            lemma_skip_is_suffix(rest, 4);
            lemma_suffix_transitive(rest.skip(4), rest, input);
        }
    }
}

/// Reading a map header leaves a suffix.
pub proof fn lemma_map_begin_consumes(input: Seq<u8>)
    ensures
        parse_map_begin(input) matches Ok((_, rest)) ==> is_suffix(rest, input) && rest.len()
            < input.len(),
{
    if input.len() >= 1 {
        lemma_skip_is_suffix(input, 1);
        let r1 = input.skip(1);
        if r1.len() >= 1 {
            lemma_skip_is_suffix(r1, 1);
            let r2 = r1.skip(1);
            lemma_suffix_transitive(r2, r1, input);
            if r2.len() >= 4 {
                lemma_skip_is_suffix(r2, 4);
                lemma_suffix_transitive(r2.skip(4), r2, input);
            }
        }
    }
}

/// Reading length-prefixed bytes leaves a suffix.
pub proof fn lemma_bytes_consumes(input: Seq<u8>)
    ensures
        parse_bytes(input) matches Ok((_, rest)) ==> is_suffix(rest, input) && rest.len()
            < input.len(),
{
    if input.len() >= 4 {
        lemma_skip_is_suffix(input, 4);
        let r1 = input.skip(4);
        match parse_bytes(input) {
            Ok((b, rest)) => {
                lemma_skip_is_suffix(r1, b.len() as int);
                lemma_suffix_transitive(rest, r1, input);
            },
            Err(_) => {},
        }
    }
}

/// Skipping only ever takes bytes from the front.
pub proof fn lemma_parse_skip_suffix(t: TType, input: Seq<u8>, depth: nat)
    ensures
        parse_skip(t, input, depth) matches Ok((_, rest)) ==> is_suffix(rest, input),
    decreases depth, 0nat, 0nat,
{
    if depth > 0 {
        match t {
            TType::Bool | TType::I8 => {
                if input.len() >= 1 {
                    lemma_skip_is_suffix(input, 1);
                }
            },
            TType::I16 => {
                if input.len() >= 2 {
                    lemma_skip_is_suffix(input, 2);
                }
            },
            TType::I32 => {
                if input.len() >= 4 {
                    lemma_skip_is_suffix(input, 4);
                }
            },
            TType::I64 | TType::Double => {
                if input.len() >= 8 {
                    lemma_skip_is_suffix(input, 8);
                }
            },
            TType::String => {
                lemma_bytes_consumes(input);
            },
            TType::Struct => {
                lemma_parse_skip_fields_suffix(input, (depth - 1) as nat);
            },
            TType::List | TType::SetOf => {
                lemma_list_begin_consumes(input);
                match parse_list_begin(input) {
                    Ok(((elem, n), rest)) => {
                        let count: nat = if n > 0 {
                            n as nat
                        } else {
                            0
                        };
                        lemma_parse_skip_items_suffix(elem, count, rest, (depth - 1) as nat);
                        match parse_skip_items(elem, count, rest, (depth - 1) as nat) {
                            Ok((_, rest2)) => lemma_suffix_transitive(rest2, rest, input),
                            Err(_) => {},
                        }
                    },
                    Err(_) => {},
                }
            },
            TType::MapOf => {
                lemma_map_begin_consumes(input);
                match parse_map_begin(input) {
                    Ok(((key, value, n), rest)) => {
                        let count: nat = if n > 0 {
                            n as nat
                        } else {
                            0
                        };
                        lemma_parse_skip_entries_suffix(
                            key,
                            value,
                            count,
                            rest,
                            (depth - 1) as nat,
                        );
                        match parse_skip_entries(key, value, count, rest, (depth - 1) as nat) {
                            Ok((_, rest2)) => lemma_suffix_transitive(rest2, rest, input),
                            Err(_) => {},
                        }
                    },
                    Err(_) => {},
                }
            },
            TType::Stop | TType::Void => {},
        }
    }
}

/// Skipping the fields of a struct only ever takes bytes from the front,
/// and at least the stop sentinel.
pub proof fn lemma_parse_skip_fields_suffix(input: Seq<u8>, depth: nat)
    ensures
        parse_skip_fields(input, depth) matches Ok((_, rest)) ==> is_suffix(rest, input)
            && rest.len() < input.len(),
    decreases depth, 1nat, input.len(),
{
    lemma_field_begin_consumes(input);
    match parse_field_begin(input) {
        Err(_) => {},
        Ok(((t, _), rest)) => {
            if t != TType::Stop {
                lemma_parse_skip_suffix(t, rest, depth);
                match parse_skip(t, rest, depth) {
                    Err(_) => {},
                    Ok((_, rest2)) => {
                        lemma_suffix_transitive(rest2, rest, input);
                        if rest2.len() < input.len() {
                            lemma_parse_skip_fields_suffix(rest2, depth);
                            match parse_skip_fields(rest2, depth) {
                                Ok((_, rest3)) => lemma_suffix_transitive(rest3, rest2, input),
                                Err(_) => {},
                            }
                        }
                    },
                }
            }
        },
    }
}

/// Skipping the elements of a list only ever takes bytes from the front.
pub proof fn lemma_parse_skip_items_suffix(elem: TType, count: nat, input: Seq<u8>, depth: nat)
    ensures
        parse_skip_items(elem, count, input, depth) matches Ok((_, rest)) ==> is_suffix(
            rest,
            input,
        ),
    decreases depth, 1 + count, 0nat,
{
    if count == 0 {
        lemma_skip_is_suffix(input, 0);
        assert(input.skip(0) =~= input);
    } else {
        lemma_parse_skip_suffix(elem, input, depth);
        match parse_skip(elem, input, depth) {
            Err(_) => {},
            Ok((_, rest)) => {
                lemma_parse_skip_items_suffix(elem, (count - 1) as nat, rest, depth);
                match parse_skip_items(elem, (count - 1) as nat, rest, depth) {
                    Ok((_, rest2)) => lemma_suffix_transitive(rest2, rest, input),
                    Err(_) => {},
                }
            },
        }
    }
}

/// Skipping the entries of a map only ever takes bytes from the front.
pub proof fn lemma_parse_skip_entries_suffix(
    key: TType,
    value: TType,
    count: nat,
    input: Seq<u8>,
    depth: nat,
)
    ensures
        parse_skip_entries(key, value, count, input, depth) matches Ok((_, rest)) ==> is_suffix(
            rest,
            input,
        ),
    decreases depth, 1 + count, 0nat,
{
    if count == 0 {
        lemma_skip_is_suffix(input, 0);
        assert(input.skip(0) =~= input);
    } else {
        lemma_parse_skip_suffix(key, input, depth);
        match parse_skip(key, input, depth) {
            Err(_) => {},
            Ok((_, rest)) => {
                lemma_parse_skip_suffix(value, rest, depth);
                match parse_skip(value, rest, depth) {
                    Err(_) => {},
                    Ok((_, rest2)) => {
                        lemma_suffix_transitive(rest2, rest, input);
                        lemma_parse_skip_entries_suffix(
                            key,
                            value,
                            (count - 1) as nat,
                            rest2,
                            depth,
                        );
                        match parse_skip_entries(key, value, (count - 1) as nat, rest2, depth) {
                            Ok((_, rest3)) => lemma_suffix_transitive(rest3, rest2, input),
                            Err(_) => {},
                        }
                    },
                }
            },
        }
    }
}

// ---------------------------------------------------------------------
// Reading back what was written
// ---------------------------------------------------------------------
/// Taking `image.len()` bytes from `image + rest` gives `image` and
/// leaves `rest`.
pub proof fn lemma_take_prefix(image: Seq<u8>, rest: Seq<u8>)
    ensures
        parse_take(image + rest, image.len()) == Ok::<(Seq<u8>, Seq<u8>), Fault>((image, rest)),
{
    let input = image + rest;
    assert(input.subrange(0, image.len() as int) =~= image);
    assert(input.skip(image.len() as int) =~= rest);
}

/// A boolean that is written and read again is the same, and the reader
/// stands behind it.
pub proof fn lemma_bool_roundtrip(b: bool, rest: Seq<u8>)
    ensures
        parse_bool(wire_bool(b) + rest) == Ok::<(bool, Seq<u8>), Fault>((b, rest)),
{
    lemma_take_prefix(wire_bool(b), rest);
}

/// A byte that is written and read again is the same.
pub proof fn lemma_byte_roundtrip(b: u8, rest: Seq<u8>)
    ensures
        parse_byte(wire_byte(b) + rest) == Ok::<(u8, Seq<u8>), Fault>((b, rest)),
{
    lemma_take_prefix(wire_byte(b), rest);
}

/// A signed 8-bit integer that is written and read again is the same.
pub proof fn lemma_i8_roundtrip(v: i8, rest: Seq<u8>)
    ensures
        parse_i8(wire_i8(v) + rest) == Ok::<(i8, Seq<u8>), Fault>((v, rest)),
{
    lemma_pow256_values();
    lemma_be_signed_roundtrip(v as int, 1);
    lemma_take_prefix(wire_i8(v), rest);
}

/// A signed 16-bit integer that is written and read again is the same.
pub proof fn lemma_i16_roundtrip(v: i16, rest: Seq<u8>)
    ensures
        parse_i16(wire_i16(v) + rest) == Ok::<(i16, Seq<u8>), Fault>((v, rest)),
{
    lemma_pow256_values();
    lemma_be_signed_roundtrip(v as int, 2);
    lemma_take_prefix(wire_i16(v), rest);
}

/// A signed 32-bit integer that is written and read again is the same.
pub proof fn lemma_i32_roundtrip(v: i32, rest: Seq<u8>)
    ensures
        parse_i32(wire_i32(v) + rest) == Ok::<(i32, Seq<u8>), Fault>((v, rest)),
{
    lemma_pow256_values();
    lemma_be_signed_roundtrip(v as int, 4);
    lemma_take_prefix(wire_i32(v), rest);
}

/// A signed 64-bit integer that is written and read again is the same.
pub proof fn lemma_i64_roundtrip(v: i64, rest: Seq<u8>)
    ensures
        parse_i64(wire_i64(v) + rest) == Ok::<(i64, Seq<u8>), Fault>((v, rest)),
{
    lemma_pow256_values();
    lemma_be_signed_roundtrip(v as int, 8);
    lemma_take_prefix(wire_i64(v), rest);
}

/// The bit pattern of a double that is written and read again is the
/// same.
pub proof fn lemma_double_roundtrip(bits: u64, rest: Seq<u8>)
    ensures
        parse_double_bits(wire_double_bits(bits) + rest) == Ok::<(u64, Seq<u8>), Fault>(
            (bits, rest),
        ),
{
    lemma_pow256_values();
    lemma_be_unsigned_roundtrip(bits as int, 8);
    lemma_take_prefix(wire_double_bits(bits), rest);
}

/// Raw bytes whose number fits the length prefix are read back as
/// written.
pub proof fn lemma_bytes_roundtrip(b: Seq<u8>, rest: Seq<u8>)
    requires
        b.len() <= 0x7fff_ffff,
    ensures
        parse_bytes(wire_bytes(b) + rest) == Ok::<(Seq<u8>, Seq<u8>), Fault>((b, rest)),
{
    let n = b.len() as i32;
    assert(wire_bytes(b) + rest =~= wire_i32(n) + (b + rest));
    lemma_i32_roundtrip(n, b + rest);
    lemma_take_prefix(b, rest);
}

/// A string whose UTF-8 form fits the length prefix is read back as
/// written.
pub proof fn lemma_string_roundtrip(s: Seq<char>, rest: Seq<u8>)
    requires
        encode_utf8(s).len() <= 0x7fff_ffff,
    ensures
        parse_string(wire_string(s) + rest) == Ok::<(Seq<char>, Seq<u8>), Fault>((s, rest)),
{
    lemma_bytes_roundtrip(encode_utf8(s), rest);
    encode_utf8_valid_utf8(s);
    encode_utf8_decode_utf8(s);
}

/// A type tag that is written and read again is the same.
pub proof fn lemma_ttype_roundtrip(t: TType, rest: Seq<u8>)
    ensures
        parse_ttype(seq![ttype_byte(t)] + rest) == Ok::<(TType, Seq<u8>), Fault>((t, rest)),
{
    lemma_take_prefix(seq![ttype_byte(t)], rest);
}

/// The header of a field other than the stop sentinel is read back as
/// written.
pub proof fn lemma_field_begin_roundtrip(t: TType, id: i16, rest: Seq<u8>)
    requires
        t != TType::Stop,
    ensures
        parse_field_begin(wire_field_begin(t, id) + rest) == Ok::<((TType, i16), Seq<u8>), Fault>(
            ((t, id), rest),
        ),
{
    assert(wire_field_begin(t, id) + rest =~= seq![ttype_byte(t)] + (wire_i16(id) + rest));
    lemma_ttype_roundtrip(t, wire_i16(id) + rest);
    lemma_i16_roundtrip(id, rest);
}

/// The stop sentinel is read back as the stop tag.
pub proof fn lemma_field_stop_roundtrip(rest: Seq<u8>)
    ensures
        parse_field_begin(wire_field_stop() + rest) == Ok::<((TType, i16), Seq<u8>), Fault>(
            ((TType::Stop, 0i16), rest),
        ),
{
    lemma_ttype_roundtrip(TType::Stop, rest);
}

/// The header of a list or a set is read back as written.
pub proof fn lemma_list_begin_roundtrip(t: TType, size: i32, rest: Seq<u8>)
    ensures
        parse_list_begin(wire_list_begin(t, size) + rest) == Ok::<((TType, i32), Seq<u8>), Fault>(
            ((t, size), rest),
        ),
{
    assert(wire_list_begin(t, size) + rest =~= seq![ttype_byte(t)] + (wire_i32(size) + rest));
    lemma_ttype_roundtrip(t, wire_i32(size) + rest);
    lemma_i32_roundtrip(size, rest);
}

/// The header of a map is read back as written.
pub proof fn lemma_map_begin_roundtrip(k: TType, v: TType, size: i32, rest: Seq<u8>)
    ensures
        parse_map_begin(wire_map_begin(k, v, size) + rest) == Ok::<
            ((TType, TType, i32), Seq<u8>),
            Fault,
        >(((k, v, size), rest)),
{
    let tail = seq![ttype_byte(v)] + (wire_i32(size) + rest);
    assert(wire_map_begin(k, v, size) + rest =~= seq![ttype_byte(k)] + tail);
    lemma_ttype_roundtrip(k, tail);
    lemma_ttype_roundtrip(v, wire_i32(size) + rest);
    lemma_i32_roundtrip(size, rest);
}

/// Every message type is recovered from its own byte.
pub proof fn lemma_message_type_byte_roundtrip(t: TMessageType)
    ensures
        message_type_of_byte(message_type_byte(t)) == Some(t),
{
}

/// A header written in strict mode is read back by a reader of either
/// mode.
pub proof fn lemma_strict_message_begin_roundtrip(
    strict_reader: bool,
    name: Seq<char>,
    message_type: TMessageType,
    sequence_number: i32,
    rest: Seq<u8>,
)
    requires
        encode_utf8(name).len() <= 0x7fff_ffff,
    ensures
        parse_message_begin(
            strict_reader,
            wire_message_begin(true, name, message_type, sequence_number) + rest,
        ) == Ok::<((Seq<char>, TMessageType, i32), Seq<u8>), Fault>(
            ((name, message_type, sequence_number), rest),
        ),
{
    let image = wire_message_begin(true, name, message_type, sequence_number);
    let head = seq![0x80u8, 0x01u8, 0x00u8, message_type_byte(message_type)];
    let tail = wire_string(name) + (wire_i32(sequence_number) + rest);
    assert(image + rest =~= head + tail);
    lemma_take_prefix(head, tail);
    assert(parse_take(image + rest, 4) == Ok::<(Seq<u8>, Seq<u8>), Fault>((head, tail)));
    lemma_message_type_byte_roundtrip(message_type);
    lemma_string_roundtrip(name, wire_i32(sequence_number) + rest);
    lemma_i32_roundtrip(sequence_number, rest);
}

/// A header written without the version word is read back by a lenient
/// reader.
pub proof fn lemma_lenient_message_begin_roundtrip(
    name: Seq<char>,
    message_type: TMessageType,
    sequence_number: i32,
    rest: Seq<u8>,
)
    requires
        encode_utf8(name).len() <= 0x7fff_ffff,
    ensures
        parse_message_begin(
            false,
            wire_message_begin(false, name, message_type, sequence_number) + rest,
        ) == Ok::<((Seq<char>, TMessageType, i32), Seq<u8>), Fault>(
            ((name, message_type, sequence_number), rest),
        ),
{
    let image = wire_message_begin(false, name, message_type, sequence_number);
    let input = image + rest;
    let after_type = wire_i32(sequence_number) + rest;
    let after_name = seq![message_type_byte(message_type)] + after_type;
    assert(input =~= wire_string(name) + after_name);
    lemma_string_roundtrip(name, after_name);
    lemma_take_prefix(seq![message_type_byte(message_type)], after_type);
    lemma_message_type_byte_roundtrip(message_type);
    assert(parse_message_type(after_name) == Ok::<(TMessageType, Seq<u8>), Fault>(
        (message_type, after_type),
    ));
    lemma_i32_roundtrip(sequence_number, rest);
    lemma_length_prefix_high_bit(encode_utf8(name).len() as i32);
    assert(input.subrange(0, 4) =~= wire_i32(encode_utf8(name).len() as i32));
}

/// The image of a number that is not negative has its high bit clear.
pub proof fn lemma_length_prefix_high_bit(n: i32)
    requires
        n >= 0,
    ensures
        wire_i32(n).len() == 4,
        wire_i32(n)[0] < 0x80,
{
    lemma_be_bytes_len(n as int, 4);
    lemma_pow256_values();
    lemma_be_bytes_first(n as int, 4);
    vstd::arithmetic::div_mod::lemma_small_mod(n as nat, pow256(4) as nat);
}

/// The header of a message is read back as written: by a reader of
/// either mode where it was written in strict mode, and by a lenient
/// reader where it was not.
pub proof fn lemma_message_begin_roundtrip(
    strict_writer: bool,
    strict_reader: bool,
    name: Seq<char>,
    message_type: TMessageType,
    sequence_number: i32,
    rest: Seq<u8>,
)
    requires
        encode_utf8(name).len() <= 0x7fff_ffff,
        strict_writer || !strict_reader,
    ensures
        parse_message_begin(
            strict_reader,
            wire_message_begin(strict_writer, name, message_type, sequence_number) + rest,
        ) == Ok::<((Seq<char>, TMessageType, i32), Seq<u8>), Fault>(
            ((name, message_type, sequence_number), rest),
        ),
{
    if strict_writer {
        lemma_strict_message_begin_roundtrip(
            strict_reader,
            name,
            message_type,
            sequence_number,
            rest,
        );
    } else {
        lemma_lenient_message_begin_roundtrip(name, message_type, sequence_number, rest);
    }
}

} // verus!
