//! Wire-level vocabulary of the Thrift binary protocol: type tags, message
//! kinds and the identifiers that introduce messages, fields and containers.

use vstd::prelude::*;

use crate::errors::{new_protocol_error, Error, ProtocolErrorKind};

verus! {

/// Tag that tells, on the wire, what kind of value follows.
#[derive(Clone, Copy, Debug, PartialEq, Eq, Structural)]
pub enum TType {
    Stop,
    Void,
    Bool,
    I8,
    Double,
    I16,
    I32,
    I64,
    String,
    Struct,
    MapOf,
    SetOf,
    List,
}

/// The byte that stands for a type tag on the wire.
pub open spec fn ttype_byte(t: TType) -> u8 {
    match t {
        TType::Stop => 0x00,
        TType::Void => 0x01,
        TType::Bool => 0x02,
        TType::I8 => 0x03,
        TType::Double => 0x04,
        TType::I16 => 0x06,
        TType::I32 => 0x08,
        TType::I64 => 0x0A,
        TType::String => 0x0B,
        TType::Struct => 0x0C,
        TType::MapOf => 0x0D,
        TType::SetOf => 0x0E,
        TType::List => 0x0F,
    }
}

/// The type tag that a wire byte stands for, if any.
pub open spec fn ttype_of_byte(b: u8) -> Option<TType> {
    if b == 0x00 {
        Some(TType::Stop)
    } else if b == 0x01 {
        Some(TType::Void)
    } else if b == 0x02 {
        Some(TType::Bool)
    } else if b == 0x03 {
        Some(TType::I8)
    } else if b == 0x04 {
        Some(TType::Double)
    } else if b == 0x06 {
        Some(TType::I16)
    } else if b == 0x08 {
        Some(TType::I32)
    } else if b == 0x0A {
        Some(TType::I64)
    } else if b == 0x0B {
        Some(TType::String)
    } else if b == 0x0C {
        Some(TType::Struct)
    } else if b == 0x0D {
        Some(TType::MapOf)
    } else if b == 0x0E {
        Some(TType::SetOf)
    } else if b == 0x0F {
        Some(TType::List)
    } else {
        None
    }
}

/// Every tag is recovered from its own byte.
pub proof fn lemma_ttype_byte_roundtrip(t: TType)
    ensures
        ttype_of_byte(ttype_byte(t)) == Some(t),
{
}

impl TType {
    /// The wire byte of this tag.
    pub fn to_u8(self) -> (b: u8)
        ensures
            b == ttype_byte(self),
    {
        match self {
            TType::Stop => 0x00,
            TType::Void => 0x01,
            TType::Bool => 0x02,
            TType::I8 => 0x03,
            TType::Double => 0x04,
            TType::I16 => 0x06,
            TType::I32 => 0x08,
            TType::I64 => 0x0A,
            TType::String => 0x0B,
            TType::Struct => 0x0C,
            TType::MapOf => 0x0D,
            TType::SetOf => 0x0E,
            TType::List => 0x0F,
        }
    }

    /// The name under which this tag appears in diagnostics.
    pub fn name(self) -> (s: &'static str)
        ensures
            s@ == ttype_name(self),
    {
        match self {
            TType::Stop => "STOP",
            TType::Void => "void",
            TType::Bool => "bool",
            TType::I8 => "i08",
            TType::Double => "double",
            TType::I16 => "i16",
            TType::I32 => "i32",
            TType::I64 => "i64",
            TType::String => "string",
            TType::Struct => "struct",
            TType::MapOf => "map",
            TType::SetOf => "set",
            TType::List => "list",
        }
    }
}

/// The diagnostic name of a tag.
pub open spec fn ttype_name(t: TType) -> Seq<char> {
    match t {
        TType::Stop => "STOP"@,
        TType::Void => "void"@,
        TType::Bool => "bool"@,
        TType::I8 => "i08"@,
        TType::Double => "double"@,
        TType::I16 => "i16"@,
        TType::I32 => "i32"@,
        TType::I64 => "i64"@,
        TType::String => "string"@,
        TType::Struct => "struct"@,
        TType::MapOf => "map"@,
        TType::SetOf => "set"@,
        TType::List => "list"@,
    }
}

/// Decodes a wire byte into a type tag; a byte that names no tag is
/// rejected as invalid data.
pub fn field_type_from_u8(b: u8) -> (r: Result<TType, Error>)
    ensures
        match ttype_of_byte(b) {
            Some(t) => r == Ok::<TType, Error>(t),
            None => r is Err && r->Err_0.fault() == crate::wire::bad_ttype(),
        },
{
    if b == 0x00 {
        Ok(TType::Stop)
    } else if b == 0x01 {
        Ok(TType::Void)
    } else if b == 0x02 {
        Ok(TType::Bool)
    } else if b == 0x03 {
        Ok(TType::I8)
    } else if b == 0x04 {
        Ok(TType::Double)
    } else if b == 0x06 {
        Ok(TType::I16)
    } else if b == 0x08 {
        Ok(TType::I32)
    } else if b == 0x0A {
        Ok(TType::I64)
    } else if b == 0x0B {
        Ok(TType::String)
    } else if b == 0x0C {
        Ok(TType::Struct)
    } else if b == 0x0D {
        Ok(TType::MapOf)
    } else if b == 0x0E {
        Ok(TType::SetOf)
    } else if b == 0x0F {
        Ok(TType::List)
    } else {
        Err(new_protocol_error(ProtocolErrorKind::InvalidData, "cannot convert byte to TType"))
    }
}

/// What a message is: a request, its answer, a failure report, or a
/// request that expects no answer.
#[derive(Clone, Copy, Debug, PartialEq, Eq, Structural)]
pub enum TMessageType {
    Call,
    Reply,
    Exception,
    OneWay,
}

/// The byte that stands for a message type on the wire.
pub open spec fn message_type_byte(t: TMessageType) -> u8 {
    match t {
        TMessageType::Call => 0x01,
        TMessageType::Reply => 0x02,
        TMessageType::Exception => 0x03,
        TMessageType::OneWay => 0x04,
    }
}

/// The message type that a wire byte stands for, if any.
pub open spec fn message_type_of_byte(b: u8) -> Option<TMessageType> {
    if b == 0x01 {
        Some(TMessageType::Call)
    } else if b == 0x02 {
        Some(TMessageType::Reply)
    } else if b == 0x03 {
        Some(TMessageType::Exception)
    } else if b == 0x04 {
        Some(TMessageType::OneWay)
    } else {
        None
    }
}

impl TMessageType {
    /// The wire byte of this message type.
    pub fn to_u8(self) -> (b: u8)
        ensures
            b == message_type_byte(self),
    {
        match self {
            TMessageType::Call => 0x01,
            TMessageType::Reply => 0x02,
            TMessageType::Exception => 0x03,
            TMessageType::OneWay => 0x04,
        }
    }

    /// Decodes a wire byte; a byte that names no message type is rejected
    /// as invalid data.
    pub fn try_from_u8(b: u8) -> (r: Result<TMessageType, Error>)
        ensures
            match message_type_of_byte(b) {
                Some(t) => r == Ok::<TMessageType, Error>(t),
                None => r is Err && r->Err_0.fault() == crate::wire::bad_message_type(),
            },
    {
        if b == 0x01 {
            Ok(TMessageType::Call)
        } else if b == 0x02 {
            Ok(TMessageType::Reply)
        } else if b == 0x03 {
            Ok(TMessageType::Exception)
        } else if b == 0x04 {
            Ok(TMessageType::OneWay)
        } else {
            Err(
                new_protocol_error(
                    ProtocolErrorKind::InvalidData,
                    "cannot convert byte to TMessageType",
                ),
            )
        }
    }
}

impl Default for TMessageType {
    fn default() -> (r: Self)
        ensures
            r == TMessageType::Call,
    {
        TMessageType::Call
    }
}

/// Header of a message: method name, kind and sequence number.
#[derive(Debug, PartialEq, Eq)]
pub struct TMessageIdentifier {
    pub name: String,
    pub message_type: TMessageType,
    pub sequence_number: i32,
}

impl TMessageIdentifier {
    pub fn new(name: String, message_type: TMessageType, sequence_number: i32) -> (r: Self)
        ensures
            r.name == name,
            r.message_type == message_type,
            r.sequence_number == sequence_number,
    {
        TMessageIdentifier { name, message_type, sequence_number }
    }
}

impl Clone for TMessageIdentifier {
    fn clone(&self) -> (r: Self)
        ensures
            r == *self,
    {
        TMessageIdentifier {
            name: self.name.clone(),
            message_type: self.message_type,
            sequence_number: self.sequence_number,
        }
    }
}

impl Default for TMessageIdentifier {
    fn default() -> (r: Self)
        ensures
            r.name@ == Seq::<char>::empty(),
            r.message_type == TMessageType::Call,
            r.sequence_number == 0,
    {
        TMessageIdentifier {
            name: String::new(),
            message_type: TMessageType::Call,
            sequence_number: 0,
        }
    }
}

/// Name of a struct; the binary protocol does not put it on the wire.
#[derive(Clone, Debug, PartialEq, Eq)]
pub struct TStructIdentifier {
    pub name: String,
}

impl TStructIdentifier {
    pub fn new(name: String) -> (r: Self)
        ensures
            r.name == name,
    {
        TStructIdentifier { name }
    }
}

/// Header of a field: only the type and the id travel on the wire.
#[derive(Clone, Debug, PartialEq, Eq)]
pub struct TFieldIdentifier {
    pub name: Option<String>,
    pub field_type: TType,
    pub id: Option<i16>,
}

impl TFieldIdentifier {
    pub fn new(name: Option<String>, field_type: TType, id: Option<i16>) -> (r: Self)
        ensures
            r.name == name,
            r.field_type == field_type,
            r.id == id,
    {
        TFieldIdentifier { name, field_type, id }
    }
}

/// Header of a list: element type and number of elements.
#[derive(Clone, Copy, Debug, PartialEq, Eq, Structural)]
pub struct TListIdentifier {
    pub element_type: TType,
    pub size: i32,
}

impl TListIdentifier {
    pub fn new(element_type: TType, size: i32) -> (r: Self)
        ensures
            r.element_type == element_type,
            r.size == size,
    {
        TListIdentifier { element_type, size }
    }
}

/// Header of a set: element type and number of elements.
#[derive(Clone, Copy, Debug, PartialEq, Eq, Structural)]
pub struct TSetIdentifier {
    pub element_type: TType,
    pub size: i32,
}

impl TSetIdentifier {
    pub fn new(element_type: TType, size: i32) -> (r: Self)
        ensures
            r.element_type == element_type,
            r.size == size,
    {
        TSetIdentifier { element_type, size }
    }
}

/// Header of a map: key type, value type and number of entries.
#[derive(Clone, Copy, Debug, PartialEq, Eq)]
pub struct TMapIdentifier {
    pub key_type: Option<TType>,
    pub value_type: Option<TType>,
    pub size: i32,
}

impl TMapIdentifier {
    pub fn new(key_type: TType, value_type: TType, size: i32) -> (r: Self)
        ensures
            r.key_type == Some(key_type),
            r.value_type == Some(value_type),
            r.size == size,
    {
        TMapIdentifier { key_type: Some(key_type), value_type: Some(value_type), size }
    }
}

} // verus!
