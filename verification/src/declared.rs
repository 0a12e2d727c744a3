//! Rust types that stand for declared types, and the codec that their
//! definitions induce for them.

use vstd::prelude::*;

use crate::binary::{TBinaryInputProtocol, TBinaryOutputProtocol};
use crate::context::{Header, MsgContext};
use crate::derive::{decode_content, encode_content};
use crate::errors::{Error, Fault};
use crate::roundtrip::{lemma_content_roundtrip, valid_registry};
use crate::schema::{image_content, parse_content, Registry, RegistryModel};
use crate::types::{FieldType, TypeModel};
use crate::value::{model_of, proper, Value, ValueModel};
use crate::wire::Parsed;

verus! {

// ---------------------------------------------------------------------
// Rust types for declared types
// ---------------------------------------------------------------------
/// A Rust type that stands for a declared type: it says which, and how
/// its values turn into values of that type and back.
pub trait Declared: Sized + DeepView {
    /// The named types that the descriptor may refer to.
    spec fn registry() -> RegistryModel;

    /// The ids within every definition of the registry are unambiguous.
    proof fn lemma_registry_valid()
        ensures
            valid_registry(Self::registry()),
    ;

    /// The named types that the descriptor may refer to.
    fn build_registry() -> (r: Registry)
        ensures
            r@ == Self::registry(),
    ;

    /// The descriptor of the declared type.
    spec fn descriptor() -> TypeModel;

    /// The value of the declared type that stands for `m`.
    spec fn value_of(m: Self::V) -> ValueModel;

    /// What a value of the declared type stands for. A value of another
    /// shape stands for defaults.
    spec fn of_value(v: ValueModel) -> Self::V;

    /// Turning into a value and back changes nothing.
    proof fn lemma_value_roundtrip(m: Self::V)
        ensures
            Self::of_value(Self::value_of(m)) == m,
    ;

    /// The descriptor of the declared type.
    fn field_type() -> (t: FieldType)
        ensures
            t@ == Self::descriptor(),
    ;

    /// This as a value of the declared type.
    fn to_value(&self) -> (v: Value)
        ensures
            model_of(v) == Self::value_of(self.deep_view()),
    ;

    /// What a value of the declared type stands for.
    fn from_value(v: &Value) -> (r: Self)
        ensures
            r.deep_view() == Self::of_value(model_of(*v)),
    ;
}

/// Why a value cannot be written; `None` where it can.
pub open spec fn declared_refusal<T: Declared>(m: T::V) -> Option<Fault> {
    match image_content(T::registry(), T::descriptor(), T::value_of(m)) {
        Ok(_) => None,
        Err(f) => Some(f),
    }
}

/// The bytes of a value on the wire.
pub open spec fn declared_wire<T: Declared>(m: T::V) -> Seq<u8> {
    image_content(T::registry(), T::descriptor(), T::value_of(m))->Ok_0
}

/// What a reader recovers from the front of `input`.
pub open spec fn declared_parse<T: Declared>(cx: Header, input: Seq<u8>) -> Parsed<T::V> {
    match parse_content(T::registry(), T::descriptor(), cx, input) {
        Ok((v, rest)) => Ok((T::of_value(v), rest)),
        Err(f) => Err(f),
    }
}

/// The value is proper: no element of a set and no key of a map occurs
/// twice in it.
pub open spec fn declared_proper<T: Declared>(m: T::V) -> bool {
    proper(T::value_of(m))
}

/// A proper value that can be written is read back as it was.
pub proof fn lemma_declared_roundtrip<T: Declared>(cx: Header, m: T::V, rest: Seq<u8>)
    requires
        declared_refusal::<T>(m) is None,
        declared_proper::<T>(m),
    ensures
        declared_parse::<T>(cx, declared_wire::<T>(m) + rest) == Ok::<(T::V, Seq<u8>), Fault>(
            (m, rest),
        ),
{
    T::lemma_registry_valid();
    lemma_content_roundtrip(T::registry(), T::descriptor(), cx, T::value_of(m), rest);
    T::lemma_value_roundtrip(m);
}

/// Writes a value of a declared type.
pub fn encode_declared<T: Declared>(
    value: &T,
    cx: &MsgContext,
    protocol: &mut TBinaryOutputProtocol<bytes::BytesMut>,
) -> (r: Result<(), Error>)
    ensures
        final(protocol).is_strict() == old(protocol).is_strict(),
        match declared_refusal::<T>(value.deep_view()) {
            None => r is Ok && final(protocol).written() == old(protocol).written()
                + declared_wire::<T>(value.deep_view()),
            Some(f) => r is Err && r->Err_0.fault() == f,
        },
{
    let reg = T::build_registry();
    let ty = T::field_type();
    let v = value.to_value();
    encode_content(&reg, &ty, &v, cx, protocol)
}

/// Reads a value of a declared type.
pub fn decode_declared<T: Declared>(
    cx: &MsgContext,
    protocol: &mut TBinaryInputProtocol<bytes::BytesMut>,
) -> (r: Result<T, Error>)
    ensures
        final(protocol).is_strict() == old(protocol).is_strict(),
        match declared_parse::<T>(cx.header(), old(protocol).remaining()) {
            Ok((m, rest)) => r is Ok && r->Ok_0.deep_view() == m && final(protocol).remaining()
                == rest,
            Err(f) => r is Err && r->Err_0.fault() == f,
        },
{
    let reg = T::build_registry();
    let ty = T::field_type();
    let v = decode_content(&reg, &ty, cx, protocol)?;
    Ok(T::from_value(&v))
}


} // verus!
