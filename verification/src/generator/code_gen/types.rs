//! Types: how the types of a document appear in source text, and in the
//! descriptors that annotate fields.

use vstd::prelude::*;
use vstd::string::*;

use crate::generator::code_gen::basic::{struct_name, struct_name_text};
use crate::thrift_parser::types::{field_type_model, FieldType, FieldTypeModel};
use crate::types::{descriptor_text, TypeModel};

verus! {

/// The Rust type that stands for a type of the document.
pub open spec fn rust_type_text(t: FieldTypeModel) -> Seq<char>
    decreases t,
{
    match t {
        FieldTypeModel::Identifier(name) => struct_name_text(name),
        FieldTypeModel::Bool => "bool"@,
        FieldTypeModel::Byte => "u8"@,
        FieldTypeModel::I8 => "i8"@,
        FieldTypeModel::I16 => "i16"@,
        FieldTypeModel::I32 => "i32"@,
        FieldTypeModel::I64 => "i64"@,
        FieldTypeModel::Double => "f64"@,
        FieldTypeModel::String => "::std::string::String"@,
        FieldTypeModel::Binary => "::std::vec::Vec<u8>"@,
        FieldTypeModel::MapOf(k, v) => "::std::collections::BTreeMap< "@ + rust_type_text(*k)
            + " , "@ + rust_type_text(*v) + " >"@,
        FieldTypeModel::SetOf(v) => "::std::collections::BTreeSet< "@ + rust_type_text(*v)
            + " >"@,
        FieldTypeModel::List(v) => "::std::vec::Vec< "@ + rust_type_text(*v) + " >"@,
    }
}

/// The Rust type that stands for what a function returns: the unit type
/// for `void`.
pub open spec fn return_type_text(t: Option<FieldTypeModel>) -> Seq<char> {
    match t {
        Some(t) => rust_type_text(t),
        None => "()"@,
    }
}

/// The Rust type that stands for a type of the document.
pub fn rust_type(t: &FieldType) -> (r: String)
    ensures
        r@ == rust_type_text(field_type_model(*t)),
    decreases *t,
{
    match t {
        FieldType::Identifier(ident) => struct_name(ident),
        FieldType::Bool => String::from_str("bool"),
        FieldType::Byte => String::from_str("u8"),
        FieldType::I8 => String::from_str("i8"),
        FieldType::I16 => String::from_str("i16"),
        FieldType::I32 => String::from_str("i32"),
        FieldType::I64 => String::from_str("i64"),
        FieldType::Double => String::from_str("f64"),
        FieldType::String => String::from_str("::std::string::String"),
        FieldType::Binary => String::from_str("::std::vec::Vec<u8>"),
        FieldType::MapOf(k, v) => {
            let mut s = String::from_str("::std::collections::BTreeMap< ");
            let kt = rust_type(k);
            s.append(kt.as_str());
            s.append(" , ");
            let vt = rust_type(v);
            s.append(vt.as_str());
            s.append(" >");
            s
        },
        FieldType::SetOf(v) => {
            let mut s = String::from_str("::std::collections::BTreeSet< ");
            let vt = rust_type(v);
            s.append(vt.as_str());
            s.append(" >");
            s
        },
        FieldType::List(v) => {
            let mut s = String::from_str("::std::vec::Vec< ");
            let vt = rust_type(v);
            s.append(vt.as_str());
            s.append(" >");
            s
        },
    }
}

/// The Rust type that stands for what a function returns.
pub fn return_type(t: &Option<FieldType>) -> (r: String)
    ensures
        r@ == return_type_text(
            match *t {
                Some(t) => Some(field_type_model(t)),
                None => None,
            },
        ),
{
    match t {
        None => String::from_str("()"),
        Some(t) => rust_type(t),
    }
}

/// The descriptor that stands for a type of the document.
pub open spec fn descriptor_model(t: FieldTypeModel) -> TypeModel
    decreases t,
{
    match t {
        FieldTypeModel::Identifier(name) => TypeModel::Ident(name),
        FieldTypeModel::Bool => TypeModel::Bool,
        FieldTypeModel::Byte => TypeModel::Byte,
        FieldTypeModel::I8 => TypeModel::I8,
        FieldTypeModel::I16 => TypeModel::I16,
        FieldTypeModel::I32 => TypeModel::I32,
        FieldTypeModel::I64 => TypeModel::I64,
        FieldTypeModel::Double => TypeModel::Double,
        FieldTypeModel::String => TypeModel::String,
        FieldTypeModel::Binary => TypeModel::Binary,
        FieldTypeModel::MapOf(k, v) => TypeModel::MapOf(
            Box::new(descriptor_model(*k)),
            Box::new(descriptor_model(*v)),
        ),
        FieldTypeModel::SetOf(v) => TypeModel::SetOf(Box::new(descriptor_model(*v))),
        FieldTypeModel::List(v) => TypeModel::List(Box::new(descriptor_model(*v))),
    }
}

/// The descriptor that stands for a type of the document.
pub fn descriptor(t: &FieldType) -> (r: crate::types::FieldType)
    ensures
        r@ == descriptor_model(field_type_model(*t)),
    decreases *t,
{
    match t {
        FieldType::Identifier(ident) => crate::types::FieldType::Ident(ident.0.clone()),
        FieldType::Bool => crate::types::FieldType::Bool,
        FieldType::Byte => crate::types::FieldType::Byte,
        FieldType::I8 => crate::types::FieldType::I8,
        FieldType::I16 => crate::types::FieldType::I16,
        FieldType::I32 => crate::types::FieldType::I32,
        FieldType::I64 => crate::types::FieldType::I64,
        FieldType::Double => crate::types::FieldType::Double,
        FieldType::String => crate::types::FieldType::String,
        FieldType::Binary => crate::types::FieldType::Binary,
        FieldType::MapOf(k, v) => crate::types::FieldType::MapOf(
            Box::new(descriptor(k)),
            Box::new(descriptor(v)),
        ),
        FieldType::SetOf(v) => crate::types::FieldType::SetOf(Box::new(descriptor(v))),
        FieldType::List(v) => crate::types::FieldType::List(Box::new(descriptor(v))),
    }
}

/// The text of the descriptor that stands for a type of the document.
pub open spec fn annotation_text(t: FieldTypeModel) -> Seq<char> {
    descriptor_text(descriptor_model(t))
}

/// The text of the descriptor that stands for a type of the document.
pub fn format(t: &FieldType) -> (r: String)
    ensures
        r@ == annotation_text(field_type_model(*t)),
{
    descriptor(t).format()
}

} // verus!
