//! Fields: how a field appears in a struct, and as a parameter.

use vstd::prelude::*;
use vstd::string::*;

use crate::generator::code_gen::basic::{field_name, field_name_text};
use crate::generator::code_gen::types::{annotation_text, rust_type, rust_type_text};
use crate::text::{decimal, decimal_text};
use crate::thrift_parser::field::{Field, FieldModel};
verus! {

/// The id that annotates a field: that of the document cut to 16 bits, 0
/// where the document gives none.
pub open spec fn annotation_id(id: Option<i64>) -> i16 {
    match id {
        Some(i) => i as i16,
        None => 0,
    }
}

/// The `Option` of a Rust type.
pub open spec fn optional_text(t: Seq<char>) -> Seq<char> {
    "::std::option::Option< "@ + t + " >"@
}

/// The `Option` of a Rust type.
pub fn optional(t: &str) -> (r: String)
    ensures
        r@ == optional_text(t@),
{
    let mut s = String::from_str("::std::option::Option< ");
    s.append(t);
    s.append(" >");
    s
}

/// What the annotation of a field says of its requirement.
pub open spec fn requirement_text(required: Option<bool>) -> Seq<char> {
    match required {
        None => ""@,
        Some(true) => "required = \"true\", "@,
        Some(false) => "required = \"false\", "@,
    }
}

/// A field of a struct in source text: its annotation, with the field
/// id, the requirement where the document states one, and the descriptor
/// of the type; then the public field, optional unless it is required.
pub open spec fn struct_field_text(f: FieldModel) -> Seq<char> {
    "#[mini_lust(field_id = "@ + decimal_text(annotation_id(f.id) as int) + "i16, "@
        + requirement_text(f.required) + "field_type = \""@ + annotation_text(f.type_)
        + "\")] pub "@ + field_name_text(f.name) + ": "@ + (if f.required != Some(true) {
        optional_text(rust_type_text(f.type_))
    } else {
        rust_type_text(f.type_)
    }) + " ,"@
}

/// A field as a parameter in source text: its name and type. In the
/// client's methods a field is optional where the document says so; in
/// the handler's methods it is optional unless the document says
/// `required`.
pub open spec fn name_type_text(f: FieldModel, is_encode: bool) -> Seq<char> {
    field_name_text(f.name) + ": "@ + (if f.required == Some(false) || (f.required is None
        && !is_encode) {
        optional_text(rust_type_text(f.type_))
    } else {
        rust_type_text(f.type_)
    }) + " ,"@
}

/// The id that annotates a field.
pub fn field_id(f: &Field) -> (r: i16)
    ensures
        r == annotation_id(f.deep_view().id),
{
    match f.id {
        Some(i) => #[verifier::truncate]
        (i.0 as i16),
        None => 0,
    }
}

/// A field of a struct in source text.
pub fn gen_for_struct(f: &Field) -> (r: String)
    ensures
        r@ == struct_field_text(f.deep_view()),
{
    let name = field_name(&f.name);
    let plain = rust_type(&f.type_);
    let type_ = match f.required {
        Some(true) => plain,
        _ => optional(plain.as_str()),
    };
    let id = decimal(field_id(f) as i64);
    let annotation_type = crate::generator::code_gen::types::format(&f.type_);
    let mut s = String::from_str("#[mini_lust(field_id = ");
    s.append(id.as_str());
    s.append("i16, ");
    match f.required {
        None => {
            s.append("");
        },
        Some(true) => {
            s.append("required = \"true\", ");
        },
        Some(false) => {
            s.append("required = \"false\", ");
        },
    }
    s.append("field_type = \"");
    s.append(annotation_type.as_str());
    s.append("\")] pub ");
    s.append(name.as_str());
    s.append(": ");
    s.append(type_.as_str());
    s.append(" ,");
    s
}

/// A field as a parameter in source text.
pub fn gen_name_type(f: &Field, is_encode: bool) -> (r: String)
    ensures
        r@ == name_type_text(f.deep_view(), is_encode),
{
    let mut s = field_name(&f.name);
    let plain = rust_type(&f.type_);
    let type_ = match f.required {
        Some(false) => optional(plain.as_str()),
        None => if !is_encode {
            optional(plain.as_str())
        } else {
            plain
        },
        Some(true) => plain,
    };
    s.append(": ");
    s.append(type_.as_str());
    s.append(" ,");
    s
}

} // verus!
