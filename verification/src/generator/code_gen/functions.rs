//! Functions: what a function of a service contributes to the source
//! text — its argument struct and result enum, its method of the client,
//! its method of the handler, and its arm of the server.

use vstd::prelude::*;
use vstd::string::*;

use crate::generator::code_gen::basic::{field_name, field_name_text};
use crate::generator::code_gen::errors::{CodeGenError, CodeGenResult};
use crate::generator::code_gen::field::{
    annotation_id, field_id, gen_for_struct, gen_name_type, name_type_text, struct_field_text,
};
use crate::generator::code_gen::types::{return_type, return_type_text, rust_type, rust_type_text};
use crate::text::{decimal, decimal_text};
use crate::thrift_parser::field::{Field, FieldModel};
use crate::thrift_parser::functions::{Function, FunctionModel};

verus! {

/// The derives of every emitted type.
pub open spec fn derive_text() -> Seq<char> {
    "#[derive(::mini_lust_macros::Message, Debug, Clone, PartialEq)]"@
}

/// The name of an emitted type of a service: `Anonymous`, the service,
/// the function, and what the type is.
pub open spec fn anonymous_name_text(service: Seq<char>, function: Seq<char>, what: Seq<char>)
    -> Seq<char> {
    "Anonymous"@ + service + function + what
}

/// The name of an emitted type of a service.
pub fn anonymous_name(service: &str, function: &str, what: &str) -> (r: String)
    ensures
        r@ == anonymous_name_text(service@, function@, what@),
{
    let mut s = String::from_str("Anonymous");
    s.append(service);
    s.append(function);
    s.append(what);
    s
}

/// The first `n` fields as fields of a struct, each with a space behind
/// it.
pub open spec fn struct_fields_text(fields: Seq<FieldModel>, n: int) -> Seq<char>
    decreases n,
{
    if n <= 0 || n > fields.len() {
        Seq::empty()
    } else {
        struct_fields_text(fields, n - 1) + struct_field_text(fields[n - 1]) + " "@
    }
}

/// The fields as fields of a struct.
pub fn struct_fields(fields: &Vec<Field>) -> (r: String)
    ensures
        r@ == struct_fields_text(fields.deep_view(), fields.len() as int),
{
    let mut s = String::new();
    let mut i: usize = 0;
    while i < fields.len()
        invariant
            i <= fields.len(),
            s@ == struct_fields_text(fields.deep_view(), i as int),
        decreases fields.len() - i,
    {
        let f = gen_for_struct(&fields[i]);
        s.append(f.as_str());
        s.append(" ");
        i = i + 1;
    }
    s
}

/// The first `n` fields as parameters, each with a space behind it.
pub open spec fn parameters_text(fields: Seq<FieldModel>, is_encode: bool, n: int) -> Seq<char>
    decreases n,
{
    if n <= 0 || n > fields.len() {
        Seq::empty()
    } else {
        parameters_text(fields, is_encode, n - 1) + name_type_text(fields[n - 1], is_encode)
            + " "@
    }
}

/// The fields as parameters.
pub fn parameters(fields: &Vec<Field>, is_encode: bool) -> (r: String)
    ensures
        r@ == parameters_text(fields.deep_view(), is_encode, fields.len() as int),
{
    let mut s = String::new();
    let mut i: usize = 0;
    while i < fields.len()
        invariant
            i <= fields.len(),
            s@ == parameters_text(fields.deep_view(), is_encode, i as int),
        decreases fields.len() - i,
    {
        let f = gen_name_type(&fields[i], is_encode);
        s.append(f.as_str());
        s.append(" ");
        i = i + 1;
    }
    s
}

/// The assignment of a parameter to the field of the argument struct:
/// wrapped in `Some` where the document leaves the requirement open.
pub open spec fn assignment_text(f: FieldModel) -> Seq<char> {
    if f.required is None {
        field_name_text(f.name) + ": Some("@ + field_name_text(f.name) + "),"@
    } else {
        field_name_text(f.name) + ","@
    }
}

/// The assignments of the first `n` parameters.
pub open spec fn assignments_text(fields: Seq<FieldModel>, n: int) -> Seq<char>
    decreases n,
{
    if n <= 0 || n > fields.len() {
        Seq::empty()
    } else {
        assignments_text(fields, n - 1) + assignment_text(fields[n - 1]) + " "@
    }
}

/// The assignments of the parameters to the fields of the argument
/// struct.
pub fn assignments(fields: &Vec<Field>) -> (r: String)
    ensures
        r@ == assignments_text(fields.deep_view(), fields.len() as int),
{
    let mut s = String::new();
    let mut i: usize = 0;
    while i < fields.len()
        invariant
            i <= fields.len(),
            s@ == assignments_text(fields.deep_view(), i as int),
        decreases fields.len() - i,
    {
        let mut a = field_name(&fields[i].name);
        if fields[i].required.is_none() {
            let name = field_name(&fields[i].name);
            a.append(": Some(");
            a.append(name.as_str());
            a.append("),");
        } else {
            a.append(",");
        }
        s.append(a.as_str());
        s.append(" ");
        i = i + 1;
    }
    s
}

/// The first `n` parameters as the handler receives them from the
/// argument struct `r`, with commas between them.
pub open spec fn forwarded_text(fields: Seq<FieldModel>, n: int) -> Seq<char>
    decreases n,
{
    if n <= 0 || n > fields.len() {
        Seq::empty()
    } else if n == 1 {
        "r."@ + field_name_text(fields[0].name)
    } else {
        forwarded_text(fields, n - 1) + ", r."@ + field_name_text(fields[n - 1].name)
    }
}

/// The parameters as the handler receives them from the argument struct.
pub fn forwarded(fields: &Vec<Field>) -> (r: String)
    ensures
        r@ == forwarded_text(fields.deep_view(), fields.len() as int),
{
    let mut s = String::new();
    let mut i: usize = 0;
    while i < fields.len()
        invariant
            i <= fields.len(),
            s@ == forwarded_text(fields.deep_view(), i as int),
        decreases fields.len() - i,
    {
        let name = field_name(&fields[i].name);
        if i == 0 {
            s.append("r.");
            assert(Seq::<char>::empty() + "r."@ =~= "r."@);
        } else {
            s.append(", r.");
        }
        s.append(name.as_str());
        i = i + 1;
    }
    s
}

/// Whether each of the first `n` exceptions has a field id.
pub open spec fn have_ids(fields: Seq<FieldModel>, n: int) -> bool {
    forall|i: int| 0 <= i < n && i < fields.len() ==> (#[trigger] fields[i]).id is Some
}

/// An exception as a variant of the result enum.
pub open spec fn exception_variant_text(f: FieldModel) -> Seq<char> {
    "#[mini_lust(field_id = "@ + decimal_text(annotation_id(f.id) as int) + "i16)] "@ + f.name
        + "( "@ + rust_type_text(f.type_) + " ),"@
}

/// The first `n` exceptions as variants, each with a space behind it.
pub open spec fn exception_variants_text(fields: Seq<FieldModel>, n: int) -> Seq<char>
    decreases n,
{
    if n <= 0 || n > fields.len() {
        Seq::empty()
    } else {
        exception_variants_text(fields, n - 1) + exception_variant_text(fields[n - 1]) + " "@
    }
}

/// The exceptions as variants of the result enum. An exception without a
/// field id is refused.
pub fn exception_variants(fields: &Vec<Field>) -> (r: CodeGenResult<String>)
    ensures
        have_ids(fields.deep_view(), fields.len() as int) ==> r is Ok && r->Ok_0@
            == exception_variants_text(fields.deep_view(), fields.len() as int),
        !have_ids(fields.deep_view(), fields.len() as int) ==> r == Err::<String, CodeGenError>(
            CodeGenError::MissingExceptionId,
        ),
{
    let mut s = String::new();
    let mut i: usize = 0;
    while i < fields.len()
        invariant
            i <= fields.len(),
            have_ids(fields.deep_view(), i as int),
            s@ == exception_variants_text(fields.deep_view(), i as int),
        decreases fields.len() - i,
    {
        if fields[i].id.is_none() {
            assert(fields.deep_view()[i as int].id is None);
            return Err(CodeGenError::MissingExceptionId);
        }
        let id = decimal(field_id(&fields[i]) as i64);
        let type_ = rust_type(&fields[i].type_);
        let mut v = String::from_str("#[mini_lust(field_id = ");
        v.append(id.as_str());
        v.append("i16)] ");
        v.append(fields[i].name.as_str());
        v.append("( ");
        v.append(type_.as_str());
        v.append(" ),");
        s.append(v.as_str());
        s.append(" ");
        i = i + 1;
    }
    Ok(s)
}

/// The exceptions that a function throws; none where it has no `throws`
/// clause.
pub open spec fn thrown(f: FunctionModel) -> Seq<FieldModel> {
    match f.exceptions {
        Some(e) => e,
        None => Seq::empty(),
    }
}

/// The argument struct of a function: its parameters as fields.
pub open spec fn args_struct_text(service: Seq<char>, f: FunctionModel) -> Seq<char> {
    derive_text() + " pub struct "@ + anonymous_name_text(service, f.name, "Args"@) + " { "@
        + struct_fields_text(f.parameters, f.parameters.len() as int)
        + "} impl ::mini_lust_chap6::OrigType for "@ + anonymous_name_text(
        service,
        f.name,
        "Args"@,
    ) + " {}"@
}

/// The result enum of a function: `Success` with what the function
/// returns, under field id 1, and one variant for each exception.
pub open spec fn result_enum_text(service: Seq<char>, f: FunctionModel) -> Seq<char> {
    derive_text() + " pub enum "@ + anonymous_name_text(service, f.name, "Result"@)
        + " { #[mini_lust(field_id = 1)] Success( "@ + return_type_text(f.returns) + " ), "@
        + exception_variants_text(thrown(f), thrown(f).len() as int)
        + "} impl ::mini_lust_chap6::OrigType for "@ + anonymous_name_text(
        service,
        f.name,
        "Result"@,
    ) + " {}"@
}

/// What a function contributes as types: its argument struct, and its
/// result enum unless it is one-way.
pub open spec fn anonymous_text(service: Seq<char>, f: FunctionModel) -> Seq<char> {
    if f.oneway {
        args_struct_text(service, f)
    } else {
        args_struct_text(service, f) + " "@ + result_enum_text(service, f)
    }
}

/// Whether the function can be turned into code: each exception of a
/// function that answers has a field id.
pub open spec fn generable(f: FunctionModel) -> bool {
    f.oneway || have_ids(thrown(f), thrown(f).len() as int)
}

/// The method of the client for a one-way function: it wraps the
/// parameters into the request of the function and sends it; no answer is
/// awaited and nothing is returned.
pub open spec fn oneway_method_text(service: Seq<char>, f: FunctionModel) -> Seq<char> {
    "pub async fn "@ + f.name + "( &mut self, "@ + parameters_text(
        f.parameters,
        true,
        f.parameters.len() as int,
    ) + ") -> ::mini_lust_chap6::Result< () > { let anonymous_request = "@ + anonymous_name_text(
        service,
        ""@,
        "Request"@,
    ) + "::"@ + f.name + "( "@ + anonymous_name_text(service, f.name, "Args"@) + " { "@
        + assignments_text(f.parameters, f.parameters.len() as int)
        + "}); self.inner_client.oneway(\""@ + f.name + "\", anonymous_request).await }"@
}

/// The method of the client for a function that answers: it wraps the
/// parameters into the request of the function, calls, and unwraps the
/// response.
pub open spec fn call_method_text(service: Seq<char>, f: FunctionModel) -> Seq<char> {
    "pub async fn "@ + f.name + "( &mut self, "@ + parameters_text(
        f.parameters,
        true,
        f.parameters.len() as int,
    ) + ") -> ::mini_lust_chap6::Result< "@ + anonymous_name_text(service, f.name, "Result"@)
        + " > { let anonymous_request = "@ + anonymous_name_text(service, ""@, "Request"@) + "::"@
        + f.name + "( "@ + anonymous_name_text(service, f.name, "Args"@) + " { "@
        + assignments_text(f.parameters, f.parameters.len() as int)
        + "}); let resp = self.inner_client.call(\""@ + f.name
        + "\", anonymous_request).await?; #[allow(irrefutable_let_patterns)] if let "@
        + anonymous_name_text(service, ""@, "Response"@) + "::"@ + f.name
        + "(r) = resp { return Ok(r); } Err(::mini_lust_chap6::new_application_error( ::mini_lust_chap6::ApplicationErrorKind::Unknown, \"unable to get response\", )) }"@
}

/// The method of the client for a function: one that sends and awaits
/// nothing for a one-way function, one that calls and unwraps the
/// response for any other.
pub open spec fn client_method_text(service: Seq<char>, f: FunctionModel) -> Seq<char> {
    if f.oneway {
        oneway_method_text(service, f)
    } else {
        call_method_text(service, f)
    }
}

/// The method of the handler for a function. It gives the result enum of
/// the function, and nothing for a one-way function, which has none.
pub open spec fn trait_method_text(service: Seq<char>, f: FunctionModel) -> Seq<char> {
    let head = "async fn "@ + f.name + "( &self, "@ + parameters_text(
        f.parameters,
        false,
        f.parameters.len() as int,
    );
    if f.oneway {
        head + ") -> ::mini_lust_chap6::ApplicationResult< () >;"@
    } else {
        head + ") -> ::mini_lust_chap6::ApplicationResult< "@ + anonymous_name_text(
            service,
            f.name,
            "Result"@,
        ) + " >;"@
    }
}

/// The arm of the server for a function: it hands the arguments to the
/// handler, and answers with a reply or an exception; for a one-way
/// function it answers nothing.
pub open spec fn server_arm_text(service: Seq<char>, f: FunctionModel) -> Seq<char> {
    let head = "Ok("@ + anonymous_name_text(service, ""@, "Request"@) + "::"@ + f.name
        + "(r)) => { let ret = inner."@ + f.name + "("@ + forwarded_text(
        f.parameters,
        f.parameters.len() as int,
    ) + ").await; "@;
    if f.oneway {
        head + "Ok(None) }"@
    } else {
        head
            + "match ret { Ok(r) => { cx.identifier.message_type = ::mini_lust_chap6::TMessageType::Reply; Ok(Some((cx, Ok("@
            + anonymous_name_text(service, ""@, "Response"@) + "::"@ + f.name
            + "(r))))) } Err(e) => { cx.identifier.message_type = ::mini_lust_chap6::TMessageType::Exception; Ok(Some((cx, Err(e)))) } } }"@
    }
}

/// The argument struct of a function.
pub fn args_struct(f: &Function, service: &str) -> (r: String)
    ensures
        r@ == args_struct_text(service@, f.deep_view()),
{
    let name = anonymous_name(service, f.name.as_str(), "Args");
    let fields = struct_fields(&f.parameters);
    let mut s = String::from_str(
        "#[derive(::mini_lust_macros::Message, Debug, Clone, PartialEq)]",
    );
    s.append(" pub struct ");
    s.append(name.as_str());
    s.append(" { ");
    s.append(fields.as_str());
    s.append("} impl ::mini_lust_chap6::OrigType for ");
    s.append(name.as_str());
    s.append(" {}");
    s
}

/// The result enum of a function. An exception without a field id is
/// refused.
pub fn result_enum(f: &Function, service: &str) -> (r: CodeGenResult<String>)
    ensures
        have_ids(thrown(f.deep_view()), thrown(f.deep_view()).len() as int) ==> r is Ok
            && r->Ok_0@ == result_enum_text(service@, f.deep_view()),
        !have_ids(thrown(f.deep_view()), thrown(f.deep_view()).len() as int) ==> r == Err::<
            String,
            CodeGenError,
        >(CodeGenError::MissingExceptionId),
{
    let name = anonymous_name(service, f.name.as_str(), "Result");
    let ret = return_type(&f.returns);
    let exps = match &f.exceptions {
        Some(e) => exception_variants(e)?,
        None => {
            assert(exception_variants_text(Seq::empty(), 0) =~= Seq::<char>::empty());
            String::new()
        },
    };
    let mut s = String::from_str(
        "#[derive(::mini_lust_macros::Message, Debug, Clone, PartialEq)]",
    );
    s.append(" pub enum ");
    s.append(name.as_str());
    s.append(" { #[mini_lust(field_id = 1)] Success( ");
    s.append(ret.as_str());
    s.append(" ), ");
    s.append(exps.as_str());
    s.append("} impl ::mini_lust_chap6::OrigType for ");
    s.append(name.as_str());
    s.append(" {}");
    Ok(s)
}

/// What a function contributes as types.
pub fn anonymous(f: &Function, service: &str) -> (r: CodeGenResult<String>)
    ensures
        generable(f.deep_view()) ==> r is Ok && r->Ok_0@ == anonymous_text(
            service@,
            f.deep_view(),
        ),
        !generable(f.deep_view()) ==> r == Err::<String, CodeGenError>(
            CodeGenError::MissingExceptionId,
        ),
{
    let mut s = args_struct(f, service);
    if !f.oneway {
        let e = result_enum(f, service)?;
        s.append(" ");
        s.append(e.as_str());
    }
    Ok(s)
}

/// The method of the client for a function.
pub fn impl_for_client(f: &Function, service: &str) -> (r: String)
    ensures
        r@ == client_method_text(service@, f.deep_view()),
{
    let anonymous_args = anonymous_name(service, f.name.as_str(), "Args");
    let anonymous_result = anonymous_name(service, f.name.as_str(), "Result");
    let anonymous_request = anonymous_name(service, "", "Request");
    let anonymous_response = anonymous_name(service, "", "Response");
    let named_parameters = parameters(&f.parameters, true);
    let assigned = assignments(&f.parameters);
    let mut s = String::from_str("pub async fn ");
    s.append(f.name.as_str());
    s.append("( &mut self, ");
    s.append(named_parameters.as_str());
    if f.oneway {
        s.append(") -> ::mini_lust_chap6::Result< () > { let anonymous_request = ");
        s.append(anonymous_request.as_str());
        s.append("::");
        s.append(f.name.as_str());
        s.append("( ");
        s.append(anonymous_args.as_str());
        s.append(" { ");
        s.append(assigned.as_str());
        s.append("}); self.inner_client.oneway(\"");
        s.append(f.name.as_str());
        s.append("\", anonymous_request).await }");
        return s;
    }
    s.append(") -> ::mini_lust_chap6::Result< ");
    s.append(anonymous_result.as_str());
    s.append(" > { let anonymous_request = ");
    s.append(anonymous_request.as_str());
    s.append("::");
    s.append(f.name.as_str());
    s.append("( ");
    s.append(anonymous_args.as_str());
    s.append(" { ");
    s.append(assigned.as_str());
    s.append("}); let resp = self.inner_client.call(\"");
    s.append(f.name.as_str());
    s.append("\", anonymous_request).await?; #[allow(irrefutable_let_patterns)] if let ");
    s.append(anonymous_response.as_str());
    s.append("::");
    s.append(f.name.as_str());
    s.append(
        "(r) = resp { return Ok(r); } Err(::mini_lust_chap6::new_application_error( ::mini_lust_chap6::ApplicationErrorKind::Unknown, \"unable to get response\", )) }",
    );
    s
}

/// The method of the handler for a function.
pub fn fn_for_trait(f: &Function, service: &str) -> (r: String)
    ensures
        r@ == trait_method_text(service@, f.deep_view()),
{
    let fields = parameters(&f.parameters, false);
    let anonymous_result = anonymous_name(service, f.name.as_str(), "Result");
    let mut s = String::from_str("async fn ");
    s.append(f.name.as_str());
    s.append("( &self, ");
    s.append(fields.as_str());
    if f.oneway {
        s.append(") -> ::mini_lust_chap6::ApplicationResult< () >;");
        return s;
    }
    s.append(") -> ::mini_lust_chap6::ApplicationResult< ");
    s.append(anonymous_result.as_str());
    s.append(" >;");
    s
}

/// The arm of the server for a function.
pub fn server_match_arm(f: &Function, service: &str) -> (r: String)
    ensures
        r@ == server_arm_text(service@, f.deep_view()),
{
    let anonymous_request = anonymous_name(service, "", "Request");
    let anonymous_response = anonymous_name(service, "", "Response");
    let r_parameters = forwarded(&f.parameters);
    let mut s = String::from_str("Ok(");
    s.append(anonymous_request.as_str());
    s.append("::");
    s.append(f.name.as_str());
    s.append("(r)) => { let ret = inner.");
    s.append(f.name.as_str());
    s.append("(");
    s.append(r_parameters.as_str());
    s.append(").await; ");
    if f.oneway {
        s.append("Ok(None) }");
        return s;
    }
    s.append(
        "match ret { Ok(r) => { cx.identifier.message_type = ::mini_lust_chap6::TMessageType::Reply; Ok(Some((cx, Ok(",
    );
    s.append(anonymous_response.as_str());
    s.append("::");
    s.append(f.name.as_str());
    s.append(
        "(r))))) } Err(e) => { cx.identifier.message_type = ::mini_lust_chap6::TMessageType::Exception; Ok(Some((cx, Err(e)))) } } }",
    );
    s
}

} // verus!
