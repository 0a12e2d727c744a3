//! Definitions: the source text of a struct, and of a service with its
//! types, client, handler trait and server.

use vstd::prelude::*;
use vstd::string::*;

use crate::generator::code_gen::basic::{struct_name, struct_name_text};
use crate::generator::code_gen::errors::{CodeGenError, CodeGenResult};
use crate::generator::code_gen::functions::{
    anonymous, anonymous_name, anonymous_name_text, anonymous_text, client_method_text, derive_text,
    fn_for_trait, generable, impl_for_client, server_arm_text, server_match_arm, struct_fields,
    struct_fields_text, trait_method_text,
};
use crate::thrift_parser::definition::{RecordModel, Service, ServiceModel, Struct};
use crate::thrift_parser::functions::{Function, FunctionModel};

verus! {

/// A struct in source text: a public struct with its fields, and the
/// mark that it travels as a struct.
pub open spec fn struct_text(s: RecordModel) -> Seq<char> {
    derive_text() + " pub struct "@ + struct_name_text(s.name) + " { "@ + struct_fields_text(
        s.fields,
        s.fields.len() as int,
    ) + "} impl ::mini_lust_chap6::OrigType for "@ + struct_name_text(s.name) + " {}"@
}

/// A struct in source text.
pub fn struct_source(s: &Struct) -> (r: String)
    ensures
        r@ == struct_text(s.deep_view()),
{
    let name = struct_name(&s.name);
    let fields = struct_fields(&s.fields);
    let mut out = String::from_str(
        "#[derive(::mini_lust_macros::Message, Debug, Clone, PartialEq)]",
    );
    out.append(" pub struct ");
    out.append(name.as_str());
    out.append(" { ");
    out.append(fields.as_str());
    out.append("} impl ::mini_lust_chap6::OrigType for ");
    out.append(name.as_str());
    out.append(" {}");
    out
}

/// Whether each of the first `n` functions can be turned into code.
pub open spec fn all_generable(functions: Seq<FunctionModel>, n: int) -> bool {
    forall|i: int| 0 <= i < n && i < functions.len() ==> generable(#[trigger] functions[i])
}

/// The types of the first `n` functions, each with a space behind it.
pub open spec fn anonymous_types_text(service: Seq<char>, functions: Seq<FunctionModel>, n: int)
    -> Seq<char>
    decreases n,
{
    if n <= 0 || n > functions.len() {
        Seq::empty()
    } else {
        anonymous_types_text(service, functions, n - 1) + anonymous_text(service, functions[n - 1])
            + " "@
    }
}

/// The variant of the request enum for a function: its name around its
/// argument struct.
pub open spec fn request_variant_text(service: Seq<char>, f: FunctionModel) -> Seq<char> {
    f.name + "("@ + anonymous_name_text(service, f.name, "Args"@) + "),"@
}

/// The variant of the response enum for a function: its name around its
/// result enum, or around the unit type for a one-way function.
pub open spec fn response_variant_text(service: Seq<char>, f: FunctionModel) -> Seq<char> {
    if f.oneway {
        f.name + "(()),"@
    } else {
        f.name + "("@ + anonymous_name_text(service, f.name, "Result"@) + "),"@
    }
}

/// Which piece of text a function contributes.
#[derive(Clone, Copy, PartialEq, Eq, Structural)]
pub enum Piece {
    RequestVariant,
    ResponseVariant,
    ClientMethod,
    TraitMethod,
    ServerArm,
}

/// The piece of text that a function contributes.
pub open spec fn piece_text(piece: Piece, service: Seq<char>, f: FunctionModel) -> Seq<char> {
    match piece {
        Piece::RequestVariant => request_variant_text(service, f),
        Piece::ResponseVariant => response_variant_text(service, f),
        Piece::ClientMethod => client_method_text(service, f),
        Piece::TraitMethod => trait_method_text(service, f),
        Piece::ServerArm => server_arm_text(service, f),
    }
}

/// One piece of text for each of the first `n` functions, each with a
/// space behind it.
pub open spec fn per_function_text(
    service: Seq<char>,
    functions: Seq<FunctionModel>,
    piece: Piece,
    n: int,
) -> Seq<char>
    decreases n,
{
    if n <= 0 || n > functions.len() {
        Seq::empty()
    } else {
        per_function_text(service, functions, piece, n - 1) + piece_text(
            piece,
            service,
            functions[n - 1],
        ) + " "@
    }
}

/// The dispatch enum of the requests of a service.
pub open spec fn request_enum_text(s: ServiceModel) -> Seq<char> {
    derive_text() + " #[mini_lust(dispatch_only = true)] pub enum "@ + anonymous_name_text(
        s.name,
        ""@,
        "Request"@,
    ) + " { "@ + per_function_text(
        s.name,
        s.functions,
        Piece::RequestVariant,
        s.functions.len() as int,
    ) + "} impl ::mini_lust_chap6::OrigType for "@ + anonymous_name_text(s.name, ""@, "Request"@)
        + " {}"@
}

/// The dispatch enum of the responses of a service.
pub open spec fn response_enum_text(s: ServiceModel) -> Seq<char> {
    derive_text() + " #[mini_lust(dispatch_only = true)] pub enum "@ + anonymous_name_text(
        s.name,
        ""@,
        "Response"@,
    ) + " { "@ + per_function_text(
        s.name,
        s.functions,
        Piece::ResponseVariant,
        s.functions.len() as int,
    ) + "} impl ::mini_lust_chap6::OrigType for "@ + anonymous_name_text(s.name, ""@, "Response"@)
        + " {}"@
}

/// The builder of the client of a service.
pub open spec fn client_builder_text(s: ServiceModel) -> Seq<char> {
    "pub struct "@ + s.name
        + "ClientBuilder { client_builder: ::mini_lust_chap6::ClientBuilder< ::mini_lust_chap6::DefaultMakeCodec< "@
        + anonymous_name_text(s.name, ""@, "Request"@) + ", "@ + anonymous_name_text(
        s.name,
        ""@,
        "Response"@,
    ) + ", >, >, } impl "@ + s.name
        + "ClientBuilder { pub fn new(target: ::mini_lust_chap6::SocketOrUnix) -> Self { let client_builder = ::mini_lust_chap6::ClientBuilder::new(target); Self { client_builder } } pub fn build(self) -> "@
        + s.name + "Client { "@ + s.name + "Client::new(self.client_builder.build()) } }"@
}

/// The client of a service: the struct and its constructor.
pub open spec fn client_struct_text(s: ServiceModel) -> Seq<char> {
    "#[derive(Clone)] pub struct "@ + s.name
        + "Client { inner_client: ::mini_lust_chap6::Client< "@ + anonymous_name_text(
        s.name,
        ""@,
        "Request"@,
    ) + ", "@ + anonymous_name_text(s.name, ""@, "Response"@) + " >, } impl "@ + s.name
        + "Client { pub fn new( inner: ::mini_lust_chap6::Client< "@ + anonymous_name_text(
        s.name,
        ""@,
        "Request"@,
    ) + ", "@ + anonymous_name_text(s.name, ""@, "Response"@)
        + " >, ) -> Self { Self { inner_client: inner, } } }"@
}

/// The methods of the client of a service, one for each function.
pub open spec fn client_methods_text(s: ServiceModel) -> Seq<char> {
    "impl "@ + s.name + "Client { "@ + per_function_text(
        s.name,
        s.functions,
        Piece::ClientMethod,
        s.functions.len() as int,
    ) + "}"@
}

/// The trait that a handler of a service implements, with one method for
/// each function.
pub open spec fn handler_trait_text(s: ServiceModel) -> Seq<char> {
    "#[async_trait::async_trait] pub trait "@ + s.name + " { "@ + per_function_text(
        s.name,
        s.functions,
        Piece::TraitMethod,
        s.functions.len() as int,
    ) + "}"@
}

/// The server of a service: the struct around the handler and its
/// constructor.
pub open spec fn server_struct_text(s: ServiceModel) -> Seq<char> {
    "pub struct "@ + s.name + "Server<S> { inner: ::std::sync::Arc<S>, } impl<S> "@ + s.name
        + "Server<S> { pub fn new(inner: S) -> Self { Self { inner: ::std::sync::Arc::new(inner), } } }"@
}

/// The server of a service as a function from requests to responses,
/// with one arm for each function.
pub open spec fn server_impl_text(s: ServiceModel) -> Seq<char> {
    "impl<S> ::tower::Service<( ::mini_lust_chap6::MsgContext, ::mini_lust_chap6::ApplicationResult< "@
        + anonymous_name_text(s.name, ""@, "Request"@) + " >, )> for "@ + s.name
        + "Server<S> where S: "@ + s.name
        + " + Send + Sync + 'static, { type Response = Option<( ::mini_lust_chap6::MsgContext, ::mini_lust_chap6::ApplicationResult< "@
        + anonymous_name_text(s.name, ""@, "Response"@)
        + " >, )>; type Error = ::mini_lust_chap6::Error; type Future = ::mini_lust_chap6::BoxFuture<Self::Response, Self::Error>; fn poll_ready( &mut self, _cx: &mut ::std::task::Context, ) -> ::std::task::Poll<std::result::Result<(), Self::Error>> { ::std::task::Poll::Ready(Ok(())) } fn call( &mut self, req: ( ::mini_lust_chap6::MsgContext, ::mini_lust_chap6::ApplicationResult< "@
        + anonymous_name_text(s.name, ""@, "Request"@)
        + " >, ), ) -> Self::Future { let inner = self.inner.clone(); ::std::boxed::Box::pin(async move { let (mut cx, req) = req; match req { "@
        + per_function_text(
        s.name,
        s.functions,
        Piece::ServerArm,
        s.functions.len() as int,
    )
        + "Err(e) => { log::error!(\"unexpected client error: {}\", e); Err(::mini_lust_chap6::new_application_error( ::mini_lust_chap6::ApplicationErrorKind::Unknown, \"unexpected client error\", )) } } }) } }"@
}

/// A service in source text: the types of its functions, its request and
/// response enums, its client with builder and methods, the trait of its
/// handler, and its server.
#[verifier::opaque]
pub open spec fn service_text(s: ServiceModel) -> Seq<char> {
    anonymous_types_text(s.name, s.functions, s.functions.len() as int) + request_enum_text(s)
        + " "@ + response_enum_text(s) + " "@ + client_builder_text(s) + " "@
        + client_struct_text(s) + " "@ + client_methods_text(s) + " "@ + handler_trait_text(s)
        + " "@ + server_struct_text(s) + " "@ + server_impl_text(s)
}

impl Service {
    /// The variant of the request enum for a function.
    fn request_variant(f: &Function, service: &str) -> (r: String)
        ensures
            r@ == request_variant_text(service@, f.deep_view()),
    {
        let args = anonymous_name(service, f.name.as_str(), "Args");
        let mut s = f.name.0.clone();
        s.append("(");
        s.append(args.as_str());
        s.append("),");
        s
    }

    /// The variant of the response enum for a function.
    fn response_variant(f: &Function, service: &str) -> (r: String)
        ensures
            r@ == response_variant_text(service@, f.deep_view()),
    {
        let mut s = f.name.0.clone();
        if f.oneway {
            s.append("(()),");
        } else {
            let result = anonymous_name(service, f.name.as_str(), "Result");
            s.append("(");
            s.append(result.as_str());
            s.append("),");
        }
        s
    }

    /// One piece of text for each function.
    fn per_function(&self, piece: Piece) -> (r: String)
        ensures
            r@ == per_function_text(
                self.name@,
                self.functions.deep_view(),
                piece,
                self.functions.len() as int,
            ),
    {
        let service = self.name.as_str();
        let mut s = String::new();
        let mut i: usize = 0;
        while i < self.functions.len()
            invariant
                i <= self.functions.len(),
                service@ == self.name@,
                s@ == per_function_text(
                    self.name@,
                    self.functions.deep_view(),
                    piece,
                    i as int,
                ),
            decreases self.functions.len() - i,
        {
            let f = &self.functions[i];
            let text = match piece {
                Piece::RequestVariant => Self::request_variant(f, service),
                Piece::ResponseVariant => Self::response_variant(f, service),
                Piece::ClientMethod => impl_for_client(f, service),
                Piece::TraitMethod => fn_for_trait(f, service),
                Piece::ServerArm => server_match_arm(f, service),
            };
            s.append(text.as_str());
            s.append(" ");
            i = i + 1;
        }
        s
    }

    /// The types of the functions.
    fn anonymous_types(&self) -> (r: CodeGenResult<String>)
        ensures
            all_generable(self.functions.deep_view(), self.functions.len() as int) ==> r is Ok
                && r->Ok_0@ == anonymous_types_text(
                self.name@,
                self.functions.deep_view(),
                self.functions.len() as int,
            ),
            !all_generable(self.functions.deep_view(), self.functions.len() as int) ==> r
                == Err::<String, CodeGenError>(CodeGenError::MissingExceptionId),
    {
        let service = self.name.as_str();
        let mut s = String::new();
        let mut i: usize = 0;
        while i < self.functions.len()
            invariant
                i <= self.functions.len(),
                service@ == self.name@,
                all_generable(self.functions.deep_view(), i as int),
                s@ == anonymous_types_text(self.name@, self.functions.deep_view(), i as int),
            decreases self.functions.len() - i,
        {
            let text = match anonymous(&self.functions[i], service) {
                Ok(t) => t,
                Err(e) => {
                    assert(!generable(self.functions.deep_view()[i as int]));
                    return Err(e);
                },
            };
            s.append(text.as_str());
            s.append(" ");
            i = i + 1;
        }
        Ok(s)
    }

    /// The dispatch enum of the requests.
    fn request_enum(&self) -> (r: String)
        ensures
            r@ == request_enum_text(self.deep_view()),
    {
        let name = anonymous_name(self.name.as_str(), "", "Request");
        let variants = self.per_function(Piece::RequestVariant);
        let mut s = String::from_str(
            "#[derive(::mini_lust_macros::Message, Debug, Clone, PartialEq)]",
        );
        s.append(" #[mini_lust(dispatch_only = true)] pub enum ");
        s.append(name.as_str());
        s.append(" { ");
        s.append(variants.as_str());
        s.append("} impl ::mini_lust_chap6::OrigType for ");
        s.append(name.as_str());
        s.append(" {}");
        s
    }

    /// The dispatch enum of the responses.
    fn response_enum(&self) -> (r: String)
        ensures
            r@ == response_enum_text(self.deep_view()),
    {
        let name = anonymous_name(self.name.as_str(), "", "Response");
        let variants = self.per_function(Piece::ResponseVariant);
        let mut s = String::from_str(
            "#[derive(::mini_lust_macros::Message, Debug, Clone, PartialEq)]",
        );
        s.append(" #[mini_lust(dispatch_only = true)] pub enum ");
        s.append(name.as_str());
        s.append(" { ");
        s.append(variants.as_str());
        s.append("} impl ::mini_lust_chap6::OrigType for ");
        s.append(name.as_str());
        s.append(" {}");
        s
    }

    /// The builder of the client.
    fn client_builder(&self) -> (r: String)
        ensures
            r@ == client_builder_text(self.deep_view()),
    {
        let request = anonymous_name(self.name.as_str(), "", "Request");
        let response = anonymous_name(self.name.as_str(), "", "Response");
        let name = self.name.as_str();
        let mut s = String::from_str("pub struct ");
        s.append(name);
        s.append(
            "ClientBuilder { client_builder: ::mini_lust_chap6::ClientBuilder< ::mini_lust_chap6::DefaultMakeCodec< ",
        );
        s.append(request.as_str());
        s.append(", ");
        s.append(response.as_str());
        s.append(", >, >, } impl ");
        s.append(name);
        s.append(
            "ClientBuilder { pub fn new(target: ::mini_lust_chap6::SocketOrUnix) -> Self { let client_builder = ::mini_lust_chap6::ClientBuilder::new(target); Self { client_builder } } pub fn build(self) -> ",
        );
        s.append(name);
        s.append("Client { ");
        s.append(name);
        s.append("Client::new(self.client_builder.build()) } }");
        s
    }

    /// The client: the struct and its constructor.
    fn client_struct(&self) -> (r: String)
        ensures
            r@ == client_struct_text(self.deep_view()),
    {
        let request = anonymous_name(self.name.as_str(), "", "Request");
        let response = anonymous_name(self.name.as_str(), "", "Response");
        let name = self.name.as_str();
        let mut s = String::from_str("#[derive(Clone)] pub struct ");
        s.append(name);
        s.append("Client { inner_client: ::mini_lust_chap6::Client< ");
        s.append(request.as_str());
        s.append(", ");
        s.append(response.as_str());
        s.append(" >, } impl ");
        s.append(name);
        s.append("Client { pub fn new( inner: ::mini_lust_chap6::Client< ");
        s.append(request.as_str());
        s.append(", ");
        s.append(response.as_str());
        s.append(" >, ) -> Self { Self { inner_client: inner, } } }");
        s
    }

    /// The methods of the client.
    fn client_methods(&self) -> (r: String)
        ensures
            r@ == client_methods_text(self.deep_view()),
    {
        let methods = self.per_function(Piece::ClientMethod);
        let mut s = String::from_str("impl ");
        s.append(self.name.as_str());
        s.append("Client { ");
        s.append(methods.as_str());
        s.append("}");
        s
    }

    /// The trait of the handler.
    fn handler_trait(&self) -> (r: String)
        ensures
            r@ == handler_trait_text(self.deep_view()),
    {
        let methods = self.per_function(Piece::TraitMethod);
        let mut s = String::from_str("#[async_trait::async_trait] pub trait ");
        s.append(self.name.as_str());
        s.append(" { ");
        s.append(methods.as_str());
        s.append("}");
        s
    }

    /// The server: the struct around the handler and its constructor.
    fn server_struct(&self) -> (r: String)
        ensures
            r@ == server_struct_text(self.deep_view()),
    {
        let name = self.name.as_str();
        let mut s = String::from_str("pub struct ");
        s.append(name);
        s.append("Server<S> { inner: ::std::sync::Arc<S>, } impl<S> ");
        s.append(name);
        s.append(
            "Server<S> { pub fn new(inner: S) -> Self { Self { inner: ::std::sync::Arc::new(inner), } } }",
        );
        s
    }

    /// The server as a function from requests to responses.
    fn server_impl(&self) -> (r: String)
        ensures
            r@ == server_impl_text(self.deep_view()),
    {
        let request = anonymous_name(self.name.as_str(), "", "Request");
        let response = anonymous_name(self.name.as_str(), "", "Response");
        let arms = self.per_function(Piece::ServerArm);
        let name = self.name.as_str();
        let mut s = String::from_str(
            "impl<S> ::tower::Service<( ::mini_lust_chap6::MsgContext, ::mini_lust_chap6::ApplicationResult< ",
        );
        s.append(request.as_str());
        s.append(" >, )> for ");
        s.append(name);
        s.append("Server<S> where S: ");
        s.append(name);
        s.append(
            " + Send + Sync + 'static, { type Response = Option<( ::mini_lust_chap6::MsgContext, ::mini_lust_chap6::ApplicationResult< ",
        );
        s.append(response.as_str());
        s.append(
            " >, )>; type Error = ::mini_lust_chap6::Error; type Future = ::mini_lust_chap6::BoxFuture<Self::Response, Self::Error>; fn poll_ready( &mut self, _cx: &mut ::std::task::Context, ) -> ::std::task::Poll<std::result::Result<(), Self::Error>> { ::std::task::Poll::Ready(Ok(())) } fn call( &mut self, req: ( ::mini_lust_chap6::MsgContext, ::mini_lust_chap6::ApplicationResult< ",
        );
        s.append(request.as_str());
        s.append(
            " >, ), ) -> Self::Future { let inner = self.inner.clone(); ::std::boxed::Box::pin(async move { let (mut cx, req) = req; match req { ",
        );
        s.append(arms.as_str());
        s.append(
            "Err(e) => { log::error!(\"unexpected client error: {}\", e); Err(::mini_lust_chap6::new_application_error( ::mini_lust_chap6::ApplicationErrorKind::Unknown, \"unexpected client error\", )) } } }) } }",
        );
        s
    }

    /// A service in source text. A function whose exceptions lack a field
    /// id is refused.
    pub fn write_token(&self) -> (r: CodeGenResult<String>)
        ensures
            all_generable(self.functions.deep_view(), self.functions.len() as int) ==> r is Ok
                && r->Ok_0@ == service_text(self.deep_view()),
            !all_generable(self.functions.deep_view(), self.functions.len() as int) ==> r
                == Err::<String, CodeGenError>(CodeGenError::MissingExceptionId),
    {
        proof {
            reveal(service_text);
        }
        // Generate struct AnonymousServiceCallArgs and AnonymousServiceCallResult
        let mut s = self.anonymous_types()?;
        // Generate enum AnonymousServiceRequest and enum AnonymousServiceResponse
        let request = self.request_enum();
        s.append(request.as_str());
        s.append(" ");
        let response = self.response_enum();
        s.append(response.as_str());
        s.append(" ");
        // Generate ServiceClientBuilder and its impl
        let builder = self.client_builder();
        s.append(builder.as_str());
        s.append(" ");
        // Generate ServiceClient and its impl
        let client = self.client_struct();
        s.append(client.as_str());
        s.append(" ");
        // impl ServiceClient call
        let methods = self.client_methods();
        s.append(methods.as_str());
        s.append(" ");
        // Generate trait Service
        let handler = self.handler_trait();
        s.append(handler.as_str());
        s.append(" ");
        // Generate ServiceServer and its impl
        let server = self.server_struct();
        s.append(server.as_str());
        s.append(" ");
        let call = self.server_impl();
        s.append(call.as_str());
        Ok(s)
    }
}

} // verus!
