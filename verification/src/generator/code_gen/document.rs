//! Documents: the source text of a whole document, inside the modules of
//! its namespace.

use vstd::prelude::*;
use vstd::string::*;

use crate::generator::code_gen::definition::{
    all_generable, service_text, struct_source, struct_text,
};
use crate::generator::code_gen::errors::{CodeGenError, CodeGenResult};
use crate::generator::code_gen::CodeGenContext;
use crate::generator::tokens::{render, token_text};
use crate::thrift_parser::definition::{RecordModel, Service, ServiceModel, Struct};
use crate::thrift_parser::document::{Document, DocumentModel};

verus! {

/// The re-exports of the first `n` included namespaces, each with a space
/// behind it.
pub open spec fn includes_text(includes: Seq<Seq<char>>, n: int) -> Seq<char>
    decreases n,
{
    if n <= 0 || n > includes.len() {
        Seq::empty()
    } else {
        includes_text(includes, n - 1) + "pub use "@ + includes[n - 1] + ";"@ + " "@
    }
}

/// The first `n` structs in source text, each with a space behind it.
pub open spec fn structs_text(structs: Seq<RecordModel>, n: int) -> Seq<char>
    decreases n,
{
    if n <= 0 || n > structs.len() {
        Seq::empty()
    } else {
        structs_text(structs, n - 1) + struct_text(structs[n - 1]) + " "@
    }
}

/// The first `n` services in source text, each with a space behind it.
pub open spec fn services_text(services: Seq<ServiceModel>, n: int) -> Seq<char>
    decreases n,
{
    if n <= 0 || n > services.len() {
        Seq::empty()
    } else {
        services_text(services, n - 1) + service_text(services[n - 1]) + " "@
    }
}

/// Whether each of the first `n` services can be turned into code.
pub open spec fn services_generable(services: Seq<ServiceModel>, n: int) -> bool {
    forall|i: int|
        0 <= i < n && i < services.len() ==> all_generable(
            (#[trigger] services[i]).functions,
            services[i].functions.len() as int,
        )
}

/// The text inside the first `n` modules of a namespace, the last of
/// them innermost.
pub open spec fn wrapped_text(namespaces: Seq<Seq<char>>, n: int, body: Seq<char>) -> Seq<char>
    decreases n,
{
    if n <= 0 || n > namespaces.len() {
        body
    } else {
        wrapped_text(namespaces, n - 1, "pub mod "@ + namespaces[n - 1] + " { "@ + body + "}"@)
    }
}

/// What a document contributes before it is put into its modules: the
/// re-exports of what it includes, its structs, and its services.
pub open spec fn body_text(d: DocumentModel, includes: Seq<Seq<char>>) -> Seq<char> {
    includes_text(includes, includes.len() as int) + structs_text(
        d.structs,
        d.structs.len() as int,
    ) + services_text(d.services, d.services.len() as int)
}

/// A document in source text: its body inside the modules of its
/// namespace.
pub open spec fn document_text(
    d: DocumentModel,
    includes: Seq<Seq<char>>,
    namespaces: Seq<Seq<char>>,
) -> Seq<char> {
    wrapped_text(namespaces, namespaces.len() as int, body_text(d, includes))
}

impl Struct {
    /// The struct in source text.
    pub fn write_token(&self) -> (r: String)
        ensures
            r@ == struct_text(self.deep_view()),
    {
        struct_source(self)
    }

    /// The struct as tokens: its source text, token by token.
    pub fn gen_token(&self) -> (r: CodeGenResult<String>)
        ensures
            match token_text(struct_text(self.deep_view())) {
                Some(text) => r is Ok && r->Ok_0@ == text,
                None => r == Err::<String, CodeGenError>(CodeGenError::Tokens),
            },
    {
        let source = self.write_token();
        match render(source.as_str()) {
            Some(text) => Ok(text),
            None => Err(CodeGenError::Tokens),
        }
    }
}

impl Service {
    /// The service as tokens: its source text, token by token.
    pub fn gen_token(&self) -> (r: CodeGenResult<String>)
        ensures
            all_generable(self.functions.deep_view(), self.functions.len() as int) ==> match token_text(
                service_text(self.deep_view()),
            ) {
                Some(text) => r is Ok && r->Ok_0@ == text,
                None => r == Err::<String, CodeGenError>(CodeGenError::Tokens),
            },
            !all_generable(self.functions.deep_view(), self.functions.len() as int) ==> r
                == Err::<String, CodeGenError>(CodeGenError::MissingExceptionId),
    {
        let source = self.write_token()?;
        match render(source.as_str()) {
            Some(text) => Ok(text),
            None => Err(CodeGenError::Tokens),
        }
    }
}

impl Document {
    /// The re-exports of what the document includes.
    fn includes_source(cx: &CodeGenContext) -> (r: String)
        ensures
            r@ == includes_text(cx.includes.deep_view(), cx.includes.len() as int),
    {
        let mut s = String::new();
        let mut i: usize = 0;
        while i < cx.includes.len()
            invariant
                i <= cx.includes.len(),
                s@ == includes_text(cx.includes.deep_view(), i as int),
            decreases cx.includes.len() - i,
        {
            s.append("pub use ");
            s.append(cx.includes[i].as_str());
            s.append(";");
            s.append(" ");
            i = i + 1;
        }
        s
    }

    /// The structs of the document.
    fn structs_source(&self) -> (r: String)
        ensures
            r@ == structs_text(self.structs.deep_view(), self.structs.len() as int),
    {
        let mut s = String::new();
        let mut i: usize = 0;
        while i < self.structs.len()
            invariant
                i <= self.structs.len(),
                s@ == structs_text(self.structs.deep_view(), i as int),
            decreases self.structs.len() - i,
        {
            let text = struct_source(&self.structs[i]);
            s.append(text.as_str());
            s.append(" ");
            i = i + 1;
        }
        s
    }

    /// The services of the document.
    fn services_source(&self) -> (r: CodeGenResult<String>)
        ensures
            services_generable(self.services.deep_view(), self.services.len() as int) ==> r is Ok
                && r->Ok_0@ == services_text(
                self.services.deep_view(),
                self.services.len() as int,
            ),
            !services_generable(self.services.deep_view(), self.services.len() as int) ==> r
                == Err::<String, CodeGenError>(CodeGenError::MissingExceptionId),
    {
        let mut s = String::new();
        let mut i: usize = 0;
        while i < self.services.len()
            invariant
                i <= self.services.len(),
                services_generable(self.services.deep_view(), i as int),
                s@ == services_text(self.services.deep_view(), i as int),
            decreases self.services.len() - i,
        {
            let text = match self.services[i].write_token() {
                Ok(t) => t,
                Err(e) => {
                    assert(!all_generable(
                        self.services.deep_view()[i as int].functions,
                        self.services.deep_view()[i as int].functions.len() as int,
                    ));
                    return Err(e);
                },
            };
            s.append(text.as_str());
            s.append(" ");
            i = i + 1;
        }
        Ok(s)
    }

    /// The document in source text, under the given context: the
    /// re-exports of the included namespaces, the structs and the
    /// services, inside the modules of the namespace. A function whose
    /// exceptions lack a field id is refused.
    pub fn write_token(&self, cx: &CodeGenContext) -> (r: CodeGenResult<String>)
        ensures
            services_generable(self.services.deep_view(), self.services.len() as int) ==> r is Ok
                && r->Ok_0@ == document_text(
                self.deep_view(),
                cx.includes.deep_view(),
                cx.namespaces.deep_view(),
            ),
            !services_generable(self.services.deep_view(), self.services.len() as int) ==> r
                == Err::<String, CodeGenError>(CodeGenError::MissingExceptionId),
    {
        // generate include
        let mut generated = Self::includes_source(cx);
        // generate struct
        let structs = self.structs_source();
        generated.append(structs.as_str());
        // generate service
        let services = self.services_source()?;
        generated.append(services.as_str());
        // generate namespaces, it will wrap the generated above.
        let ghost body = generated@;
        let mut n: usize = cx.namespaces.len();
        while n > 0
            invariant
                n <= cx.namespaces.len(),
                wrapped_text(cx.namespaces.deep_view(), n as int, generated@) == wrapped_text(
                    cx.namespaces.deep_view(),
                    cx.namespaces.len() as int,
                    body,
                ),
            decreases n,
        {
            let mut outer = String::from_str("pub mod ");
            outer.append(cx.namespaces[n - 1].as_str());
            outer.append(" { ");
            outer.append(generated.as_str());
            outer.append("}");
            generated = outer;
            n = n - 1;
        }
        Ok(generated)
    }

    /// The document as tokens: its source text, token by token.
    pub fn gen_token(&self, cx: &CodeGenContext) -> (r: CodeGenResult<String>)
        ensures
            services_generable(self.services.deep_view(), self.services.len() as int) ==> match token_text(
                document_text(self.deep_view(), cx.includes.deep_view(), cx.namespaces.deep_view()),
            ) {
                Some(text) => r is Ok && r->Ok_0@ == text,
                None => r == Err::<String, CodeGenError>(CodeGenError::Tokens),
            },
            !services_generable(self.services.deep_view(), self.services.len() as int) ==> r
                == Err::<String, CodeGenError>(CodeGenError::MissingExceptionId),
    {
        let source = self.write_token(cx)?;
        match render(source.as_str()) {
            Some(text) => Ok(text),
            None => Err(CodeGenError::Tokens),
        }
    }
}

} // verus!
