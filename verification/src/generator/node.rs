//! One IDL file: its document and the namespace of what it generates.

use vstd::prelude::*;
use vstd::string::*;

use crate::generator::code_gen::basic::{snake_case, to_snake_case};
use crate::generator::errors::{GenerateError, GenerateResult};
use crate::thrift_parser::document::{document_at, Document, DocumentModel};
use crate::thrift_parser::header::NamespaceModel;

verus! {

/// The name of the last of the first `n` namespaces with the given
/// scope.
pub open spec fn last_namespace(namespaces: Seq<NamespaceModel>, scope: Seq<char>, n: int)
    -> Option<Seq<char>>
    decreases n,
{
    if n <= 0 || n > namespaces.len() {
        None
    } else if namespaces[n - 1].scope == scope {
        Some(namespaces[n - 1].name)
    } else {
        last_namespace(namespaces, scope, n - 1)
    }
}

/// The namespace of what a document generates: that of its last `rs`
/// namespace; without one, that of its last `*` namespace; without one,
/// the snake case of the stem of the file name.
pub open spec fn namespace_of(d: DocumentModel, stem: Option<Seq<char>>) -> Option<Seq<char>> {
    match last_namespace(d.namespaces, "rs"@, d.namespaces.len() as int) {
        Some(name) => Some(name),
        None => match last_namespace(d.namespaces, "*"@, d.namespaces.len() as int) {
            Some(name) => Some(name),
            None => match stem {
                Some(stem) => Some(snake_case(stem)),
                None => None,
            },
        },
    }
}

/// One IDL file and what is known of it.
#[derive(Debug)]
pub struct Node {
    // document content, read and parsed from the file
    document: Document,
    // absolute path of the IDL file
    file_abs: String,
    // the namespace of the IDL file such as "a.b.c"; without one, the
    // file name in snake case
    namespace: String,
}

impl Node {
    /// The document of the file.
    pub closed spec fn document_model(self) -> DocumentModel {
        self.document.deep_view()
    }

    /// The absolute path of the file.
    pub closed spec fn path(self) -> Seq<char> {
        self.file_abs@
    }

    /// The namespace of what the file generates.
    pub closed spec fn namespace_text(self) -> Seq<char> {
        self.namespace@
    }

    /// The node of the file at `file_abs` with the given content. The
    /// document is what the parser reads from the front of the content.
    /// The file needs a namespace or a stem.
    pub fn from_source(file_abs: String, file_stem: Option<&str>, content: &str) -> (r:
        GenerateResult<Node>)
        ensures
            match namespace_of(
                document_at(content@).0,
                match file_stem {
                    Some(s) => Some(s@),
                    None => None,
                },
            ) {
                Some(namespace) => r is Ok && r->Ok_0.namespace_text() == namespace
                    && r->Ok_0.document_model() == document_at(content@).0 && r->Ok_0.path()
                    == file_abs@,
                None => r matches Err(GenerateError::Unknown(text)) && text@
                    == "unable to extract file stem"@,
            },
    {
        let document = match Document::parse(content) {
            Ok((_, document)) => document,
            Err(_) => vstd::pervasive::unreached(),
        };
        let namespace = match Self::find_namespace(&document, "rs") {
            Some(ns) => ns,
            None => match Self::find_namespace(&document, "*") {
                Some(ns) => ns,
                None => match file_stem {
                    Some(stem) => to_snake_case(stem),
                    None => {
                        return Err(
                            GenerateError::Unknown(
                                String::from_str("unable to extract file stem"),
                            ),
                        );
                    },
                },
            },
        };
        Ok(Self { document, file_abs, namespace })
    }

    /// The name of the last namespace of the document with the given
    /// scope.
    fn find_namespace(document: &Document, scope: &str) -> (r: Option<String>)
        ensures
            match last_namespace(
                document.deep_view().namespaces,
                scope@,
                document.namespaces.len() as int,
            ) {
                Some(name) => r is Some && r->Some_0@ == name,
                None => r is None,
            },
    {
        let wanted = String::from_str(scope);
        let mut n: usize = document.namespaces.len();
        while n > 0
            invariant
                n <= document.namespaces.len(),
                wanted@ == scope@,
                last_namespace(document.deep_view().namespaces, scope@, n as int)
                    == last_namespace(
                    document.deep_view().namespaces,
                    scope@,
                    document.namespaces.len() as int,
                ),
            decreases n,
        {
            let ns = &document.namespaces[n - 1];
            if ns.scope.0 == wanted {
                return Some(ns.name.0.clone());
            }
            n = n - 1;
        }
        None
    }

    /// The document of the file.
    pub fn document(&self) -> (r: &Document)
        ensures
            r.deep_view() == self.document_model(),
    {
        &self.document
    }

    /// The absolute path of the file.
    pub fn file_abs(&self) -> (r: &str)
        ensures
            r@ == self.path(),
    {
        self.file_abs.as_str()
    }

    /// The namespace of what the file generates.
    pub fn namespace(&self) -> (r: &str)
        ensures
            r@ == self.namespace_text(),
    {
        self.namespace.as_str()
    }
}

} // verus!
