//! The smallest generator: it reads a document and emits one fixed
//! function.

use vstd::prelude::*;
use vstd::string::*;

use crate::generator::tokens::{render, token_text};
use crate::thrift_parser::document::Document;

verus! {

/// Generates the demo function for one IDL file.
pub struct SimpleBuilder {
    file: Option<String>,
}

/// The source text of the demo function.
pub open spec fn demo_text() -> Seq<char> {
    "pub fn demo() -> String { \"DEMO\".to_string() }"@
}

impl SimpleBuilder {
    /// The path of the IDL file, where one was given.
    pub closed spec fn file_path(self) -> Option<Seq<char>> {
        match self.file {
            Some(p) => Some(p@),
            None => None,
        }
    }

    /// A builder without a file.
    pub fn new() -> (r: Self)
        ensures
            r.file_path() is None,
    {
        Self { file: None }
    }

    /// The builder for the IDL file at `p`.
    pub fn with_file(self, p: &str) -> (r: Self)
        ensures
            r.file_path() == Some(p@),
    {
        let mut b = self;
        b.file = Some(String::from_str(p));
        b
    }

    /// The path of the IDL file, where one was given.
    pub fn file(&self) -> (r: Option<&String>)
        ensures
            match self.file_path() {
                Some(p) => r is Some && r->Some_0@ == p,
                None => r is None,
            },
    {
        match &self.file {
            Some(p) => Some(p),
            None => None,
        }
    }

    /// What is generated for a file with the given content: the document
    /// is read, and the code is the demo function, token by token,
    /// whatever the document holds.
    pub fn code_for(idl: &str) -> (r: Option<String>)
        ensures
            match token_text(demo_text()) {
                Some(text) => r is Some && r->Some_0@ == text,
                None => r is None,
            },
    {
        let _ = Document::parse(idl);
        render("pub fn demo() -> String { \"DEMO\".to_string() }")
    }
}

} // verus!
