//! A whole document: headers and definitions in any order.

use vstd::prelude::*;
use vstd::string::*;

use crate::text::chars_of;
use crate::thrift_parser::basic::{rest_of, separators_end, Found, Separator};
use crate::thrift_parser::definition::{
    const_at, enum_at, exception_at, service_at, struct_at, typedef_at, union_at, Const, ConstModel,
    Enum, EnumModel, Exception, RecordModel, Service, ServiceModel, Struct, Typedef, TypedefModel,
    Union,
};
use crate::thrift_parser::header::{
    cpp_include_at, include_at, namespace_at, CppInclude, Include, Namespace, NamespaceModel,
};
use crate::thrift_parser::{lemma_deep_empty, lemma_deep_push, ParseResult};

verus! {

/// A document as mathematics.
pub struct DocumentModel {
    pub includes: Seq<Seq<char>>,
    pub cpp_includes: Seq<Seq<char>>,
    pub namespaces: Seq<NamespaceModel>,
    pub typedefs: Seq<TypedefModel>,
    pub consts: Seq<ConstModel>,
    pub enums: Seq<EnumModel>,
    pub structs: Seq<RecordModel>,
    pub unions: Seq<RecordModel>,
    pub exceptions: Seq<RecordModel>,
    pub services: Seq<ServiceModel>,
}

/// One header or definition as mathematics.
pub enum ItemModel {
    Include(Seq<char>),
    CppInclude(Seq<char>),
    Namespace(NamespaceModel),
    Typedef(TypedefModel),
    Const(ConstModel),
    Enum(EnumModel),
    Struct(RecordModel),
    Union(RecordModel),
    Exception(RecordModel),
    Service(ServiceModel),
}

impl DocumentModel {
    /// The document without anything in it.
    pub open spec fn empty() -> DocumentModel {
        DocumentModel {
            includes: Seq::empty(),
            cpp_includes: Seq::empty(),
            namespaces: Seq::empty(),
            typedefs: Seq::empty(),
            consts: Seq::empty(),
            enums: Seq::empty(),
            structs: Seq::empty(),
            unions: Seq::empty(),
            exceptions: Seq::empty(),
            services: Seq::empty(),
        }
    }

    /// This document with one more item, behind the others of its kind.
    pub open spec fn with(self, item: ItemModel) -> DocumentModel {
        match item {
            ItemModel::Include(i) => DocumentModel { includes: self.includes.push(i), ..self },
            ItemModel::CppInclude(i) => DocumentModel {
                cpp_includes: self.cpp_includes.push(i),
                ..self
            },
            ItemModel::Namespace(i) => DocumentModel {
                namespaces: self.namespaces.push(i),
                ..self
            },
            ItemModel::Typedef(i) => DocumentModel { typedefs: self.typedefs.push(i), ..self },
            ItemModel::Const(i) => DocumentModel { consts: self.consts.push(i), ..self },
            ItemModel::Enum(i) => DocumentModel { enums: self.enums.push(i), ..self },
            ItemModel::Struct(i) => DocumentModel { structs: self.structs.push(i), ..self },
            ItemModel::Union(i) => DocumentModel { unions: self.unions.push(i), ..self },
            ItemModel::Exception(i) => DocumentModel {
                exceptions: self.exceptions.push(i),
                ..self
            },
            ItemModel::Service(i) => DocumentModel { services: self.services.push(i), ..self },
        }
    }
}

/// The header or definition at `pos`: the first of include, C++ include,
/// namespace, typedef, const, enum, struct, union, exception and service
/// that stands there.
pub open spec fn item_at(s: Seq<char>, pos: int) -> Found<ItemModel> {
    if include_at(s, pos) is Some {
        Some((ItemModel::Include(include_at(s, pos)->Some_0.0), include_at(s, pos)->Some_0.1))
    } else if cpp_include_at(s, pos) is Some {
        Some(
            (ItemModel::CppInclude(cpp_include_at(s, pos)->Some_0.0), cpp_include_at(
                s,
                pos,
            )->Some_0.1),
        )
    } else if namespace_at(s, pos) is Some {
        Some(
            (ItemModel::Namespace(namespace_at(s, pos)->Some_0.0), namespace_at(s, pos)->Some_0.1),
        )
    } else if typedef_at(s, pos) is Some {
        Some((ItemModel::Typedef(typedef_at(s, pos)->Some_0.0), typedef_at(s, pos)->Some_0.1))
    } else if const_at(s, pos) is Some {
        Some((ItemModel::Const(const_at(s, pos)->Some_0.0), const_at(s, pos)->Some_0.1))
    } else if enum_at(s, pos) is Some {
        Some((ItemModel::Enum(enum_at(s, pos)->Some_0.0), enum_at(s, pos)->Some_0.1))
    } else if struct_at(s, pos) is Some {
        Some((ItemModel::Struct(struct_at(s, pos)->Some_0.0), struct_at(s, pos)->Some_0.1))
    } else if union_at(s, pos) is Some {
        Some((ItemModel::Union(union_at(s, pos)->Some_0.0), union_at(s, pos)->Some_0.1))
    } else if exception_at(s, pos) is Some {
        Some(
            (ItemModel::Exception(exception_at(s, pos)->Some_0.0), exception_at(s, pos)->Some_0.1),
        )
    } else if service_at(s, pos) is Some {
        Some((ItemModel::Service(service_at(s, pos)->Some_0.0), service_at(s, pos)->Some_0.1))
    } else {
        None
    }
}

/// The document that the items from `pos` on add to `acc`, and the
/// position behind the last item and the comments and blanks that follow
/// it. Comments and blanks may stand before each item; where no item
/// follows them, they are not part of the document.
pub open spec fn document_from(s: Seq<char>, pos: int, acc: DocumentModel) -> (DocumentModel, int)
    decreases s.len() - pos,
{
    match item_at(s, separators_end(s, pos)) {
        None => (acc, pos),
        Some((item, p)) => if pos < separators_end(s, p) <= s.len() {
            document_from(s, separators_end(s, p), acc.with(item))
        } else {
            (acc, pos)
        },
    }
}

/// The document at the front of the text, and the position behind it.
pub open spec fn document_at(s: Seq<char>) -> (DocumentModel, int) {
    document_from(s, 0, DocumentModel::empty())
}

/// A document: its headers and definitions, each kind in the order of the
/// text.
#[derive(Debug, PartialEq)]
pub struct Document {
    pub includes: Vec<Include>,
    pub cpp_includes: Vec<CppInclude>,
    pub namespaces: Vec<Namespace>,
    pub typedefs: Vec<Typedef>,
    pub consts: Vec<Const>,
    pub enums: Vec<Enum>,
    pub structs: Vec<Struct>,
    pub unions: Vec<Union>,
    pub exceptions: Vec<Exception>,
    pub services: Vec<Service>,
}

impl DeepView for Document {
    type V = DocumentModel;

    open spec fn deep_view(&self) -> DocumentModel {
        DocumentModel {
            includes: self.includes.deep_view(),
            cpp_includes: self.cpp_includes.deep_view(),
            namespaces: self.namespaces.deep_view(),
            typedefs: self.typedefs.deep_view(),
            consts: self.consts.deep_view(),
            enums: self.enums.deep_view(),
            structs: self.structs.deep_view(),
            unions: self.unions.deep_view(),
            exceptions: self.exceptions.deep_view(),
            services: self.services.deep_view(),
        }
    }
}

impl Default for Document {
    fn default() -> (r: Self)
        ensures
            r.deep_view() == DocumentModel::empty(),
    {
        let r = Document {
            includes: Vec::new(),
            cpp_includes: Vec::new(),
            namespaces: Vec::new(),
            typedefs: Vec::new(),
            consts: Vec::new(),
            enums: Vec::new(),
            structs: Vec::new(),
            unions: Vec::new(),
            exceptions: Vec::new(),
            services: Vec::new(),
        };
        proof {
            lemma_deep_empty(r.includes);
            lemma_deep_empty(r.cpp_includes);
            lemma_deep_empty(r.namespaces);
            lemma_deep_empty(r.typedefs);
            lemma_deep_empty(r.consts);
            lemma_deep_empty(r.enums);
            lemma_deep_empty(r.structs);
            lemma_deep_empty(r.unions);
            lemma_deep_empty(r.exceptions);
            lemma_deep_empty(r.services);
        }
        r
    }
}

impl Document {
    /// Reads the header or definition at `pos` and puts it into the
    /// document, behind the others of its kind.
    fn parse_item_at(&mut self, chars: &[char], pos: usize) -> (r: Option<usize>)
        ensures
            match item_at(chars@, pos as int) {
                Some((item, p)) => r matches Some(found) && found == p && pos < p
                    <= chars@.len() && final(self).deep_view() == old(self).deep_view().with(item),
                None => r is None && *final(self) == *old(self),
            },
    {
        match Include::parse_at(chars, pos) {
            Some((i, p)) => {
                let ghost before = self.includes;
                self.includes.push(i);
                proof {
                    lemma_deep_push(before, self.includes, i);
                }
                return Some(p);
            },
            None => {},
        }
        match CppInclude::parse_at(chars, pos) {
            Some((i, p)) => {
                let ghost before = self.cpp_includes;
                self.cpp_includes.push(i);
                proof {
                    lemma_deep_push(before, self.cpp_includes, i);
                }
                return Some(p);
            },
            None => {},
        }
        match Namespace::parse_at(chars, pos) {
            Some((i, p)) => {
                let ghost before = self.namespaces;
                self.namespaces.push(i);
                proof {
                    lemma_deep_push(before, self.namespaces, i);
                }
                return Some(p);
            },
            None => {},
        }
        match Typedef::parse_at(chars, pos) {
            Some((i, p)) => {
                let ghost before = self.typedefs;
                self.typedefs.push(i);
                proof {
                    lemma_deep_push(before, self.typedefs, i);
                }
                return Some(p);
            },
            None => {},
        }
        match Const::parse_at(chars, pos) {
            Some((i, p)) => {
                let ghost before = self.consts;
                self.consts.push(i);
                proof {
                    lemma_deep_push(before, self.consts, i);
                }
                return Some(p);
            },
            None => {},
        }
        match Enum::parse_at(chars, pos) {
            Some((i, p)) => {
                let ghost before = self.enums;
                self.enums.push(i);
                proof {
                    lemma_deep_push(before, self.enums, i);
                }
                return Some(p);
            },
            None => {},
        }
        match Struct::parse_at(chars, pos) {
            Some((i, p)) => {
                let ghost before = self.structs;
                self.structs.push(i);
                proof {
                    lemma_deep_push(before, self.structs, i);
                }
                return Some(p);
            },
            None => {},
        }
        match Union::parse_at(chars, pos) {
            Some((i, p)) => {
                let ghost before = self.unions;
                self.unions.push(i);
                proof {
                    lemma_deep_push(before, self.unions, i);
                }
                return Some(p);
            },
            None => {},
        }
        match Exception::parse_at(chars, pos) {
            Some((i, p)) => {
                let ghost before = self.exceptions;
                self.exceptions.push(i);
                proof {
                    lemma_deep_push(before, self.exceptions, i);
                }
                return Some(p);
            },
            None => {},
        }
        match Service::parse_at(chars, pos) {
            Some((i, p)) => {
                let ghost before = self.services;
                self.services.push(i);
                proof {
                    lemma_deep_push(before, self.services, i);
                }
                Some(p)
            },
            None => None,
        }
    }

    /// Reads the document at the front of the characters: items as far
    /// as they go.
    pub fn parse_chars(chars: &[char]) -> (r: (Document, usize))
        ensures
            r.0.deep_view() == document_at(chars@).0,
            r.1 == document_at(chars@).1,
            r.1 <= chars@.len(),
    {
        let mut target = Document::default();
        let mut pos: usize = 0;
        loop
            invariant_except_break
                document_from(chars@, pos as int, target.deep_view()) == document_at(chars@),
            invariant
                pos <= chars@.len(),
            ensures
                document_at(chars@) == (target.deep_view(), pos as int),
            decreases chars@.len() - pos,
        {
            let start = Separator::skip(chars, pos);
            match target.parse_item_at(chars, start) {
                None => {
                    break ;
                },
                Some(p) => {
                    pos = Separator::skip(chars, p);
                },
            }
        }
        (target, pos)
    }

    /// Reads a document from the front of `input`. Any text is a
    /// document, if only an empty one with all of the text left over.
    pub fn parse<'a>(input: &'a str) -> (r: ParseResult<'a, Document>)
        ensures
            r matches Ok((rest, v)) && v.deep_view() == document_at(input@).0 && rest@
                == input@.skip(document_at(input@).1),
    {
        let chars = chars_of(input);
        let (document, p) = Self::parse_chars(chars.as_slice());
        Ok((rest_of(input, p), document))
    }
}

} // verus!
