//! Headers of a document: includes and namespaces.

use vstd::prelude::*;
use vstd::string::*;

use crate::text::{chars_of, has_at, string_of, tag_at};
use crate::thrift_parser::basic::{
    identifier_at, literal_at, rest_of, separator_at, Found, Identifier, Literal, Separator,
};
use crate::thrift_parser::{ParseError, ParseResult};

verus! {

/// The literal behind `keyword` and a separator at `pos`.
pub open spec fn keyword_literal_at(s: Seq<char>, pos: int, keyword: Seq<char>) -> Found<
    Seq<char>,
> {
    if has_at(s, pos, keyword) {
        match separator_at(s, pos + keyword.len()) {
            Some(p) => literal_at(s, p),
            None => None,
        }
    } else {
        None
    }
}

/// Reads the literal behind `keyword` and a separator at `pos`.
pub fn parse_keyword_literal_at(chars: &[char], pos: usize, keyword: &str) -> (r: Option<
    (Literal, usize),
>)
    ensures
        match keyword_literal_at(chars@, pos as int, keyword@) {
            Some((m, p)) => r matches Some((v, q)) && v@ == m && q == p && pos < p
                <= chars@.len(),
            None => r is None,
        },
{
    match tag_at(chars, pos, keyword) {
        Some(after) => match Separator::parse_at(chars, after) {
            Some(p) => Literal::parse_at(chars, p),
            None => None,
        },
        None => None,
    }
}

// ---------------------------------------------------------------------
// Include         ::=  'include' Literal
// ---------------------------------------------------------------------
/// The include at `pos`.
pub open spec fn include_at(s: Seq<char>, pos: int) -> Found<Seq<char>> {
    keyword_literal_at(s, pos, "include"@)
}

/// The path of a document that this one includes.
#[derive(Debug, PartialEq, Eq)]
pub struct Include(pub Literal);

impl DeepView for Include {
    type V = Seq<char>;

    open spec fn deep_view(&self) -> Seq<char> {
        self.0@
    }
}

impl Clone for Include {
    fn clone(&self) -> (r: Self)
        ensures
            r.deep_view() == self.deep_view(),
    {
        Include(self.0.clone())
    }
}

impl Include {
    /// The include of this path.
    pub fn from(l: Literal) -> (r: Self)
        ensures
            r.deep_view() == l@,
    {
        Include(l)
    }

    /// The path.
    pub fn into_inner(self) -> (r: Literal)
        ensures
            r@ == self.deep_view(),
    {
        self.0
    }

    /// Reads the include at `pos`.
    pub fn parse_at(chars: &[char], pos: usize) -> (r: Option<(Include, usize)>)
        ensures
            match include_at(chars@, pos as int) {
                Some((m, p)) => r matches Some((v, q)) && v.deep_view() == m && q == p && pos < p
                    <= chars@.len(),
                None => r is None,
            },
    {
        match parse_keyword_literal_at(chars, pos, "include") {
            Some((l, p)) => Some((Include(l), p)),
            None => None,
        }
    }

    /// Reads an include from the front of `input`.
    pub fn parse<'a>(input: &'a str) -> (r: ParseResult<'a, Include>)
        ensures
            match include_at(input@, 0) {
                Some((m, p)) => r matches Ok((rest, v)) && v.deep_view() == m && rest@
                    == input@.skip(p),
                None => r matches Err(e) && e.expected@ == "include"@,
            },
    {
        let chars = chars_of(input);
        match Self::parse_at(chars.as_slice(), 0) {
            Some((v, p)) => Ok((rest_of(input, p), v)),
            None => Err(ParseError { expected: "include" }),
        }
    }
}

// ---------------------------------------------------------------------
// CppInclude      ::=  'cpp_include' Literal
// ---------------------------------------------------------------------
/// The C++ include at `pos`.
pub open spec fn cpp_include_at(s: Seq<char>, pos: int) -> Found<Seq<char>> {
    keyword_literal_at(s, pos, "cpp_include"@)
}

/// A C++ include. It is read and not used.
#[derive(Debug, Clone, PartialEq, Eq)]
pub struct CppInclude(pub Literal);

impl DeepView for CppInclude {
    type V = Seq<char>;

    open spec fn deep_view(&self) -> Seq<char> {
        self.0@
    }
}

impl CppInclude {
    /// The C++ include of this path.
    pub fn from(l: Literal) -> (r: Self)
        ensures
            r.deep_view() == l@,
    {
        CppInclude(l)
    }

    /// Reads the C++ include at `pos`.
    pub fn parse_at(chars: &[char], pos: usize) -> (r: Option<(CppInclude, usize)>)
        ensures
            match cpp_include_at(chars@, pos as int) {
                Some((m, p)) => r matches Some((v, q)) && v.deep_view() == m && q == p && pos < p
                    <= chars@.len(),
                None => r is None,
            },
    {
        match parse_keyword_literal_at(chars, pos, "cpp_include") {
            Some((l, p)) => Some((CppInclude(l), p)),
            None => None,
        }
    }

    /// Reads a C++ include from the front of `input`.
    pub fn parse<'a>(input: &'a str) -> (r: ParseResult<'a, CppInclude>)
        ensures
            match cpp_include_at(input@, 0) {
                Some((m, p)) => r matches Ok((rest, v)) && v.deep_view() == m && rest@
                    == input@.skip(p),
                None => r matches Err(e) && e.expected@ == "cpp_include"@,
            },
    {
        let chars = chars_of(input);
        match Self::parse_at(chars.as_slice(), 0) {
            Some((v, p)) => Ok((rest_of(input, p), v)),
            None => Err(ParseError { expected: "cpp_include" }),
        }
    }
}

// ---------------------------------------------------------------------
// Namespace       ::=  'namespace' NamespaceScope Identifier
// NamespaceScope  ::=  '*' | 'c_glib' | 'rs' | 'cpp' | 'delphi' | 'haxe' | 'go' | 'java' |
//                      'js' | 'lua' | 'netstd' | 'perl' | 'php' | 'py.twisted' | 'py' | 'rb' |
//                      'st' | 'xsd'
// ---------------------------------------------------------------------
/// The position behind the scope at `pos`: the scope word that stands
/// there, whatever follows it. Where two stand there the longer is
/// taken, so `py.twisted` is read as a whole and not as `py`.
pub open spec fn namespace_scope_end(s: Seq<char>, pos: int) -> Option<int> {
    if has_at(s, pos, "*"@) {
        Some(pos + "*"@.len())
    } else if has_at(s, pos, "c_glib"@) {
        Some(pos + "c_glib"@.len())
    } else if has_at(s, pos, "rs"@) {
        Some(pos + "rs"@.len())
    } else if has_at(s, pos, "cpp"@) {
        Some(pos + "cpp"@.len())
    } else if has_at(s, pos, "delphi"@) {
        Some(pos + "delphi"@.len())
    } else if has_at(s, pos, "haxe"@) {
        Some(pos + "haxe"@.len())
    } else if has_at(s, pos, "go"@) {
        Some(pos + "go"@.len())
    } else if has_at(s, pos, "java"@) {
        Some(pos + "java"@.len())
    } else if has_at(s, pos, "js"@) {
        Some(pos + "js"@.len())
    } else if has_at(s, pos, "lua"@) {
        Some(pos + "lua"@.len())
    } else if has_at(s, pos, "netstd"@) {
        Some(pos + "netstd"@.len())
    } else if has_at(s, pos, "perl"@) {
        Some(pos + "perl"@.len())
    } else if has_at(s, pos, "php"@) {
        Some(pos + "php"@.len())
    } else if has_at(s, pos, "py.twisted"@) {
        Some(pos + "py.twisted"@.len())
    } else if has_at(s, pos, "py"@) {
        Some(pos + "py"@.len())
    } else if has_at(s, pos, "rb"@) {
        Some(pos + "rb"@.len())
    } else if has_at(s, pos, "st"@) {
        Some(pos + "st"@.len())
    } else if has_at(s, pos, "xsd"@) {
        Some(pos + "xsd"@.len())
    } else {
        None
    }
}

/// The scope at `pos`.
pub open spec fn namespace_scope_at(s: Seq<char>, pos: int) -> Found<Seq<char>> {
    match namespace_scope_end(s, pos) {
        Some(p) => Some((s.subrange(pos, p), p)),
        None => None,
    }
}

/// The language that a namespace is for; `*` stands for all.
#[derive(Debug, Clone, PartialEq, Eq)]
pub struct NamespaceScope(pub String);

impl View for NamespaceScope {
    type V = Seq<char>;

    open spec fn view(&self) -> Seq<char> {
        self.0@
    }
}

impl NamespaceScope {
    /// The scope with this text.
    pub fn from(s: &str) -> (r: Self)
        ensures
            r@ == s@,
    {
        NamespaceScope(String::from_str(s))
    }

    /// The text.
    pub fn as_str(&self) -> (r: &str)
        ensures
            r@ == self@,
    {
        self.0.as_str()
    }

    /// The position behind the scope at `pos`.
    fn end_at(chars: &[char], pos: usize) -> (r: Option<usize>)
        ensures
            match namespace_scope_end(chars@, pos as int) {
                Some(p) => r matches Some(found) && found == p && pos <= p <= chars@.len(),
                None => r is None,
            },
    {
        if let Some(end) = tag_at(chars, pos, "*") {
            Some(end)
        } else if let Some(end) = tag_at(chars, pos, "c_glib") {
            Some(end)
        } else if let Some(end) = tag_at(chars, pos, "rs") {
            Some(end)
        } else if let Some(end) = tag_at(chars, pos, "cpp") {
            Some(end)
        } else if let Some(end) = tag_at(chars, pos, "delphi") {
            Some(end)
        } else if let Some(end) = tag_at(chars, pos, "haxe") {
            Some(end)
        } else if let Some(end) = tag_at(chars, pos, "go") {
            Some(end)
        } else if let Some(end) = tag_at(chars, pos, "java") {
            Some(end)
        } else if let Some(end) = tag_at(chars, pos, "js") {
            Some(end)
        } else if let Some(end) = tag_at(chars, pos, "lua") {
            Some(end)
        } else if let Some(end) = tag_at(chars, pos, "netstd") {
            Some(end)
        } else if let Some(end) = tag_at(chars, pos, "perl") {
            Some(end)
        } else if let Some(end) = tag_at(chars, pos, "php") {
            Some(end)
        } else if let Some(end) = tag_at(chars, pos, "py.twisted") {
            Some(end)
        } else if let Some(end) = tag_at(chars, pos, "py") {
            Some(end)
        } else if let Some(end) = tag_at(chars, pos, "rb") {
            Some(end)
        } else if let Some(end) = tag_at(chars, pos, "st") {
            Some(end)
        } else if let Some(end) = tag_at(chars, pos, "xsd") {
            Some(end)
        } else {
            None
        }
    }

    /// Reads the scope at `pos`.
    pub fn parse_at(chars: &[char], pos: usize) -> (r: Option<(NamespaceScope, usize)>)
        ensures
            match namespace_scope_at(chars@, pos as int) {
                Some((m, p)) => r matches Some((v, q)) && v@ == m && q == p && pos <= p
                    <= chars@.len(),
                None => r is None,
            },
    {
        match Self::end_at(chars, pos) {
            Some(end) => Some((NamespaceScope(string_of(chars, pos, end)), end)),
            None => None,
        }
    }

    /// Reads a scope from the front of `input`.
    pub fn parse<'a>(input: &'a str) -> (r: ParseResult<'a, NamespaceScope>)
        ensures
            match namespace_scope_at(input@, 0) {
                Some((m, p)) => r matches Ok((rest, v)) && v@ == m && rest@ == input@.skip(p),
                None => r matches Err(e) && e.expected@ == "namespace scope"@,
            },
    {
        let chars = chars_of(input);
        match Self::parse_at(chars.as_slice(), 0) {
            Some((v, p)) => Ok((rest_of(input, p), v)),
            None => Err(ParseError { expected: "namespace scope" }),
        }
    }
}

/// A namespace as mathematics.
pub struct NamespaceModel {
    pub scope: Seq<char>,
    pub name: Seq<char>,
}

/// The namespace at `pos`: the word `namespace`, a scope and a name, with
/// separators between them.
pub open spec fn namespace_at(s: Seq<char>, pos: int) -> Found<NamespaceModel> {
    if has_at(s, pos, "namespace"@) {
        match separator_at(s, pos + "namespace"@.len()) {
            None => None,
            Some(pos1) => match namespace_scope_at(s, pos1) {
                None => None,
                Some((scope, pos2)) => match separator_at(s, pos2) {
                    None => None,
                    Some(pos3) => match identifier_at(s, pos3) {
                        None => None,
                        Some((name, pos4)) => Some((NamespaceModel { scope, name }, pos4)),
                    },
                },
            },
        }
    } else {
        None
    }
}

/// The namespace of a document for one language, or for all.
#[derive(Debug, Clone, PartialEq, Eq)]
pub struct Namespace {
    pub scope: NamespaceScope,
    pub name: Identifier,
}

impl DeepView for Namespace {
    type V = NamespaceModel;

    open spec fn deep_view(&self) -> NamespaceModel {
        NamespaceModel { scope: self.scope@, name: self.name@ }
    }
}

impl Namespace {
    /// Reads the namespace at `pos`.
    pub fn parse_at(chars: &[char], pos: usize) -> (r: Option<(Namespace, usize)>)
        ensures
            match namespace_at(chars@, pos as int) {
                Some((m, p)) => r matches Some((v, q)) && v.deep_view() == m && q == p && pos < p
                    <= chars@.len(),
                None => r is None,
            },
    {
        match tag_at(chars, pos, "namespace") {
            None => None,
            Some(after) => match Separator::parse_at(chars, after) {
                None => None,
                Some(pos1) => match NamespaceScope::parse_at(chars, pos1) {
                    None => None,
                    Some((scope, pos2)) => match Separator::parse_at(chars, pos2) {
                        None => None,
                        Some(pos3) => match Identifier::parse_at(chars, pos3) {
                            None => None,
                            Some((name, pos4)) => Some((Namespace { scope, name }, pos4)),
                        },
                    },
                },
            },
        }
    }

    /// Reads a namespace from the front of `input`.
    pub fn parse<'a>(input: &'a str) -> (r: ParseResult<'a, Namespace>)
        ensures
            match namespace_at(input@, 0) {
                Some((m, p)) => r matches Ok((rest, v)) && v.deep_view() == m && rest@
                    == input@.skip(p),
                None => r matches Err(e) && e.expected@ == "namespace"@,
            },
    {
        let chars = chars_of(input);
        match Self::parse_at(chars.as_slice(), 0) {
            Some((v, p)) => Ok((rest_of(input, p), v)),
            None => Err(ParseError { expected: "namespace" }),
        }
    }
}

} // verus!
