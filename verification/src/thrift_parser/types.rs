//! The types that a field, a constant or a function may have.

use vstd::prelude::*;
use vstd::string::*;

use crate::text::{chars_of, has_at, tag_at};
use crate::thrift_parser::basic::{
    identifier_at, literal_at, rest_of, separator_at, separators_end, Found, Identifier, Literal,
    Separator,
};
use crate::thrift_parser::{ParseError, ParseResult};

verus! {

// ---------------------------------------------------------------------
// CppType         ::=  'cpp_type' Literal
// ---------------------------------------------------------------------
/// The C++ type annotation at `pos`: the word `cpp_type`, a separator,
/// and a literal.
pub open spec fn cpp_type_at(s: Seq<char>, pos: int) -> Found<Seq<char>> {
    if has_at(s, pos, "cpp_type"@) {
        match separator_at(s, pos + "cpp_type"@.len()) {
            Some(p) => literal_at(s, p),
            None => None,
        }
    } else {
        None
    }
}

/// A C++ type annotation. It is read and not used.
#[derive(Debug, Clone, PartialEq, Eq)]
pub struct CppType(pub Literal);

impl DeepView for CppType {
    type V = Seq<char>;

    open spec fn deep_view(&self) -> Seq<char> {
        self.0@
    }
}

impl CppType {
    /// The annotation with this literal.
    pub fn from(l: Literal) -> (r: Self)
        ensures
            r.deep_view() == l@,
    {
        CppType(l)
    }

    /// Reads the annotation at `pos`.
    pub fn parse_at(chars: &[char], pos: usize) -> (r: Option<(CppType, usize)>)
        ensures
            match cpp_type_at(chars@, pos as int) {
                Some((m, p)) => r matches Some((v, q)) && v.deep_view() == m && q == p && pos < p
                    <= chars@.len(),
                None => r is None,
            },
    {
        match tag_at(chars, pos, "cpp_type") {
            Some(after) => match Separator::parse_at(chars, after) {
                Some(p) => match Literal::parse_at(chars, p) {
                    Some((l, q)) => Some((CppType(l), q)),
                    None => None,
                },
                None => None,
            },
            None => None,
        }
    }

    /// Reads an annotation from the front of `input`.
    pub fn parse<'a>(input: &'a str) -> (r: ParseResult<'a, CppType>)
        ensures
            match cpp_type_at(input@, 0) {
                Some((m, p)) => r matches Ok((rest, v)) && v.deep_view() == m && rest@
                    == input@.skip(p),
                None => r matches Err(e) && e.expected@ == "cpp_type"@,
            },
    {
        let chars = chars_of(input);
        match Self::parse_at(chars.as_slice(), 0) {
            Some((v, p)) => Ok((rest_of(input, p), v)),
            None => Err(ParseError { expected: "cpp_type" }),
        }
    }
}

// ---------------------------------------------------------------------
// FieldType       ::=  Identifier | BaseType | ContainerType
// BaseType        ::=  'bool' | 'byte' | 'i8' | 'i16' | 'i32' | 'i64' | 'double' | 'string' | 'binary'
// ContainerType   ::=  MapType | SetType | ListType
// MapType         ::=  'map' CppType? '<' FieldType ',' FieldType '>'
// SetType         ::=  'set' CppType? '<' FieldType '>'
// ListType        ::=  'list' '<' FieldType '>' CppType?
// ---------------------------------------------------------------------
/// A type as mathematics.
pub enum FieldTypeModel {
    Identifier(Seq<char>),
    Bool,
    Byte,
    I8,
    I16,
    I32,
    I64,
    Double,
    String,
    Binary,
    MapOf(Box<FieldTypeModel>, Box<FieldTypeModel>),
    SetOf(Box<FieldTypeModel>),
    List(Box<FieldTypeModel>),
}

/// A type.
#[derive(Debug, PartialEq)]
pub enum FieldType {
    Identifier(Identifier),
    Bool,
    Byte,
    I8,
    I16,
    I32,
    I64,
    Double,
    String,
    Binary,
    MapOf(Box<FieldType>, Box<FieldType>),
    SetOf(Box<FieldType>),
    List(Box<FieldType>),
}

/// The model of a type.
pub open spec fn field_type_model(t: FieldType) -> FieldTypeModel
    decreases t,
{
    match t {
        FieldType::Identifier(i) => FieldTypeModel::Identifier(i@),
        FieldType::Bool => FieldTypeModel::Bool,
        FieldType::Byte => FieldTypeModel::Byte,
        FieldType::I8 => FieldTypeModel::I8,
        FieldType::I16 => FieldTypeModel::I16,
        FieldType::I32 => FieldTypeModel::I32,
        FieldType::I64 => FieldTypeModel::I64,
        FieldType::Double => FieldTypeModel::Double,
        FieldType::String => FieldTypeModel::String,
        FieldType::Binary => FieldTypeModel::Binary,
        FieldType::MapOf(k, v) => FieldTypeModel::MapOf(
            Box::new(field_type_model(*k)),
            Box::new(field_type_model(*v)),
        ),
        FieldType::SetOf(v) => FieldTypeModel::SetOf(Box::new(field_type_model(*v))),
        FieldType::List(v) => FieldTypeModel::List(Box::new(field_type_model(*v))),
    }
}

impl DeepView for FieldType {
    type V = FieldTypeModel;

    open spec fn deep_view(&self) -> FieldTypeModel {
        field_type_model(*self)
    }
}

/// The base type at `pos`: the first of the words `bool`, `byte`, `i8`,
/// `i16`, `i32`, `i64`, `double`, `string`, `binary` that stands there,
/// whatever follows it.
pub open spec fn base_type_at(s: Seq<char>, pos: int) -> Found<FieldTypeModel> {
    if has_at(s, pos, "bool"@) {
        Some((FieldTypeModel::Bool, pos + "bool"@.len()))
    } else if has_at(s, pos, "byte"@) {
        Some((FieldTypeModel::Byte, pos + "byte"@.len()))
    } else if has_at(s, pos, "i8"@) {
        Some((FieldTypeModel::I8, pos + "i8"@.len()))
    } else if has_at(s, pos, "i16"@) {
        Some((FieldTypeModel::I16, pos + "i16"@.len()))
    } else if has_at(s, pos, "i32"@) {
        Some((FieldTypeModel::I32, pos + "i32"@.len()))
    } else if has_at(s, pos, "i64"@) {
        Some((FieldTypeModel::I64, pos + "i64"@.len()))
    } else if has_at(s, pos, "double"@) {
        Some((FieldTypeModel::Double, pos + "double"@.len()))
    } else if has_at(s, pos, "string"@) {
        Some((FieldTypeModel::String, pos + "string"@.len()))
    } else if has_at(s, pos, "binary"@) {
        Some((FieldTypeModel::Binary, pos + "binary"@.len()))
    } else {
        None
    }
}

/// The position behind an optional C++ type annotation at `pos` and the
/// comments and blanks that follow it; `pos` where there is none.
pub open spec fn after_cpp_type(s: Seq<char>, pos: int) -> int {
    match cpp_type_at(s, pos) {
        Some((_, p)) => separators_end(s, p),
        None => pos,
    }
}

/// The type between angle brackets at `pos`, with comments and blanks
/// inside the brackets, and the position behind the closing bracket.
pub open spec fn bracketed_type_at(s: Seq<char>, pos: int, floor: int) -> Found<FieldTypeModel>
    decreases s.len() - floor, 0nat,
{
    if floor < pos < s.len() && s[pos] == '<' {
        match field_type_at(s, separators_end(s, pos + 1), floor + 1) {
            Some((t, p)) => {
                let close = separators_end(s, p);
                if 0 <= close < s.len() && s[close] == '>' {
                    Some((t, close + 1))
                } else {
                    None
                }
            },
            None => None,
        }
    } else {
        None
    }
}

/// The two types between angle brackets at `pos`, with a comma between
/// them, and the position behind the closing bracket.
pub open spec fn bracketed_pair_at(s: Seq<char>, pos: int, floor: int) -> Found<
    (FieldTypeModel, FieldTypeModel),
>
    decreases s.len() - floor, 0nat,
{
    if floor < pos < s.len() && s[pos] == '<' {
        match field_type_at(s, separators_end(s, pos + 1), floor + 1) {
            Some((k, p)) => {
                let comma = separators_end(s, p);
                if 0 <= comma < s.len() && s[comma] == ',' {
                    match field_type_at(s, separators_end(s, comma + 1), floor + 1) {
                        Some((v, pos2)) => {
                            let close = separators_end(s, pos2);
                            if 0 <= close < s.len() && s[close] == '>' {
                                Some(((k, v), close + 1))
                            } else {
                                None
                            }
                        },
                        None => None,
                    }
                } else {
                    None
                }
            },
            None => None,
        }
    } else {
        None
    }
}

/// The container type at `pos`, or the identifier that stands there.
/// `floor` is a position before `pos` from which the reading descends.
pub open spec fn container_type_at(s: Seq<char>, pos: int, floor: int) -> Found<FieldTypeModel>
    decreases s.len() - floor, 1nat,
{
    let map_type = if has_at(s, pos, "map"@) {
        bracketed_pair_at(s, after_cpp_type(s, separators_end(s, pos + "map"@.len())), floor)
    } else {
        None
    };
    let set_type = if has_at(s, pos, "set"@) {
        bracketed_type_at(s, after_cpp_type(s, separators_end(s, pos + "set"@.len())), floor)
    } else {
        None
    };
    let list_type = if has_at(s, pos, "list"@) {
        bracketed_type_at(s, separators_end(s, pos + "list"@.len()), floor)
    } else {
        None
    };
    if floor < 0 || floor > pos || pos > s.len() {
        None
    } else if map_type is Some {
        Some(
            (
                FieldTypeModel::MapOf(
                    Box::new(map_type->Some_0.0.0),
                    Box::new(map_type->Some_0.0.1),
                ),
                map_type->Some_0.1,
            ),
        )
    } else if set_type is Some {
        Some((FieldTypeModel::SetOf(Box::new(set_type->Some_0.0)), set_type->Some_0.1))
    } else if list_type is Some {
        let p = list_type->Some_0.1;
        let end = match cpp_type_at(s, separators_end(s, p)) {
            Some((_, q)) => q,
            None => p,
        };
        Some((FieldTypeModel::List(Box::new(list_type->Some_0.0)), end))
    } else {
        match identifier_at(s, pos) {
            Some((name, p)) => Some((FieldTypeModel::Identifier(name), p)),
            None => None,
        }
    }
}

/// The type at `pos`: a base type where one stands there, else a
/// container type or an identifier.
pub open spec fn field_type_at(s: Seq<char>, pos: int, floor: int) -> Found<FieldTypeModel>
    decreases s.len() - floor, 2nat,
{
    match base_type_at(s, pos) {
        Some(found) => Some(found),
        None => container_type_at(s, pos, floor),
    }
}

impl FieldType {
    /// Reads the base type at `pos`.
    pub fn parse_base_type_at(chars: &[char], pos: usize) -> (r: Option<(FieldType, usize)>)
        ensures
            match base_type_at(chars@, pos as int) {
                Some((m, p)) => r matches Some((v, q)) && field_type_model(v) == m && q == p
                    && pos < p <= chars@.len(),
                None => r is None,
            },
    {
        proof {
            reveal_strlit("bool");
            reveal_strlit("byte");
            reveal_strlit("i8");
            reveal_strlit("i16");
            reveal_strlit("i32");
            reveal_strlit("i64");
            reveal_strlit("double");
            reveal_strlit("string");
            reveal_strlit("binary");
        }
        if let Some(end) = tag_at(chars, pos, "bool") {
            Some((FieldType::Bool, end))
        } else if let Some(end) = tag_at(chars, pos, "byte") {
            Some((FieldType::Byte, end))
        } else if let Some(end) = tag_at(chars, pos, "i8") {
            Some((FieldType::I8, end))
        } else if let Some(end) = tag_at(chars, pos, "i16") {
            Some((FieldType::I16, end))
        } else if let Some(end) = tag_at(chars, pos, "i32") {
            Some((FieldType::I32, end))
        } else if let Some(end) = tag_at(chars, pos, "i64") {
            Some((FieldType::I64, end))
        } else if let Some(end) = tag_at(chars, pos, "double") {
            Some((FieldType::Double, end))
        } else if let Some(end) = tag_at(chars, pos, "string") {
            Some((FieldType::String, end))
        } else if let Some(end) = tag_at(chars, pos, "binary") {
            Some((FieldType::Binary, end))
        } else {
            None
        }
    }

    /// The position behind an optional C++ type annotation at `pos` and
    /// the comments and blanks that follow it.
    fn skip_cpp_type(chars: &[char], pos: usize) -> (r: usize)
        ensures
            r == after_cpp_type(chars@, pos as int),
            pos <= r,
            r <= chars@.len() || r == pos,
    {
        match CppType::parse_at(chars, pos) {
            Some((_, p)) => Separator::skip(chars, p),
            None => pos,
        }
    }

    /// Reads the type between angle brackets at `pos`.
    fn parse_bracketed_at(chars: &[char], pos: usize, floor: usize) -> (r: Option<
        (FieldType, usize),
    >)
        requires
            floor <= pos,
        ensures
            match bracketed_type_at(chars@, pos as int, floor as int) {
                Some((m, p)) => r matches Some((v, q)) && field_type_model(v) == m && q == p
                    && pos < p <= chars@.len(),
                None => r is None,
            },
        decreases chars@.len() - floor, 0nat,
    {
        if floor < pos && pos < chars.len() && chars[pos] == '<' {
            let start = Separator::skip(chars, pos + 1);
            match Self::parse_at_from(chars, start, floor + 1) {
                Some((t, p)) => {
                    let close = Separator::skip(chars, p);
                    if close < chars.len() && chars[close] == '>' {
                        Some((t, close + 1))
                    } else {
                        None
                    }
                },
                None => None,
            }
        } else {
            None
        }
    }

    /// Reads the two types between angle brackets at `pos`.
    fn parse_bracketed_pair_at(chars: &[char], pos: usize, floor: usize) -> (r: Option<
        ((FieldType, FieldType), usize),
    >)
        requires
            floor <= pos,
        ensures
            match bracketed_pair_at(chars@, pos as int, floor as int) {
                Some((m, p)) => r matches Some((v, q)) && field_type_model(v.0) == m.0
                    && field_type_model(v.1) == m.1 && q == p && pos < p <= chars@.len(),
                None => r is None,
            },
        decreases chars@.len() - floor, 0nat,
    {
        if floor < pos && pos < chars.len() && chars[pos] == '<' {
            let start = Separator::skip(chars, pos + 1);
            match Self::parse_at_from(chars, start, floor + 1) {
                Some((k, p)) => {
                    let comma = Separator::skip(chars, p);
                    if comma < chars.len() && chars[comma] == ',' {
                        let start2 = Separator::skip(chars, comma + 1);
                        match Self::parse_at_from(chars, start2, floor + 1) {
                            Some((v, pos2)) => {
                                let close = Separator::skip(chars, pos2);
                                if close < chars.len() && chars[close] == '>' {
                                    Some(((k, v), close + 1))
                                } else {
                                    None
                                }
                            },
                            None => None,
                        }
                    } else {
                        None
                    }
                },
                None => None,
            }
        } else {
            None
        }
    }

    /// Reads the container type at `pos`, or the identifier that stands
    /// there.
    pub fn parse_container_type_at(chars: &[char], pos: usize) -> (r: Option<(FieldType, usize)>)
        ensures
            match container_type_at(chars@, pos as int, pos as int) {
                Some((m, p)) => r matches Some((v, q)) && field_type_model(v) == m && q == p
                    && pos < p <= chars@.len(),
                None => r is None,
            },
    {
        Self::parse_container_from(chars, pos, pos)
    }

    fn parse_container_from(chars: &[char], pos: usize, floor: usize) -> (r: Option<
        (FieldType, usize),
    >)
        requires
            floor <= pos,
        ensures
            match container_type_at(chars@, pos as int, floor as int) {
                Some((m, p)) => r matches Some((v, q)) && field_type_model(v) == m && q == p
                    && pos < p <= chars@.len(),
                None => r is None,
            },
        decreases chars@.len() - floor, 1nat,
    {
        proof {
            reveal_strlit("map");
            reveal_strlit("set");
            reveal_strlit("list");
        }
        if let Some(word_end) = tag_at(chars, pos, "map") {
            let after = Separator::skip(chars, word_end);
            let open = Self::skip_cpp_type(chars, after);
            match Self::parse_bracketed_pair_at(chars, open, floor) {
                Some(((k, v), p)) => {
                    return Some((FieldType::MapOf(Box::new(k), Box::new(v)), p));
                },
                None => {},
            }
        }
        if let Some(word_end) = tag_at(chars, pos, "set") {
            let after = Separator::skip(chars, word_end);
            let open = Self::skip_cpp_type(chars, after);
            match Self::parse_bracketed_at(chars, open, floor) {
                Some((v, p)) => {
                    return Some((FieldType::SetOf(Box::new(v)), p));
                },
                None => {},
            }
        }
        if let Some(word_end) = tag_at(chars, pos, "list") {
            let open = Separator::skip(chars, word_end);
            match Self::parse_bracketed_at(chars, open, floor) {
                Some((v, p)) => {
                    let after = Separator::skip(chars, p);
                    let end = match CppType::parse_at(chars, after) {
                        Some((_, q)) => q,
                        None => p,
                    };
                    return Some((FieldType::List(Box::new(v)), end));
                },
                None => {},
            }
        }
        match Identifier::parse_at(chars, pos) {
            Some((name, p)) => Some((FieldType::Identifier(name), p)),
            None => None,
        }
    }

    /// Reads the identifier at `pos` as a type.
    pub fn parse_identifier_type_at(chars: &[char], pos: usize) -> (r: Option<(FieldType, usize)>)
        ensures
            match identifier_at(chars@, pos as int) {
                Some((m, p)) => r matches Some((v, q)) && field_type_model(v)
                    == FieldTypeModel::Identifier(m) && q == p && pos < p <= chars@.len(),
                None => r is None,
            },
    {
        match Identifier::parse_at(chars, pos) {
            Some((name, p)) => Some((FieldType::Identifier(name), p)),
            None => None,
        }
    }

    fn parse_at_from(chars: &[char], pos: usize, floor: usize) -> (r: Option<(FieldType, usize)>)
        ensures
            match field_type_at(chars@, pos as int, floor as int) {
                Some((m, p)) => r matches Some((v, q)) && field_type_model(v) == m && q == p
                    && pos < p <= chars@.len(),
                None => r is None,
            },
        decreases chars@.len() - floor, 2nat,
    {
        match Self::parse_base_type_at(chars, pos) {
            Some(found) => Some(found),
            None => if floor <= pos && pos <= chars.len() {
                Self::parse_container_from(chars, pos, floor)
            } else {
                None
            },
        }
    }

    /// Reads the type at `pos`.
    pub fn parse_at(chars: &[char], pos: usize) -> (r: Option<(FieldType, usize)>)
        ensures
            match type_at(chars@, pos as int) {
                Some((m, p)) => r matches Some((v, q)) && field_type_model(v) == m && q == p
                    && pos < p <= chars@.len(),
                None => r is None,
            },
    {
        if pos > chars.len() {
            return None;
        }
        Self::parse_at_from(chars, pos, pos)
    }

    /// Reads a type from the front of `input`.
    pub fn parse<'a>(input: &'a str) -> (r: ParseResult<'a, FieldType>)
        ensures
            match type_at(input@, 0) {
                Some((m, p)) => r matches Ok((rest, v)) && field_type_model(v) == m && rest@
                    == input@.skip(p),
                None => r matches Err(e) && e.expected@ == "field type"@,
            },
    {
        let chars = chars_of(input);
        match Self::parse_at(chars.as_slice(), 0) {
            Some((v, p)) => Ok((rest_of(input, p), v)),
            None => Err(ParseError { expected: "field type" }),
        }
    }
}

/// The type at `pos`.
pub open spec fn type_at(s: Seq<char>, pos: int) -> Found<FieldTypeModel> {
    if 0 <= pos <= s.len() {
        field_type_at(s, pos, pos)
    } else {
        None
    }
}

} // verus!
