//! Definitions: constants, typedefs, enums, structs, unions, exceptions
//! and services.

use vstd::prelude::*;
use vstd::string::*;

use crate::text::{chars_of, has_at, tag_at};
use crate::thrift_parser::basic::{
    identifier_at, rest_of, separator_at, separators_end, Found, Identifier, ListSeparator,
    Separator,
};
use crate::thrift_parser::constant::{
    const_model, const_value_at, int_constant_at, item_separator_at, parse_list_separator_at,
    ConstValue, ConstValueModel, IntConstant,
};
use crate::thrift_parser::field::{field_list_at, Field, FieldModel};
use crate::thrift_parser::functions::{
    after_trailing_separator, function_list_at, Function, FunctionModel,
};
use crate::thrift_parser::types::{field_type_model, type_at, FieldType, FieldTypeModel};
use crate::thrift_parser::{lemma_deep_empty, lemma_deep_push, ParseError, ParseResult};

verus! {

// ---------------------------------------------------------------------
// Const           ::=  'const' FieldType Identifier '=' ConstValue ListSeparator?
// ---------------------------------------------------------------------
/// A constant definition as mathematics.
pub struct ConstModel {
    pub name: Seq<char>,
    pub type_: FieldTypeModel,
    pub value: ConstValueModel,
}

/// The constant definition at `pos`.
pub open spec fn const_at(s: Seq<char>, pos: int) -> Found<ConstModel> {
    if has_at(s, pos, "const"@) {
        match separator_at(s, pos + "const"@.len()) {
            None => None,
            Some(pos1) => match type_at(s, pos1) {
                None => None,
                Some((type_, pos2)) => match separator_at(s, pos2) {
                    None => None,
                    Some(pos3) => match identifier_at(s, pos3) {
                        None => None,
                        Some((name, pos4)) => {
                            let eq = separators_end(s, pos4);
                            if 0 <= eq < s.len() && s[eq] == '=' {
                                match const_value_at(s, separators_end(s, eq + 1)) {
                                    None => None,
                                    Some((value, pos5)) => Some(
                                        (
                                            ConstModel { name, type_, value },
                                            after_trailing_separator(s, pos5),
                                        ),
                                    ),
                                }
                            } else {
                                None
                            }
                        },
                    },
                },
            },
        }
    } else {
        None
    }
}

/// A constant definition.
#[derive(Debug, PartialEq)]
pub struct Const {
    pub name: Identifier,
    pub type_: FieldType,
    pub value: ConstValue,
}

impl DeepView for Const {
    type V = ConstModel;

    open spec fn deep_view(&self) -> ConstModel {
        ConstModel {
            name: self.name@,
            type_: field_type_model(self.type_),
            value: const_model(self.value),
        }
    }
}

impl Const {
    /// Reads the constant definition at `pos`.
    pub fn parse_at(chars: &[char], pos: usize) -> (r: Option<(Const, usize)>)
        ensures
            match const_at(chars@, pos as int) {
                Some((m, p)) => r matches Some((v, q)) && v.deep_view() == m && q == p && pos < p
                    <= chars@.len(),
                None => r is None,
            },
    {
        let after = match tag_at(chars, pos, "const") {
            Some(a) => a,
            None => {
                return None;
            },
        };
        let pos1 = match Separator::parse_at(chars, after) {
            Some(p) => p,
            None => {
                return None;
            },
        };
        let (type_, pos2) = match FieldType::parse_at(chars, pos1) {
            Some(found) => found,
            None => {
                return None;
            },
        };
        let pos3 = match Separator::parse_at(chars, pos2) {
            Some(p) => p,
            None => {
                return None;
            },
        };
        let (name, pos4) = match Identifier::parse_at(chars, pos3) {
            Some(found) => found,
            None => {
                return None;
            },
        };
        let eq = Separator::skip(chars, pos4);
        if !(eq < chars.len() && chars[eq] == '=') {
            return None;
        }
        let start = Separator::skip(chars, eq + 1);
        let (value, pos5) = match ConstValue::parse_at(chars, start) {
            Some(found) => found,
            None => {
                return None;
            },
        };
        let tail = Separator::skip(chars, pos5);
        let end = match ListSeparator::parse_at(chars, tail) {
            Some(e) => e,
            None => pos5,
        };
        Some((Const { name, type_, value }, end))
    }

    /// Reads a constant definition from the front of `input`.
    pub fn parse<'a>(input: &'a str) -> (r: ParseResult<'a, Const>)
        ensures
            match const_at(input@, 0) {
                Some((m, p)) => r matches Ok((rest, v)) && v.deep_view() == m && rest@
                    == input@.skip(p),
                None => r matches Err(e) && e.expected@ == "const"@,
            },
    {
        let chars = chars_of(input);
        match Self::parse_at(chars.as_slice(), 0) {
            Some((v, p)) => Ok((rest_of(input, p), v)),
            None => Err(ParseError { expected: "const" }),
        }
    }
}

// ---------------------------------------------------------------------
// Typedef         ::=  'typedef' DefinitionType Identifier
// DefinitionType  ::=  BaseType | ContainerType
// ---------------------------------------------------------------------
/// A typedef as mathematics.
pub struct TypedefModel {
    pub old: FieldTypeModel,
    pub alias: Seq<char>,
}

/// The typedef at `pos`.
pub open spec fn typedef_at(s: Seq<char>, pos: int) -> Found<TypedefModel> {
    if has_at(s, pos, "typedef"@) {
        match separator_at(s, pos + "typedef"@.len()) {
            None => None,
            Some(pos1) => match type_at(s, pos1) {
                None => None,
                Some((old, pos2)) => match separator_at(s, pos2) {
                    None => None,
                    Some(pos3) => match identifier_at(s, pos3) {
                        None => None,
                        Some((alias, pos4)) => Some((TypedefModel { old, alias }, pos4)),
                    },
                },
            },
        }
    } else {
        None
    }
}

/// A typedef: a new name for a type.
#[derive(Debug, PartialEq)]
pub struct Typedef {
    pub old: FieldType,
    pub alias: Identifier,
}

impl DeepView for Typedef {
    type V = TypedefModel;

    open spec fn deep_view(&self) -> TypedefModel {
        TypedefModel { old: field_type_model(self.old), alias: self.alias@ }
    }
}

impl Typedef {
    /// Reads the typedef at `pos`.
    pub fn parse_at(chars: &[char], pos: usize) -> (r: Option<(Typedef, usize)>)
        ensures
            match typedef_at(chars@, pos as int) {
                Some((m, p)) => r matches Some((v, q)) && v.deep_view() == m && q == p && pos < p
                    <= chars@.len(),
                None => r is None,
            },
    {
        let after = match tag_at(chars, pos, "typedef") {
            Some(a) => a,
            None => {
                return None;
            },
        };
        let pos1 = match Separator::parse_at(chars, after) {
            Some(p) => p,
            None => {
                return None;
            },
        };
        let (old, pos2) = match FieldType::parse_at(chars, pos1) {
            Some(found) => found,
            None => {
                return None;
            },
        };
        let pos3 = match Separator::parse_at(chars, pos2) {
            Some(p) => p,
            None => {
                return None;
            },
        };
        match Identifier::parse_at(chars, pos3) {
            Some((alias, pos4)) => Some((Typedef { old, alias }, pos4)),
            None => None,
        }
    }

    /// Reads a typedef from the front of `input`.
    pub fn parse<'a>(input: &'a str) -> (r: ParseResult<'a, Typedef>)
        ensures
            match typedef_at(input@, 0) {
                Some((m, p)) => r matches Ok((rest, v)) && v.deep_view() == m && rest@
                    == input@.skip(p),
                None => r matches Err(e) && e.expected@ == "typedef"@,
            },
    {
        let chars = chars_of(input);
        match Self::parse_at(chars.as_slice(), 0) {
            Some((v, p)) => Ok((rest_of(input, p), v)),
            None => Err(ParseError { expected: "typedef" }),
        }
    }
}

// ---------------------------------------------------------------------
// Enum            ::=  'enum' Identifier '{' (Identifier ('=' IntConstant)? ListSeparator?)* '}'
// ---------------------------------------------------------------------
/// A value of an enum as mathematics.
pub struct EnumValueModel {
    pub name: Seq<char>,
    pub value: Option<i64>,
}

/// An enum as mathematics.
pub struct EnumModel {
    pub name: Seq<char>,
    pub children: Seq<EnumValueModel>,
}

/// The value of an enum at `pos`: a name, and a number behind an equals
/// sign where there is one.
pub open spec fn enum_value_at(s: Seq<char>, pos: int) -> Found<EnumValueModel> {
    match identifier_at(s, pos) {
        None => None,
        Some((name, p)) => {
            let eq = separators_end(s, p);
            if 0 <= eq < s.len() && s[eq] == '=' {
                match int_constant_at(s, separators_end(s, eq + 1)) {
                    Some((i, q)) => Some((EnumValueModel { name, value: Some(i) }, q)),
                    None => Some((EnumValueModel { name, value: None }, p)),
                }
            } else {
                Some((EnumValueModel { name, value: None }, p))
            }
        },
    }
}

/// The values that follow those in `acc`, each behind what separates
/// items, and the position behind the last of them.
pub open spec fn enum_values_from(s: Seq<char>, pos: int, acc: Seq<EnumValueModel>) -> (
    Seq<EnumValueModel>,
    int,
)
    decreases s.len() - pos,
{
    match item_separator_at(s, pos) {
        None => (acc, pos),
        Some(pos1) => match enum_value_at(s, pos1) {
            None => (acc, pos),
            Some((v, pos2)) => if pos < pos2 <= s.len() {
                enum_values_from(s, pos2, acc.push(v))
            } else {
                (acc, pos)
            },
        },
    }
}

/// The values of an enum at `pos`, and the position behind the last of
/// them.
pub open spec fn enum_value_list_at(s: Seq<char>, pos: int) -> (Seq<EnumValueModel>, int) {
    match enum_value_at(s, pos) {
        None => (Seq::empty(), pos),
        Some((v, p)) => enum_values_from(s, p, seq![v]),
    }
}

/// The name behind `keyword` and a separator at `pos`, and the position
/// behind the opening curly bracket and the comments and blanks that
/// follow it.
pub open spec fn block_head_at(s: Seq<char>, pos: int, keyword: Seq<char>) -> Found<Seq<char>> {
    if has_at(s, pos, keyword) {
        match separator_at(s, pos + keyword.len()) {
            None => None,
            Some(pos1) => match identifier_at(s, pos1) {
                None => None,
                Some((name, pos2)) => {
                    let open = separators_end(s, pos2);
                    if 0 <= open < s.len() && s[open] == '{' {
                        Some((name, separators_end(s, open + 1)))
                    } else {
                        None
                    }
                },
            },
        }
    } else {
        None
    }
}

/// The position behind the closing curly bracket that stands at `pos`,
/// comments and blanks aside.
pub open spec fn block_end_at(s: Seq<char>, pos: int) -> Option<int> {
    let close = separators_end(s, pos);
    if 0 <= close < s.len() && s[close] == '}' {
        Some(close + 1)
    } else {
        None
    }
}

/// The enum at `pos`.
pub open spec fn enum_at(s: Seq<char>, pos: int) -> Found<EnumModel> {
    match block_head_at(s, pos, "enum"@) {
        None => None,
        Some((name, pos1)) => {
            let (children, pos2) = enum_value_list_at(s, pos1);
            match block_end_at(s, pos2) {
                Some(pos3) => Some((EnumModel { name, children }, pos3)),
                None => None,
            }
        },
    }
}

/// A value of an enum.
#[derive(Debug, Clone, PartialEq)]
pub struct EnumValue {
    pub name: Identifier,
    pub value: Option<IntConstant>,
}

/// An enum.
#[derive(Debug, Clone, PartialEq)]
pub struct Enum {
    pub name: Identifier,
    pub children: Vec<EnumValue>,
}

impl DeepView for EnumValue {
    type V = EnumValueModel;

    open spec fn deep_view(&self) -> EnumValueModel {
        EnumValueModel {
            name: self.name@,
            value: match self.value {
                Some(i) => Some(i.0),
                None => None,
            },
        }
    }
}

impl DeepView for Enum {
    type V = EnumModel;

    open spec fn deep_view(&self) -> EnumModel {
        EnumModel { name: self.name@, children: self.children.deep_view() }
    }
}

/// Reads the name behind `keyword` at `pos` and the opening bracket.
pub fn parse_block_head_at(chars: &[char], pos: usize, keyword: &str) -> (r: Option<
    (Identifier, usize),
>)
    ensures
        match block_head_at(chars@, pos as int, keyword@) {
            Some((m, p)) => r matches Some((v, q)) && v@ == m && q == p && pos < p
                <= chars@.len(),
            None => r is None,
        },
{
    let after = match tag_at(chars, pos, keyword) {
        Some(a) => a,
        None => {
            return None;
        },
    };
    let pos1 = match Separator::parse_at(chars, after) {
        Some(p) => p,
        None => {
            return None;
        },
    };
    let (name, pos2) = match Identifier::parse_at(chars, pos1) {
        Some(found) => found,
        None => {
            return None;
        },
    };
    let open = Separator::skip(chars, pos2);
    if open < chars.len() && chars[open] == '{' {
        Some((name, Separator::skip(chars, open + 1)))
    } else {
        None
    }
}

/// Reads the closing bracket at `pos`, comments and blanks aside.
pub fn parse_block_end_at(chars: &[char], pos: usize) -> (r: Option<usize>)
    ensures
        match block_end_at(chars@, pos as int) {
            Some(p) => r matches Some(found) && found == p && pos < p <= chars@.len(),
            None => r is None,
        },
{
    let close = Separator::skip(chars, pos);
    if close < chars.len() && chars[close] == '}' {
        Some(close + 1)
    } else {
        None
    }
}

impl EnumValue {
    /// Reads the value of an enum at `pos`.
    pub fn parse_at(chars: &[char], pos: usize) -> (r: Option<(EnumValue, usize)>)
        ensures
            match enum_value_at(chars@, pos as int) {
                Some((m, p)) => r matches Some((v, q)) && v.deep_view() == m && q == p && pos < p
                    <= chars@.len(),
                None => r is None,
            },
    {
        match Identifier::parse_at(chars, pos) {
            None => None,
            Some((name, p)) => {
                let eq = Separator::skip(chars, p);
                if eq < chars.len() && chars[eq] == '=' {
                    let start = Separator::skip(chars, eq + 1);
                    match IntConstant::parse_at(chars, start) {
                        Some((i, q)) => Some((EnumValue { name, value: Some(i) }, q)),
                        None => Some((EnumValue { name, value: None }, p)),
                    }
                } else {
                    Some((EnumValue { name, value: None }, p))
                }
            },
        }
    }

    /// Reads a value of an enum from the front of `input`.
    pub fn parse<'a>(input: &'a str) -> (r: ParseResult<'a, EnumValue>)
        ensures
            match enum_value_at(input@, 0) {
                Some((m, p)) => r matches Ok((rest, v)) && v.deep_view() == m && rest@
                    == input@.skip(p),
                None => r matches Err(e) && e.expected@ == "enum value"@,
            },
    {
        let chars = chars_of(input);
        match Self::parse_at(chars.as_slice(), 0) {
            Some((v, p)) => Ok((rest_of(input, p), v)),
            None => Err(ParseError { expected: "enum value" }),
        }
    }
}

impl Enum {
    /// Reads the values of an enum at `pos`.
    fn parse_values_at(chars: &[char], pos: usize) -> (r: (Vec<EnumValue>, usize))
        ensures
            r.0.deep_view() == enum_value_list_at(chars@, pos as int).0,
            r.1 == enum_value_list_at(chars@, pos as int).1,
            pos <= r.1,
            r.1 <= chars@.len() || r.1 == pos,
    {
        let mut values: Vec<EnumValue> = Vec::new();
        let mut p = pos;
        proof {
            lemma_deep_empty(values);
        }
        match EnumValue::parse_at(chars, pos) {
            None => {},
            Some((v, q)) => {
                let ghost empty = values;
                values.push(v);
                p = q;
                proof {
                    lemma_deep_push(empty, values, v);
                    assert(values.deep_view() =~= seq![v.deep_view()]);
                }
                loop
                    invariant_except_break
                        enum_values_from(chars@, p as int, values.deep_view())
                            == enum_values_from(chars@, q as int, seq![v.deep_view()]),
                    invariant
                        pos <= p,
                        p <= chars@.len() || p == pos,
                    ensures
                        enum_values_from(chars@, q as int, seq![v.deep_view()]) == (
                            values.deep_view(),
                            p as int,
                        ),
                    decreases chars@.len() - p,
                {
                    match parse_list_separator_at(chars, p) {
                        None => {
                            break ;
                        },
                        Some(pos1) => match EnumValue::parse_at(chars, pos1) {
                            None => {
                                break ;
                            },
                            Some((next, pos2)) => {
                                let ghost before = values;
                                values.push(next);
                                proof {
                                    lemma_deep_push(before, values, next);
                                }
                                p = pos2;
                            },
                        },
                    }
                }
            },
        }
        (values, p)
    }

    /// Reads the enum at `pos`.
    pub fn parse_at(chars: &[char], pos: usize) -> (r: Option<(Enum, usize)>)
        ensures
            match enum_at(chars@, pos as int) {
                Some((m, p)) => r matches Some((v, q)) && v.deep_view() == m && q == p && pos < p
                    <= chars@.len(),
                None => r is None,
            },
    {
        match parse_block_head_at(chars, pos, "enum") {
            None => None,
            Some((name, pos1)) => {
                let (children, pos2) = Self::parse_values_at(chars, pos1);
                match parse_block_end_at(chars, pos2) {
                    Some(pos3) => Some((Enum { name, children }, pos3)),
                    None => None,
                }
            },
        }
    }

    /// Reads an enum from the front of `input`.
    pub fn parse<'a>(input: &'a str) -> (r: ParseResult<'a, Enum>)
        ensures
            match enum_at(input@, 0) {
                Some((m, p)) => r matches Ok((rest, v)) && v.deep_view() == m && rest@
                    == input@.skip(p),
                None => r matches Err(e) && e.expected@ == "enum"@,
            },
    {
        let chars = chars_of(input);
        match Self::parse_at(chars.as_slice(), 0) {
            Some((v, p)) => Ok((rest_of(input, p), v)),
            None => Err(ParseError { expected: "enum" }),
        }
    }
}

// ---------------------------------------------------------------------
// Struct          ::=  'struct' Identifier '{' Field* '}'
// Union           ::=  'union' Identifier '{' Field* '}'
// Exception       ::=  'exception' Identifier '{' Field* '}'
// ---------------------------------------------------------------------
/// A struct, a union or an exception as mathematics.
pub struct RecordModel {
    pub name: Seq<char>,
    pub fields: Seq<FieldModel>,
}

/// The record behind `keyword` at `pos`: a name, and fields between
/// curly brackets.
pub open spec fn record_at(s: Seq<char>, pos: int, keyword: Seq<char>) -> Found<RecordModel> {
    match block_head_at(s, pos, keyword) {
        None => None,
        Some((name, pos1)) => {
            let (fields, pos2) = field_list_at(s, pos1);
            match block_end_at(s, pos2) {
                Some(pos3) => Some((RecordModel { name, fields }, pos3)),
                None => None,
            }
        },
    }
}

/// Reads the record behind `keyword` at `pos`.
pub fn parse_record_at(chars: &[char], pos: usize, keyword: &str) -> (r: Option<
    ((Identifier, Vec<Field>), usize),
>)
    ensures
        match record_at(chars@, pos as int, keyword@) {
            Some((m, p)) => r matches Some((v, q)) && v.0@ == m.name && v.1.deep_view()
                == m.fields && q == p && pos < p <= chars@.len(),
            None => r is None,
        },
{
    match parse_block_head_at(chars, pos, keyword) {
        None => None,
        Some((name, pos1)) => {
            let (fields, pos2) = Field::parse_list_at(chars, pos1);
            match parse_block_end_at(chars, pos2) {
                Some(pos3) => Some(((name, fields), pos3)),
                None => None,
            }
        },
    }
}

/// The struct at `pos`.
pub open spec fn struct_at(s: Seq<char>, pos: int) -> Found<RecordModel> {
    record_at(s, pos, "struct"@)
}

/// The union at `pos`.
pub open spec fn union_at(s: Seq<char>, pos: int) -> Found<RecordModel> {
    record_at(s, pos, "union"@)
}

/// The exception at `pos`.
pub open spec fn exception_at(s: Seq<char>, pos: int) -> Found<RecordModel> {
    record_at(s, pos, "exception"@)
}

/// A struct.
#[derive(Debug, PartialEq)]
pub struct Struct {
    pub name: Identifier,
    pub fields: Vec<Field>,
}

/// A union.
#[derive(Debug, PartialEq)]
pub struct Union {
    pub name: Identifier,
    pub fields: Vec<Field>,
}

/// An exception.
#[derive(Debug, PartialEq)]
pub struct Exception {
    pub name: Identifier,
    pub fields: Vec<Field>,
}

impl DeepView for Struct {
    type V = RecordModel;

    open spec fn deep_view(&self) -> RecordModel {
        RecordModel { name: self.name@, fields: self.fields.deep_view() }
    }
}

impl DeepView for Union {
    type V = RecordModel;

    open spec fn deep_view(&self) -> RecordModel {
        RecordModel { name: self.name@, fields: self.fields.deep_view() }
    }
}

impl DeepView for Exception {
    type V = RecordModel;

    open spec fn deep_view(&self) -> RecordModel {
        RecordModel { name: self.name@, fields: self.fields.deep_view() }
    }
}

impl Struct {
    /// Reads the struct at `pos`.
    pub fn parse_at(chars: &[char], pos: usize) -> (r: Option<(Struct, usize)>)
        ensures
            match struct_at(chars@, pos as int) {
                Some((m, p)) => r matches Some((v, q)) && v.deep_view() == m && q == p && pos < p
                    <= chars@.len(),
                None => r is None,
            },
    {
        match parse_record_at(chars, pos, "struct") {
            Some(((name, fields), p)) => Some((Struct { name, fields }, p)),
            None => None,
        }
    }

    /// Reads a struct from the front of `input`.
    pub fn parse<'a>(input: &'a str) -> (r: ParseResult<'a, Struct>)
        ensures
            match struct_at(input@, 0) {
                Some((m, p)) => r matches Ok((rest, v)) && v.deep_view() == m && rest@
                    == input@.skip(p),
                None => r matches Err(e) && e.expected@ == "struct"@,
            },
    {
        let chars = chars_of(input);
        match Self::parse_at(chars.as_slice(), 0) {
            Some((v, p)) => Ok((rest_of(input, p), v)),
            None => Err(ParseError { expected: "struct" }),
        }
    }
}

impl Union {
    /// Reads the union at `pos`.
    pub fn parse_at(chars: &[char], pos: usize) -> (r: Option<(Union, usize)>)
        ensures
            match union_at(chars@, pos as int) {
                Some((m, p)) => r matches Some((v, q)) && v.deep_view() == m && q == p && pos < p
                    <= chars@.len(),
                None => r is None,
            },
    {
        match parse_record_at(chars, pos, "union") {
            Some(((name, fields), p)) => Some((Union { name, fields }, p)),
            None => None,
        }
    }

    /// Reads a union from the front of `input`.
    pub fn parse<'a>(input: &'a str) -> (r: ParseResult<'a, Union>)
        ensures
            match union_at(input@, 0) {
                Some((m, p)) => r matches Ok((rest, v)) && v.deep_view() == m && rest@
                    == input@.skip(p),
                None => r matches Err(e) && e.expected@ == "union"@,
            },
    {
        let chars = chars_of(input);
        match Self::parse_at(chars.as_slice(), 0) {
            Some((v, p)) => Ok((rest_of(input, p), v)),
            None => Err(ParseError { expected: "union" }),
        }
    }
}

impl Exception {
    /// Reads the exception at `pos`.
    pub fn parse_at(chars: &[char], pos: usize) -> (r: Option<(Exception, usize)>)
        ensures
            match exception_at(chars@, pos as int) {
                Some((m, p)) => r matches Some((v, q)) && v.deep_view() == m && q == p && pos < p
                    <= chars@.len(),
                None => r is None,
            },
    {
        match parse_record_at(chars, pos, "exception") {
            Some(((name, fields), p)) => Some((Exception { name, fields }, p)),
            None => None,
        }
    }

    /// Reads an exception from the front of `input`.
    pub fn parse<'a>(input: &'a str) -> (r: ParseResult<'a, Exception>)
        ensures
            match exception_at(input@, 0) {
                Some((m, p)) => r matches Ok((rest, v)) && v.deep_view() == m && rest@
                    == input@.skip(p),
                None => r matches Err(e) && e.expected@ == "exception"@,
            },
    {
        let chars = chars_of(input);
        match Self::parse_at(chars.as_slice(), 0) {
            Some((v, p)) => Ok((rest_of(input, p), v)),
            None => Err(ParseError { expected: "exception" }),
        }
    }
}

// ---------------------------------------------------------------------
// Service         ::=  'service' Identifier ( 'extends' Identifier )? '{' Function* '}'
// ---------------------------------------------------------------------
/// A service as mathematics.
pub struct ServiceModel {
    pub name: Seq<char>,
    pub extension: Option<Seq<char>>,
    pub functions: Seq<FunctionModel>,
}

/// The `extends` clause at `pos` and the position behind it and the
/// comments and blanks that follow; nothing and `pos` where there is
/// none.
pub open spec fn extends_at(s: Seq<char>, pos: int) -> (Option<Seq<char>>, int) {
    if has_at(s, pos, "extends"@) {
        match separator_at(s, pos + "extends"@.len()) {
            Some(pos1) => match identifier_at(s, pos1) {
                Some((name, pos2)) => (Some(name), separators_end(s, pos2)),
                None => (None, pos),
            },
            None => (None, pos),
        }
    } else {
        (None, pos)
    }
}

/// The service at `pos`.
pub open spec fn service_at(s: Seq<char>, pos: int) -> Found<ServiceModel> {
    if has_at(s, pos, "service"@) {
        match separator_at(s, pos + "service"@.len()) {
            None => None,
            Some(pos1) => match identifier_at(s, pos1) {
                None => None,
                Some((name, pos2)) => {
                    let (extension, pos3) = extends_at(s, separators_end(s, pos2));
                    if 0 <= pos3 < s.len() && s[pos3] == '{' {
                        let (functions, pos4) = function_list_at(s, separators_end(s, pos3 + 1));
                        match block_end_at(s, pos4) {
                            Some(pos5) => Some((ServiceModel { name, extension, functions }, pos5)),
                            None => None,
                        }
                    } else {
                        None
                    }
                },
            },
        }
    } else {
        None
    }
}

/// A service: its name, the service it extends where the text says so,
/// and its functions.
#[derive(Debug, PartialEq)]
pub struct Service {
    pub name: Identifier,
    pub extension: Option<Identifier>,
    pub functions: Vec<Function>,
}

impl DeepView for Service {
    type V = ServiceModel;

    open spec fn deep_view(&self) -> ServiceModel {
        ServiceModel {
            name: self.name@,
            extension: match self.extension {
                Some(e) => Some(e@),
                None => None,
            },
            functions: self.functions.deep_view(),
        }
    }
}

impl Service {
    /// Reads the `extends` clause at `pos`, where there is one.
    fn parse_extends_at(chars: &[char], pos: usize) -> (r: (Option<Identifier>, usize))
        ensures
            match extends_at(chars@, pos as int).0 {
                Some(m) => r.0 matches Some(v) && v@ == m,
                None => r.0 is None,
            },
            r.1 == extends_at(chars@, pos as int).1,
            pos <= r.1,
            r.1 <= chars@.len() || r.1 == pos,
    {
        if let Some(after) = tag_at(chars, pos, "extends") {
            match Separator::parse_at(chars, after) {
                Some(pos1) => match Identifier::parse_at(chars, pos1) {
                    Some((name, pos2)) => (Some(name), Separator::skip(chars, pos2)),
                    None => (None, pos),
                },
                None => (None, pos),
            }
        } else {
            (None, pos)
        }
    }

    /// Reads the service at `pos`.
    pub fn parse_at(chars: &[char], pos: usize) -> (r: Option<(Service, usize)>)
        ensures
            match service_at(chars@, pos as int) {
                Some((m, p)) => r matches Some((v, q)) && v.deep_view() == m && q == p && pos < p
                    <= chars@.len(),
                None => r is None,
            },
    {
        let after = match tag_at(chars, pos, "service") {
            Some(a) => a,
            None => {
                return None;
            },
        };
        let pos1 = match Separator::parse_at(chars, after) {
            Some(p) => p,
            None => {
                return None;
            },
        };
        let (name, pos2) = match Identifier::parse_at(chars, pos1) {
            Some(found) => found,
            None => {
                return None;
            },
        };
        let p = Separator::skip(chars, pos2);
        let (extension, pos3) = Self::parse_extends_at(chars, p);
        if !(pos3 < chars.len() && chars[pos3] == '{') {
            return None;
        }
        let start = Separator::skip(chars, pos3 + 1);
        let (functions, pos4) = Function::parse_list_at(chars, start);
        match parse_block_end_at(chars, pos4) {
            Some(pos5) => Some((Service { name, extension, functions }, pos5)),
            None => None,
        }
    }

    /// Reads a service from the front of `input`.
    pub fn parse<'a>(input: &'a str) -> (r: ParseResult<'a, Service>)
        ensures
            match service_at(input@, 0) {
                Some((m, p)) => r matches Ok((rest, v)) && v.deep_view() == m && rest@
                    == input@.skip(p),
                None => r matches Err(e) && e.expected@ == "service"@,
            },
    {
        let chars = chars_of(input);
        match Self::parse_at(chars.as_slice(), 0) {
            Some((v, p)) => Ok((rest_of(input, p), v)),
            None => Err(ParseError { expected: "service" }),
        }
    }
}

} // verus!
