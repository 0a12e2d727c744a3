//! Fields of structs, and parameters of functions.

use vstd::prelude::*;
use vstd::string::*;

use crate::text::{chars_of, has_at, tag_at};
use crate::thrift_parser::basic::{
    identifier_at, list_separator_at, rest_of, separator_at, separators_end, Found, Identifier,
    ListSeparator, Separator,
};
use crate::thrift_parser::constant::{
    const_model, const_value_at, int_constant_at, ConstValue, ConstValueModel, IntConstant,
};
use crate::thrift_parser::types::{field_type_model, type_at, FieldType, FieldTypeModel};
use crate::thrift_parser::{lemma_deep_empty, lemma_deep_push, ParseError, ParseResult};

verus! {

// ---------------------------------------------------------------------
// Field           ::=  FieldID? FieldReq? FieldType Identifier ('=' ConstValue)? ListSeparator?
// FieldID         ::=  IntConstant ':'
// FieldReq        ::=  'required' | 'optional'
// ---------------------------------------------------------------------
/// A field as mathematics.
pub struct FieldModel {
    pub id: Option<i64>,
    pub required: Option<bool>,
    pub type_: FieldTypeModel,
    pub name: Seq<char>,
    pub default: Option<ConstValueModel>,
}

/// A field: its id, whether it is required or optional where the text
/// says so, its type, its name, and its default where it has one.
#[derive(Debug, PartialEq)]
pub struct Field {
    pub id: Option<IntConstant>,
    pub required: Option<bool>,
    pub type_: FieldType,
    pub name: Identifier,
    pub default: Option<ConstValue>,
}

impl DeepView for Field {
    type V = FieldModel;

    open spec fn deep_view(&self) -> FieldModel {
        FieldModel {
            id: match self.id {
                Some(i) => Some(i.0),
                None => None,
            },
            required: self.required,
            type_: field_type_model(self.type_),
            name: self.name@,
            default: match self.default {
                Some(v) => Some(const_model(v)),
                None => None,
            },
        }
    }
}

/// The id of a field at `pos`, an integer and a colon with comments and
/// blanks around the colon, and the position behind it; no id and `pos`
/// where there is none.
pub open spec fn field_id_at(s: Seq<char>, pos: int) -> (Option<i64>, int) {
    match int_constant_at(s, pos) {
        Some((i, p)) => {
            let colon = separators_end(s, p);
            if 0 <= colon < s.len() && s[colon] == ':' {
                (Some(i), separators_end(s, colon + 1))
            } else {
                (None, pos)
            }
        },
        None => (None, pos),
    }
}

/// The word `required` or `optional` at `pos` with a separator behind
/// it, and the position behind the separator; nothing and `pos` where
/// there is none.
pub open spec fn field_req_at(s: Seq<char>, pos: int) -> (Option<bool>, int) {
    if has_at(s, pos, "required"@) {
        match separator_at(s, pos + "required"@.len()) {
            Some(p) => (Some(true), p),
            None => (None, pos),
        }
    } else if has_at(s, pos, "optional"@) {
        match separator_at(s, pos + "optional"@.len()) {
            Some(p) => (Some(false), p),
            None => (None, pos),
        }
    } else {
        (None, pos)
    }
}

/// The default of a field at `pos`, an equals sign and a constant value,
/// and the position behind it; nothing and `pos` where there is none.
pub open spec fn field_default_at(s: Seq<char>, pos: int) -> (Option<ConstValueModel>, int) {
    if 0 <= pos < s.len() && s[pos] == '=' {
        match const_value_at(s, separators_end(s, pos + 1)) {
            Some((v, p)) => (Some(v), p),
            None => (None, pos),
        }
    } else {
        (None, pos)
    }
}

/// The position behind an optional list separator at `pos`.
pub open spec fn after_list_separator(s: Seq<char>, pos: int) -> int {
    match list_separator_at(s, pos) {
        Some(p) => p,
        None => pos,
    }
}

/// The field at `pos`: an optional id, an optional requirement, a type, a
/// separator, a name, an optional default, and an optional list
/// separator, with comments and blanks between them.
pub open spec fn field_at(s: Seq<char>, pos: int) -> Found<FieldModel> {
    let (id, pos1) = field_id_at(s, pos);
    let (required, pos2) = field_req_at(s, pos1);
    match type_at(s, pos2) {
        None => None,
        Some((type_, pos3)) => match separator_at(s, pos3) {
            None => None,
            Some(pos4) => match identifier_at(s, pos4) {
                None => None,
                Some((name, pos5)) => {
                    let (default, pos6) = field_default_at(s, separators_end(s, pos5));
                    Some(
                        (
                            FieldModel { id, required, type_, name, default },
                            after_list_separator(s, separators_end(s, pos6)),
                        ),
                    )
                },
            },
        },
    }
}

/// The fields that follow those in `acc`, each behind a separator, and
/// the position behind the last of them.
pub open spec fn fields_from(s: Seq<char>, pos: int, acc: Seq<FieldModel>) -> (
    Seq<FieldModel>,
    int,
)
    decreases s.len() - pos,
{
    match separator_at(s, pos) {
        None => (acc, pos),
        Some(pos1) => match field_at(s, pos1) {
            None => (acc, pos),
            Some((f, pos2)) => if pos < pos2 <= s.len() {
                fields_from(s, pos2, acc.push(f))
            } else {
                (acc, pos)
            },
        },
    }
}

/// The fields at `pos`, separated by separators, and the position behind
/// the last of them; no fields and `pos` where no field stands there.
pub open spec fn field_list_at(s: Seq<char>, pos: int) -> (Seq<FieldModel>, int) {
    match field_at(s, pos) {
        None => (Seq::empty(), pos),
        Some((f, p)) => fields_from(s, p, seq![f]),
    }
}

impl Field {
    /// Reads the id of a field at `pos`, where there is one.
    fn parse_id_at(chars: &[char], pos: usize) -> (r: (Option<IntConstant>, usize))
        ensures
            r.0.deep_view() == field_id_at(chars@, pos as int).0,
            r.1 == field_id_at(chars@, pos as int).1,
            pos <= r.1,
            r.1 <= chars@.len() || r.1 == pos,
    {
        match IntConstant::parse_at(chars, pos) {
            Some((i, p)) => {
                let colon = Separator::skip(chars, p);
                if colon < chars.len() && chars[colon] == ':' {
                    (Some(i), Separator::skip(chars, colon + 1))
                } else {
                    (None, pos)
                }
            },
            None => (None, pos),
        }
    }

    /// Reads the requirement of a field at `pos`, where there is one.
    fn parse_req_at(chars: &[char], pos: usize) -> (r: (Option<bool>, usize))
        ensures
            r.0 == field_req_at(chars@, pos as int).0,
            r.1 == field_req_at(chars@, pos as int).1,
            pos <= r.1,
            r.1 <= chars@.len() || r.1 == pos,
    {
        if let Some(end) = tag_at(chars, pos, "required") {
            match Separator::parse_at(chars, end) {
                Some(p) => (Some(true), p),
                None => (None, pos),
            }
        } else if let Some(end) = tag_at(chars, pos, "optional") {
            match Separator::parse_at(chars, end) {
                Some(p) => (Some(false), p),
                None => (None, pos),
            }
        } else {
            (None, pos)
        }
    }

    /// Reads the default of a field at `pos`, where there is one.
    fn parse_default_at(chars: &[char], pos: usize) -> (r: (Option<ConstValue>, usize))
        ensures
            r.0.deep_view() == field_default_at(chars@, pos as int).0,
            r.1 == field_default_at(chars@, pos as int).1,
            pos <= r.1,
            r.1 <= chars@.len() || r.1 == pos,
    {
        if pos < chars.len() && chars[pos] == '=' {
            let start = Separator::skip(chars, pos + 1);
            match ConstValue::parse_at(chars, start) {
                Some((v, p)) => (Some(v), p),
                None => (None, pos),
            }
        } else {
            (None, pos)
        }
    }

    /// Reads the field at `pos`.
    pub fn parse_at(chars: &[char], pos: usize) -> (r: Option<(Field, usize)>)
        ensures
            match field_at(chars@, pos as int) {
                Some((m, p)) => r matches Some((v, q)) && v.deep_view() == m && q == p && pos < p
                    <= chars@.len(),
                None => r is None,
            },
    {
        let (id, pos1) = Self::parse_id_at(chars, pos);
        let (required, pos2) = Self::parse_req_at(chars, pos1);
        match FieldType::parse_at(chars, pos2) {
            None => None,
            Some((type_, pos3)) => match Separator::parse_at(chars, pos3) {
                None => None,
                Some(pos4) => match Identifier::parse_at(chars, pos4) {
                    None => None,
                    Some((name, pos5)) => {
                        let p = Separator::skip(chars, pos5);
                        let (default, pos6) = Self::parse_default_at(chars, p);
                        let pos7 = Separator::skip(chars, pos6);
                        let end = match ListSeparator::parse_at(chars, pos7) {
                            Some(e) => e,
                            None => pos7,
                        };
                        Some((Field { id, required, type_, name, default }, end))
                    },
                },
            },
        }
    }

    /// Reads the fields at `pos`, separated by separators.
    pub fn parse_list_at(chars: &[char], pos: usize) -> (r: (Vec<Field>, usize))
        ensures
            r.0.deep_view() == field_list_at(chars@, pos as int).0,
            r.1 == field_list_at(chars@, pos as int).1,
            pos <= r.1,
            r.1 <= chars@.len() || r.1 == pos,
    {
        let mut fields: Vec<Field> = Vec::new();
        let mut p = pos;
        proof {
            lemma_deep_empty(fields);
        }
        match Self::parse_at(chars, pos) {
            None => {},
            Some((f, q)) => {
                let ghost empty = fields;
                fields.push(f);
                p = q;
                proof {
                    lemma_deep_push(empty, fields, f);
                    assert(fields.deep_view() =~= seq![f.deep_view()]);
                }
                loop
                    invariant_except_break
                        fields_from(chars@, p as int, fields.deep_view()) == fields_from(
                            chars@,
                            q as int,
                            seq![f.deep_view()],
                        ),
                    invariant
                        pos <= p,
                        p <= chars@.len() || p == pos,
                    ensures
                        fields_from(chars@, q as int, seq![f.deep_view()]) == (
                            fields.deep_view(),
                            p as int,
                        ),
                    decreases chars@.len() - p,
                {
                    match Separator::parse_at(chars, p) {
                        None => {
                            break ;
                        },
                        Some(pos1) => match Self::parse_at(chars, pos1) {
                            None => {
                                break ;
                            },
                            Some((next, pos2)) => {
                                let ghost before = fields;
                                fields.push(next);
                                proof {
                                    lemma_deep_push(before, fields, next);
                                }
                                p = pos2;
                            },
                        },
                    }
                }
            },
        }
        (fields, p)
    }

    /// Reads a field from the front of `input`.
    pub fn parse<'a>(input: &'a str) -> (r: ParseResult<'a, Field>)
        ensures
            match field_at(input@, 0) {
                Some((m, p)) => r matches Ok((rest, v)) && v.deep_view() == m && rest@
                    == input@.skip(p),
                None => r matches Err(e) && e.expected@ == "field"@,
            },
    {
        let chars = chars_of(input);
        match Self::parse_at(chars.as_slice(), 0) {
            Some((v, p)) => Ok((rest_of(input, p), v)),
            None => Err(ParseError { expected: "field" }),
        }
    }
}

} // verus!
