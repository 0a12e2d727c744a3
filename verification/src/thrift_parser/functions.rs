//! Functions of services.

use vstd::prelude::*;
use vstd::string::*;

use crate::text::{chars_of, has_at, tag_at};
use crate::thrift_parser::basic::{
    identifier_at, list_separator_at, rest_of, separator_at, separators_end, Found, Identifier,
    ListSeparator, Separator,
};
use crate::thrift_parser::field::{field_list_at, Field, FieldModel};
use crate::thrift_parser::types::{field_type_model, type_at, FieldType, FieldTypeModel};
use crate::thrift_parser::{lemma_deep_empty, lemma_deep_push, ParseError, ParseResult};

verus! {

// ---------------------------------------------------------------------
// Function        ::=  'oneway'? FunctionType Identifier '(' Field* ')' Throws? ListSeparator?
// FunctionType    ::=  FieldType | 'void'
// Throws          ::=  'throws' '(' Field* ')'
// ---------------------------------------------------------------------
/// A function as mathematics.
pub struct FunctionModel {
    pub oneway: bool,
    pub returns: Option<FieldTypeModel>,
    pub name: Seq<char>,
    pub parameters: Seq<FieldModel>,
    pub exceptions: Option<Seq<FieldModel>>,
}

/// A function: whether it is one-way, what it returns (nothing for
/// `void`), its name, its parameters, and what it throws where the text
/// says so.
#[derive(Debug, PartialEq)]
pub struct Function {
    pub oneway: bool,
    pub returns: Option<FieldType>,
    pub name: Identifier,
    pub parameters: Vec<Field>,
    pub exceptions: Option<Vec<Field>>,
}

impl DeepView for Function {
    type V = FunctionModel;

    open spec fn deep_view(&self) -> FunctionModel {
        FunctionModel {
            oneway: self.oneway,
            returns: match self.returns {
                Some(t) => Some(field_type_model(t)),
                None => None,
            },
            name: self.name@,
            parameters: self.parameters.deep_view(),
            exceptions: match self.exceptions {
                Some(e) => Some(e.deep_view()),
                None => None,
            },
        }
    }
}

/// The word `oneway` at `pos` with a separator behind it, and the
/// position behind the separator; `pos` where there is none.
pub open spec fn oneway_at(s: Seq<char>, pos: int) -> (bool, int) {
    if has_at(s, pos, "oneway"@) {
        match separator_at(s, pos + "oneway"@.len()) {
            Some(p) => (true, p),
            None => (false, pos),
        }
    } else {
        (false, pos)
    }
}

/// What a function returns, at `pos`: nothing where the word `void`
/// stands there, else a type.
pub open spec fn function_type_at(s: Seq<char>, pos: int) -> Found<Option<FieldTypeModel>> {
    if has_at(s, pos, "void"@) {
        Some((None, pos + "void"@.len()))
    } else {
        match type_at(s, pos) {
            Some((t, p)) => Some((Some(t), p)),
            None => None,
        }
    }
}

/// The fields between round brackets at `pos`, and the position behind
/// the closing bracket.
pub open spec fn parameters_at(s: Seq<char>, pos: int) -> Found<Seq<FieldModel>> {
    if 0 <= pos < s.len() && s[pos] == '(' {
        let (fields, p) = field_list_at(s, pos + 1);
        if 0 <= p < s.len() && s[p] == ')' {
            Some((fields, p + 1))
        } else {
            None
        }
    } else {
        None
    }
}

/// The `throws` clause at `pos`, and the position behind it; nothing and
/// `pos` where there is none.
pub open spec fn throws_at(s: Seq<char>, pos: int) -> (Option<Seq<FieldModel>>, int) {
    if has_at(s, pos, "throws"@) {
        match separator_at(s, pos + "throws"@.len()) {
            Some(p) => match parameters_at(s, p) {
                Some((fields, q)) => (Some(fields), q),
                None => (None, pos),
            },
            None => (None, pos),
        }
    } else {
        (None, pos)
    }
}

/// The position behind an optional list separator at `pos`, with comments
/// and blanks before it; `pos` where there is none.
pub open spec fn after_trailing_separator(s: Seq<char>, pos: int) -> int {
    match list_separator_at(s, separators_end(s, pos)) {
        Some(p) => p,
        None => pos,
    }
}

/// The function at `pos`.
pub open spec fn function_at(s: Seq<char>, pos: int) -> Found<FunctionModel> {
    let (oneway, pos1) = oneway_at(s, pos);
    match function_type_at(s, pos1) {
        None => None,
        Some((ret, pos2)) => match separator_at(s, pos2) {
            None => None,
            Some(pos3) => match identifier_at(s, pos3) {
                None => None,
                Some((name, pos4)) => match parameters_at(s, separators_end(s, pos4)) {
                    None => None,
                    Some((parameters, pos5)) => {
                        let (exceptions, pos6) = throws_at(s, separators_end(s, pos5));
                        Some(
                            (
                                FunctionModel { oneway, returns: ret, name, parameters, exceptions },
                                after_trailing_separator(s, pos6),
                            ),
                        )
                    },
                },
            },
        },
    }
}

/// The functions that follow those in `acc`, each behind a separator,
/// and the position behind the last of them.
pub open spec fn functions_from(s: Seq<char>, pos: int, acc: Seq<FunctionModel>) -> (
    Seq<FunctionModel>,
    int,
)
    decreases s.len() - pos,
{
    match separator_at(s, pos) {
        None => (acc, pos),
        Some(pos1) => match function_at(s, pos1) {
            None => (acc, pos),
            Some((f, pos2)) => if pos < pos2 <= s.len() {
                functions_from(s, pos2, acc.push(f))
            } else {
                (acc, pos)
            },
        },
    }
}

/// The functions at `pos`, separated by separators, and the position
/// behind the last of them.
pub open spec fn function_list_at(s: Seq<char>, pos: int) -> (Seq<FunctionModel>, int) {
    match function_at(s, pos) {
        None => (Seq::empty(), pos),
        Some((f, p)) => functions_from(s, p, seq![f]),
    }
}

impl Function {
    /// Reads the fields between round brackets at `pos`.
    fn parse_parameters_at(chars: &[char], pos: usize) -> (r: Option<(Vec<Field>, usize)>)
        ensures
            match parameters_at(chars@, pos as int) {
                Some((m, p)) => r matches Some((v, q)) && v.deep_view() == m && q == p && pos < p
                    <= chars@.len(),
                None => r is None,
            },
    {
        if pos < chars.len() && chars[pos] == '(' {
            let (fields, p) = Field::parse_list_at(chars, pos + 1);
            if p < chars.len() && chars[p] == ')' {
                Some((fields, p + 1))
            } else {
                None
            }
        } else {
            None
        }
    }

    /// Reads the `throws` clause at `pos`, where there is one.
    fn parse_throws_at(chars: &[char], pos: usize) -> (r: (Option<Vec<Field>>, usize))
        ensures
            r.0.deep_view() == throws_at(chars@, pos as int).0,
            r.1 == throws_at(chars@, pos as int).1,
            pos <= r.1,
            r.1 <= chars@.len() || r.1 == pos,
    {
        if let Some(end) = tag_at(chars, pos, "throws") {
            match Separator::parse_at(chars, end) {
                Some(p) => match Self::parse_parameters_at(chars, p) {
                    Some((fields, q)) => (Some(fields), q),
                    None => (None, pos),
                },
                None => (None, pos),
            }
        } else {
            (None, pos)
        }
    }

    /// Reads the function at `pos`.
    pub fn parse_at(chars: &[char], pos: usize) -> (r: Option<(Function, usize)>)
        ensures
            match function_at(chars@, pos as int) {
                Some((m, p)) => r matches Some((v, q)) && v.deep_view() == m && q == p && pos < p
                    <= chars@.len(),
                None => r is None,
            },
    {
        let mut oneway = false;
        let mut pos1 = pos;
        if let Some(end) = tag_at(chars, pos, "oneway") {
            match Separator::parse_at(chars, end) {
                Some(p) => {
                    oneway = true;
                    pos1 = p;
                },
                None => {},
            }
        }
        let (ret, pos2) = if let Some(end) = tag_at(chars, pos1, "void") {
            proof {
                reveal_strlit("void");
            }
            (None, end)
        } else {
            match FieldType::parse_at(chars, pos1) {
                Some((t, p)) => (Some(t), p),
                None => {
                    return None;
                },
            }
        };
        let pos3 = match Separator::parse_at(chars, pos2) {
            Some(p) => p,
            None => {
                return None;
            },
        };
        let (name, pos4) = match Identifier::parse_at(chars, pos3) {
            Some(found) => found,
            None => {
                return None;
            },
        };
        let open = Separator::skip(chars, pos4);
        let (parameters, pos5) = match Self::parse_parameters_at(chars, open) {
            Some(found) => found,
            None => {
                return None;
            },
        };
        let after = Separator::skip(chars, pos5);
        let (exceptions, pos6) = Self::parse_throws_at(chars, after);
        let tail = Separator::skip(chars, pos6);
        let end = match ListSeparator::parse_at(chars, tail) {
            Some(e) => e,
            None => pos6,
        };
        Some((Function { oneway, returns: ret, name, parameters, exceptions }, end))
    }

    /// Reads the functions at `pos`, separated by separators.
    pub fn parse_list_at(chars: &[char], pos: usize) -> (r: (Vec<Function>, usize))
        ensures
            r.0.deep_view() == function_list_at(chars@, pos as int).0,
            r.1 == function_list_at(chars@, pos as int).1,
            pos <= r.1,
            r.1 <= chars@.len() || r.1 == pos,
    {
        let mut functions: Vec<Function> = Vec::new();
        let mut p = pos;
        proof {
            lemma_deep_empty(functions);
        }
        match Self::parse_at(chars, pos) {
            None => {},
            Some((f, q)) => {
                let ghost empty = functions;
                functions.push(f);
                p = q;
                proof {
                    lemma_deep_push(empty, functions, f);
                    assert(functions.deep_view() =~= seq![f.deep_view()]);
                }
                loop
                    invariant_except_break
                        functions_from(chars@, p as int, functions.deep_view())
                            == functions_from(chars@, q as int, seq![f.deep_view()]),
                    invariant
                        pos <= p,
                        p <= chars@.len() || p == pos,
                    ensures
                        functions_from(chars@, q as int, seq![f.deep_view()]) == (
                            functions.deep_view(),
                            p as int,
                        ),
                    decreases chars@.len() - p,
                {
                    match Separator::parse_at(chars, p) {
                        None => {
                            break ;
                        },
                        Some(pos1) => match Self::parse_at(chars, pos1) {
                            None => {
                                break ;
                            },
                            Some((next, pos2)) => {
                                let ghost before = functions;
                                functions.push(next);
                                proof {
                                    lemma_deep_push(before, functions, next);
                                }
                                p = pos2;
                            },
                        },
                    }
                }
            },
        }
        (functions, p)
    }

    /// Reads a function from the front of `input`.
    pub fn parse<'a>(input: &'a str) -> (r: ParseResult<'a, Function>)
        ensures
            match function_at(input@, 0) {
                Some((m, p)) => r matches Ok((rest, v)) && v.deep_view() == m && rest@
                    == input@.skip(p),
                None => r matches Err(e) && e.expected@ == "function"@,
            },
    {
        let chars = chars_of(input);
        match Self::parse_at(chars.as_slice(), 0) {
            Some((v, p)) => Ok((rest_of(input, p), v)),
            None => Err(ParseError { expected: "function" }),
        }
    }
}

} // verus!
