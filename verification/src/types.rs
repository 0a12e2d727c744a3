//! Descriptors of field types, as they annotate the fields of generated
//! structs: `i32`, `string`, `map(K, V)`, `list(T)`, `ident(Name)` and so
//! on.

use vstd::prelude::*;

use vstd::string::*;

use crate::protocol::TType;
use crate::text::{
    after_blanks, chars_of, is_blank, lemma_after_blanks_range, skip_blanks, spells, string_of,
};

verus! {

/// The type of a field, as its descriptor spells it.
#[derive(Debug, PartialEq, Eq)]
pub enum FieldType {
    String,
    Bool,
    I8,
    I16,
    I32,
    I64,
    Double,
    Byte,
    Ident(String),
    List(Box<FieldType>),
    MapOf(Box<FieldType>, Box<FieldType>),
    SetOf(Box<FieldType>),
    Void,
    Binary,
}

/// The type of a field as mathematics.
pub enum TypeModel {
    String,
    Bool,
    I8,
    I16,
    I32,
    I64,
    Double,
    Byte,
    Ident(Seq<char>),
    List(Box<TypeModel>),
    MapOf(Box<TypeModel>, Box<TypeModel>),
    SetOf(Box<TypeModel>),
    Void,
    Binary,
}

/// The model of a descriptor.
pub open spec fn type_model(t: FieldType) -> TypeModel
    decreases t,
{
    match t {
        FieldType::String => TypeModel::String,
        FieldType::Bool => TypeModel::Bool,
        FieldType::I8 => TypeModel::I8,
        FieldType::I16 => TypeModel::I16,
        FieldType::I32 => TypeModel::I32,
        FieldType::I64 => TypeModel::I64,
        FieldType::Double => TypeModel::Double,
        FieldType::Byte => TypeModel::Byte,
        FieldType::Ident(name) => TypeModel::Ident(name@),
        FieldType::List(e) => TypeModel::List(Box::new(type_model(*e))),
        FieldType::MapOf(k, v) => TypeModel::MapOf(
            Box::new(type_model(*k)),
            Box::new(type_model(*v)),
        ),
        FieldType::SetOf(e) => TypeModel::SetOf(Box::new(type_model(*e))),
        FieldType::Void => TypeModel::Void,
        FieldType::Binary => TypeModel::Binary,
    }
}

impl View for FieldType {
    type V = TypeModel;

    open spec fn view(&self) -> TypeModel {
        type_model(*self)
    }
}

/// The tag under which a value of this type travels. A named type is a
/// struct on the wire; a byte travels as `I8` and binary data as `String`.
pub open spec fn ttype_of(t: TypeModel) -> TType {
    match t {
        TypeModel::String => TType::String,
        TypeModel::Bool => TType::Bool,
        TypeModel::I8 => TType::I8,
        TypeModel::I16 => TType::I16,
        TypeModel::I32 => TType::I32,
        TypeModel::I64 => TType::I64,
        TypeModel::Double => TType::Double,
        TypeModel::Byte => TType::I8,
        TypeModel::Ident(_) => TType::Struct,
        TypeModel::List(_) => TType::List,
        TypeModel::MapOf(_, _) => TType::MapOf,
        TypeModel::SetOf(_) => TType::SetOf,
        TypeModel::Void => TType::Void,
        TypeModel::Binary => TType::String,
    }
}

/// How many constructors a descriptor is made of.
pub open spec fn rank(t: TypeModel) -> nat
    decreases t,
{
    match t {
        TypeModel::List(e) => 1 + rank(*e),
        TypeModel::SetOf(e) => 1 + rank(*e),
        TypeModel::MapOf(k, v) => 1 + rank(*k) + rank(*v),
        _ => 1,
    }
}

impl FieldType {
    /// The tag under which a value of this type travels.
    pub fn to_ttype(&self) -> (t: TType)
        ensures
            t == ttype_of(self@),
    {
        match self {
            FieldType::String => TType::String,
            FieldType::Bool => TType::Bool,
            FieldType::I8 => TType::I8,
            FieldType::I16 => TType::I16,
            FieldType::I32 => TType::I32,
            FieldType::I64 => TType::I64,
            FieldType::Double => TType::Double,
            FieldType::Byte => TType::I8,
            FieldType::Ident(_) => TType::Struct,
            FieldType::List(_) => TType::List,
            FieldType::MapOf(_, _) => TType::MapOf,
            FieldType::SetOf(_) => TType::SetOf,
            FieldType::Void => TType::Void,
            FieldType::Binary => TType::String,
        }
    }
}

impl Clone for FieldType {
    fn clone(&self) -> (r: Self)
        ensures
            r == *self,
        decreases *self,
    {
        match self {
            FieldType::String => FieldType::String,
            FieldType::Bool => FieldType::Bool,
            FieldType::I8 => FieldType::I8,
            FieldType::I16 => FieldType::I16,
            FieldType::I32 => FieldType::I32,
            FieldType::I64 => FieldType::I64,
            FieldType::Double => FieldType::Double,
            FieldType::Byte => FieldType::Byte,
            FieldType::Ident(name) => FieldType::Ident(name.clone()),
            FieldType::List(e) => FieldType::List(Box::new((**e).clone())),
            FieldType::MapOf(k, v) => FieldType::MapOf(
                Box::new((**k).clone()),
                Box::new((**v).clone()),
            ),
            FieldType::SetOf(e) => FieldType::SetOf(Box::new((**e).clone())),
            FieldType::Void => FieldType::Void,
            FieldType::Binary => FieldType::Binary,
        }
    }
}


// ---------------------------------------------------------------------
// The text of a descriptor
// ---------------------------------------------------------------------
/// A character of a word of a descriptor: anything but a blank, a
/// bracket or a comma.
pub open spec fn is_word_char(c: char) -> bool {
    !is_blank(c) && c != '(' && c != ')' && c != ','
}

/// The first position at or after `pos` that holds no word character.
pub open spec fn word_end(s: Seq<char>, pos: int) -> int
    decreases s.len() - pos,
{
    if 0 <= pos < s.len() && is_word_char(s[pos]) {
        word_end(s, pos + 1)
    } else {
        pos
    }
}

/// A word ends within the text, at or behind where it starts.
pub proof fn lemma_word_end_range(s: Seq<char>, pos: int)
    requires
        0 <= pos <= s.len(),
    ensures
        pos <= word_end(s, pos) <= s.len(),
    decreases s.len() - pos,
{
    if pos < s.len() && is_word_char(s[pos]) {
        lemma_word_end_range(s, pos + 1);
    }
}

/// The type that a word without arguments names.
pub open spec fn base_type(word: Seq<char>) -> Option<TypeModel> {
    if word == "string"@ {
        Some(TypeModel::String)
    } else if word == "bool"@ {
        Some(TypeModel::Bool)
    } else if word == "i8"@ {
        Some(TypeModel::I8)
    } else if word == "i16"@ {
        Some(TypeModel::I16)
    } else if word == "i32"@ {
        Some(TypeModel::I32)
    } else if word == "i64"@ {
        Some(TypeModel::I64)
    } else if word == "double"@ {
        Some(TypeModel::Double)
    } else if word == "byte"@ {
        Some(TypeModel::Byte)
    } else if word == "void"@ {
        Some(TypeModel::Void)
    } else if word == "binary"@ {
        Some(TypeModel::Binary)
    } else {
        None
    }
}

/// Whether `)` stands at the first position at or after `pos` that holds
/// no blank; if so, the position behind it.
pub open spec fn closing(s: Seq<char>, pos: int) -> Option<int> {
    let p = after_blanks(s, pos);
    if 0 <= p < s.len() && s[p] == ')' {
        Some(p + 1)
    } else {
        None
    }
}

/// The descriptor that stands at or after `pos`, blanks aside, and the
/// position behind it:
///
/// ```text
/// descriptor ::= word | "ident" "(" word ")" | "list" "(" descriptor ")"
///              | "set" "(" descriptor ")"
///              | "map" "(" descriptor "," descriptor ")"
/// ```
///
/// where a word without arguments is one of `string`, `bool`, `i8`,
/// `i16`, `i32`, `i64`, `double`, `byte`, `void`, `binary`, and blanks may
/// stand between any two tokens.
pub open spec fn descriptor_at(s: Seq<char>, pos: int) -> Option<(TypeModel, int)>
    decreases s.len() - pos,
{
    let start = after_blanks(s, pos);
    let end = word_end(s, start);
    let open = after_blanks(s, end);
    if pos < 0 || start >= end || end > s.len() || start < pos {
        None
    } else if open < s.len() && s[open] == '(' && open >= end {
        let word = s.subrange(start, end);
        if word == "ident"@ {
            let a = after_blanks(s, open + 1);
            let e = word_end(s, a);
            if a < e {
                match closing(s, e) {
                    Some(p) => Some((TypeModel::Ident(s.subrange(a, e)), p)),
                    None => None,
                }
            } else {
                None
            }
        } else if word == "list"@ {
            match descriptor_at(s, open + 1) {
                Some((t, p)) => match closing(s, p) {
                    Some(q) => Some((TypeModel::List(Box::new(t)), q)),
                    None => None,
                },
                None => None,
            }
        } else if word == "set"@ {
            match descriptor_at(s, open + 1) {
                Some((t, p)) => match closing(s, p) {
                    Some(q) => Some((TypeModel::SetOf(Box::new(t)), q)),
                    None => None,
                },
                None => None,
            }
        } else if word == "map"@ {
            match descriptor_at(s, open + 1) {
                Some((k, p)) => {
                    let comma = after_blanks(s, p);
                    if pos <= comma < s.len() && s[comma] == ',' {
                        match descriptor_at(s, comma + 1) {
                            Some((v, pos2)) => match closing(s, pos2) {
                                Some(q) => Some((TypeModel::MapOf(Box::new(k), Box::new(v)), q)),
                                None => None,
                            },
                            None => None,
                        }
                    } else {
                        None
                    }
                },
                None => None,
            }
        } else {
            None
        }
    } else {
        match base_type(s.subrange(start, end)) {
            Some(t) => Some((t, end)),
            None => None,
        }
    }
}

/// The descriptor that the whole text spells, blanks aside.
pub open spec fn descriptor_of(s: Seq<char>) -> Option<TypeModel> {
    match descriptor_at(s, 0) {
        Some((t, p)) => if after_blanks(s, p) == s.len() {
            Some(t)
        } else {
            None
        },
        None => None,
    }
}

/// A descriptor that is found ends within the text, behind where it
/// starts.
pub proof fn lemma_descriptor_at_range(s: Seq<char>, pos: int)
    requires
        0 <= pos <= s.len(),
    ensures
        descriptor_at(s, pos) matches Some((_, p)) ==> pos < p <= s.len(),
    decreases s.len() - pos,
{
    lemma_after_blanks_range(s, pos);
    let start = after_blanks(s, pos);
    lemma_word_end_range(s, start);
    let end = word_end(s, start);
    lemma_after_blanks_range(s, end);
    let open = after_blanks(s, end);
    if start < end && open < s.len() && s[open] == '(' {
        let word = s.subrange(start, end);
        lemma_after_blanks_range(s, open + 1);
        let a = after_blanks(s, open + 1);
        lemma_word_end_range(s, a);
        lemma_after_blanks_range(s, word_end(s, a));
        if word == "list"@ || word == "set"@ || word == "map"@ {
            lemma_descriptor_at_range(s, open + 1);
            match descriptor_at(s, open + 1) {
                Some((_, p)) => {
                    lemma_after_blanks_range(s, p);
                    let comma = after_blanks(s, p);
                    if word == "map"@ && comma < s.len() {
                        lemma_descriptor_at_range(s, comma + 1);
                        match descriptor_at(s, comma + 1) {
                            Some((_, pos2)) => lemma_after_blanks_range(s, pos2),
                            None => {},
                        }
                    }
                },
                None => {},
            }
        }
    }
}

/// Where reading a text that spells no descriptor stops: at the start
/// where no descriptor stands there, else at what follows the descriptor.
pub open spec fn stop_position(s: Seq<char>) -> int {
    match descriptor_at(s, 0) {
        Some((_, p)) => after_blanks(s, p),
        None => 0,
    }
}

/// Why a text is no descriptor.
#[derive(Debug, PartialEq, Eq)]
pub struct DescriptorError {
    /// The position at which reading stopped.
    pub position: usize,
}

impl FieldType {
    /// Reads a descriptor; a text that spells none is refused, and the
    /// error says where reading stopped.
    pub fn parse(s: &str) -> (r: Result<FieldType, DescriptorError>)
        ensures
            match descriptor_of(s@) {
                Some(t) => r is Ok && r->Ok_0@ == t,
                None => r matches Err(e) && e.position == stop_position(s@),
            },
    {
        let chars = chars_of(s);
        match Self::parse_meta(chars.as_slice(), 0) {
            Some((t, p)) => {
                let end = skip_blanks(chars.as_slice(), p);
                if end == chars.len() {
                    Ok(t)
                } else {
                    Err(DescriptorError { position: end })
                }
            },
            None => Err(DescriptorError { position: 0 }),
        }
    }

    /// Whether `)` stands at the first position at or after `pos` that
    /// holds no blank; if so, the position behind it.
    fn closing(chars: &[char], pos: usize) -> (r: Option<usize>)
        ensures
            match closing(chars@, pos as int) {
                Some(p) => r matches Some(found) && found == p && pos < p <= chars@.len(),
                None => r is None,
            },
    {
        let p = skip_blanks(chars, pos);
        if p < chars.len() && chars[p] == ')' {
            Some(p + 1)
        } else {
            None
        }
    }

    /// The end of the word that starts at `pos`.
    fn word_end(chars: &[char], pos: usize) -> (r: usize)
        ensures
            r == word_end(chars@, pos as int),
            pos <= r,
            r <= chars@.len() || r == pos,
    {
        let mut i: usize = pos;
        while i < chars.len() && !(chars[i] == ' ' || chars[i] == '\t' || chars[i] == '\n'
            || chars[i] == '\r' || chars[i] == '(' || chars[i] == ')' || chars[i] == ',')
            invariant
                pos <= i,
                i <= chars@.len() || i == pos,
                word_end(chars@, pos as int) == word_end(chars@, i as int),
            decreases chars@.len() - i,
        {
            i = i + 1;
        }
        i
    }

    /// The type that a word without arguments names.
    fn base_type(chars: &[char], from: usize, to: usize) -> (r: Option<FieldType>)
        requires
            from <= to <= chars@.len(),
        ensures
            match base_type(chars@.subrange(from as int, to as int)) {
                Some(t) => r is Some && r->Some_0@ == t,
                None => r is None,
            },
    {
        if spells(chars, from, to, "string") {
            Some(Self::String)
        } else if spells(chars, from, to, "bool") {
            Some(Self::Bool)
        } else if spells(chars, from, to, "i8") {
            Some(Self::I8)
        } else if spells(chars, from, to, "i16") {
            Some(Self::I16)
        } else if spells(chars, from, to, "i32") {
            Some(Self::I32)
        } else if spells(chars, from, to, "i64") {
            Some(Self::I64)
        } else if spells(chars, from, to, "double") {
            Some(Self::Double)
        } else if spells(chars, from, to, "byte") {
            Some(Self::Byte)
        } else if spells(chars, from, to, "void") {
            Some(Self::Void)
        } else if spells(chars, from, to, "binary") {
            Some(Self::Binary)
        } else {
            None
        }
    }

    /// Reads the descriptor that stands at or after `pos`.
    pub fn parse_meta(chars: &[char], pos: usize) -> (r: Option<(FieldType, usize)>)
        ensures
            match descriptor_at(chars@, pos as int) {
                Some((t, p)) => r is Some && r->Some_0.0@ == t && r->Some_0.1 == p && pos < p
                    <= chars@.len(),
                None => r is None,
            },
        decreases chars@.len() - pos,
    {
        if pos > chars.len() {
            // past the end of the text nothing stands
            return None;
        }
        proof {
            lemma_descriptor_at_range(chars@, pos as int);
        }
        let start = skip_blanks(chars, pos);
        let end = Self::word_end(chars, start);
        if start >= end {
            return None;
        }
        let open = skip_blanks(chars, end);
        if open < chars.len() && chars[open] == '(' {
            if spells(chars, start, end, "ident") {
                let a = skip_blanks(chars, open + 1);
                let e = Self::word_end(chars, a);
                if a < e {
                    match Self::closing(chars, e) {
                        Some(p) => Some((Self::Ident(string_of(chars, a, e)), p)),
                        None => None,
                    }
                } else {
                    None
                }
            } else if spells(chars, start, end, "list") {
                match Self::parse_meta(chars, open + 1) {
                    Some((t, p)) => match Self::closing(chars, p) {
                        Some(q) => Some((Self::List(Box::new(t)), q)),
                        None => None,
                    },
                    None => None,
                }
            } else if spells(chars, start, end, "set") {
                match Self::parse_meta(chars, open + 1) {
                    Some((t, p)) => match Self::closing(chars, p) {
                        Some(q) => Some((Self::SetOf(Box::new(t)), q)),
                        None => None,
                    },
                    None => None,
                }
            } else if spells(chars, start, end, "map") {
                match Self::parse_meta(chars, open + 1) {
                    Some((k, p)) => {
                        let comma = skip_blanks(chars, p);
                        if comma < chars.len() && chars[comma] == ',' {
                            match Self::parse_meta(chars, comma + 1) {
                                Some((v, pos2)) => match Self::closing(chars, pos2) {
                                    Some(q) => Some((Self::MapOf(Box::new(k), Box::new(v)), q)),
                                    None => None,
                                },
                                None => None,
                            }
                        } else {
                            None
                        }
                    },
                    None => None,
                }
            } else {
                None
            }
        } else {
            match Self::base_type(chars, start, end) {
                Some(t) => Some((t, end)),
                None => None,
            }
        }
    }

    /// The text of this descriptor.
    pub fn format(&self) -> (s: String)
        ensures
            s@ == descriptor_text(self@),
        decreases *self,
    {
        match self {
            FieldType::String => String::from_str("string"),
            FieldType::Bool => String::from_str("bool"),
            FieldType::I8 => String::from_str("i8"),
            FieldType::I16 => String::from_str("i16"),
            FieldType::I32 => String::from_str("i32"),
            FieldType::I64 => String::from_str("i64"),
            FieldType::Double => String::from_str("double"),
            FieldType::Byte => String::from_str("byte"),
            FieldType::Void => String::from_str("void"),
            FieldType::Binary => String::from_str("binary"),
            FieldType::Ident(name) => {
                let mut s = String::from_str("ident(");
                s.append(name.as_str());
                s.append(")");
                s
            },
            FieldType::List(inner) => {
                let mut s = String::from_str("list(");
                let i = inner.format();
                s.append(i.as_str());
                s.append(")");
                s
            },
            FieldType::SetOf(inner) => {
                let mut s = String::from_str("set(");
                let i = inner.format();
                s.append(i.as_str());
                s.append(")");
                s
            },
            FieldType::MapOf(k, v) => {
                let mut s = String::from_str("map(");
                let kt = k.format();
                s.append(kt.as_str());
                s.append(", ");
                let vt = v.format();
                s.append(vt.as_str());
                s.append(")");
                s
            },
        }
    }
}

/// The text of a descriptor.
pub open spec fn descriptor_text(t: TypeModel) -> Seq<char>
    decreases t,
{
    match t {
        TypeModel::String => "string"@,
        TypeModel::Bool => "bool"@,
        TypeModel::I8 => "i8"@,
        TypeModel::I16 => "i16"@,
        TypeModel::I32 => "i32"@,
        TypeModel::I64 => "i64"@,
        TypeModel::Double => "double"@,
        TypeModel::Byte => "byte"@,
        TypeModel::Void => "void"@,
        TypeModel::Binary => "binary"@,
        TypeModel::Ident(name) => "ident("@ + name + ")"@,
        TypeModel::List(inner) => "list("@ + descriptor_text(*inner) + ")"@,
        TypeModel::SetOf(inner) => "set("@ + descriptor_text(*inner) + ")"@,
        TypeModel::MapOf(k, v) => "map("@ + descriptor_text(*k) + ", "@ + descriptor_text(*v)
            + ")"@,
    }
}

/// Every declared type travels as a struct.
pub trait OrigType {
    fn orig_type() -> (t: TType)
        ensures
            t == TType::Struct,
    ;
}

} // verus!
