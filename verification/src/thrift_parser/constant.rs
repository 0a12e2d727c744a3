//! Constants: numbers, and the values that a `const` or a default may
//! hold.

use vstd::prelude::*;
use vstd::string::*;

use crate::text::{chars_of, digit, is_digit, string_of};
use crate::thrift_parser::basic::{
    identifier_at, list_separator_at, literal_at, rest_of, separators_end, Found, Identifier,
    ListSeparator, Literal, Separator,
};
use crate::thrift_parser::{ParseError, ParseResult};

verus! {

// ---------------------------------------------------------------------
// IntConstant     ::=  ('+' | '-')? Digit+
// ---------------------------------------------------------------------
/// The first position at or after `pos` that holds no digit.
pub open spec fn digits_end(s: Seq<char>, pos: int) -> int
    decreases s.len() - pos,
{
    if 0 <= pos < s.len() && is_digit(s[pos]) {
        digits_end(s, pos + 1)
    } else {
        pos
    }
}

/// The number that decimal digits spell.
pub open spec fn decimal(digits: Seq<char>) -> int
    decreases digits.len(),
{
    if digits.len() == 0 {
        0
    } else {
        decimal(digits.drop_last()) * 10 + (digits.last() as int - '0' as int)
    }
}

/// The position behind a sign at `pos`, or `pos` where there is none.
pub open spec fn after_sign(s: Seq<char>, pos: int) -> int {
    if 0 <= pos < s.len() && (s[pos] == '-' || s[pos] == '+') {
        pos + 1
    } else {
        pos
    }
}

/// The integer at `pos`: an optional sign and digits as far as they go,
/// at least one. A number outside the range of 64 signed bits is none.
pub open spec fn int_constant_at(s: Seq<char>, pos: int) -> Found<i64> {
    let start = after_sign(s, pos);
    let end = digits_end(s, start);
    let magnitude = decimal(s.subrange(start, end));
    let value = if 0 <= pos < s.len() && s[pos] == '-' {
        -magnitude
    } else {
        magnitude
    };
    if pos < 0 || end <= start || end > s.len() {
        None
    } else if i64::MIN <= value <= i64::MAX {
        Some((value as i64, end))
    } else {
        None
    }
}

/// An integer constant.
#[derive(Debug, PartialEq, Eq, Clone, Copy, Hash)]
pub struct IntConstant(pub i64);

impl DeepView for IntConstant {
    type V = i64;

    open spec fn deep_view(&self) -> i64 {
        self.0
    }
}

impl IntConstant {
    /// The constant with this value.
    pub fn from(v: i64) -> (r: Self)
        ensures
            r.0 == v,
    {
        IntConstant(v)
    }

    /// The value.
    pub fn into_inner(self) -> (r: i64)
        ensures
            r == self.0,
    {
        self.0
    }

    /// The end of the digits that start at `pos`.
    pub fn digits_end(chars: &[char], pos: usize) -> (r: usize)
        ensures
            r == digits_end(chars@, pos as int),
            pos <= r,
            r <= chars@.len() || r == pos,
    {
        let mut i: usize = pos;
        while i < chars.len() && digit(chars[i])
            invariant
                pos <= i,
                i <= chars@.len() || i == pos,
                digits_end(chars@, pos as int) == digits_end(chars@, i as int),
            decreases chars@.len() - i,
        {
            i = i + 1;
        }
        i
    }

    /// Reads the integer at `pos`.
    pub fn parse_at(chars: &[char], pos: usize) -> (r: Option<(IntConstant, usize)>)
        ensures
            match int_constant_at(chars@, pos as int) {
                Some((m, p)) => r matches Some((v, q)) && v.0 == m && q == p && pos < p
                    <= chars@.len(),
                None => r is None,
            },
    {
        let n = chars.len();
        let negative = pos < n && chars[pos] == '-';
        let start = if pos < n && (chars[pos] == '-' || chars[pos] == '+') {
            pos + 1
        } else {
            pos
        };
        if start > n {
            return None;
        }
        let end = Self::digits_end(chars, start);
        if end <= start {
            return None;
        }
        let limit: i128 = 0x8000_0000_0000_0000;
        let mut acc: i128 = 0;
        let mut overflow = false;
        let mut i: usize = start;
        assert(chars@.subrange(start as int, start as int) =~= Seq::<char>::empty());
        while i < end
            invariant
                start <= i <= end <= n,
                n == chars@.len(),
                end == digits_end(chars@, start as int),
                limit == 0x8000_0000_0000_0000,
                forall|j: int| start <= j < i ==> is_digit(chars@[j]),
                digits_end(chars@, i as int) == end,
                0 <= acc <= limit,
                !overflow ==> acc == decimal(chars@.subrange(start as int, i as int)),
                overflow ==> decimal(chars@.subrange(start as int, i as int)) > limit,
            decreases end - i,
        {
            let c = chars[i];
            assert(is_digit(c));
            let d: i128 = (c as u32 - '0' as u32) as i128;
            proof {
                let before = chars@.subrange(start as int, i as int);
                let after = chars@.subrange(start as int, i + 1);
                assert(after.drop_last() =~= before);
                assert(after.last() == c);
                assert(decimal(after) == decimal(before) * 10 + (c as int - '0' as int));
            }
            if !overflow {
                let next = acc * 10 + d;
                if next > limit {
                    overflow = true;
                } else {
                    acc = next;
                }
            }
            i = i + 1;
        }
        if overflow {
            return None;
        }
        if negative {
            Some((IntConstant((-acc) as i64), end))
        } else if acc == limit {
            None
        } else {
            Some((IntConstant(acc as i64), end))
        }
    }

    /// Reads an integer from the front of `input`.
    pub fn parse<'a>(input: &'a str) -> (r: ParseResult<'a, IntConstant>)
        ensures
            match int_constant_at(input@, 0) {
                Some((m, p)) => r matches Ok((rest, v)) && v.0 == m && rest@ == input@.skip(p),
                None => r matches Err(e) && e.expected@ == "integer constant"@,
            },
    {
        let chars = chars_of(input);
        match Self::parse_at(chars.as_slice(), 0) {
            Some((v, p)) => Ok((rest_of(input, p), v)),
            None => Err(ParseError { expected: "integer constant" }),
        }
    }
}

// ---------------------------------------------------------------------
// DoubleConstant  ::=  ('+' | '-')? Digit* ('.' Digit+)? ( ('E' | 'e') IntConstant )?
// ---------------------------------------------------------------------
/// The position behind a fraction at `pos`, a point and at least one
/// digit, or `pos` where there is none.
pub open spec fn after_fraction(s: Seq<char>, pos: int) -> int {
    if 0 <= pos < s.len() && s[pos] == '.' && digits_end(s, pos + 1) > pos + 1 {
        digits_end(s, pos + 1)
    } else {
        pos
    }
}

/// The position behind an exponent at `pos`, the letter `e` or `E` and an
/// integer, or `pos` where there is none.
pub open spec fn after_exponent(s: Seq<char>, pos: int) -> int {
    if 0 <= pos < s.len() && (s[pos] == 'E' || s[pos] == 'e') {
        match int_constant_at(s, pos + 1) {
            Some((_, p)) => p,
            None => pos,
        }
    } else {
        pos
    }
}

/// The number with a fraction or an exponent at `pos`, as its text: a
/// sign, digits, a fraction and an exponent, each optional, with at least
/// one digit before the exponent.
pub open spec fn double_at(s: Seq<char>, pos: int) -> Found<Seq<char>> {
    let start = after_sign(s, pos);
    let whole = digits_end(s, start);
    let fraction = after_fraction(s, whole);
    let end = after_exponent(s, fraction);
    if 0 <= pos <= start && start < fraction && end <= s.len() {
        Some((s.subrange(pos, end), end))
    } else {
        None
    }
}

/// The number at `pos` that is no integer: one that `double_at` finds and
/// that has a fraction or an exponent.
pub open spec fn double_only_at(s: Seq<char>, pos: int) -> Found<Seq<char>> {
    let start = after_sign(s, pos);
    let whole = digits_end(s, start);
    let fraction = after_fraction(s, whole);
    let end = after_exponent(s, fraction);
    if whole < fraction || fraction < end {
        double_at(s, pos)
    } else {
        None
    }
}

/// A constant with a fraction or an exponent, held as the text that
/// spells it.
#[derive(Debug, PartialEq, Eq)]
pub struct DoubleConstant(pub String);

impl DeepView for DoubleConstant {
    type V = Seq<char>;

    open spec fn deep_view(&self) -> Seq<char> {
        self.0@
    }
}

impl Clone for DoubleConstant {
    fn clone(&self) -> (r: Self)
        ensures
            r.deep_view() == self.deep_view(),
    {
        DoubleConstant(self.0.clone())
    }
}

impl DoubleConstant {
    /// The text that spells the number.
    pub fn as_str(&self) -> (r: &str)
        ensures
            r@ == self.deep_view(),
    {
        self.0.as_str()
    }

    /// Finds the number at `pos`: the position behind it, and whether it
    /// has a fraction or an exponent.
    fn span_at(chars: &[char], pos: usize) -> (r: Option<(usize, bool)>)
        ensures
            match double_at(chars@, pos as int) {
                Some((m, p)) => r matches Some((q, only)) && q == p && pos < p <= chars@.len()
                    && only == (double_only_at(chars@, pos as int) is Some),
                None => r is None && double_only_at(chars@, pos as int) is None,
            },
    {
        let n = chars.len();
        let start = if pos < n && (chars[pos] == '-' || chars[pos] == '+') {
            pos + 1
        } else {
            pos
        };
        if start > n {
            return None;
        }
        let whole = IntConstant::digits_end(chars, start);
        let mut fraction = whole;
        if whole < n && chars[whole] == '.' {
            let e = IntConstant::digits_end(chars, whole + 1);
            if e > whole + 1 {
                fraction = e;
            }
        }
        if start >= fraction {
            return None;
        }
        let mut end = fraction;
        if fraction < n && (chars[fraction] == 'E' || chars[fraction] == 'e') {
            match IntConstant::parse_at(chars, fraction + 1) {
                Some((_, p)) => {
                    end = p;
                },
                None => {},
            }
        }
        Some((end, whole < fraction || fraction < end))
    }

    /// Reads the number at `pos`, be it an integer or not.
    pub fn parse_at(chars: &[char], pos: usize) -> (r: Option<(DoubleConstant, usize)>)
        ensures
            match double_at(chars@, pos as int) {
                Some((m, p)) => r matches Some((v, q)) && v.deep_view() == m && q == p && pos < p
                    <= chars@.len(),
                None => r is None,
            },
    {
        match Self::span_at(chars, pos) {
            Some((end, _)) => Some((DoubleConstant(string_of(chars, pos, end)), end)),
            None => None,
        }
    }

    /// Reads the number at `pos` that is no integer.
    pub fn parse2_at(chars: &[char], pos: usize) -> (r: Option<(DoubleConstant, usize)>)
        ensures
            match double_only_at(chars@, pos as int) {
                Some((m, p)) => r matches Some((v, q)) && v.deep_view() == m && q == p && pos < p
                    <= chars@.len(),
                None => r is None,
            },
    {
        match Self::span_at(chars, pos) {
            Some((end, true)) => Some((DoubleConstant(string_of(chars, pos, end)), end)),
            _ => None,
        }
    }

    /// Reads a number from the front of `input`.
    pub fn parse<'a>(input: &'a str) -> (r: ParseResult<'a, DoubleConstant>)
        ensures
            match double_at(input@, 0) {
                Some((m, p)) => r matches Ok((rest, v)) && v.deep_view() == m && rest@
                    == input@.skip(p),
                None => r matches Err(e) && e.expected@ == "double constant"@,
            },
    {
        let chars = chars_of(input);
        match Self::parse_at(chars.as_slice(), 0) {
            Some((v, p)) => Ok((rest_of(input, p), v)),
            None => Err(ParseError { expected: "double constant" }),
        }
    }
}

// ---------------------------------------------------------------------
// What separates the items of a list: at least one separator or list
// separator
// ---------------------------------------------------------------------
/// The position behind what separates two items at `pos`: comments and
/// blanks, then a comma or semicolon, then comments and blanks again,
/// where at least one of the three is there.
pub open spec fn item_separator_at(s: Seq<char>, pos: int) -> Option<int> {
    let pos1 = separators_end(s, pos);
    match list_separator_at(s, pos1) {
        Some(pos2) => Some(separators_end(s, pos2)),
        None => if pos1 > pos {
            Some(pos1)
        } else {
            None
        },
    }
}

/// Reads what separates two items at `pos`.
pub fn parse_list_separator_at(chars: &[char], pos: usize) -> (r: Option<usize>)
    ensures
        match item_separator_at(chars@, pos as int) {
            Some(p) => r matches Some(found) && found == p && pos < p <= chars@.len(),
            None => r is None,
        },
{
    let pos1 = Separator::skip(chars, pos);
    match ListSeparator::parse_at(chars, pos1) {
        Some(pos2) => Some(Separator::skip(chars, pos2)),
        None => if pos1 > pos {
            Some(pos1)
        } else {
            None
        },
    }
}

/// Reads what separates two items from the front of `input`.
pub fn parse_list_separator<'a>(input: &'a str) -> (r: ParseResult<'a, ()>)
    ensures
        match item_separator_at(input@, 0) {
            Some(p) => r matches Ok((rest, _)) && rest@ == input@.skip(p),
            None => r matches Err(e) && e.expected@ == "list separator"@,
        },
{
    let chars = chars_of(input);
    match parse_list_separator_at(chars.as_slice(), 0) {
        Some(p) => Ok((rest_of(input, p), ())),
        None => Err(ParseError { expected: "list separator" }),
    }
}


// ---------------------------------------------------------------------
// ConstValue      ::=  IntConstant | DoubleConstant | Literal | Identifier | ConstList | ConstMap
// ConstList       ::=  '[' (ConstValue ListSeparator?)* ']'
// ConstMap        ::=  '{' (ConstValue ':' ConstValue ListSeparator?)* '}'
// ---------------------------------------------------------------------
/// A constant value as mathematics.
pub enum ConstValueModel {
    Identifier(Seq<char>),
    Literal(Seq<char>),
    Double(Seq<char>),
    Int(i64),
    List(Seq<ConstValueModel>),
    MapOf(Seq<(ConstValueModel, ConstValueModel)>),
}

/// A constant value.
#[derive(Debug, PartialEq)]
pub enum ConstValue {
    Identifier(Identifier),
    Literal(Literal),
    Double(DoubleConstant),
    Int(IntConstant),
    List(ConstList),
    MapOf(ConstMap),
}

/// A list of constant values.
#[derive(Debug, PartialEq)]
pub struct ConstList(pub Vec<ConstValue>);

/// A map of constant values: its entries in the order of the text.
#[derive(Debug, PartialEq)]
pub struct ConstMap(pub Vec<(ConstValue, ConstValue)>);

/// The models of the values of a vector.
pub open spec fn const_models(v: Vec<ConstValue>) -> Seq<ConstValueModel>
    decreases v, 0nat,
{
    Seq::new(
        v.len() as nat,
        |i: int|
            if 0 <= i < v.len() {
                const_model(v[i])
            } else {
                ConstValueModel::Int(0)
            },
    )
}

/// The models of the entries of a vector.
pub open spec fn const_entry_models(v: Vec<(ConstValue, ConstValue)>) -> Seq<
    (ConstValueModel, ConstValueModel),
>
    decreases v, 0nat,
{
    Seq::new(
        v.len() as nat,
        |i: int|
            if 0 <= i < v.len() {
                (const_model(v[i].0), const_model(v[i].1))
            } else {
                (ConstValueModel::Int(0), ConstValueModel::Int(0))
            },
    )
}

/// The model of a constant value.
pub open spec fn const_model(v: ConstValue) -> ConstValueModel
    decreases v, 1nat,
{
    match v {
        ConstValue::Identifier(i) => ConstValueModel::Identifier(i@),
        ConstValue::Literal(l) => ConstValueModel::Literal(l@),
        ConstValue::Double(d) => ConstValueModel::Double(d.deep_view()),
        ConstValue::Int(i) => ConstValueModel::Int(i.0),
        ConstValue::List(l) => ConstValueModel::List(const_models(l.0)),
        ConstValue::MapOf(m) => ConstValueModel::MapOf(const_entry_models(m.0)),
    }
}

impl DeepView for ConstValue {
    type V = ConstValueModel;

    open spec fn deep_view(&self) -> ConstValueModel {
        const_model(*self)
    }
}

impl DeepView for ConstList {
    type V = Seq<ConstValueModel>;

    open spec fn deep_view(&self) -> Seq<ConstValueModel> {
        const_models(self.0)
    }
}

impl DeepView for ConstMap {
    type V = Seq<(ConstValueModel, ConstValueModel)>;

    open spec fn deep_view(&self) -> Seq<(ConstValueModel, ConstValueModel)> {
        const_entry_models(self.0)
    }
}

/// The constant value at `pos`: the first of identifier, literal, number
/// that is no integer, integer, list and map that stands there.
pub open spec fn const_value_at(s: Seq<char>, pos: int) -> Found<ConstValueModel>
    decreases s.len() - pos, 3nat,
{
    if pos < 0 || pos > s.len() {
        None
    } else if identifier_at(s, pos) is Some {
        Some(
            (ConstValueModel::Identifier(identifier_at(s, pos)->Some_0.0), identifier_at(
                s,
                pos,
            )->Some_0.1),
        )
    } else if literal_at(s, pos) is Some {
        Some(
            (ConstValueModel::Literal(literal_at(s, pos)->Some_0.0), literal_at(s, pos)->Some_0.1),
        )
    } else if double_only_at(s, pos) is Some {
        Some(
            (ConstValueModel::Double(double_only_at(s, pos)->Some_0.0), double_only_at(
                s,
                pos,
            )->Some_0.1),
        )
    } else if int_constant_at(s, pos) is Some {
        Some(
            (ConstValueModel::Int(int_constant_at(s, pos)->Some_0.0), int_constant_at(
                s,
                pos,
            )->Some_0.1),
        )
    } else {
        match const_list_at(s, pos) {
            Some((items, p)) => Some((ConstValueModel::List(items), p)),
            None => match const_map_at(s, pos) {
                Some((entries, p)) => Some((ConstValueModel::MapOf(entries), p)),
                None => None,
            },
        }
    }
}

/// The list at `pos`: values between square brackets, with what separates
/// items between them.
pub open spec fn const_list_at(s: Seq<char>, pos: int) -> Found<Seq<ConstValueModel>>
    decreases s.len() - pos, 2nat,
{
    if 0 <= pos < s.len() && s[pos] == '[' {
        let start = separators_end(s, pos + 1);
        if pos < start <= s.len() {
            let (items, p) = match const_value_at(s, start) {
                Some((v, p)) => if start < p <= s.len() {
                    const_items_from(s, p, seq![v])
                } else {
                    (Seq::empty(), start)
                },
                None => (Seq::empty(), start),
            };
            let close = separators_end(s, p);
            if 0 <= close < s.len() && s[close] == ']' {
                Some((items, close + 1))
            } else {
                None
            }
        } else {
            None
        }
    } else {
        None
    }
}

/// The values that follow those in `acc`, each behind what separates
/// items, and the position behind the last of them.
pub open spec fn const_items_from(s: Seq<char>, pos: int, acc: Seq<ConstValueModel>) -> (
    Seq<ConstValueModel>,
    int,
)
    decreases s.len() - pos, 1nat,
{
    match item_separator_at(s, pos) {
        None => (acc, pos),
        Some(pos1) => if pos < pos1 <= s.len() {
            match const_value_at(s, pos1) {
                None => (acc, pos),
                Some((v, pos2)) => if pos1 < pos2 <= s.len() {
                    const_items_from(s, pos2, acc.push(v))
                } else {
                    (acc, pos)
                },
            }
        } else {
            (acc, pos)
        },
    }
}

/// The entry at `pos`: a value, a colon, and a value, with comments and
/// blanks around the colon.
pub open spec fn const_entry_at(s: Seq<char>, pos: int) -> Found<(ConstValueModel, ConstValueModel)>
    decreases s.len() - pos, 4nat,
{
    match const_value_at(s, pos) {
        None => None,
        Some((k, p)) => {
            let colon = separators_end(s, p);
            if pos < p <= colon < s.len() && s[colon] == ':' {
                let start = separators_end(s, colon + 1);
                if colon < start <= s.len() {
                    match const_value_at(s, start) {
                        Some((v, pos2)) => Some(((k, v), pos2)),
                        None => None,
                    }
                } else {
                    None
                }
            } else {
                None
            }
        },
    }
}

/// The map at `pos`: entries between curly brackets, with what separates
/// items between them.
pub open spec fn const_map_at(s: Seq<char>, pos: int) -> Found<
    Seq<(ConstValueModel, ConstValueModel)>,
>
    decreases s.len() - pos, 2nat,
{
    if 0 <= pos < s.len() && s[pos] == '{' {
        let start = separators_end(s, pos + 1);
        if pos < start <= s.len() {
            let (entries, p) = match const_entry_at(s, start) {
                Some((e, p)) => if start < p <= s.len() {
                    const_entries_from(s, p, seq![e])
                } else {
                    (Seq::empty(), start)
                },
                None => (Seq::empty(), start),
            };
            let close = separators_end(s, p);
            if 0 <= close < s.len() && s[close] == '}' {
                Some((entries, close + 1))
            } else {
                None
            }
        } else {
            None
        }
    } else {
        None
    }
}

/// The entries that follow those in `acc`, each behind what separates
/// items, and the position behind the last of them.
pub open spec fn const_entries_from(
    s: Seq<char>,
    pos: int,
    acc: Seq<(ConstValueModel, ConstValueModel)>,
) -> (Seq<(ConstValueModel, ConstValueModel)>, int)
    decreases s.len() - pos, 1nat,
{
    match item_separator_at(s, pos) {
        None => (acc, pos),
        Some(pos1) => if pos < pos1 <= s.len() {
            match const_entry_at(s, pos1) {
                None => (acc, pos),
                Some((e, pos2)) => if pos1 < pos2 <= s.len() {
                    const_entries_from(s, pos2, acc.push(e))
                } else {
                    (acc, pos)
                },
            }
        } else {
            (acc, pos)
        },
    }
}

impl ConstValue {
    /// Reads the constant value at `pos`.
    pub fn parse_at(chars: &[char], pos: usize) -> (r: Option<(ConstValue, usize)>)
        ensures
            match const_value_at(chars@, pos as int) {
                Some((m, p)) => r matches Some((v, q)) && const_model(v) == m && q == p && pos < p
                    <= chars@.len(),
                None => r is None,
            },
        decreases chars@.len() - pos, 3nat,
    {
        if pos > chars.len() {
            return None;
        }
        match Identifier::parse_at(chars, pos) {
            Some((i, p)) => {
                return Some((ConstValue::Identifier(i), p));
            },
            None => {},
        }
        match Literal::parse_at(chars, pos) {
            Some((l, p)) => {
                return Some((ConstValue::Literal(l), p));
            },
            None => {},
        }
        match DoubleConstant::parse2_at(chars, pos) {
            Some((d, p)) => {
                return Some((ConstValue::Double(d), p));
            },
            None => {},
        }
        match IntConstant::parse_at(chars, pos) {
            Some((i, p)) => {
                return Some((ConstValue::Int(i), p));
            },
            None => {},
        }
        match ConstList::parse_at(chars, pos) {
            Some((l, p)) => {
                return Some((ConstValue::List(l), p));
            },
            None => {},
        }
        match ConstMap::parse_at(chars, pos) {
            Some((m, p)) => Some((ConstValue::MapOf(m), p)),
            None => None,
        }
    }

    /// Reads a constant value from the front of `input`.
    pub fn parse<'a>(input: &'a str) -> (r: ParseResult<'a, ConstValue>)
        ensures
            match const_value_at(input@, 0) {
                Some((m, p)) => r matches Ok((rest, v)) && const_model(v) == m && rest@
                    == input@.skip(p),
                None => r matches Err(e) && e.expected@ == "constant value"@,
            },
    {
        let chars = chars_of(input);
        match Self::parse_at(chars.as_slice(), 0) {
            Some((v, p)) => Ok((rest_of(input, p), v)),
            None => Err(ParseError { expected: "constant value" }),
        }
    }

    /// Reads the entry at `pos`.
    fn parse_entry_at(chars: &[char], pos: usize) -> (r: Option<((ConstValue, ConstValue), usize)>)
        ensures
            match const_entry_at(chars@, pos as int) {
                Some((m, p)) => r matches Some((e, q)) && const_model(e.0) == m.0 && const_model(
                    e.1,
                ) == m.1 && q == p && pos < p <= chars@.len(),
                None => r is None,
            },
        decreases chars@.len() - pos, 4nat,
    {
        match Self::parse_at(chars, pos) {
            None => None,
            Some((k, p)) => {
                let colon = Separator::skip(chars, p);
                if colon < chars.len() && chars[colon] == ':' {
                    let start = Separator::skip(chars, colon + 1);
                    match Self::parse_at(chars, start) {
                        Some((v, pos2)) => Some(((k, v), pos2)),
                        None => None,
                    }
                } else {
                    None
                }
            },
        }
    }
}

impl ConstList {
    /// Reads the list at `pos`.
    pub fn parse_at(chars: &[char], pos: usize) -> (r: Option<(ConstList, usize)>)
        ensures
            match const_list_at(chars@, pos as int) {
                Some((m, p)) => r matches Some((v, q)) && const_models(v.0) == m && q == p && pos
                    < p <= chars@.len(),
                None => r is None,
            },
        decreases chars@.len() - pos, 2nat,
    {
        if !(pos < chars.len() && chars[pos] == '[') {
            return None;
        }
        let start = Separator::skip(chars, pos + 1);
        let mut items: Vec<ConstValue> = Vec::new();
        let mut p = start;
        match ConstValue::parse_at(chars, start) {
            Some((v, q)) => {
                items.push(v);
                p = q;
                assert(const_models(items) =~= seq![const_model(v)]);
                loop
                    invariant_except_break
                        const_items_from(chars@, p as int, const_models(items))
                            == const_items_from(chars@, q as int, seq![const_model(v)]),
                    invariant
                        pos < p <= chars@.len(),
                    ensures
                        const_items_from(chars@, q as int, seq![const_model(v)]) == (
                            const_models(items),
                            p as int,
                        ),
                    decreases chars@.len() - p,
                {
                    match parse_list_separator_at(chars, p) {
                        None => {
                            break ;
                        },
                        Some(pos1) => match ConstValue::parse_at(chars, pos1) {
                            None => {
                                break ;
                            },
                            Some((next, pos2)) => {
                                let ghost before = items;
                                items.push(next);
                                proof {
                                    assert(const_models(items) =~= const_models(before).push(
                                        const_model(next),
                                    ));
                                }
                                p = pos2;
                            },
                        },
                    }
                }
            },
            None => {
                assert(const_models(items) =~= Seq::<ConstValueModel>::empty());
            },
        }
        let close = Separator::skip(chars, p);
        if close < chars.len() && chars[close] == ']' {
            Some((ConstList(items), close + 1))
        } else {
            None
        }
    }

    /// Reads a list from the front of `input`.
    pub fn parse<'a>(input: &'a str) -> (r: ParseResult<'a, ConstList>)
        ensures
            match const_list_at(input@, 0) {
                Some((m, p)) => r matches Ok((rest, v)) && const_models(v.0) == m && rest@
                    == input@.skip(p),
                None => r matches Err(e) && e.expected@ == "constant list"@,
            },
    {
        let chars = chars_of(input);
        match Self::parse_at(chars.as_slice(), 0) {
            Some((v, p)) => Ok((rest_of(input, p), v)),
            None => Err(ParseError { expected: "constant list" }),
        }
    }
}

impl ConstMap {
    /// Reads the map at `pos`.
    pub fn parse_at(chars: &[char], pos: usize) -> (r: Option<(ConstMap, usize)>)
        ensures
            match const_map_at(chars@, pos as int) {
                Some((m, p)) => r matches Some((v, q)) && const_entry_models(v.0) == m && q == p
                    && pos < p <= chars@.len(),
                None => r is None,
            },
        decreases chars@.len() - pos, 2nat,
    {
        if !(pos < chars.len() && chars[pos] == '{') {
            return None;
        }
        let start = Separator::skip(chars, pos + 1);
        let mut entries: Vec<(ConstValue, ConstValue)> = Vec::new();
        let mut p = start;
        match ConstValue::parse_entry_at(chars, start) {
            Some((e, q)) => {
                let ghost first = (const_model(e.0), const_model(e.1));
                entries.push(e);
                p = q;
                assert(const_entry_models(entries) =~= seq![first]);
                loop
                    invariant_except_break
                        const_entries_from(chars@, p as int, const_entry_models(entries))
                            == const_entries_from(chars@, q as int, seq![first]),
                    invariant
                        pos < p <= chars@.len(),
                    ensures
                        const_entries_from(chars@, q as int, seq![first]) == (
                            const_entry_models(entries),
                            p as int,
                        ),
                    decreases chars@.len() - p,
                {
                    match parse_list_separator_at(chars, p) {
                        None => {
                            break ;
                        },
                        Some(pos1) => match ConstValue::parse_entry_at(chars, pos1) {
                            None => {
                                break ;
                            },
                            Some((next, pos2)) => {
                                let ghost before = entries;
                                let ghost m = (const_model(next.0), const_model(next.1));
                                entries.push(next);
                                proof {
                                    assert(const_entry_models(entries) =~= const_entry_models(
                                        before,
                                    ).push(m));
                                }
                                p = pos2;
                            },
                        },
                    }
                }
            },
            None => {
                assert(const_entry_models(entries) =~= Seq::<
                    (ConstValueModel, ConstValueModel),
                >::empty());
            },
        }
        let close = Separator::skip(chars, p);
        if close < chars.len() && chars[close] == '}' {
            Some((ConstMap(entries), close + 1))
        } else {
            None
        }
    }

    /// Reads a map from the front of `input`.
    pub fn parse<'a>(input: &'a str) -> (r: ParseResult<'a, ConstMap>)
        ensures
            match const_map_at(input@, 0) {
                Some((m, p)) => r matches Ok((rest, v)) && const_entry_models(v.0) == m && rest@
                    == input@.skip(p),
                None => r matches Err(e) && e.expected@ == "constant map"@,
            },
    {
        let chars = chars_of(input);
        match Self::parse_at(chars.as_slice(), 0) {
            Some((v, p)) => Ok((rest_of(input, p), v)),
            None => Err(ParseError { expected: "constant map" }),
        }
    }
}

} // verus!
