//! The smallest pieces of the grammar: literals, identifiers, separators
//! and comments.

use vstd::prelude::*;
use vstd::string::*;

use crate::text::{
    blank, chars_of, digit, find_char, find_line_end, find_pair, has_at, index_of, index_of_pair,
    is_blank, is_digit, is_letter, letter, line_end, starts_with_at, string_of,
};
use crate::thrift_parser::{ParseError, ParseResult};

verus! {

/// What a parser finds at a position: the item and the position behind
/// it.
pub type Found<T> = Option<(T, int)>;

/// The text left of `input` from position `pos` on; nothing past the
/// end.
pub fn rest_of<'a>(input: &'a str, pos: usize) -> (r: &'a str)
    ensures
        r@ == (if pos <= input@.len() {
            input@.skip(pos as int)
        } else {
            Seq::empty()
        }),
{
    let n = input.unicode_len();
    if pos > n {
        let r = input.substring_char(n, n);
        assert(input@.subrange(n as int, n as int) =~= Seq::<char>::empty());
        return r;
    }
    let r = input.substring_char(pos, n);
    assert(input@.subrange(pos as int, n as int) =~= input@.skip(pos as int));
    r
}

// ---------------------------------------------------------------------
// Literal         ::=  ('"' [^"]* '"') | ("'" [^']* "'")
// ---------------------------------------------------------------------
/// The literal at `pos`: the text between a quote and the next quote of
/// the same kind.
pub open spec fn literal_at(s: Seq<char>, pos: int) -> Found<Seq<char>> {
    if 0 <= pos < s.len() && (s[pos] == '"' || s[pos] == '\'') {
        match index_of(s, s[pos], pos + 1) {
            Some(q) => Some((s.subrange(pos + 1, q), q + 1)),
            None => None,
        }
    } else {
        None
    }
}

/// A quoted text, without its quotes.
#[derive(Debug, PartialEq, Eq)]
pub struct Literal(pub String);

impl View for Literal {
    type V = Seq<char>;

    open spec fn view(&self) -> Seq<char> {
        self.0@
    }
}

impl Clone for Literal {
    fn clone(&self) -> (r: Self)
        ensures
            r@ == self@,
    {
        Literal(self.0.clone())
    }
}

impl Literal {
    /// The literal with this text.
    pub fn from(s: &str) -> (r: Self)
        ensures
            r@ == s@,
    {
        Literal(String::from_str(s))
    }

    /// The text.
    pub fn as_str(&self) -> (r: &str)
        ensures
            r@ == self@,
    {
        self.0.as_str()
    }

    /// The text.
    pub fn into_inner(self) -> (r: String)
        ensures
            r@ == self@,
    {
        self.0
    }

    /// Reads the literal at `pos`.
    pub fn parse_at(chars: &[char], pos: usize) -> (r: Option<(Literal, usize)>)
        ensures
            match literal_at(chars@, pos as int) {
                Some((m, p)) => r matches Some((v, q)) && v@ == m && q == p && pos < p
                    <= chars@.len(),
                None => r is None,
            },
    {
        if pos < chars.len() && (chars[pos] == '"' || chars[pos] == '\'') {
            match find_char(chars, chars[pos], pos + 1) {
                Some(q) => Some((Literal(string_of(chars, pos + 1, q)), q + 1)),
                None => None,
            }
        } else {
            None
        }
    }

    /// Reads a literal from the front of `input`.
    pub fn parse<'a>(input: &'a str) -> (r: ParseResult<'a, Literal>)
        ensures
            match literal_at(input@, 0) {
                Some((m, p)) => r matches Ok((rest, v)) && v@ == m && rest@ == input@.skip(p),
                None => r matches Err(e) && e.expected@ == "literal"@,
            },
    {
        let chars = chars_of(input);
        match Self::parse_at(chars.as_slice(), 0) {
            Some((v, p)) => Ok((rest_of(input, p), v)),
            None => Err(ParseError { expected: "literal" }),
        }
    }
}

// ---------------------------------------------------------------------
// Identifier      ::=  '_'? Letter ( Letter | Digit | '.' | '_' )*
// ---------------------------------------------------------------------
/// A character that may follow the first letter of an identifier.
pub open spec fn is_identifier_char(c: char) -> bool {
    is_letter(c) || is_digit(c) || c == '.' || c == '_'
}

/// The first position at or after `pos` that holds no identifier
/// character.
pub open spec fn identifier_end(s: Seq<char>, pos: int) -> int
    decreases s.len() - pos,
{
    if 0 <= pos < s.len() && is_identifier_char(s[pos]) {
        identifier_end(s, pos + 1)
    } else {
        pos
    }
}

/// The identifier at `pos`: an optional underscore, a letter, and
/// identifier characters as far as they go.
pub open spec fn identifier_at(s: Seq<char>, pos: int) -> Found<Seq<char>> {
    let first = if 0 <= pos < s.len() && s[pos] == '_' {
        pos + 1
    } else {
        pos
    };
    if 0 <= first < s.len() && is_letter(s[first]) {
        Some((s.subrange(pos, identifier_end(s, first + 1)), identifier_end(s, first + 1)))
    } else {
        None
    }
}

/// A name.
#[derive(Debug, PartialEq, Eq)]
pub struct Identifier(pub String);

impl View for Identifier {
    type V = Seq<char>;

    open spec fn view(&self) -> Seq<char> {
        self.0@
    }
}

impl Clone for Identifier {
    fn clone(&self) -> (r: Self)
        ensures
            r@ == self@,
    {
        Identifier(self.0.clone())
    }
}

impl Identifier {
    /// The identifier with this text.
    pub fn from(s: &str) -> (r: Self)
        ensures
            r@ == s@,
    {
        Identifier(String::from_str(s))
    }

    /// The text.
    pub fn as_str(&self) -> (r: &str)
        ensures
            r@ == self@,
    {
        self.0.as_str()
    }

    /// The text.
    pub fn into_inner(self) -> (r: String)
        ensures
            r@ == self@,
    {
        self.0
    }

    /// Reads the identifier at `pos`.
    pub fn parse_at(chars: &[char], pos: usize) -> (r: Option<(Identifier, usize)>)
        ensures
            match identifier_at(chars@, pos as int) {
                Some((m, p)) => r matches Some((v, q)) && v@ == m && q == p && pos < p
                    <= chars@.len(),
                None => r is None,
            },
    {
        let n = chars.len();
        let first = if pos < n && chars[pos] == '_' {
            pos + 1
        } else {
            pos
        };
        if first < n && letter(chars[first]) {
            let mut end = first + 1;
            while end < n && (letter(chars[end]) || digit(chars[end]) || chars[end] == '.'
                || chars[end] == '_')
                invariant
                    first < end <= n,
                    n == chars@.len(),
                    identifier_end(chars@, first + 1) == identifier_end(chars@, end as int),
                decreases n - end,
            {
                end = end + 1;
            }
            Some((Identifier(string_of(chars, pos, end)), end))
        } else {
            None
        }
    }

    /// Reads an identifier from the front of `input`.
    pub fn parse<'a>(input: &'a str) -> (r: ParseResult<'a, Identifier>)
        ensures
            match identifier_at(input@, 0) {
                Some((m, p)) => r matches Ok((rest, v)) && v@ == m && rest@ == input@.skip(p),
                None => r matches Err(e) && e.expected@ == "identifier"@,
            },
    {
        let chars = chars_of(input);
        match Self::parse_at(chars.as_slice(), 0) {
            Some((v, p)) => Ok((rest_of(input, p), v)),
            None => Err(ParseError { expected: "identifier" }),
        }
    }
}

// ---------------------------------------------------------------------
// ListSeparator   ::=  ',' | ';'
// ---------------------------------------------------------------------
/// The list separator at `pos`: a comma or a semicolon.
pub open spec fn list_separator_at(s: Seq<char>, pos: int) -> Option<int> {
    if 0 <= pos < s.len() && (s[pos] == ',' || s[pos] == ';') {
        Some(pos + 1)
    } else {
        None
    }
}

/// A comma or a semicolon.
#[derive(Debug, PartialEq, Eq, Clone, Copy)]
pub struct ListSeparator;

impl ListSeparator {
    /// Reads the list separator at `pos`.
    pub fn parse_at(chars: &[char], pos: usize) -> (r: Option<usize>)
        ensures
            match list_separator_at(chars@, pos as int) {
                Some(p) => r matches Some(found) && found == p && p == pos + 1 && p <= chars@.len(),
                None => r is None,
            },
    {
        if pos < chars.len() && (chars[pos] == ',' || chars[pos] == ';') {
            Some(pos + 1)
        } else {
            None
        }
    }

    /// Reads a list separator from the front of `input`.
    pub fn parse<'a>(input: &'a str) -> (r: ParseResult<'a, ListSeparator>)
        ensures
            match list_separator_at(input@, 0) {
                Some(p) => r matches Ok((rest, _)) && rest@ == input@.skip(p),
                None => r matches Err(e) && e.expected@ == "list separator"@,
            },
    {
        let chars = chars_of(input);
        match Self::parse_at(chars.as_slice(), 0) {
            Some(p) => Ok((rest_of(input, p), ListSeparator)),
            None => Err(ParseError { expected: "list separator" }),
        }
    }
}

// ---------------------------------------------------------------------
// Comment: from "//" or "#" to the end of the line, or between "/*" and
// "*/"
// ---------------------------------------------------------------------
/// The comment at `pos`: its text without the markers, and the position
/// behind it. A line comment ends before the line feed.
pub open spec fn comment_at(s: Seq<char>, pos: int) -> Found<Seq<char>> {
    if has_at(s, pos, "//"@) {
        Some((s.subrange(pos + 2, line_end(s, pos + 2)), line_end(s, pos + 2)))
    } else if 0 <= pos < s.len() && s[pos] == '#' {
        Some((s.subrange(pos + 1, line_end(s, pos + 1)), line_end(s, pos + 1)))
    } else if has_at(s, pos, "/*"@) {
        match index_of_pair(s, '*', '/', pos + 2) {
            Some(q) => Some((s.subrange(pos + 2, q), q + 2)),
            None => None,
        }
    } else {
        None
    }
}

/// A comment, without its markers.
#[derive(Debug, PartialEq, Eq)]
pub struct Comment(pub String);

impl View for Comment {
    type V = Seq<char>;

    open spec fn view(&self) -> Seq<char> {
        self.0@
    }
}

impl Clone for Comment {
    fn clone(&self) -> (r: Self)
        ensures
            r@ == self@,
    {
        Comment(self.0.clone())
    }
}

impl Comment {
    /// The comment with this text.
    pub fn from(s: &str) -> (r: Self)
        ensures
            r@ == s@,
    {
        Comment(String::from_str(s))
    }

    /// The text.
    pub fn as_str(&self) -> (r: &str)
        ensures
            r@ == self@,
    {
        self.0.as_str()
    }

    /// Finds the comment at `pos`: where its text starts and ends, and
    /// the position behind it.
    pub fn span_at(chars: &[char], pos: usize) -> (r: Option<(usize, usize, usize)>)
        ensures
            match comment_at(chars@, pos as int) {
                Some((m, p)) => r matches Some((from, to, q)) && from <= to <= chars@.len()
                    && chars@.subrange(from as int, to as int) == m && q == p && pos < p
                    <= chars@.len(),
                None => r is None,
            },
    {
        proof {
            reveal_strlit("//");
            reveal_strlit("/*");
        }
        let n = chars.len();
        if starts_with_at(chars, pos, "//") {
            let end = find_line_end(chars, pos + 2);
            Some((pos + 2, end, end))
        } else if pos < n && chars[pos] == '#' {
            let end = find_line_end(chars, pos + 1);
            Some((pos + 1, end, end))
        } else if starts_with_at(chars, pos, "/*") {
            match find_pair(chars, '*', '/', pos + 2) {
                Some(q) => Some((pos + 2, q, q + 2)),
                None => None,
            }
        } else {
            None
        }
    }

    /// Reads the comment at `pos`.
    pub fn parse_at(chars: &[char], pos: usize) -> (r: Option<(Comment, usize)>)
        ensures
            match comment_at(chars@, pos as int) {
                Some((m, p)) => r matches Some((v, q)) && v@ == m && q == p && pos < p
                    <= chars@.len(),
                None => r is None,
            },
    {
        match Self::span_at(chars, pos) {
            Some((from, to, q)) => Some((Comment(string_of(chars, from, to)), q)),
            None => None,
        }
    }

    /// Reads a comment from the front of `input`.
    pub fn parse<'a>(input: &'a str) -> (r: ParseResult<'a, Comment>)
        ensures
            match comment_at(input@, 0) {
                Some((m, p)) => r matches Ok((rest, v)) && v@ == m && rest@ == input@.skip(p),
                None => r matches Err(e) && e.expected@ == "comment"@,
            },
    {
        let chars = chars_of(input);
        match Self::parse_at(chars.as_slice(), 0) {
            Some((v, p)) => Ok((rest_of(input, p), v)),
            None => Err(ParseError { expected: "comment" }),
        }
    }
}

// ---------------------------------------------------------------------
// Separator: comments and blanks, at least one
// ---------------------------------------------------------------------
/// The position behind the comments and blanks that stand at `pos`, as
/// far as they go.
pub open spec fn separators_end(s: Seq<char>, pos: int) -> int
    decreases s.len() - pos,
{
    if 0 <= pos < s.len() && is_blank(s[pos]) {
        separators_end(s, pos + 1)
    } else {
        match comment_at(s, pos) {
            Some((_, p)) => if pos < p <= s.len() {
                separators_end(s, p)
            } else {
                pos
            },
            None => pos,
        }
    }
}

/// The separator at `pos`: comments and blanks as far as they go, at
/// least one of them.
pub open spec fn separator_at(s: Seq<char>, pos: int) -> Option<int> {
    if separators_end(s, pos) > pos {
        Some(separators_end(s, pos))
    } else {
        None
    }
}

/// What stands between two tokens: comments and blanks.
#[derive(Debug, PartialEq, Eq, Clone, Copy)]
pub struct Separator;

impl Separator {
    /// The position behind the comments and blanks that stand at `pos`.
    pub fn skip(chars: &[char], pos: usize) -> (r: usize)
        ensures
            r == separators_end(chars@, pos as int),
            pos <= r,
            r <= chars@.len() || r == pos,
    {
        let mut i: usize = pos;
        loop
            invariant_except_break
                separators_end(chars@, pos as int) == separators_end(chars@, i as int),
            invariant
                pos <= i,
                i <= chars@.len() || i == pos,
            ensures
                i == separators_end(chars@, pos as int),
            decreases chars@.len() - i,
        {
            if i < chars.len() && blank(chars[i]) {
                i = i + 1;
            } else {
                match Comment::span_at(chars, i) {
                    Some((_, _, p)) => {
                        i = p;
                    },
                    None => {
                        break ;
                    },
                }
            }
        }
        i
    }

    /// Reads the separator at `pos`.
    pub fn parse_at(chars: &[char], pos: usize) -> (r: Option<usize>)
        ensures
            match separator_at(chars@, pos as int) {
                Some(p) => r matches Some(found) && found == p && pos < p <= chars@.len(),
                None => r is None,
            },
    {
        let end = Self::skip(chars, pos);
        if end > pos {
            Some(end)
        } else {
            None
        }
    }

    /// Reads a separator from the front of `input`.
    pub fn parse<'a>(input: &'a str) -> (r: ParseResult<'a, Separator>)
        ensures
            match separator_at(input@, 0) {
                Some(p) => r matches Ok((rest, _)) && rest@ == input@.skip(p),
                None => r matches Err(e) && e.expected@ == "separator"@,
            },
    {
        let chars = chars_of(input);
        match Self::parse_at(chars.as_slice(), 0) {
            Some(p) => Ok((rest_of(input, p), Separator)),
            None => Err(ParseError { expected: "separator" }),
        }
    }
}

} // verus!
