//! Names: how the identifiers of a document appear in source text.

use vstd::prelude::*;
use vstd::string::*;

use crate::text::{chars_of, push_char};
use crate::thrift_parser::basic::Identifier;

verus! {

/// The snake case of a text, as `heck` makes it.
pub uninterp spec fn snake_case(s: Seq<char>) -> Seq<char>;

/// The camel case of a text, as `heck` makes it.
pub uninterp spec fn camel_case(s: Seq<char>) -> Seq<char>;

/// The lower case of a text, as std makes it.
pub uninterp spec fn lowercase(s: Seq<char>) -> Seq<char>;

/// `heck::SnakeCase::to_snake_case` on a `str`.
#[verifier::external_body]
pub(crate) fn to_snake_case(s: &str) -> (r: String)
    ensures
        r@ == snake_case(s@),
{
    heck::SnakeCase::to_snake_case(s)
}

/// `heck::CamelCase::to_camel_case` on a `str`.
#[verifier::external_body]
pub(crate) fn to_camel_case(s: &str) -> (r: String)
    ensures
        r@ == camel_case(s@),
{
    heck::CamelCase::to_camel_case(s)
}

/// `str::to_lowercase`.
#[verifier::external_body]
pub(crate) fn to_lowercase(s: &str) -> (r: String)
    ensures
        r@ == lowercase(s@),
{
    s.to_lowercase()
}

/// The text with `::` in place of each point.
pub open spec fn path_text(s: Seq<char>) -> Seq<char>
    decreases s.len(),
{
    if s.len() == 0 {
        Seq::empty()
    } else if s.last() == '.' {
        path_text(s.drop_last()) + seq![':', ':']
    } else {
        path_text(s.drop_last()).push(s.last())
    }
}

/// The text with `::` in place of each point.
pub fn to_path(s: &str) -> (r: String)
    ensures
        r@ == path_text(s@),
{
    let chars = chars_of(s);
    let mut out = String::new();
    let mut i: usize = 0;
    assert(chars@.take(0) =~= Seq::<char>::empty());
    while i < chars.len()
        invariant
            i <= chars.len(),
            chars@ == s@,
            out@ == path_text(chars@.take(i as int)),
        decreases chars.len() - i,
    {
        proof {
            let next = chars@.take(i + 1);
            assert(next.drop_last() =~= chars@.take(i as int));
            assert(next.last() == chars@[i as int]);
        }
        if chars[i] == '.' {
            push_char(&mut out, ':');
            push_char(&mut out, ':');
            assert(out@ =~= path_text(chars@.take(i as int)) + seq![':', ':']);
        } else {
            push_char(&mut out, chars[i]);
        }
        i = i + 1;
    }
    assert(chars@.take(chars.len() as int) =~= chars@);
    out
}

/// The name of a field in source text: the snake case of the identifier,
/// in lower case.
pub open spec fn field_name_text(name: Seq<char>) -> Seq<char> {
    lowercase(snake_case(name))
}

/// The name of a type or variant in source text: the camel case of the
/// identifier.
pub open spec fn ident_name_text(name: Seq<char>) -> Seq<char> {
    camel_case(name)
}

/// The name of a struct in source text: the identifier as a path.
pub open spec fn struct_name_text(name: Seq<char>) -> Seq<char> {
    path_text(name)
}

/// The name of a field in source text.
pub fn field_name(id: &Identifier) -> (r: String)
    ensures
        r@ == field_name_text(id@),
{
    let snake = to_snake_case(id.as_str());
    to_lowercase(snake.as_str())
}

/// The name of a type or variant in source text.
pub fn ident_name(id: &Identifier) -> (r: String)
    ensures
        r@ == ident_name_text(id@),
{
    to_camel_case(id.as_str())
}

/// The name of a struct in source text.
pub fn struct_name(id: &Identifier) -> (r: String)
    ensures
        r@ == struct_name_text(id@),
{
    to_path(id.as_str())
}

} // verus!
