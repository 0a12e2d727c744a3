//! Source text as tokens: `proc_macro2` reads the text that the generator
//! puts together and prints it token by token. The crate is built without
//! its `proc-macro` feature: only its own lexer exists.

use vstd::prelude::*;

verus! {

#[verifier::external_type_specification]
#[verifier::external_body]
pub struct ExTokenStream(proc_macro2::TokenStream);

/// What a token stream prints as.
pub uninterp spec fn printed(tokens: &proc_macro2::TokenStream) -> Seq<char>;

/// What the tokens of a source text print as; nothing where the text is
/// no sequence of tokens.
pub uninterp spec fn token_text(source: Seq<char>) -> Option<Seq<char>>;

/// `<proc_macro2::TokenStream as FromStr>::from_str`: the tokens of a
/// source text, or nothing where the lexer refuses the text. The tokens
/// print as `token_text` of the source.
///
/// `proc_macro2` is built here without its `proc-macro` feature, so that
/// it holds its own lexer and printer only and never hands a text to a
/// compiler: what it reads from a text depends on the text alone.
#[verifier::external_body]
pub(crate) fn lex(source: &str) -> (r: Option<proc_macro2::TokenStream>)
    ensures
        match token_text(source@) {
            Some(text) => r matches Some(tokens) && printed(&tokens) == text,
            None => r is None,
        },
{
    match <proc_macro2::TokenStream as std::str::FromStr>::from_str(source) {
        Ok(tokens) => Some(tokens),
        Err(_) => None,
    }
}

/// `<proc_macro2::TokenStream as ToString>::to_string`: what the token
/// stream prints as.
#[verifier::external_body]
pub(crate) fn print(tokens: &proc_macro2::TokenStream) -> (r: String)
    ensures
        r@ == printed(tokens),
{
    tokens.to_string()
}

/// The source text token by token, as `proc_macro2` prints it: tokens
/// one space apart, groups as `(..)`, `[..]` and `{ .. }`.
pub fn render(source: &str) -> (r: Option<String>)
    ensures
        match token_text(source@) {
            Some(text) => r matches Some(s) && s@ == text,
            None => r is None,
        },
{
    match lex(source) {
        Some(tokens) => Some(print(&tokens)),
        None => None,
    }
}

} // verus!
