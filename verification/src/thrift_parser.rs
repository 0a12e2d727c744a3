//! A parser for Thrift IDL documents.
//!
//! Every parser reads from the front of a text and gives the text that is
//! left together with what it read, or an error where the text does not
//! start with what it looks for.

use vstd::prelude::*;

pub mod basic;
pub mod constant;
pub mod definition;
pub mod document;
pub mod field;
pub mod functions;
pub mod header;
pub mod types;

verus! {

/// Why a text could not be read: it does not start with what the parser
/// looks for.
#[derive(Debug, PartialEq, Eq)]
pub struct ParseError {
    /// What was looked for.
    pub expected: &'static str,
}

/// A vector with one more item has the views of the old one and the view
/// of the new item.
pub proof fn lemma_deep_push<T: DeepView>(before: Vec<T>, after: Vec<T>, x: T)
    requires
        after@ == before@.push(x),
    ensures
        after.deep_view() == before.deep_view().push(x.deep_view()),
{
    assert(after.deep_view() =~= before.deep_view().push(x.deep_view()));
}

/// An empty vector has no views.
pub proof fn lemma_deep_empty<T: DeepView>(v: Vec<T>)
    requires
        v@.len() == 0,
    ensures
        v.deep_view() == Seq::<T::V>::empty(),
{
    assert(v.deep_view() =~= Seq::<T::V>::empty());
}

/// What a parser gives: the text that is left, and what was read.
pub type ParseResult<'a, T> = Result<(&'a str, T), ParseError>;

} // verus!
