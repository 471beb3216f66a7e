//! The query front end and the engine: tokenizer, builders, data model and
//! executor.
use crate::utils::errors::{ErrorView, Errored};
use crate::utils::text::{char_is_whitespace, chars_of, whitespace};
use vstd::prelude::*;
use vstd::string::*;

pub mod builder;
pub mod executor;
pub mod structs;
pub mod tokenizer;

verus! {

/// Whether `s` holds nothing but whitespace.
pub open spec fn is_blank(s: Seq<char>) -> bool {
    forall|i: int| 0 <= i < s.len() ==> whitespace(#[trigger] s[i])
}

/// Rejects a query string that is empty or blank.
pub fn validate_query_string(query: &str) -> (r: Result<(), Errored>)
    ensures
        r is Ok <==> !is_blank(query@),
        r is Err ==> r->Err_0@ == ErrorView::Default("query is empty."@),
{
    let chars = chars_of(query);
    let mut i: usize = 0;
    while i < chars.len()
        invariant
            i <= chars.len(),
            chars@ == query@,
            forall|j: int| 0 <= j < i ==> whitespace(#[trigger] chars@[j]),
        decreases chars.len() - i,
    {
        if !char_is_whitespace(chars[i]) {
            return Ok(());
        }
        i += 1;
    }
    Err(Errored::Default(String::from_str("query is empty.")))
}

} // verus!
