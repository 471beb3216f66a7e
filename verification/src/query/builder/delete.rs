use crate::query::builder::{
    parse_condition, parse_condition_spec, parse_table_spec, validate_keywords,
    validate_keywords_spec, Builder, Reading,
};
use crate::query::structs::operation::Operation;
use crate::query::structs::query::{Query, QueryView};
use crate::query::structs::token::{lemma_rest_of_itself, lemma_rest_of_rest, Token, TokenView};
use crate::utils::errors::Errored;
use crate::utils::text::texts_of;
use std::collections::VecDeque;
use vstd::prelude::*;

verus! {

broadcast use {lemma_rest_of_rest, lemma_rest_of_itself};

/// The keywords that may occur behind `DELETE`.
pub open spec fn delete_keywords() -> Seq<Seq<char>> {
    seq!["FROM"@, "WHERE"@, "AND"@, "OR"@]
}

/// The deletion that the tokens behind `DELETE` write: `FROM` and the
/// table, then the condition where there is one.
pub open spec fn delete_spec(q: Seq<TokenView>) -> Reading<QueryView> {
    match validate_keywords_spec(delete_keywords(), q, Operation::Delete) {
        Err(e) => (Err(e), q),
        Ok(_) => match parse_table_spec(q, Operation::Delete) {
            (Err(e), rest) => (Err(e), rest),
            (Ok(table), q1) => match parse_condition_spec(q1) {
                (Err(e), rest) => (Err(e), rest),
                (Ok(conditions), rest) => (
                    Ok(QueryView { conditions, ..QueryView::plain(Operation::Delete, table) }),
                    rest,
                ),
            },
        },
    }
}

fn allowed_keywords() -> (words: Vec<&'static str>)
    ensures
        texts_of(words@) == delete_keywords(),
{
    let words = vec!["FROM", "WHERE", "AND", "OR"];
    words
}

/// The builder of deletions.
pub struct DeleteBuilder {
    tokens: VecDeque<Token>,
}

impl DeleteBuilder {
    /// A builder on the tokens behind `DELETE`.
    pub fn new(tokens: VecDeque<Token>) -> (b: DeleteBuilder)
        ensures
            b.remaining() == tokens.deep_view(),
    {
        DeleteBuilder { tokens }
    }
}

impl Builder for DeleteBuilder {
    closed spec fn remaining(&self) -> Seq<TokenView> {
        self.tokens.deep_view()
    }

    open spec fn operation() -> Operation {
        Operation::Delete
    }

    open spec fn allowed_keywords() -> Seq<Seq<char>> {
        delete_keywords()
    }

    open spec fn build_spec(q: Seq<TokenView>) -> Reading<QueryView> {
        delete_spec(q)
    }

    fn build(&mut self) -> (r: Result<Query, Errored>) {
        let mut query = Query::default();
        self.validate_keywords()?;
        query.operation = Operation::Delete;
        query.table = self.parse_table(Operation::Delete)?;
        query.conditions = parse_condition(&mut self.tokens)?;
        Ok(query)
    }

    fn tokens(&mut self) -> (r: &mut VecDeque<Token>) {
        &mut self.tokens
    }

    fn validate_keywords(&self) -> (r: Result<(), Errored>) {
        let allowed = allowed_keywords();
        validate_keywords(&allowed, &self.tokens, Operation::Delete)
    }
}

} // verus!
