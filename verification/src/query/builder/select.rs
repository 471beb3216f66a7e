use crate::query::builder::{
    expect_none_spec, parse_columns_spec, parse_table_spec, parse_where_spec, parsed,
    peek_expecting_spec, take_front, unexpected_token_in_stage, unexpected_token_message,
    validate_keywords, validate_keywords_spec, Builder, Reading,
};
use crate::query::structs::expression::ExpressionView;
use crate::query::structs::operation::Operation;
use crate::query::structs::ordering::{OrderBy, OrderByView, OrderKind};
use crate::query::structs::query::{Query, QueryView};
use crate::query::structs::token::{
    is_rest_of, lemma_rest_of_itself, lemma_rest_of_rest, Token, TokenKind, TokenView,
};
use crate::utils::errors::{ErrorView, Errored};
use crate::utils::text::texts_of;
use std::collections::VecDeque;
use vstd::prelude::*;
use vstd::string::*;

verus! {

broadcast use {lemma_rest_of_rest, lemma_rest_of_itself};

/// The keywords that may occur behind `SELECT`.
pub open spec fn select_keywords() -> Seq<Seq<char>> {
    seq!["SELECT"@, "FROM"@, "WHERE"@, "ORDER BY"@, "ASC"@, "DESC"@, "AND"@, "OR"@, "NOT"@]
}

/// The sort keys, continued behind the keys `keys` that were read already:
/// identifiers, each with `ASC` or `DESC` behind it or with neither, which
/// means ascending, up to the end of the tokens. A token that stands in
/// the place of a column is taken off the queue and reported.
pub open spec fn parse_ordering_from(keys: Seq<OrderByView>, q: Seq<TokenView>) -> Reading<
    Seq<OrderByView>,
>
    decreases q.len(),
{
    if q.len() == 0 {
        (Ok(keys), q)
    } else if q[0].kind != TokenKind::Identifier {
        (Err(ErrorView::Syntax(unexpected_token_message("ORDER_BY"@, q[0]))), q.skip(1))
    } else if q.len() > 1 && q[1].is_keyword("DESC"@) {
        parse_ordering_from(keys.push(OrderByView { field: q[0], kind: OrderKind::Desc }), q.skip(2))
    } else if q.len() > 1 && q[1].is_keyword("ASC"@) {
        parse_ordering_from(keys.push(OrderByView { field: q[0], kind: OrderKind::Asc }), q.skip(2))
    } else {
        parse_ordering_from(keys.push(OrderByView { field: q[0], kind: OrderKind::Asc }), q.skip(1))
    }
}

/// The condition of a selection: `WHERE` and the condition, or nothing.
pub open spec fn select_condition(q: Seq<TokenView>) -> Reading<ExpressionView> {
    if peek_expecting_spec(q, "WHERE"@, TokenKind::Keyword) is Ok {
        parse_where_spec(q)
    } else {
        (Ok(ExpressionView::Empty), q)
    }
}

/// The end of a selection: `ORDER BY` and the sort keys, or nothing at all.
pub open spec fn select_ordering(q: Seq<TokenView>) -> Reading<Seq<OrderByView>> {
    if peek_expecting_spec(q, "ORDER BY"@, TokenKind::Keyword) is Ok {
        parse_ordering_from(Seq::empty(), q.skip(1))
    } else {
        match expect_none_spec(q) {
            Err(e) => (Err(e), q),
            Ok(_) => (Ok(Seq::empty()), q),
        }
    }
}

/// The selection that the tokens behind `SELECT` write: the columns or
/// `*`, `FROM` and the table, then the condition and the sort keys where
/// there are any.
pub open spec fn select_spec(q: Seq<TokenView>) -> Reading<QueryView> {
    match validate_keywords_spec(select_keywords(), q, Operation::Select) {
        Err(e) => (Err(e), q),
        Ok(_) => match parse_columns_spec(q) {
            (Err(e), rest) => (Err(e), rest),
            (Ok(columns), q1) => match parse_table_spec(q1, Operation::Select) {
                (Err(e), rest) => (Err(e), rest),
                (Ok(table), q2) => match select_condition(q2) {
                    (Err(e), rest) => (Err(e), rest),
                    (Ok(conditions), q3) => match select_ordering(q3) {
                        (Err(e), rest) => (Err(e), rest),
                        (Ok(ordering), rest) => (
                            Ok(
                                QueryView {
                                    columns,
                                    conditions,
                                    ordering,
                                    ..QueryView::plain(Operation::Select, table)
                                },
                            ),
                            rest,
                        ),
                    },
                },
            },
        },
    }
}

fn allowed_keywords() -> (words: Vec<&'static str>)
    ensures
        texts_of(words@) == select_keywords(),
{
    let words = vec!["SELECT", "FROM", "WHERE", "ORDER BY", "ASC", "DESC", "AND", "OR", "NOT"];
    words
}

/// The builder of selections.
pub struct SelectBuilder {
    tokens: VecDeque<Token>,
}

impl SelectBuilder {
    /// A builder on the tokens behind `SELECT`.
    pub fn new(tokens: VecDeque<Token>) -> (b: SelectBuilder)
        ensures
            b.remaining() == tokens.deep_view(),
    {
        SelectBuilder { tokens }
    }

    /// Reads the sort keys up to the end of the tokens.
    pub fn parse_ordering(&mut self) -> (r: Result<Vec<OrderBy>, Errored>)
        ensures
            parsed(
                r,
                final(self).remaining(),
                parse_ordering_from(Seq::empty(), old(self).remaining()),
            ),
            r is Ok ==> final(self).remaining().len() == 0,
            is_rest_of(final(self).remaining(), old(self).remaining()),
    {
        let mut ordering: Vec<OrderBy> = Vec::new();
        assert(ordering.deep_view() =~= Seq::empty());
        while self.tokens.len() > 0
            invariant
                is_rest_of(self.remaining(), old(self).remaining()),
                parse_ordering_from(Seq::empty(), old(self).remaining()) == parse_ordering_from(
                    ordering.deep_view(),
                    self.tokens.deep_view(),
                ),
            decreases self.tokens@.len(),
        {
            let ghost keys = ordering.deep_view();
            let t = take_front(&mut self.tokens);
            if t.kind != TokenKind::Identifier {
                unexpected_token_in_stage("ORDER_BY", &t)?;
            }
            let mut new_order = OrderBy { field: t, kind: OrderKind::Asc };
            if self.tokens.len() > 0 {
                if self.tokens[0].is("DESC", TokenKind::Keyword) {
                    new_order.kind = OrderKind::Desc;
                    let _ = take_front(&mut self.tokens);
                } else if self.tokens[0].is("ASC", TokenKind::Keyword) {
                    let _ = take_front(&mut self.tokens);
                }
            }
            ordering.push(new_order);
            assert(ordering.deep_view() =~= keys.push(new_order@));
        }
        Ok(ordering)
    }
}

impl Builder for SelectBuilder {
    closed spec fn remaining(&self) -> Seq<TokenView> {
        self.tokens.deep_view()
    }

    open spec fn operation() -> Operation {
        Operation::Select
    }

    open spec fn allowed_keywords() -> Seq<Seq<char>> {
        select_keywords()
    }

    open spec fn build_spec(q: Seq<TokenView>) -> Reading<QueryView> {
        select_spec(q)
    }

    fn build(&mut self) -> (r: Result<Query, Errored>) {
        let mut query = Query::default();
        self.validate_keywords()?;
        query.operation = Operation::Select;
        query.columns = self.parse_columns()?;
        query.table = self.parse_table(Operation::Select)?;
        if self.peek_expecting("WHERE", TokenKind::Keyword).is_ok() {
            query.conditions = self.parse_where()?;
        }
        match self.peek_expecting("ORDER BY", TokenKind::Keyword) {
            Ok(_) => {
                let _ = take_front(&mut self.tokens);
                query.ordering = self.parse_ordering()?;
            },
            Err(_) => self.expect_none()?,
        }
        Ok(query)
    }

    fn tokens(&mut self) -> (r: &mut VecDeque<Token>) {
        &mut self.tokens
    }

    fn validate_keywords(&self) -> (r: Result<(), Errored>) {
        let allowed = allowed_keywords();
        validate_keywords(&allowed, &self.tokens, Operation::Select)
    }
}

} // verus!
