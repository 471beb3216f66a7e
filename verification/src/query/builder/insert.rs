use crate::query::builder::{
    parse_columns_spec, parse_table_spec, parsed, peek_expecting_spec, pop_expecting_spec,
    take_front, unexpected_token_in_stage, unexpected_token_message, validate_keywords,
    validate_keywords_spec, Builder, Reading,
};
use crate::query::structs::operation::Operation;
use crate::query::structs::query::{Query, QueryView};
use crate::query::structs::token::{
    is_rest_of, lemma_rest_of_itself, lemma_rest_of_rest, token_values, values_of, Token, TokenKind,
    TokenView,
};
use crate::utils::errors::{agrees, ErrorView, Errored};
use crate::utils::text::{decimal, occurs_in, push_index, push_quoted_list, quoted_list, texts_of};
use std::collections::VecDeque;
use vstd::prelude::*;
use vstd::string::*;

verus! {

broadcast use {lemma_rest_of_rest, lemma_rest_of_itself};

/// The keywords that may occur behind `INSERT INTO`.
pub open spec fn insert_keywords() -> Seq<Seq<char>> {
    seq!["VALUES"@]
}

/// The message for a row that does not hold one literal for each column.
pub open spec fn wrong_arity_message(columns: nat, row: Seq<TokenView>) -> Seq<char> {
    "expected "@ + decimal(columns) + " columns but insert has:\n"@ + quoted_list(
        token_values(row),
    )
}

/// The rows of literals, continued behind the rows `inserts` that were
/// closed already and the literals `values` of the row that is open. Strings
/// and numbers are literals, opening parentheses are passed over and a
/// closing one ends a row. Any other token is reported and stays in the
/// queue.
pub open spec fn parse_insert_values_from(
    inserts: Seq<Seq<TokenView>>,
    values: Seq<TokenView>,
    q: Seq<TokenView>,
) -> Reading<Seq<Seq<TokenView>>>
    decreases q.len(),
{
    if q.len() == 0 {
        (Ok(inserts), q)
    } else if q[0].kind == TokenKind::String || q[0].kind == TokenKind::Number {
        parse_insert_values_from(inserts, values.push(q[0]), q.skip(1))
    } else if q[0].kind == TokenKind::ParenthesisOpen {
        parse_insert_values_from(inserts, values, q.skip(1))
    } else if q[0].kind == TokenKind::ParenthesisClose {
        parse_insert_values_from(inserts.push(values), Seq::empty(), q.skip(1))
    } else {
        (Err(ErrorView::Syntax(unexpected_token_message("VALUES"@, q[0]))), q)
    }
}

/// `VALUES` and one or more rows of literals between parentheses, up to
/// the end of the tokens.
pub open spec fn parse_insert_values_spec(q: Seq<TokenView>) -> Reading<Seq<Seq<TokenView>>> {
    match pop_expecting_spec(q, "VALUES"@, TokenKind::Keyword) {
        (Err(e), rest) => (Err(e), rest),
        (Ok(_), rest) => match peek_expecting_spec(rest, "("@, TokenKind::ParenthesisOpen) {
            Err(e) => (Err(e), rest),
            Ok(_) => parse_insert_values_from(Seq::empty(), Seq::empty(), rest),
        },
    }
}

/// The first row that does not hold `columns` literals.
pub open spec fn first_wrong_row(columns: nat, inserts: Seq<Seq<TokenView>>) -> Option<
    Seq<TokenView>,
>
    decreases inserts.len(),
{
    if inserts.len() == 0 {
        None
    } else if inserts[0].len() != columns {
        Some(inserts[0])
    } else {
        first_wrong_row(columns, inserts.skip(1))
    }
}

/// Succeeds where every row holds as many literals as there are columns.
pub open spec fn validate_inserts_spec(columns: nat, inserts: Seq<Seq<TokenView>>) -> Result<
    (),
    ErrorView,
> {
    match first_wrong_row(columns, inserts) {
        Some(row) => Err(ErrorView::Syntax(wrong_arity_message(columns, row))),
        None => Ok(()),
    }
}

/// The insertion that the tokens behind `INSERT INTO` write: the table,
/// the columns between parentheses, `VALUES` and the rows, each with one
/// literal for each column.
pub open spec fn insert_spec(q: Seq<TokenView>) -> Reading<QueryView> {
    match validate_keywords_spec(insert_keywords(), q, Operation::Insert) {
        Err(e) => (Err(e), q),
        Ok(_) => match parse_table_spec(q, Operation::Insert) {
            (Err(e), rest) => (Err(e), rest),
            (Ok(table), q1) => match peek_expecting_spec(q1, "("@, TokenKind::ParenthesisOpen) {
                Err(e) => (Err(e), q1),
                Ok(_) => match parse_columns_spec(q1) {
                    (Err(e), rest) => (Err(e), rest),
                    (Ok(columns), q2) => match parse_insert_values_spec(q2) {
                        (Err(e), rest) => (Err(e), rest),
                        (Ok(inserts), rest) => match validate_inserts_spec(columns.len(), inserts) {
                            Err(e) => (Err(e), rest),
                            Ok(_) => (
                                Ok(
                                    QueryView {
                                        columns,
                                        inserts,
                                        ..QueryView::plain(Operation::Insert, table)
                                    },
                                ),
                                rest,
                            ),
                        },
                    },
                },
            },
        },
    }
}

fn allowed_keywords() -> (words: Vec<&'static str>)
    ensures
        texts_of(words@) == insert_keywords(),
{
    let words = vec!["VALUES"];
    words
}

/// The builder of insertions.
pub struct InsertBuilder {
    tokens: VecDeque<Token>,
}

impl InsertBuilder {
    /// A builder on the tokens behind `INSERT INTO`.
    pub fn new(tokens: VecDeque<Token>) -> (b: InsertBuilder)
        ensures
            b.remaining() == tokens.deep_view(),
    {
        InsertBuilder { tokens }
    }

    /// Reads `VALUES` and the rows behind it, up to the end of the tokens.
    pub fn parse_insert_values(&mut self) -> (r: Result<Vec<Vec<Token>>, Errored>)
        ensures
            parsed(r, final(self).remaining(), parse_insert_values_spec(old(self).remaining())),
            r is Ok ==> final(self).remaining().len() == 0,
            is_rest_of(final(self).remaining(), old(self).remaining()),
    {
        self.pop_expecting("VALUES", TokenKind::Keyword)?;
        self.peek_expecting("(", TokenKind::ParenthesisOpen)?;
        let mut inserts: Vec<Vec<Token>> = Vec::new();
        let mut values: Vec<Token> = Vec::new();
        assert(inserts.deep_view() =~= Seq::empty());
        assert(values.deep_view() =~= Seq::empty());
        while self.tokens.len() > 0
            invariant
                is_rest_of(self.remaining(), old(self).remaining()),
                parse_insert_values_spec(old(self).remaining()) == parse_insert_values_from(
                    inserts.deep_view(),
                    values.deep_view(),
                    self.tokens.deep_view(),
                ),
            decreases self.tokens@.len(),
        {
            let ghost closed = inserts.deep_view();
            let ghost open = values.deep_view();
            let kind = self.tokens[0].kind;
            match kind {
                TokenKind::String | TokenKind::Number => {
                    let token = take_front(&mut self.tokens);
                    values.push(token);
                    assert(values.deep_view() =~= open.push(token@));
                },
                TokenKind::ParenthesisOpen => {
                    let _ = take_front(&mut self.tokens);
                },
                TokenKind::ParenthesisClose => {
                    let _ = take_front(&mut self.tokens);
                    inserts.push(values);
                    assert(inserts.deep_view() =~= closed.push(open));
                    values = Vec::new();
                    assert(values.deep_view() =~= Seq::empty());
                },
                _ => {
                    unexpected_token_in_stage("VALUES", &self.tokens[0])?;
                },
            }
        }
        Ok(inserts)
    }

    /// Checks that every row of `query` holds one literal for each column.
    pub fn validate_inserts(&self, query: &Query) -> (r: Result<(), Errored>)
        ensures
            agrees(r, validate_inserts_spec(query@.columns.len(), query@.inserts)),
    {
        let columns = query.columns.len();
        let ghost rows = query@.inserts;
        let mut i: usize = 0;
        assert(rows.skip(0) =~= rows);
        while i < query.inserts.len()
            invariant
                i <= query.inserts.len(),
                rows == query@.inserts,
                columns == query@.columns.len(),
                first_wrong_row(columns as nat, rows) == first_wrong_row(
                    columns as nat,
                    rows.skip(i as int),
                ),
            decreases query.inserts.len() - i,
        {
            let insert = &query.inserts[i];
            if insert.len() != columns {
                let values = values_of(insert);
                let mut message = String::from_str("expected ");
                push_index(&mut message, columns);
                message.append(" columns but insert has:\n");
                push_quoted_list(&mut message, &values);
                return Err(Errored::Syntax(message));
            }
            assert(rows.skip(i as int).skip(1) =~= rows.skip(i + 1));
            i += 1;
        }
        Ok(())
    }
}

impl Builder for InsertBuilder {
    closed spec fn remaining(&self) -> Seq<TokenView> {
        self.tokens.deep_view()
    }

    open spec fn operation() -> Operation {
        Operation::Insert
    }

    open spec fn allowed_keywords() -> Seq<Seq<char>> {
        insert_keywords()
    }

    open spec fn build_spec(q: Seq<TokenView>) -> Reading<QueryView> {
        insert_spec(q)
    }

    fn build(&mut self) -> (r: Result<Query, Errored>) {
        let mut query = Query::default();
        self.validate_keywords()?;
        query.operation = Operation::Insert;
        query.table = self.parse_table(Operation::Insert)?;
        self.peek_expecting("(", TokenKind::ParenthesisOpen)?;
        query.columns = self.parse_columns()?;
        query.inserts = self.parse_insert_values()?;
        self.expect_none()?;
        self.validate_inserts(&query)?;
        Ok(query)
    }

    fn tokens(&mut self) -> (r: &mut VecDeque<Token>) {
        &mut self.tokens
    }

    fn validate_keywords(&self) -> (r: Result<(), Errored>) {
        let allowed = allowed_keywords();
        validate_keywords(&allowed, &self.tokens, Operation::Insert)
    }
}

/// No row is the first wrong one exactly when every row holds one
/// literal for each column; the first wrong one does not.
pub proof fn lemma_first_wrong_row(columns: nat, inserts: Seq<Seq<TokenView>>)
    ensures
        first_wrong_row(columns, inserts) is None <==> forall|i: int|
            0 <= i < inserts.len() ==> (#[trigger] inserts[i]).len() == columns,
        first_wrong_row(columns, inserts) matches Some(row) ==> row.len() != columns,
    decreases inserts.len(),
{
    if inserts.len() > 0 {
        lemma_first_wrong_row(columns, inserts.skip(1));
        if inserts[0].len() == columns {
            if first_wrong_row(columns, inserts.skip(1)) is None {
                assert forall|i: int| 0 <= i < inserts.len() implies (#[trigger] inserts[i]).len()
                    == columns by {
                    if i > 0 {
                        assert(inserts.skip(1)[i - 1] == inserts[i]);
                    }
                }
            } else {
                let i = choose|i: int|
                    0 <= i < inserts.skip(1).len() && (#[trigger] inserts.skip(1)[i]).len()
                        != columns;
            }
        }
    }
}

/// An insertion with a row of fewer or more literals than there are
/// columns is rejected, with a syntax error whose message holds the word
/// "columns" and the number of the columns.
pub proof fn lemma_wrong_arity_is_rejected(columns: nat, inserts: Seq<Seq<TokenView>>)
    requires
        exists|i: int| 0 <= i < inserts.len() && (#[trigger] inserts[i]).len() != columns,
    ensures
        validate_inserts_spec(columns, inserts) matches Err(ErrorView::Syntax(message))
            && occurs_in("columns"@, message) && occurs_in(decimal(columns), message),
{
    lemma_first_wrong_row(columns, inserts);
    let row = first_wrong_row(columns, inserts)->0;
    let message = wrong_arity_message(columns, row);
    let head = "expected "@ + decimal(columns);
    let middle = " columns but insert has:\n"@;
    reveal_strlit(" columns but insert has:\n");
    reveal_strlit("columns");
    assert(middle.subrange(1, 8) =~= "columns"@);
    let at = head.len() as int + 1;
    assert(message.subrange(at, at + 7) =~= middle.subrange(1, 8));
    let from = "expected "@.len() as int;
    assert(message.subrange(from, from + decimal(columns).len()) =~= decimal(columns));
}

/// In a query that was built from an insertion every row holds one
/// literal for each column.
pub proof fn lemma_insert_rows_fit(q: Seq<TokenView>)
    ensures
        insert_spec(q).0 matches Ok(query) ==> forall|i: int|
            0 <= i < query.inserts.len() ==> (#[trigger] query.inserts[i]).len()
                == query.columns.len(),
{
    if insert_spec(q).0 is Ok {
        let query = insert_spec(q).0->Ok_0;
        lemma_first_wrong_row(query.columns.len(), query.inserts);
    }
}

} // verus!
