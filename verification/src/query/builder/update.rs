use crate::query::builder::{
    parse_condition, parse_condition_spec, parse_table_spec, parsed, pop_expecting_spec,
    validate_keywords, validate_keywords_spec, Builder, Reading,
};
use crate::query::builder::expression::{parse_or_spec, ExpressionBuilder};
use crate::query::structs::expression::{all_assignments, leaf_pair, ExpressionNode, ExpressionView};
use crate::query::structs::operation::Operation;
use crate::query::structs::query::{Query, QueryView};
use crate::query::structs::token::{
    is_rest_of, lemma_rest_of_itself, lemma_rest_of_rest, Token, TokenKind, TokenView,
};
use crate::utils::errors::{ErrorView, Errored};
use crate::utils::text::{same_text, texts_of};
use std::collections::VecDeque;
use vstd::prelude::*;
use vstd::string::*;

verus! {

broadcast use {lemma_rest_of_rest, lemma_rest_of_itself};

/// The keywords that may occur behind `UPDATE`.
pub open spec fn update_keywords() -> Seq<Seq<char>> {
    seq!["SET"@, "WHERE"@, "AND"@, "OR"@]
}

/// The message for an expression behind `SET` that is no assignment.
pub open spec fn bad_assignment_message(reason: Seq<char>) -> Seq<char> {
    "failed to parse update statement: "@ + reason
}

/// The message for a `SET` without an assignment.
pub open spec fn missing_assignment_message() -> Seq<char> {
    "expected at least one assignment after SET."@
}

/// Whether the assignments end in front of `t`: at a keyword, or at a
/// token with the text `WHERE`.
pub open spec fn ends_assignments(t: TokenView) -> bool {
    t.kind == TokenKind::Keyword || t.value == "WHERE"@
}

/// The assignments, continued behind the assignments `updates` that were
/// read already, up to a keyword or the end of the tokens. Each is an
/// expression that has to be a column, `=` and a value; there has to be at
/// least one. The test on the lengths keeps the recursion well-founded and
/// never fails: an expression takes at least one token.
pub open spec fn parse_updates_from(updates: Seq<ExpressionView>, q: Seq<TokenView>) -> Reading<
    Seq<ExpressionView>,
>
    decreases q.len(),
{
    if q.len() > 0 && !ends_assignments(q[0]) {
        match parse_or_spec(q) {
            (Err(e), rest) => (Err(e), rest),
            (Ok(update), rest) => match leaf_pair(update) {
                Err(e) => (Err(ErrorView::Syntax(bad_assignment_message(e.message()))), rest),
                Ok(_) => if rest.len() < q.len() {
                    parse_updates_from(updates.push(update), rest)
                } else {
                    (Ok(updates.push(update)), rest)
                },
            },
        }
    } else if updates.len() == 0 {
        (Err(ErrorView::Syntax(missing_assignment_message())), q)
    } else {
        (Ok(updates), q)
    }
}

/// `SET` and the assignments behind it.
pub open spec fn parse_updates_spec(q: Seq<TokenView>) -> Reading<Seq<ExpressionView>> {
    match pop_expecting_spec(q, "SET"@, TokenKind::Keyword) {
        (Err(e), rest) => (Err(e), rest),
        (Ok(_), rest) => parse_updates_from(Seq::empty(), rest),
    }
}

/// The update that the tokens behind `UPDATE` write: the table, `SET` and
/// the assignments, then the condition where there is one.
pub open spec fn update_spec(q: Seq<TokenView>) -> Reading<QueryView> {
    match validate_keywords_spec(update_keywords(), q, Operation::Update) {
        Err(e) => (Err(e), q),
        Ok(_) => match parse_table_spec(q, Operation::Update) {
            (Err(e), rest) => (Err(e), rest),
            (Ok(table), q1) => match parse_updates_spec(q1) {
                (Err(e), rest) => (Err(e), rest),
                (Ok(updates), q2) => match parse_condition_spec(q2) {
                    (Err(e), rest) => (Err(e), rest),
                    (Ok(conditions), rest) => (
                        Ok(
                            QueryView {
                                updates,
                                conditions,
                                ..QueryView::plain(Operation::Update, table)
                            },
                        ),
                        rest,
                    ),
                },
            },
        },
    }
}

fn allowed_keywords() -> (words: Vec<&'static str>)
    ensures
        texts_of(words@) == update_keywords(),
{
    let words = vec!["SET", "WHERE", "AND", "OR"];
    words
}

/// The builder of updates.
pub struct UpdateBuilder {
    tokens: VecDeque<Token>,
}

impl UpdateBuilder {
    /// A builder on the tokens behind `UPDATE`.
    pub fn new(tokens: VecDeque<Token>) -> (b: UpdateBuilder)
        ensures
            b.remaining() == tokens.deep_view(),
    {
        UpdateBuilder { tokens }
    }

    /// Reads `SET` and the assignments behind it.
    pub fn parse_updates(&mut self) -> (r: Result<Vec<ExpressionNode>, Errored>)
        ensures
            is_rest_of(final(self).remaining(), old(self).remaining()),
            parsed(r, final(self).remaining(), parse_updates_spec(old(self).remaining())),
    {
        self.pop_expecting("SET", TokenKind::Keyword)?;
        let mut updates: Vec<ExpressionNode> = Vec::new();
        assert(updates.deep_view() =~= Seq::empty());
        while self.tokens.len() > 0 && !(self.tokens[0].kind == TokenKind::Keyword || same_text(
            self.tokens[0].value.as_str(),
            "WHERE",
        ))
            invariant
                is_rest_of(self.remaining(), old(self).remaining()),
                parse_updates_spec(old(self).remaining()) == parse_updates_from(
                    updates.deep_view(),
                    self.tokens.deep_view(),
                ),
            decreases self.tokens@.len(),
        {
            let ghost read = updates.deep_view();
            let update = ExpressionBuilder::parse_expressions(&mut self.tokens)?;
            match update.as_leaf_tuple() {
                Ok(_) => {},
                Err(e) => {
                    let mut message = String::from_str("failed to parse update statement: ");
                    message.append(e.message().as_str());
                    return Err(Errored::Syntax(message));
                },
            }
            updates.push(update);
            assert(updates.deep_view() =~= read.push(update@));
        }
        if updates.len() == 0 {
            return Err(
                Errored::Syntax(String::from_str("expected at least one assignment after SET.")),
            );
        }
        Ok(updates)
    }
}

impl Builder for UpdateBuilder {
    closed spec fn remaining(&self) -> Seq<TokenView> {
        self.tokens.deep_view()
    }

    open spec fn operation() -> Operation {
        Operation::Update
    }

    open spec fn allowed_keywords() -> Seq<Seq<char>> {
        update_keywords()
    }

    open spec fn build_spec(q: Seq<TokenView>) -> Reading<QueryView> {
        update_spec(q)
    }

    fn build(&mut self) -> (r: Result<Query, Errored>) {
        let mut query = Query::default();
        self.validate_keywords()?;
        query.operation = Operation::Update;
        query.table = self.parse_table(Operation::Update)?;
        query.updates = self.parse_updates()?;
        query.conditions = parse_condition(&mut self.tokens)?;
        Ok(query)
    }

    fn tokens(&mut self) -> (r: &mut VecDeque<Token>) {
        &mut self.tokens
    }

    fn validate_keywords(&self) -> (r: Result<(), Errored>) {
        let allowed = allowed_keywords();
        validate_keywords(&allowed, &self.tokens, Operation::Update)
    }
}

/// Assignments that were read behind assignments are all assignments.
proof fn lemma_updates_are_assignments(updates: Seq<ExpressionView>, q: Seq<TokenView>)
    requires
        all_assignments(updates),
    ensures
        parse_updates_from(updates, q).0 matches Ok(read) ==> all_assignments(read),
    decreases q.len(),
{
    if q.len() > 0 && !ends_assignments(q[0]) {
        let (update, rest) = parse_or_spec(q);
        if update is Ok && leaf_pair(update->Ok_0) is Ok {
            let more = updates.push(update->Ok_0);
            assert forall|k: int| 0 <= k < more.len() implies leaf_pair(#[trigger] more[k]) is Ok by {
                if k < updates.len() {
                    assert(more[k] == updates[k]);
                }
            }
            if rest.len() < q.len() {
                lemma_updates_are_assignments(more, rest);
            }
        }
    }
}

/// In a query that was built from an update every update is an
/// assignment: `Equals` over two leaves.
pub proof fn lemma_update_assigns(q: Seq<TokenView>)
    ensures
        update_spec(q).0 matches Ok(query) ==> all_assignments(query.updates),
{
    if update_spec(q).0 is Ok {
        let q1 = parse_table_spec(q, Operation::Update).1;
        let q2 = pop_expecting_spec(q1, "SET"@, TokenKind::Keyword).1;
        lemma_updates_are_assignments(Seq::empty(), q2);
    }
}

} // verus!
