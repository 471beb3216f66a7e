use crate::query::builder::{get_kind, kind_of, Builder};
use crate::query::builder::delete::{delete_spec, DeleteBuilder};
use crate::query::builder::insert::{insert_spec, InsertBuilder};
use crate::query::builder::select::{select_spec, SelectBuilder};
use crate::query::builder::update::{update_spec, UpdateBuilder};
use crate::query::structs::expression::{ExpressionNode, ExpressionView};
use crate::query::structs::operation::Operation;
use crate::query::structs::ordering::{OrderBy, OrderByView};
use crate::query::structs::token::{Token, TokenView};
use crate::utils::errors::{agrees, ErrorView, Errored};
use std::collections::VecDeque;
use vstd::prelude::*;
use vstd::string::*;

verus! {

/// A parsed statement. Which fields are filled depends on the operation:
/// the columns and the sort keys for a selection, the columns and the rows
/// of literals for an insertion, the assignments for an update; the
/// condition for all but the insertion.
#[derive(Debug, PartialEq)]
pub struct Query {
    /// What the statement does.
    pub operation: Operation,
    /// The name of the table.
    pub table: String,
    /// The columns to show or to fill; none stands for all.
    pub columns: Vec<Token>,
    /// The rows to insert, each a list of literals.
    pub inserts: Vec<Vec<Token>>,
    /// The assignments of an update.
    pub updates: Vec<ExpressionNode>,
    /// The condition that a record has to meet; empty where every record does.
    pub conditions: ExpressionNode,
    /// The sort keys, the most significant first.
    pub ordering: Vec<OrderBy>,
}

/// A [`Query`] over sequences.
pub struct QueryView {
    pub operation: Operation,
    pub table: Seq<char>,
    pub columns: Seq<TokenView>,
    pub inserts: Seq<Seq<TokenView>>,
    pub updates: Seq<ExpressionView>,
    pub conditions: ExpressionView,
    pub ordering: Seq<OrderByView>,
}

impl QueryView {
    /// The query of the given operation on `table`, with nothing else set.
    pub open spec fn plain(operation: Operation, table: Seq<char>) -> QueryView {
        QueryView {
            operation,
            table,
            columns: Seq::empty(),
            inserts: Seq::empty(),
            updates: Seq::empty(),
            conditions: ExpressionView::Empty,
            ordering: Seq::empty(),
        }
    }
}

impl DeepView for Query {
    type V = QueryView;

    open spec fn deep_view(&self) -> QueryView {
        QueryView {
            operation: self.operation,
            table: self.table@,
            columns: self.columns.deep_view(),
            inserts: self.inserts.deep_view(),
            updates: self.updates.deep_view(),
            conditions: self.conditions@,
            ordering: self.ordering.deep_view(),
        }
    }
}

impl View for Query {
    type V = QueryView;

    open spec fn view(&self) -> QueryView {
        self.deep_view()
    }
}

impl Default for Query {
    /// The query of unknown operation with nothing set.
    fn default() -> (q: Query)
        ensures
            q@ == QueryView::plain(Operation::Unknown, Seq::empty()),
    {
        let q = Query {
            operation: Operation::Unknown,
            table: String::new(),
            columns: Vec::new(),
            inserts: Vec::new(),
            updates: Vec::new(),
            conditions: ExpressionNode::Empty,
            ordering: Vec::new(),
        };
        assert(q.columns.deep_view() =~= Seq::empty());
        assert(q.inserts.deep_view() =~= Seq::empty());
        assert(q.updates.deep_view() =~= Seq::empty());
        assert(q.ordering.deep_view() =~= Seq::empty());
        q
    }
}

/// The message for a query that starts with no operation.
pub open spec fn unknown_operation_message() -> Seq<char> {
    "la consulta no comienza con una operación válida."@
}

/// The query that `tokens` write: the first token names the operation, the
/// rest is read by the builder of that operation.
pub open spec fn query_spec(tokens: Seq<TokenView>) -> Result<QueryView, ErrorView> {
    let first = if tokens.len() > 0 {
        Some(tokens[0])
    } else {
        None
    };
    let rest = if tokens.len() > 0 {
        tokens.skip(1)
    } else {
        tokens
    };
    match kind_of(first) {
        Operation::Unknown => Err(ErrorView::Syntax(unknown_operation_message())),
        Operation::Select => select_spec(rest).0,
        Operation::Update => update_spec(rest).0,
        Operation::Delete => delete_spec(rest).0,
        Operation::Insert => insert_spec(rest).0,
    }
}

/// The tokens of `tokens` as a queue, in the same order.
fn to_queue(tokens: Vec<Token>) -> (queue: VecDeque<Token>)
    ensures
        queue.deep_view() == tokens.deep_view(),
{
    let mut tokens = tokens;
    let ghost all = tokens.deep_view();
    let mut queue: VecDeque<Token> = VecDeque::new();
    while tokens.len() > 0
        invariant
            all == tokens.deep_view() + queue.deep_view(),
        decreases tokens.len(),
    {
        let t = tokens.pop().unwrap();
        queue.push_front(t);
    }
    queue
}

impl Query {
    /// Builds the query that `tokens` write. Fails with a syntax error
    /// where the first token names no operation, and with the builder's error
    /// where the rest does not follow the grammar of the operation.
    pub fn from(tokens: Vec<Token>) -> (r: Result<Query, Errored>)
        ensures
            agrees(r, query_spec(tokens.deep_view())),
    {
        let mut tokens = to_queue(tokens);
        let ghost all = tokens.deep_view();
        let first = tokens.pop_front();
        assert(first is Some ==> tokens.deep_view() =~= all.skip(1));
        let kind = get_kind(first);
        match kind {
            Operation::Unknown => Err(
                Errored::Syntax(
                    String::from_str("la consulta no comienza con una operación válida."),
                ),
            ),
            Operation::Select => SelectBuilder::new(tokens).build(),
            Operation::Update => UpdateBuilder::new(tokens).build(),
            Operation::Delete => DeleteBuilder::new(tokens).build(),
            Operation::Insert => InsertBuilder::new(tokens).build(),
        }
    }
}

} // verus!
