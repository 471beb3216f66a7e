//! The executor: what a query makes of the lines of its table.
//!
//! A table is given as its lines, without the line ends: the first is the
//! header, the others are records. Nothing is read or written here; the
//! caller carries out the [`Outcome`].
use crate::query::executor::delete::delete_lines;
use crate::query::executor::insert::insert_lines;
use crate::query::executor::select::select_lines;
use crate::query::executor::update::update_lines;
use crate::query::structs::expression::{
    fails_first_at_unknown_column, lemma_unknown_column_fails, lemma_unknown_column_is_reported,
    names_unknown_column, within_header, ExpressionView,
};
use crate::query::structs::operation::Operation;
use crate::query::structs::query::{Query, QueryView};
use crate::query::structs::row::{
    assigned, lemma_assigned_columns, matches_spec, wrong_length_message, Row,
};
use crate::utils::errors::{agrees, ErrorView, Errored};
use crate::utils::files::{split_csv, split_csv_spec};
use vstd::prelude::*;
use vstd::string::*;

pub mod delete;
pub mod insert;
pub mod select;
pub mod update;

verus! {

/// What a statement asks the caller to do with its table.
#[derive(Debug, PartialEq)]
pub enum Outcome {
    /// A selection: the lines to show, the header first.
    Printed(Vec<String>),
    /// An update or a deletion: the lines that replace the table's.
    Replaced(Vec<String>),
    /// An insertion: the lines to add at the end of the table.
    Appended(Vec<String>),
}

/// An [`Outcome`] over sequences.
pub enum OutcomeView {
    Printed(Seq<Seq<char>>),
    Replaced(Seq<Seq<char>>),
    Appended(Seq<Seq<char>>),
}

impl DeepView for Outcome {
    type V = OutcomeView;

    open spec fn deep_view(&self) -> OutcomeView {
        match self {
            Outcome::Printed(lines) => OutcomeView::Printed(lines.deep_view()),
            Outcome::Replaced(lines) => OutcomeView::Replaced(lines.deep_view()),
            Outcome::Appended(lines) => OutcomeView::Appended(lines.deep_view()),
        }
    }
}

impl View for Outcome {
    type V = OutcomeView;

    open spec fn view(&self) -> OutcomeView {
        self.deep_view()
    }
}

/// The columns of a table: the fields of its first line, or of the empty
/// line where it has none.
pub open spec fn header_of(table: Seq<Seq<char>>) -> Seq<Seq<char>> {
    if table.len() > 0 {
        split_csv_spec(table[0])
    } else {
        split_csv_spec(Seq::empty())
    }
}

/// The header line of a table as it is written: the first line, where
/// the table has one.
pub open spec fn heading_of(table: Seq<Seq<char>>) -> Seq<Seq<char>> {
    if table.len() > 0 {
        seq![table[0]]
    } else {
        Seq::empty()
    }
}

/// The records of a table: its lines behind the first.
pub open spec fn records_of(table: Seq<Seq<char>>) -> Seq<Seq<char>> {
    if table.len() > 0 {
        table.skip(1)
    } else {
        table
    }
}

/// The values of the record on `line`, by column. Fails where the line
/// does not have one field for each column.
pub open spec fn read_record(header: Seq<Seq<char>>, line: Seq<char>) -> Result<
    Map<Seq<char>, Seq<char>>,
    ErrorView,
> {
    let fields = split_csv_spec(line);
    if fields.len() != header.len() {
        Err(ErrorView::Table(wrong_length_message(fields.len(), header.len())))
    } else {
        Ok(assigned(Map::empty(), header, fields))
    }
}

/// The values of the record on `line` and whether it meets `conditions`.
pub open spec fn check_record(
    conditions: ExpressionView,
    header: Seq<Seq<char>>,
    line: Seq<char>,
) -> Result<(Map<Seq<char>, Seq<char>>, bool), ErrorView> {
    match read_record(header, line) {
        Err(e) => Err(e),
        Ok(values) => match matches_spec(conditions, values) {
            Err(e) => Err(e),
            Ok(matches) => Ok((values, matches)),
        },
    }
}

/// The message for a query without a known operation.
pub open spec fn unknown_execution_message() -> Seq<char> {
    "unknown operation trying to be executed."@
}

/// What `query` makes of `table`: the lines to show for a selection, the
/// new lines of the table for an update or a deletion, the lines to add
/// for an insertion.
pub open spec fn run_spec(query: QueryView, table: Seq<Seq<char>>) -> Result<
    OutcomeView,
    ErrorView,
> {
    match query.operation {
        Operation::Select => match select_lines(query, table) {
            Ok(lines) => Ok(OutcomeView::Printed(lines)),
            Err(e) => Err(e),
        },
        Operation::Update => match update_lines(query, table) {
            Ok(lines) => Ok(OutcomeView::Replaced(lines)),
            Err(e) => Err(e),
        },
        Operation::Delete => match delete_lines(query, table) {
            Ok(lines) => Ok(OutcomeView::Replaced(lines)),
            Err(e) => Err(e),
        },
        Operation::Insert => match insert_lines(query, table) {
            Ok(lines) => Ok(OutcomeView::Appended(lines)),
            Err(e) => Err(e),
        },
        Operation::Unknown => Err(ErrorView::Syntax(unknown_execution_message())),
    }
}

/// Runs a query against the lines of its table.
pub struct Executor {
    query: Query,
}

impl Executor {
    /// The query that is run.
    pub closed spec fn query(&self) -> QueryView {
        self.query@
    }

    /// An executor of `query`.
    pub fn new(query: Query) -> (executor: Executor)
        ensures
            executor.query() == query@,
    {
        Executor { query }
    }

    /// Runs `query` against the lines of its table. Fails with a syntax
    /// error where the query has no known operation, else as the operation
    /// does.
    pub fn run(table: &Vec<String>, query: Query) -> (r: Result<Outcome, Errored>)
        ensures
            agrees(r, run_spec(query@, table.deep_view())),
    {
        let executor = Executor::new(query);
        match executor.query.operation {
            Operation::Select => Ok(Outcome::Printed(executor.run_select(table)?)),
            Operation::Update => Ok(Outcome::Replaced(executor.run_update(table)?)),
            Operation::Delete => Ok(Outcome::Replaced(executor.run_delete(table)?)),
            Operation::Insert => Ok(Outcome::Appended(executor.run_insert(table)?)),
            _ => Err(
                Errored::Syntax(String::from_str("unknown operation trying to be executed.")),
            ),
        }
    }

    /// The header line of a table as it is written.
    pub fn copy_heading(table: &Vec<String>) -> (heading: Vec<String>)
        ensures
            heading.deep_view() == heading_of(table.deep_view()),
    {
        let mut heading: Vec<String> = Vec::new();
        if table.len() > 0 {
            heading.push(table[0].clone());
            assert(heading.deep_view() =~= seq![table[0]@]);
        } else {
            assert(heading.deep_view() =~= Seq::<Seq<char>>::empty());
        }
        heading
    }

    /// The header of a table: the fields of its first line.
    pub fn read_header(table: &Vec<String>) -> (header: Vec<String>)
        ensures
            header.deep_view() == header_of(table.deep_view()),
    {
        if table.len() > 0 {
            split_csv(table[0].as_str())
        } else {
            proof {
                reveal_strlit("");
            }
            split_csv("")
        }
    }

    /// Reads the record on `line` into a row of the table with the given
    /// header, and tests it against the condition of the query.
    pub fn read_row<'a>(&self, header: &'a Vec<String>, line: &str) -> (r: Result<
        (Row<'a>, bool),
        Errored,
    >)
        ensures
            match check_record(self.query().conditions, header.deep_view(), line@) {
                Ok((values, matches)) => {
                    &&& r is Ok
                    &&& r->Ok_0.0.header == header
                    &&& r->Ok_0.0@.values == values
                    &&& r->Ok_0.1 == matches
                },
                Err(e) => r is Err && r->Err_0@ == e,
            },
    {
        let fields = split_csv(line);
        let mut row = Row::new(header);
        row.read_new_row(fields)?;
        let matches = row.matches_condition(&self.query)?;
        Ok((row, matches))
    }
}

/// A record that was read has values for columns of the header only.
pub proof fn lemma_record_within_header(header: Seq<Seq<char>>, line: Seq<char>)
    ensures
        read_record(header, line) matches Ok(values) ==> within_header(values, header),
{
    if read_record(header, line) is Ok {
        let values = read_record(header, line)->Ok_0;
        assert forall|name: Seq<char>| values.contains_key(name) implies header.contains(name) by {
            lemma_assigned_columns(Map::empty(), header, split_csv_spec(line), name);
        }
    }
}

/// A condition that names a column that the table does not have fails for
/// every record that can be read; it fails with a column error where that
/// column is the first part of the condition to fail.
pub proof fn lemma_unknown_column_fails_record(
    conditions: ExpressionView,
    header: Seq<Seq<char>>,
    line: Seq<char>,
)
    requires
        split_csv_spec(line).len() == header.len(),
        names_unknown_column(conditions, header),
    ensures
        check_record(conditions, header, line) is Err,
        fails_first_at_unknown_column(conditions, header, read_record(header, line)->Ok_0)
            ==> check_record(conditions, header, line)->Err_0 is Column,
{
    let values = read_record(header, line)->Ok_0;
    lemma_record_within_header(header, line);
    lemma_unknown_column_fails(conditions, header, values);
    if fails_first_at_unknown_column(conditions, header, values) {
        lemma_unknown_column_is_reported(conditions, header, values);
    }
}

} // verus!
