use crate::query::executor::{
    check_record, header_of, heading_of, lemma_unknown_column_fails_record, read_record, records_of,
    Executor,
};
use crate::query::structs::expression::{
    fails_first_at_unknown_column, names_unknown_column, ExpressionView,
};
use crate::query::structs::query::QueryView;
use crate::utils::errors::{agrees, continued, lemma_continued_twice, ErrorView, Errored};
use crate::utils::files::split_csv_spec;
use vstd::prelude::*;
use vstd::string::*;

verus! {

/// The lines of the records that do not meet `conditions`, as they are and
/// in their order; or the first error among the records.
pub open spec fn kept_lines(
    conditions: ExpressionView,
    header: Seq<Seq<char>>,
    lines: Seq<Seq<char>>,
) -> Result<Seq<Seq<char>>, ErrorView>
    decreases lines.len(),
{
    if lines.len() == 0 {
        Ok(Seq::empty())
    } else {
        match check_record(conditions, header, lines[0]) {
            Err(e) => Err(e),
            Ok((_, matches)) => continued(
                if matches {
                    Seq::empty()
                } else {
                    seq![lines[0]]
                },
                kept_lines(conditions, header, lines.skip(1)),
            ),
        }
    }
}

/// The table after the deletion `query`: the header line as it is
/// written, then the records that do not meet the condition.
pub open spec fn delete_lines(query: QueryView, table: Seq<Seq<char>>) -> Result<
    Seq<Seq<char>>,
    ErrorView,
> {
    continued(
        heading_of(table),
        kept_lines(query.conditions, header_of(table), records_of(table)),
    )
}

impl Executor {
    /// Runs the deletion against the lines of the table and returns the
    /// lines of the table without the records that meet the condition. The
    /// header line and the other records stay as they are written. Fails, with nothing to write,
    /// at the first record that cannot be read or tested.
    pub fn run_delete(&self, table: &Vec<String>) -> (r: Result<Vec<String>, Errored>)
        ensures
            agrees(r, delete_lines(self.query(), table.deep_view())),
    {
        let header = Executor::read_header(table);
        let mut out = Executor::copy_heading(table);
        let ghost head = heading_of(table.deep_view());
        let ghost records = records_of(table.deep_view());
        let ghost conditions = self.query().conditions;
        let ghost mut kept: Seq<Seq<char>> = Seq::empty();
        assert(records.skip(0) =~= records);
        let mut i: usize = 1;
        while i < table.len()
            invariant
                1 <= i,
                table.len() > 0 ==> i <= table.len(),
                header.deep_view() == header_of(table.deep_view()),
                records == records_of(table.deep_view()),
                conditions == self.query().conditions,
                out.deep_view() == head + kept,
                kept_lines(conditions, header.deep_view(), records) == continued(
                    kept,
                    kept_lines(conditions, header.deep_view(), records.skip(i - 1)),
                ),
            decreases table.len() - i,
        {
            let ghost rest = records.skip(i - 1);
            let ghost done = out.deep_view();
            assert(rest.skip(1) =~= records.skip(i as int));
            let (_, matches) = self.read_row(&header, table[i].as_str())?;
            let ghost step = if matches {
                Seq::<Seq<char>>::empty()
            } else {
                seq![rest[0]]
            };
            if !matches {
                out.push(table[i].clone());
                assert(out.deep_view() =~= done.push(rest[0]));
            }
            proof {
                lemma_continued_twice(
                    kept,
                    step,
                    kept_lines(conditions, header.deep_view(), rest.skip(1)),
                );
                kept = kept + step;
            }
            i += 1;
        }
        Ok(out)
    }
}

/// A deletion whose condition names a column that the table does not
/// have fails where the table has a record that can be read, so that
/// nothing is written; it fails with a column error where that column is
/// the first part of the condition to fail.
pub proof fn lemma_delete_rejects_unknown_column(query: QueryView, table: Seq<Seq<char>>)
    requires
        table.len() >= 2,
        split_csv_spec(table[1]).len() == header_of(table).len(),
        names_unknown_column(query.conditions, header_of(table)),
    ensures
        delete_lines(query, table) is Err,
        fails_first_at_unknown_column(
            query.conditions,
            header_of(table),
            read_record(header_of(table), table[1])->Ok_0,
        ) ==> delete_lines(query, table)->Err_0 is Column,
{
    assert(records_of(table)[0] == table[1]);
    lemma_unknown_column_fails_record(query.conditions, header_of(table), table[1]);
}

} // verus!
