use crate::query::executor::{
    check_record, header_of, heading_of, lemma_unknown_column_fails_record, read_record, records_of,
    Executor,
};
use crate::query::structs::expression::{
    all_assignments, fails_first_at_unknown_column, leaf_pair, names_unknown_column, ExpressionView,
};
use crate::query::structs::query::QueryView;
use crate::query::structs::row::{apply_updates_spec, csv_projection};
use crate::utils::errors::{agrees, continued, lemma_continued_twice, ErrorView, Errored};
use crate::utils::files::split_csv_spec;
use vstd::prelude::*;
use vstd::string::*;

verus! {

/// The line of a record after the update `query`: written anew with the
/// assignments made where the record meets the condition, else as it is.
pub open spec fn updated_line(query: QueryView, header: Seq<Seq<char>>, line: Seq<char>) -> Result<
    Seq<char>,
    ErrorView,
> {
    match check_record(query.conditions, header, line) {
        Err(e) => Err(e),
        Ok((values, matches)) => if matches {
            match apply_updates_spec(header, values, query.updates).1 {
                Some(e) => Err(e),
                None => Ok(csv_projection(apply_updates_spec(header, values, query.updates).0, header)),
            }
        } else {
            Ok(line)
        },
    }
}

/// The lines of the records after the update, in their order; or the
/// first error among the records.
pub open spec fn updated_lines(query: QueryView, header: Seq<Seq<char>>, lines: Seq<Seq<char>>) -> Result<
    Seq<Seq<char>>,
    ErrorView,
>
    decreases lines.len(),
{
    if lines.len() == 0 {
        Ok(Seq::empty())
    } else {
        match updated_line(query, header, lines[0]) {
            Err(e) => Err(e),
            Ok(line) => continued(seq![line], updated_lines(query, header, lines.skip(1))),
        }
    }
}

/// The table after the update `query`: the header line as it is written,
/// then every record.
pub open spec fn update_lines(query: QueryView, table: Seq<Seq<char>>) -> Result<
    Seq<Seq<char>>,
    ErrorView,
> {
    continued(
        heading_of(table),
        updated_lines(query, header_of(table), records_of(table)),
    )
}

impl Executor {
    /// Runs the update against the lines of the table and returns the
    /// lines of the table with the assignments made in every record that
    /// meets the condition. The header line and the other records stay as
    /// they are written.
    /// Fails, with nothing to write, at the first record that cannot be
    /// read, tested or updated.
    pub fn run_update(&self, table: &Vec<String>) -> (r: Result<Vec<String>, Errored>)
        ensures
            agrees(r, update_lines(self.query(), table.deep_view())),
    {
        let header = Executor::read_header(table);
        let mut out = Executor::copy_heading(table);
        let ghost head = heading_of(table.deep_view());
        let ghost records = records_of(table.deep_view());
        let ghost query = self.query();
        let ghost mut written: Seq<Seq<char>> = Seq::empty();
        assert(records.skip(0) =~= records);
        let mut i: usize = 1;
        while i < table.len()
            invariant
                1 <= i,
                table.len() > 0 ==> i <= table.len(),
                header.deep_view() == header_of(table.deep_view()),
                records == records_of(table.deep_view()),
                query == self.query(),
                out.deep_view() == head + written,
                updated_lines(query, header.deep_view(), records) == continued(
                    written,
                    updated_lines(query, header.deep_view(), records.skip(i - 1)),
                ),
            decreases table.len() - i,
        {
            let ghost rest = records.skip(i - 1);
            let ghost done = out.deep_view();
            assert(rest.skip(1) =~= records.skip(i as int));
            let (mut row, matches) = self.read_row(&header, table[i].as_str())?;
            let line = if matches {
                row.apply_updates(&self.query.updates)?;
                row.as_csv_row()
            } else {
                table[i].clone()
            };
            out.push(line);
            proof {
                assert(out.deep_view() =~= done.push(line@));
                lemma_continued_twice(
                    written,
                    seq![line@],
                    updated_lines(query, header.deep_view(), rest.skip(1)),
                );
                written = written + seq![line@];
            }
            i += 1;
        }
        Ok(out)
    }
}

/// Whether one of the assignments sets a column that `header` does not
/// hold.
pub open spec fn sets_unknown_column(updates: Seq<ExpressionView>, header: Seq<Seq<char>>) -> bool {
    exists|k: int|
        0 <= k < updates.len() && leaf_pair(#[trigger] updates[k]) is Ok && !header.contains(
            leaf_pair(updates[k])->Ok_0.0.value,
        )
}

/// Assignments of which one sets a column that the table does not have
/// fail, with a column error.
pub proof fn lemma_unknown_target_is_reported(
    header: Seq<Seq<char>>,
    values: Map<Seq<char>, Seq<char>>,
    updates: Seq<ExpressionView>,
)
    requires
        all_assignments(updates),
        sets_unknown_column(updates, header),
    ensures
        apply_updates_spec(header, values, updates).1 matches Some(e) && e is Column,
    decreases updates.len(),
{
    let k = choose|k: int|
        0 <= k < updates.len() && leaf_pair(#[trigger] updates[k]) is Ok && !header.contains(
            leaf_pair(updates[k])->Ok_0.0.value,
        );
    assert(leaf_pair(updates[0]) is Ok);
    let (field, value) = leaf_pair(updates[0])->Ok_0;
    if header.contains(field.value) {
        let rest = updates.skip(1);
        assert(rest[k - 1] == updates[k]);
        assert forall|j: int| 0 <= j < rest.len() implies leaf_pair(#[trigger] rest[j]) is Ok by {
            assert(rest[j] == updates[j + 1]);
        }
        lemma_unknown_target_is_reported(header, values.insert(field.value, value.value), rest);
    }
}

/// An update whose condition names a column that the table does not have
/// fails where the table has a record that can be read, so that nothing
/// is written; it fails with a column error where that column is the
/// first part of the condition to fail.
pub proof fn lemma_update_rejects_unknown_column(query: QueryView, table: Seq<Seq<char>>)
    requires
        table.len() >= 2,
        split_csv_spec(table[1]).len() == header_of(table).len(),
        names_unknown_column(query.conditions, header_of(table)),
    ensures
        update_lines(query, table) is Err,
        fails_first_at_unknown_column(
            query.conditions,
            header_of(table),
            read_record(header_of(table), table[1])->Ok_0,
        ) ==> update_lines(query, table)->Err_0 is Column,
{
    assert(records_of(table)[0] == table[1]);
    lemma_unknown_column_fails_record(query.conditions, header_of(table), table[1]);
}

/// An update that sets a column that the table does not have fails with
/// a column error where the first record meets the condition, so that
/// nothing is written.
pub proof fn lemma_update_rejects_unknown_target(query: QueryView, table: Seq<Seq<char>>)
    requires
        table.len() >= 2,
        check_record(query.conditions, header_of(table), table[1]) matches Ok((_, matches))
            && matches,
        all_assignments(query.updates),
        sets_unknown_column(query.updates, header_of(table)),
    ensures
        update_lines(query, table) matches Err(e) && e is Column,
{
    assert(records_of(table)[0] == table[1]);
    let values = check_record(query.conditions, header_of(table), table[1])->Ok_0.0;
    lemma_unknown_target_is_reported(header_of(table), values, query.updates);
}

} // verus!
