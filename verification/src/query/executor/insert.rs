use crate::query::executor::{header_of, Executor};
use crate::query::structs::query::QueryView;
use crate::query::structs::row::{assigned, blanks, csv_projection, set_each, Row};
use crate::query::structs::token::{token_values, values_of, TokenView};
use crate::utils::errors::{agrees, continued, lemma_continued_twice, ErrorView, Errored};
use vstd::prelude::*;
use vstd::string::*;

verus! {

/// The line of a new record: every column of the header empty, but for
/// the columns `columns`, which hold the literals `row` in their order.
pub open spec fn inserted_line(
    header: Seq<Seq<char>>,
    columns: Seq<TokenView>,
    row: Seq<TokenView>,
) -> Result<Seq<char>, ErrorView> {
    let (values, error) = set_each(
        header,
        assigned(Map::empty(), header, blanks(header.len())),
        token_values(columns),
        token_values(row),
    );
    match error {
        Some(e) => Err(e),
        None => Ok(csv_projection(values, header)),
    }
}

/// The lines of the new records, in their order; or the first error
/// among them.
pub open spec fn inserted_lines(
    header: Seq<Seq<char>>,
    columns: Seq<TokenView>,
    inserts: Seq<Seq<TokenView>>,
) -> Result<Seq<Seq<char>>, ErrorView>
    decreases inserts.len(),
{
    if inserts.len() == 0 {
        Ok(Seq::empty())
    } else {
        match inserted_line(header, columns, inserts[0]) {
            Err(e) => Err(e),
            Ok(line) => continued(seq![line], inserted_lines(header, columns, inserts.skip(1))),
        }
    }
}

/// The lines that the insertion `query` adds to the table.
pub open spec fn insert_lines(query: QueryView, table: Seq<Seq<char>>) -> Result<
    Seq<Seq<char>>,
    ErrorView,
> {
    inserted_lines(header_of(table), query.columns, query.inserts)
}

impl Executor {
    /// Runs the insertion against the lines of the table and returns the
    /// lines to add at its end, one for each row of literals. Fails, with
    /// nothing to add, at the first row that names a column that the
    /// table does not have.
    pub fn run_insert(&self, table: &Vec<String>) -> (r: Result<Vec<String>, Errored>)
        ensures
            agrees(r, insert_lines(self.query(), table.deep_view())),
    {
        let header = Executor::read_header(table);
        let mut out: Vec<String> = Vec::new();
        let ghost query = self.query();
        let ghost inserts = query.inserts;
        assert(inserts.skip(0) =~= inserts);
        let mut i: usize = 0;
        while i < self.query.inserts.len()
            invariant
                i <= self.query.inserts.len(),
                header.deep_view() == header_of(table.deep_view()),
                query == self.query(),
                inserts == query.inserts,
                inserted_lines(header.deep_view(), query.columns, inserts) == continued(
                    out.deep_view(),
                    inserted_lines(header.deep_view(), query.columns, inserts.skip(i as int)),
                ),
            decreases self.query.inserts.len() - i,
        {
            let ghost rest = inserts.skip(i as int);
            let ghost done = out.deep_view();
            assert(rest.skip(1) =~= inserts.skip(i + 1));
            let fields = values_of(&self.query.inserts[i]);
            let mut row = Row::new(&header);
            row.clear()?;
            row.insert_values(&self.query.columns, fields)?;
            let line = row.as_csv_row();
            out.push(line);
            proof {
                lemma_continued_twice(
                    done,
                    seq![line@],
                    inserted_lines(header.deep_view(), query.columns, rest.skip(1)),
                );
                assert(done + seq![line@] =~= out.deep_view());
            }
            i += 1;
        }
        Ok(out)
    }
}

} // verus!
