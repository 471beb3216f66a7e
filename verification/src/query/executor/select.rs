use crate::query::executor::{check_record, header_of, records_of, Executor};
use crate::query::structs::comparator::{
    comparison_of, lemma_comparison_orders, lemma_comparison_reverses, reversed, same_type,
    Comparison, ExpressionComparator,
};
use crate::query::structs::expression::{typed_value, ExpressionNode, ExpressionView};
use crate::query::structs::ordering::{OrderByView, OrderKind};
use crate::query::structs::query::QueryView;
use crate::query::structs::row::{contains_text, projection_line_spec, Row, RowView};
use crate::query::structs::token::{token_values, values_of, TokenView};
use crate::utils::errors::{agrees, continued, lemma_continued_twice, ErrorView, Errored};
use crate::utils::files::{join, joined};
use vstd::prelude::*;
use vstd::string::*;

verus! {

/// The message for a column to show that the table does not have.
pub open spec fn missing_projection_message(name: Seq<char>) -> Seq<char> {
    "column "@ + name + " in projection does not exist in table."@
}

/// The message for a sort key on a column that the table does not have.
pub open spec fn missing_order_message(name: Seq<char>) -> Seq<char> {
    "order by failed, column "@ + name + " does not exist"@
}

/// The first of `names` that is no column of `header`.
pub open spec fn first_missing(names: Seq<Seq<char>>, header: Seq<Seq<char>>) -> Option<Seq<char>>
    decreases names.len(),
{
    if names.len() == 0 {
        None
    } else if !header.contains(names[0]) {
        Some(names[0])
    } else {
        first_missing(names.skip(1), header)
    }
}

/// The columns that the sort keys name.
pub open spec fn order_fields(ordering: Seq<OrderByView>) -> Seq<Seq<char>> {
    ordering.map_values(|key: OrderByView| key.field.value)
}

/// Succeeds where the table has every column that is to be shown.
pub open spec fn validate_projection_spec(columns: Seq<TokenView>, header: Seq<Seq<char>>) -> Result<
    (),
    ErrorView,
> {
    match first_missing(token_values(columns), header) {
        Some(name) => Err(ErrorView::Column(missing_projection_message(name))),
        None => Ok(()),
    }
}

/// Succeeds where the table has every column that a sort key names.
pub open spec fn validate_ordering_spec(ordering: Seq<OrderByView>, header: Seq<Seq<char>>) -> Result<
    (),
    ErrorView,
> {
    match first_missing(order_fields(ordering), header) {
        Some(name) => Err(ErrorView::Column(missing_order_message(name))),
        None => Ok(()),
    }
}

/// How the record `a` stands to the record `b` by one sort key: by the
/// typed values of the key's column, the other way round for a descending
/// key. Records that lack the column, or that hold values of two types in
/// it, count as equal by that key.
pub open spec fn key_comparison(
    key: OrderByView,
    a: Map<Seq<char>, Seq<char>>,
    b: Map<Seq<char>, Seq<char>>,
) -> Comparison {
    let name = key.field.value;
    if a.contains_key(name) && b.contains_key(name) {
        match key.kind {
            OrderKind::Asc => comparison_of(typed_value(a[name]), typed_value(b[name])),
            OrderKind::Desc => comparison_of(typed_value(b[name]), typed_value(a[name])),
        }
    } else {
        Comparison::Equal
    }
}

/// How the record `a` stands to the record `b`: by the first sort key by
/// which they are not equal.
pub open spec fn row_comparison(
    keys: Seq<OrderByView>,
    a: Map<Seq<char>, Seq<char>>,
    b: Map<Seq<char>, Seq<char>>,
) -> Comparison
    decreases keys.len(),
{
    if keys.len() == 0 {
        Comparison::Equal
    } else if key_comparison(keys[0], a, b) != Comparison::Equal {
        key_comparison(keys[0], a, b)
    } else {
        row_comparison(keys.skip(1), a, b)
    }
}

/// `sorted` with `row` put in front of the first record that `row` does
/// not come after.
pub open spec fn insert_first(
    keys: Seq<OrderByView>,
    row: Map<Seq<char>, Seq<char>>,
    sorted: Seq<Map<Seq<char>, Seq<char>>>,
) -> Seq<Map<Seq<char>, Seq<char>>>
    decreases sorted.len(),
{
    if sorted.len() > 0 && row_comparison(keys, row, sorted[0]) == Comparison::Greater {
        seq![sorted[0]] + insert_first(keys, row, sorted.skip(1))
    } else {
        seq![row] + sorted
    }
}

/// The records in the order of the sort keys; records that are equal by
/// every key stay in the order in which they came.
pub open spec fn sorted_rows(keys: Seq<OrderByView>, rows: Seq<Map<Seq<char>, Seq<char>>>) -> Seq<
    Map<Seq<char>, Seq<char>>,
>
    decreases rows.len(),
{
    if rows.len() == 0 {
        rows
    } else {
        insert_first(keys, rows[0], sorted_rows(keys, rows.skip(1)))
    }
}

/// The records that meet `conditions`, in their order; or the first error
/// among the records.
pub open spec fn matching_records(
    conditions: ExpressionView,
    header: Seq<Seq<char>>,
    lines: Seq<Seq<char>>,
) -> Result<Seq<Map<Seq<char>, Seq<char>>>, ErrorView>
    decreases lines.len(),
{
    if lines.len() == 0 {
        Ok(Seq::empty())
    } else {
        match check_record(conditions, header, lines[0]) {
            Err(e) => Err(e),
            Ok((values, matches)) => continued(
                if matches {
                    seq![values]
                } else {
                    Seq::empty()
                },
                matching_records(conditions, header, lines.skip(1)),
            ),
        }
    }
}

/// The first line of a selection: the names of the columns that are
/// shown.
pub open spec fn header_line(columns: Seq<TokenView>, header: Seq<Seq<char>>) -> Seq<char> {
    if columns.len() == 0 {
        joined(header, ","@)
    } else {
        joined(token_values(columns), ","@)
    }
}

/// The lines of a selection: the header line, then one line for each of
/// `rows`.
pub open spec fn output_lines(
    columns: Seq<TokenView>,
    header: Seq<Seq<char>>,
    rows: Seq<Map<Seq<char>, Seq<char>>>,
) -> Seq<Seq<char>> {
    seq![header_line(columns, header)] + Seq::new(
        rows.len(),
        |i: int| projection_line_spec(RowView { header, values: rows[i] }, columns),
    )
}

/// What the selection `query` shows of the table: the header line, then
/// the records that meet the condition, sorted, each with the columns
/// that are asked for. Fails where a column that is to be shown is
/// missing, at the first record that cannot be read or tested, and where a
/// column of a sort key is missing, in this order.
pub open spec fn select_lines(query: QueryView, table: Seq<Seq<char>>) -> Result<
    Seq<Seq<char>>,
    ErrorView,
> {
    let header = header_of(table);
    match validate_projection_spec(query.columns, header) {
        Err(e) => Err(e),
        Ok(_) => match matching_records(query.conditions, header, records_of(table)) {
            Err(e) => Err(e),
            Ok(rows) => match validate_ordering_spec(query.ordering, header) {
                Err(e) => Err(e),
                Ok(_) => Ok(output_lines(query.columns, header, sorted_rows(query.ordering, rows))),
            },
        },
    }
}

/// The values of `rows`.
pub open spec fn row_values<'a>(rows: Seq<Row<'a>>) -> Seq<Map<Seq<char>, Seq<char>>> {
    Seq::new(rows.len(), |i: int| rows[i]@.values)
}

/// Whether every one of `rows` is a record of the table with the header
/// `header`.
pub open spec fn rows_of<'a>(rows: Seq<Row<'a>>, header: Seq<Seq<char>>) -> bool {
    forall|i: int| 0 <= i < rows.len() ==> (#[trigger] rows[i])@.header == header
}

impl Executor {
    /// Runs the selection against the lines of the table and returns the
    /// lines to show: the header line, then the records that meet the
    /// condition, in the order of the sort keys.
    pub fn run_select(&self, table: &Vec<String>) -> (r: Result<Vec<String>, Errored>)
        ensures
            agrees(r, select_lines(self.query(), table.deep_view())),
    {
        let header = Executor::read_header(table);
        self.validate_projection(&header)?;
        let mut matched_rows: Vec<Row> = Vec::new();
        let ghost records = records_of(table.deep_view());
        let ghost conditions = self.query().conditions;
        assert(records.skip(0) =~= records);
        let mut i: usize = 1;
        while i < table.len()
            invariant
                1 <= i,
                table.len() > 0 ==> i <= table.len(),
                header.deep_view() == header_of(table.deep_view()),
                records == records_of(table.deep_view()),
                conditions == self.query().conditions,
                validate_projection_spec(self.query().columns, header.deep_view()) is Ok,
                rows_of(matched_rows@, header.deep_view()),
                matching_records(conditions, header.deep_view(), records) == continued(
                    row_values(matched_rows@),
                    matching_records(conditions, header.deep_view(), records.skip(i - 1)),
                ),
            decreases table.len() - i,
        {
            let ghost rest = records.skip(i - 1);
            let ghost done = row_values(matched_rows@);
            assert(rest.skip(1) =~= records.skip(i as int));
            let (row, matches) = self.read_row(&header, table[i].as_str())?;
            let ghost step = if matches {
                seq![row@.values]
            } else {
                Seq::empty()
            };
            if matches {
                matched_rows.push(row);
            }
            proof {
                lemma_continued_twice(
                    done,
                    step,
                    matching_records(conditions, header.deep_view(), rest.skip(1)),
                );
                assert(row_values(matched_rows@) =~= done + step);
            }
            i += 1;
        }
        self.sort_rows(&mut matched_rows, &header)?;
        Ok(self.output_projection(&header, &matched_rows))
    }

    /// How the record `a` stands to the record `b` by the sort keys of the
    /// query.
    fn compare_rows(&self, a: &Row, b: &Row) -> (c: Comparison)
        ensures
            c == row_comparison(self.query().ordering, a@.values, b@.values),
    {
        let ghost keys = self.query().ordering;
        let mut k: usize = 0;
        assert(keys.skip(0) =~= keys);
        while k < self.query.ordering.len()
            invariant
                k <= self.query.ordering.len(),
                keys == self.query().ordering,
                row_comparison(keys, a@.values, b@.values) == row_comparison(
                    keys.skip(k as int),
                    a@.values,
                    b@.values,
                ),
            decreases self.query.ordering.len() - k,
        {
            let order = &self.query.ordering[k];
            assert(keys.skip(k as int).skip(1) =~= keys.skip(k + 1));
            let l = ExpressionNode::get_variable_value(&a.values, &order.field);
            let r = ExpressionNode::get_variable_value(&b.values, &order.field);
            if let (Ok(x), Ok(y)) = (l, r) {
                let comparison_result = match order.kind {
                    OrderKind::Asc => ExpressionComparator::compare_values(&x, &y),
                    OrderKind::Desc => ExpressionComparator::compare_values(&y, &x),
                };
                if comparison_result != Comparison::Equal {
                    return comparison_result;
                }
            }
            k += 1;
        }
        Comparison::Equal
    }

    /// Sorts the records by the sort keys of the query, the first key the
    /// most significant; records that are equal by every key stay in their
    /// order, and without a key all records do. Records of the table with
    /// the given header stay such. Fails, and changes nothing, where the
    /// table lacks the column of a key.
    pub fn sort_rows<'a>(&self, matched_rows: &mut Vec<Row<'a>>, header: &Vec<String>) -> (r: Result<
        (),
        Errored,
    >)
        ensures
            rows_of(old(matched_rows)@, header.deep_view()) ==> rows_of(
                final(matched_rows)@,
                header.deep_view(),
            ),
            agrees(r, validate_ordering_spec(self.query().ordering, header.deep_view())),
            r is Ok ==> row_values(final(matched_rows)@) == sorted_rows(
                self.query().ordering,
                row_values(old(matched_rows)@),
            ),
            r is Err ==> final(matched_rows)@ == old(matched_rows)@,
    {
        let ghost keys = self.query().ordering;
        let ghost names = order_fields(keys);
        let mut k: usize = 0;
        assert(names.skip(0) =~= names);
        while k < self.query.ordering.len()
            invariant
                k <= self.query.ordering.len(),
                keys == self.query().ordering,
                names == order_fields(keys),
                *matched_rows == *old(matched_rows),
                first_missing(names, header.deep_view()) == first_missing(
                    names.skip(k as int),
                    header.deep_view(),
                ),
            decreases self.query.ordering.len() - k,
        {
            let order = &self.query.ordering[k];
            assert(names.skip(k as int).skip(1) =~= names.skip(k + 1));
            if !contains_text(header, order.field.value.as_str()) {
                let mut message = String::from_str("order by failed, column ");
                message.append(order.field.value.as_str());
                message.append(" does not exist");
                return Err(Errored::Column(message));
            }
            k += 1;
        }
        let ghost all = row_values(matched_rows@);
        let mut sorted: Vec<Row<'a>> = Vec::new();
        while matched_rows.len() > 0
            invariant
                keys == self.query().ordering,
                all.len() >= matched_rows.len(),
                row_values(matched_rows@) == all.take(matched_rows.len() as int),
                row_values(sorted@) == sorted_rows(keys, all.skip(matched_rows.len() as int)),
                rows_of(old(matched_rows)@, header.deep_view()) ==> rows_of(
                    matched_rows@,
                    header.deep_view(),
                ) && rows_of(sorted@, header.deep_view()),
            decreases matched_rows.len(),
        {
            let ghost left = matched_rows@;
            let ghost n = left.len() as int;
            let ghost placed = row_values(sorted@);
            let row = matched_rows.pop().unwrap();
            proof {
                assert(row@.values == all[n - 1]) by {
                    assert(row_values(left)[n - 1] == all.take(n)[n - 1]);
                }
                assert(all.skip(n - 1).skip(1) =~= all.skip(n));
            }
            let mut p: usize = 0;
            assert(placed.skip(0) =~= placed);
            while p < sorted.len() && self.compare_rows(&row, &sorted[p]) == Comparison::Greater
                invariant
                    p <= sorted.len(),
                    keys == self.query().ordering,
                    placed == row_values(sorted@),
                    insert_first(keys, row@.values, placed) == placed.take(p as int) + insert_first(
                        keys,
                        row@.values,
                        placed.skip(p as int),
                    ),
                decreases sorted.len() - p,
            {
                assert(placed.skip(p as int).skip(1) =~= placed.skip(p + 1));
                p += 1;
            }
            sorted.insert(p, row);
        }
        assert(all.skip(0) =~= all);
        *matched_rows = sorted;
        Ok(())
    }

    /// The lines of the selection for the records `matched_rows`: the
    /// names of the columns that are shown, then the records.
    fn output_projection(&self, header: &Vec<String>, matched_rows: &Vec<Row>) -> (lines: Vec<
        String,
    >)
        requires
            rows_of(matched_rows@, header.deep_view()),
        ensures
            lines.deep_view() == output_lines(
                self.query().columns,
                header.deep_view(),
                row_values(matched_rows@),
            ),
    {
        let mut lines: Vec<String> = Vec::new();
        if self.query.columns.len() == 0 {
            lines.push(join(header, ","));
        } else {
            let columns = values_of(&self.query.columns);
            lines.push(join(&columns, ","));
        }
        let ghost columns = self.query().columns;
        let ghost expected = output_lines(columns, header.deep_view(), row_values(matched_rows@));
        let mut i: usize = 0;
        while i < matched_rows.len()
            invariant
                i <= matched_rows.len(),
                columns == self.query().columns,
                rows_of(matched_rows@, header.deep_view()),
                expected == output_lines(columns, header.deep_view(), row_values(matched_rows@)),
                lines.deep_view() == expected.take(i + 1),
            decreases matched_rows.len() - i,
        {
            let ghost done = lines.deep_view();
            let line = matched_rows[i].projection_line(&self.query.columns);
            lines.push(line);
            assert(lines.deep_view() =~= done.push(line@));
            i += 1;
        }
        lines
    }

    /// Checks that the table has every column that is to be shown.
    fn validate_projection(&self, header: &Vec<String>) -> (r: Result<(), Errored>)
        ensures
            agrees(r, validate_projection_spec(self.query().columns, header.deep_view())),
    {
        let ghost names = token_values(self.query().columns);
        let mut k: usize = 0;
        assert(names.skip(0) =~= names);
        while k < self.query.columns.len()
            invariant
                k <= self.query.columns.len(),
                names == token_values(self.query().columns),
                first_missing(names, header.deep_view()) == first_missing(
                    names.skip(k as int),
                    header.deep_view(),
                ),
            decreases self.query.columns.len() - k,
        {
            let value = &self.query.columns[k].value;
            assert(names.skip(k as int).skip(1) =~= names.skip(k + 1));
            if !contains_text(header, value.as_str()) {
                let mut message = String::from_str("column ");
                message.append(value.as_str());
                message.append(" in projection does not exist in table.");
                return Err(Errored::Column(message));
            }
            k += 1;
        }
        Ok(())
    }
}

/// Whether two records can be ordered by `key`: both have the key's
/// column, and what they hold there is of one type.
pub open spec fn same_kind(
    key: OrderByView,
    a: Map<Seq<char>, Seq<char>>,
    b: Map<Seq<char>, Seq<char>>,
) -> bool {
    let name = key.field.value;
    a.contains_key(name) && b.contains_key(name) && same_type(
        typed_value(a[name]),
        typed_value(b[name]),
    )
}

/// Whether two records can be ordered by every one of `keys`.
pub open spec fn comparable_rows(
    keys: Seq<OrderByView>,
    a: Map<Seq<char>, Seq<char>>,
    b: Map<Seq<char>, Seq<char>>,
) -> bool {
    forall|k: int| 0 <= k < keys.len() ==> same_kind(#[trigger] keys[k], a, b)
}

/// Whether the records at the places `i` and `j` of `rows` can be ordered
/// by every one of `keys`.
pub open spec fn can_order(
    keys: Seq<OrderByView>,
    rows: Seq<Map<Seq<char>, Seq<char>>>,
    i: int,
    j: int,
) -> bool {
    comparable_rows(keys, rows[i], rows[j])
}

/// Whether every two of `rows` can be ordered by every one of `keys`:
/// each key's column holds numbers only, or texts only.
pub open spec fn comparable(keys: Seq<OrderByView>, rows: Seq<Map<Seq<char>, Seq<char>>>) -> bool {
    forall|i: int, j: int|
        0 <= i < rows.len() && 0 <= j < rows.len() ==> #[trigger] can_order(keys, rows, i, j)
}

/// Whether the entries of `order` at the places `a` and `b` differ.
pub open spec fn differ(order: Seq<int>, a: int, b: int) -> bool {
    order[a] != order[b]
}

/// Whether the entry of `order` at the place `a` is an index below `n`.
pub open spec fn within(order: Seq<int>, n: nat, a: int) -> bool {
    0 <= order[a] < n
}

/// Whether `order` holds every index below `n` once.
pub open spec fn is_permutation(order: Seq<int>, n: nat) -> bool {
    &&& order.len() == n
    &&& forall|a: int| 0 <= a < n ==> #[trigger] within(order, n, a)
    &&& forall|a: int, b: int| 0 <= a < b < n ==> #[trigger] differ(order, a, b)
}

/// Whether the record at the place `a` of `sorted` is the one at the place
/// `order[a]` of `rows`.
pub open spec fn came_from(
    rows: Seq<Map<Seq<char>, Seq<char>>>,
    sorted: Seq<Map<Seq<char>, Seq<char>>>,
    order: Seq<int>,
    a: int,
) -> bool {
    sorted[a] == rows[order[a]]
}

/// Whether the records at the places `a` and `b` of `sorted` stand in
/// order: the first does not come after the second, and where they are
/// equal by every key the first came first.
pub open spec fn in_order(
    keys: Seq<OrderByView>,
    sorted: Seq<Map<Seq<char>, Seq<char>>>,
    order: Seq<int>,
    a: int,
    b: int,
) -> bool {
    &&& row_comparison(keys, sorted[a], sorted[b]) != Comparison::Greater
    &&& row_comparison(keys, sorted[a], sorted[b]) == Comparison::Equal ==> order[a] < order[b]
}

/// Whether `sorted` is `rows` in the order of the keys, with `order[a]`
/// the place in `rows` of the record at place `a`: no record comes after a
/// later one, and of two records that are equal by every key the one that
/// came first in `rows` stands first.
pub open spec fn is_stable_sort(
    keys: Seq<OrderByView>,
    rows: Seq<Map<Seq<char>, Seq<char>>>,
    sorted: Seq<Map<Seq<char>, Seq<char>>>,
    order: Seq<int>,
) -> bool {
    &&& is_permutation(order, rows.len())
    &&& sorted.len() == rows.len()
    &&& forall|a: int| 0 <= a < sorted.len() ==> #[trigger] came_from(rows, sorted, order, a)
    &&& forall|a: int, b: int|
        0 <= a < b < sorted.len() ==> #[trigger] in_order(keys, sorted, order, a, b)
}

/// Comparing two records the other way round gives the reversed
/// comparison.
pub proof fn lemma_row_comparison_reverses(
    keys: Seq<OrderByView>,
    a: Map<Seq<char>, Seq<char>>,
    b: Map<Seq<char>, Seq<char>>,
)
    ensures
        row_comparison(keys, b, a) == reversed(row_comparison(keys, a, b)),
    decreases keys.len(),
{
    if keys.len() > 0 {
        let name = keys[0].field.value;
        if a.contains_key(name) && b.contains_key(name) {
            lemma_comparison_reverses(typed_value(a[name]), typed_value(b[name]));
            lemma_comparison_reverses(typed_value(b[name]), typed_value(a[name]));
        }
        lemma_row_comparison_reverses(keys.skip(1), a, b);
    }
}

/// Among records that can be ordered "does not come after" is transitive.
pub proof fn lemma_row_comparison_transitive(
    keys: Seq<OrderByView>,
    a: Map<Seq<char>, Seq<char>>,
    b: Map<Seq<char>, Seq<char>>,
    c: Map<Seq<char>, Seq<char>>,
)
    requires
        comparable_rows(keys, a, b),
        comparable_rows(keys, b, c),
        row_comparison(keys, a, b) != Comparison::Greater,
        row_comparison(keys, b, c) != Comparison::Greater,
    ensures
        row_comparison(keys, a, c) != Comparison::Greater,
    decreases keys.len(),
{
    if keys.len() > 0 {
        let key = keys[0];
        let name = key.field.value;
        let (x, y, z) = (typed_value(a[name]), typed_value(b[name]), typed_value(c[name]));
        match key.kind {
            OrderKind::Asc => {
                lemma_comparison_orders(x, y, z);
            },
            OrderKind::Desc => {
                lemma_comparison_orders(z, y, x);
            },
        }
        if key_comparison(key, a, c) == Comparison::Equal {
            lemma_row_comparison_transitive(keys.skip(1), a, b, c);
        }
    }
}

/// Where `row` is put into `sorted`: behind the records that it comes
/// after, in front of the first that it does not come after.
proof fn lemma_insert_first(
    keys: Seq<OrderByView>,
    row: Map<Seq<char>, Seq<char>>,
    sorted: Seq<Map<Seq<char>, Seq<char>>>,
) -> (p: int)
    ensures
        0 <= p <= sorted.len(),
        insert_first(keys, row, sorted) == sorted.insert(p, row),
        forall|j: int| 0 <= j < p ==> row_comparison(keys, row, #[trigger] sorted[j])
            == Comparison::Greater,
        p < sorted.len() ==> row_comparison(keys, row, sorted[p]) != Comparison::Greater,
    decreases sorted.len(),
{
    if sorted.len() > 0 && row_comparison(keys, row, sorted[0]) == Comparison::Greater {
        let q = lemma_insert_first(keys, row, sorted.skip(1));
        assert forall|j: int| 0 <= j < q + 1 implies row_comparison(keys, row, #[trigger] sorted[j])
            == Comparison::Greater by {
            if j > 0 {
                assert(sorted[j] == sorted.skip(1)[j - 1]);
            }
        }
        q + 1
    } else {
        0
    }
}

/// The place in the tail of the record at the place `a`, where a record
/// was put in at the place `p`.
spec fn tail_place(p: int, a: int) -> int {
    if a < p {
        a
    } else {
        a - 1
    }
}

/// Putting the first record into the sorted tail keeps the whole sorted.
proof fn lemma_insert_keeps_order(
    keys: Seq<OrderByView>,
    rows: Seq<Map<Seq<char>, Seq<char>>>,
    tail: Seq<Map<Seq<char>, Seq<char>>>,
    tail_order: Seq<int>,
    p: int,
    a: int,
    b: int,
)
    requires
        rows.len() > 0,
        comparable(keys, rows),
        is_stable_sort(keys, rows.skip(1), tail, tail_order),
        0 <= p <= tail.len(),
        forall|j: int| 0 <= j < p ==> row_comparison(keys, rows[0], #[trigger] tail[j])
            == Comparison::Greater,
        p < tail.len() ==> row_comparison(keys, rows[0], tail[p]) != Comparison::Greater,
        0 <= a < b <= tail.len(),
    ensures
        in_order(
            keys,
            tail.insert(p, rows[0]),
            Seq::new(tail_order.len(), |a: int| tail_order[a] + 1).insert(p, 0),
            a,
            b,
        ),
{
    let row = rows[0];
    let rest = rows.skip(1);
    if a == p {
        let tb = b - 1;
        assert(within(tail_order, rest.len(), tb));
        if tb > p {
            assert(came_from(rest, tail, tail_order, p));
            assert(came_from(rest, tail, tail_order, tb));
            assert(within(tail_order, rest.len(), p));
            assert(can_order(keys, rows, 0, tail_order[p] + 1));
            assert(can_order(keys, rows, tail_order[p] + 1, tail_order[tb] + 1));
            assert(in_order(keys, tail, tail_order, p, tb));
            lemma_row_comparison_transitive(keys, row, tail[p], tail[tb]);
        }
    } else if b == p {
        lemma_row_comparison_reverses(keys, row, tail[a]);
    } else {
        let ta = tail_place(p, a);
        let tb = tail_place(p, b);
        assert(in_order(keys, tail, tail_order, ta, tb));
    }
}

/// Sorting gives the records in the order of the keys and keeps records
/// that are equal by every key in the order in which they came, where
/// every two records can be ordered. The result is the place that each
/// record came from.
pub proof fn lemma_sorted_rows_are_sorted(
    keys: Seq<OrderByView>,
    rows: Seq<Map<Seq<char>, Seq<char>>>,
) -> (order: Seq<int>)
    requires
        comparable(keys, rows),
    ensures
        is_stable_sort(keys, rows, sorted_rows(keys, rows), order),
    decreases rows.len(),
{
    if rows.len() == 0 {
        Seq::empty()
    } else {
        let rest = rows.skip(1);
        assert forall|i: int, j: int| 0 <= i < rest.len() && 0 <= j < rest.len() implies #[trigger] can_order(
            keys,
            rest,
            i,
            j,
        ) by {
            assert(can_order(keys, rows, i + 1, j + 1));
        }
        let tail_order = lemma_sorted_rows_are_sorted(keys, rest);
        let tail = sorted_rows(keys, rest);
        let row = rows[0];
        let p = lemma_insert_first(keys, row, tail);
        let sorted = tail.insert(p, row);
        let order = Seq::new(tail_order.len(), |a: int| tail_order[a] + 1).insert(p, 0);
        assert forall|a: int| 0 <= a < sorted.len() implies #[trigger] came_from(
            rows,
            sorted,
            order,
            a,
        ) by {
            if a != p {
                let ta = tail_place(p, a);
                assert(came_from(rest, tail, tail_order, ta));
                assert(within(tail_order, rest.len(), ta));
            }
        }
        assert forall|a: int| 0 <= a < sorted.len() implies #[trigger] within(
            order,
            rows.len(),
            a,
        ) by {
            if a != p {
                let ta = tail_place(p, a);
                assert(within(tail_order, rest.len(), ta));
            }
        }
        assert forall|a: int, b: int| 0 <= a < b < sorted.len() implies #[trigger] differ(
            order,
            a,
            b,
        ) by {
            if a != p && b != p {
                let ta = tail_place(p, a);
                let tb = tail_place(p, b);
                assert(differ(tail_order, ta, tb));
            } else if a == p {
                assert(within(tail_order, rest.len(), b - 1));
            } else {
                assert(within(tail_order, rest.len(), a));
            }
        }
        assert forall|a: int, b: int| 0 <= a < b < sorted.len() implies #[trigger] in_order(
            keys,
            sorted,
            order,
            a,
            b,
        ) by {
            lemma_insert_keeps_order(keys, rows, tail, tail_order, p, a, b);
        }
        order
    }
}

/// The place behind the insertion of a record at the place `p` of what
/// stood at the place `a`.
pub open spec fn moved(p: int, a: int) -> int {
    if a < p {
        a
    } else {
        a + 1
    }
}

/// Whether `place` tells where sorting put each of `rows`: every record
/// stands at its place in `sorted`, no two at one, and of two records that
/// are equal by every key the one that came first stands first.
pub open spec fn keeps_turn(
    keys: Seq<OrderByView>,
    rows: Seq<Map<Seq<char>, Seq<char>>>,
    sorted: Seq<Map<Seq<char>, Seq<char>>>,
    place: Seq<int>,
) -> bool {
    &&& place.len() == rows.len()
    &&& sorted.len() == rows.len()
    &&& forall|i: int|
        0 <= i < rows.len() ==> 0 <= #[trigger] place[i] < sorted.len() && sorted[place[i]]
            == rows[i]
    &&& forall|i: int, j: int| 0 <= i < j < rows.len() ==> #[trigger] differ(place, i, j)
    &&& forall|i: int, j: int|
        0 <= i < j < rows.len() && row_comparison(keys, rows[i], rows[j]) == Comparison::Equal
            ==> #[trigger] before(place, i, j)
}

/// Whether the entry of `place` at `i` is smaller than the one at `j`.
pub open spec fn before(place: Seq<int>, i: int, j: int) -> bool {
    place[i] < place[j]
}

/// Sorting keeps records that are equal by every key in the order in
/// which they came, whatever the records hold. The result tells where
/// each record went.
pub proof fn lemma_sorted_rows_keep_turn(
    keys: Seq<OrderByView>,
    rows: Seq<Map<Seq<char>, Seq<char>>>,
) -> (place: Seq<int>)
    ensures
        keeps_turn(keys, rows, sorted_rows(keys, rows), place),
    decreases rows.len(),
{
    if rows.len() == 0 {
        Seq::empty()
    } else {
        let rest = rows.skip(1);
        let tail_place = lemma_sorted_rows_keep_turn(keys, rest);
        let tail = sorted_rows(keys, rest);
        let row = rows[0];
        let p = lemma_insert_first(keys, row, tail);
        let sorted = tail.insert(p, row);
        let place = seq![p] + Seq::new(rest.len(), |i: int| moved(p, tail_place[i]));
        assert forall|i: int| 0 <= i < rows.len() implies 0 <= #[trigger] place[i] < sorted.len()
            && sorted[place[i]] == rows[i] by {
            if i > 0 {
                assert(rest[i - 1] == rows[i]);
                assert(0 <= tail_place[i - 1] < tail.len());
                assert(tail[tail_place[i - 1]] == rest[i - 1]);
            }
        }
        assert forall|i: int, j: int| 0 <= i < j < rows.len() implies #[trigger] differ(
            place,
            i,
            j,
        ) by {
            assert(0 <= tail_place[j - 1] < tail.len());
            if i > 0 {
                assert(differ(tail_place, i - 1, j - 1));
            }
        }
        assert forall|i: int, j: int|
            0 <= i < j < rows.len() && row_comparison(keys, rows[i], rows[j])
                == Comparison::Equal implies #[trigger] before(place, i, j) by {
            assert(rest[j - 1] == rows[j]);
            assert(0 <= tail_place[j - 1] < tail.len());
            assert(tail[tail_place[j - 1]] == rest[j - 1]);
            if i > 0 {
                assert(rest[i - 1] == rows[i]);
                assert(before(tail_place, i - 1, j - 1));
            }
        }
        place
    }
}

/// Without a sort key the records stay as they came.
pub proof fn lemma_no_keys_no_change(
    keys: Seq<OrderByView>,
    rows: Seq<Map<Seq<char>, Seq<char>>>,
)
    requires
        keys.len() == 0,
    ensures
        sorted_rows(keys, rows) == rows,
    decreases rows.len(),
{
    if rows.len() > 0 {
        lemma_no_keys_no_change(keys, rows.skip(1));
        assert(seq![rows[0]] + rows.skip(1) =~= rows);
    }
}

/// Whether two records hold the same in the column of every key, or both
/// lack it.
pub open spec fn same_in_keys(
    keys: Seq<OrderByView>,
    a: Map<Seq<char>, Seq<char>>,
    b: Map<Seq<char>, Seq<char>>,
) -> bool {
    forall|k: int|
        0 <= k < keys.len() ==> {
            let name = (#[trigger] keys[k]).field.value;
            a.contains_key(name) == b.contains_key(name) && (a.contains_key(name) ==> a[name]
                == b[name])
        }
}

/// Records that hold the same in the column of every key are equal by
/// every key.
pub proof fn lemma_same_in_keys_are_equal(
    keys: Seq<OrderByView>,
    a: Map<Seq<char>, Seq<char>>,
    b: Map<Seq<char>, Seq<char>>,
)
    requires
        same_in_keys(keys, a, b),
    ensures
        row_comparison(keys, a, b) == Comparison::Equal,
    decreases keys.len(),
{
    if keys.len() > 0 {
        let name = keys[0].field.value;
        if a.contains_key(name) {
            let x = typed_value(a[name]);
            lemma_comparison_reverses(x, x);
        }
        assert forall|k: int| 0 <= k < keys.skip(1).len() implies {
            let name = (#[trigger] keys.skip(1)[k]).field.value;
            a.contains_key(name) == b.contains_key(name) && (a.contains_key(name) ==> a[name]
                == b[name])
        } by {
            assert(keys.skip(1)[k] == keys[k + 1]);
        }
        lemma_same_in_keys_are_equal(keys.skip(1), a, b);
    }
}

} // verus!
