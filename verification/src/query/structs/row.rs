use crate::query::structs::expression::{
    context, eval, leaf_pair, ExpressionNode, ExpressionResult, ExpressionView, ValueView,
};
use crate::query::structs::query::Query;
use crate::query::structs::token::{token_values, values_of, Token, TokenView};
use crate::utils::errors::{agrees, ErrorView, Errored};
use crate::utils::files::{join, joined};
use crate::utils::text::{decimal, push_index, push_quoted_list, quoted_list, same_text};
use vstd::hash_map::StringHashMap;
use vstd::prelude::*;
use vstd::string::*;

verus! {

/// One record of a table: the table's header, which it borrows, and the
/// text of each column by the column's name.
pub struct Row<'a> {
    pub header: &'a Vec<String>,
    pub values: StringHashMap<String>,
}

/// A [`Row`] over sequences and a map.
pub struct RowView {
    pub header: Seq<Seq<char>>,
    pub values: Map<Seq<char>, Seq<char>>,
}

impl<'a> View for Row<'a> {
    type V = RowView;

    open spec fn view(&self) -> RowView {
        RowView { header: self.header.deep_view(), values: context(self.values@) }
    }
}

/// The message for a column that the header does not have.
pub open spec fn unknown_column_message(key: Seq<char>, header: Seq<Seq<char>>) -> Seq<char> {
    "column "@ + key + " does not exist in table with fields: "@ + quoted_list(header)
}

/// The message for a line with another number of fields than the header.
pub open spec fn wrong_length_message(fields: nat, columns: nat) -> Seq<char> {
    "new row has ("@ + decimal(fields) + ") fields but table needs ("@ + decimal(columns) + ")."@
}

/// The message for an update that is no assignment.
pub open spec fn bad_update_message() -> Seq<char> {
    "error while updating values."@
}

/// The message for a condition that gives no boolean.
pub open spec fn not_boolean_message() -> Seq<char> {
    "query condition evaluates to non-boolean value."@
}

/// The values after each of `keys` was given the text at its place in
/// `texts`, one after the other, as far as both reach and up to the first
/// key that is no column of `header`; and the error for that key, if
/// there is one.
pub open spec fn set_each(
    header: Seq<Seq<char>>,
    values: Map<Seq<char>, Seq<char>>,
    keys: Seq<Seq<char>>,
    texts: Seq<Seq<char>>,
) -> (Map<Seq<char>, Seq<char>>, Option<ErrorView>)
    decreases keys.len(),
{
    if keys.len() == 0 || texts.len() == 0 {
        (values, None)
    } else if !header.contains(keys[0]) {
        (values, Some(ErrorView::Column(unknown_column_message(keys[0], header))))
    } else {
        set_each(header, values.insert(keys[0], texts[0]), keys.skip(1), texts.skip(1))
    }
}

/// Whether a result without a value agrees with the error that is
/// specified, if any.
pub open spec fn fails_with(r: Result<(), Errored>, error: Option<ErrorView>) -> bool {
    match error {
        None => r is Ok,
        Some(e) => r is Err && r->Err_0@ == e,
    }
}

/// The values after each of `keys` was given the text at its place in
/// `texts`, one after the other, as far as both reach.
pub open spec fn assigned(
    values: Map<Seq<char>, Seq<char>>,
    keys: Seq<Seq<char>>,
    texts: Seq<Seq<char>>,
) -> Map<Seq<char>, Seq<char>>
    decreases keys.len(),
{
    if keys.len() == 0 || texts.len() == 0 {
        values
    } else {
        assigned(values.insert(keys[0], texts[0]), keys.skip(1), texts.skip(1))
    }
}

/// Assigning gives values to the keys only, beside what had one.
pub proof fn lemma_assigned_columns(
    values: Map<Seq<char>, Seq<char>>,
    keys: Seq<Seq<char>>,
    texts: Seq<Seq<char>>,
    name: Seq<char>,
)
    requires
        assigned(values, keys, texts).contains_key(name),
    ensures
        values.contains_key(name) || keys.contains(name),
    decreases keys.len(),
{
    if keys.len() > 0 && texts.len() > 0 {
        lemma_assigned_columns(
            values.insert(keys[0], texts[0]),
            keys.skip(1),
            texts.skip(1),
            name,
        );
        if keys.skip(1).contains(name) {
            let k = choose|k: int| 0 <= k < keys.skip(1).len() && keys.skip(1)[k] == name;
            assert(keys[k + 1] == name);
        }
    }
}

/// Setting columns that the header has does not fail.
pub proof fn lemma_set_each_known(
    header: Seq<Seq<char>>,
    values: Map<Seq<char>, Seq<char>>,
    keys: Seq<Seq<char>>,
    texts: Seq<Seq<char>>,
)
    requires
        forall|i: int| 0 <= i < keys.len() ==> header.contains(#[trigger] keys[i]),
    ensures
        set_each(header, values, keys, texts) == (assigned(values, keys, texts), None::<ErrorView>),
    decreases keys.len(),
{
    if keys.len() > 0 && texts.len() > 0 {
        lemma_set_each_known(header, values.insert(keys[0], texts[0]), keys.skip(1), texts.skip(1));
    }
}

/// `n` empty texts.
pub open spec fn blanks(n: nat) -> Seq<Seq<char>> {
    Seq::new(n, |i: int| Seq::<char>::empty())
}

/// The values after the assignments `updates` were made, one after the
/// other, up to the first that is no assignment or names no column; and
/// the error for that one, if there is one.
pub open spec fn apply_updates_spec(
    header: Seq<Seq<char>>,
    values: Map<Seq<char>, Seq<char>>,
    updates: Seq<ExpressionView>,
) -> (Map<Seq<char>, Seq<char>>, Option<ErrorView>)
    decreases updates.len(),
{
    if updates.len() == 0 {
        (values, None)
    } else {
        match leaf_pair(updates[0]) {
            Err(_) => (values, Some(ErrorView::Default(bad_update_message()))),
            Ok((field, value)) => if !header.contains(field.value) {
                (values, Some(ErrorView::Column(unknown_column_message(field.value, header))))
            } else {
                apply_updates_spec(
                    header,
                    values.insert(field.value, value.value),
                    updates.skip(1),
                )
            },
        }
    }
}

/// The text of the column `key`; empty where the record has none.
pub open spec fn cell(values: Map<Seq<char>, Seq<char>>, key: Seq<char>) -> Seq<char> {
    if values.contains_key(key) {
        values[key]
    } else {
        Seq::empty()
    }
}

/// The texts of the columns `fields`, in that order.
pub open spec fn cells(values: Map<Seq<char>, Seq<char>>, fields: Seq<Seq<char>>) -> Seq<
    Seq<char>,
> {
    Seq::new(fields.len(), |i: int| cell(values, fields[i]))
}

/// The record as a line: the texts of the columns `fields`, separated by
/// commas.
pub open spec fn csv_projection(values: Map<Seq<char>, Seq<char>>, fields: Seq<Seq<char>>) -> Seq<
    char,
> {
    joined(cells(values, fields), ","@)
}

/// The line that a selection of `columns` shows for the record: every
/// column of the header where none is named.
pub open spec fn projection_line_spec(row: RowView, columns: Seq<TokenView>) -> Seq<char> {
    if columns.len() == 0 {
        csv_projection(row.values, row.header)
    } else {
        csv_projection(row.values, token_values(columns))
    }
}

/// Whether a record with the given values meets `conditions`. Fails where
/// the evaluation does, and where it gives no boolean.
pub open spec fn matches_spec(
    conditions: ExpressionView,
    values: Map<Seq<char>, Seq<char>>,
) -> Result<bool, ErrorView> {
    match eval(conditions, values) {
        Err(e) => Err(e),
        Ok(ValueView::Bool(b)) => Ok(b),
        Ok(_) => Err(ErrorView::Syntax(not_boolean_message())),
    }
}

/// Whether `items` holds the text `key`.
pub fn contains_text(items: &Vec<String>, key: &str) -> (b: bool)
    ensures
        b == items.deep_view().contains(key@),
{
    let mut i: usize = 0;
    while i < items.len()
        invariant
            i <= items.len(),
            forall|j: int| 0 <= j < i ==> items.deep_view()[j] != key@,
        decreases items.len() - i,
    {
        if same_text(items[i].as_str(), key) {
            assert(items.deep_view()[i as int] == key@);
            return true;
        }
        i += 1;
    }
    false
}

impl<'a> Row<'a> {
    /// A record of the table with the given header, with no column set.
    pub fn new(header: &'a Vec<String>) -> (row: Row<'a>)
        ensures
            row.header == header,
            row@.header == header.deep_view(),
            row@.values == Map::<Seq<char>, Seq<char>>::empty(),
    {
        let row = Row { header, values: StringHashMap::new() };
        row
    }

    /// Sets the column `key` to `value`. Fails, and changes nothing, where
    /// the header has no such column.
    pub fn set(&mut self, key: &str, value: String) -> (r: Result<(), Errored>)
        ensures
            final(self).header == old(self).header,
            old(self)@.header.contains(key@) ==> {
                &&& r is Ok
                &&& final(self)@.values == old(self)@.values.insert(key@, value@)
            },
            !old(self)@.header.contains(key@) ==> {
                &&& r is Err
                &&& r->Err_0@ == ErrorView::Column(unknown_column_message(key@, old(self)@.header))
                &&& final(self)@ == old(self)@
            },
    {
        if contains_text(self.header, key) {
            self.values.insert(String::from_str(key), value);
        } else {
            let mut message = String::from_str("column ");
            message.append(key);
            message.append(" does not exist in table with fields: ");
            push_quoted_list(&mut message, self.header);
            return Err(Errored::Column(message));
        }
        Ok(())
    }

    /// Sets every column of the header to the empty text.
    pub fn clear(&mut self) -> (r: Result<(), Errored>)
        ensures
            r is Ok,
            final(self).header == old(self).header,
            final(self)@.values == assigned(
                old(self)@.values,
                old(self)@.header,
                blanks(old(self)@.header.len()),
            ),
    {
        let ghost header = self@.header;
        let ghost texts = blanks(header.len());
        let mut i: usize = 0;
        assert(header.skip(0) =~= header && texts.skip(0) =~= texts);
        proof {
            lemma_set_each_known(header, self@.values, header, texts);
        }
        while i < self.header.len()
            invariant
                i <= self.header.len(),
                self.header == old(self).header,
                header == self@.header,
                texts == blanks(header.len()),
                set_each(header, old(self)@.values, header, texts) == set_each(
                    header,
                    self@.values,
                    header.skip(i as int),
                    texts.skip(i as int),
                ),
            decreases self.header.len() - i,
        {
            let key = self.header[i].as_str();
            assert(header.skip(i as int).skip(1) =~= header.skip(i + 1));
            assert(texts.skip(i as int).skip(1) =~= texts.skip(i + 1));
            self.set(key, String::new())?;
            i += 1;
        }
        Ok(())
    }

    /// Makes the assignments `updates`, one after the other. Fails at the
    /// first that is no assignment of a value to a column of the header;
    /// those before it stay made.
    pub fn apply_updates(&mut self, updates: &Vec<ExpressionNode>) -> (r: Result<(), Errored>)
        ensures
            final(self).header == old(self).header,
            final(self)@.values == apply_updates_spec(
                old(self)@.header,
                old(self)@.values,
                updates.deep_view(),
            ).0,
            fails_with(
                r,
                apply_updates_spec(old(self)@.header, old(self)@.values, updates.deep_view()).1,
            ),
    {
        let ghost header = self@.header;
        let ghost all = updates.deep_view();
        let mut i: usize = 0;
        assert(all.skip(0) =~= all);
        while i < updates.len()
            invariant
                i <= updates.len(),
                self.header == old(self).header,
                header == self@.header,
                all == updates.deep_view(),
                apply_updates_spec(header, old(self)@.values, all) == apply_updates_spec(
                    header,
                    self@.values,
                    all.skip(i as int),
                ),
            decreases updates.len() - i,
        {
            let up = &updates[i];
            assert(all.skip(i as int).skip(1) =~= all.skip(i + 1));
            if let Ok((field, value)) = up.as_leaf_tuple() {
                self.set(field.value.as_str(), value.value.clone())?
            } else {
                return Err(Errored::Default(String::from_str("error while updating values.")));
            }
            i += 1;
        }
        Ok(())
    }

    /// Fills the record with the fields of a line, one for each column of
    /// the header in its order. Fails, and changes nothing, where the counts
    /// differ.
    pub fn read_new_row(&mut self, values: Vec<String>) -> (r: Result<(), Errored>)
        ensures
            final(self).header == old(self).header,
            values.len() != old(self)@.header.len() ==> {
                &&& r is Err
                &&& r->Err_0@ == ErrorView::Table(
                    wrong_length_message(values.len() as nat, old(self)@.header.len()),
                )
                &&& final(self)@ == old(self)@
            },
            values.len() == old(self)@.header.len() ==> {
                &&& r is Ok
                &&& final(self)@.values == assigned(
                    old(self)@.values,
                    old(self)@.header,
                    values.deep_view(),
                )
            },
    {
        if self.header.len() != values.len() {
            let mut message = String::from_str("new row has (");
            push_index(&mut message, values.len());
            message.append(") fields but table needs (");
            push_index(&mut message, self.header.len());
            message.append(").");
            return Err(Errored::Table(message));
        }
        let ghost header = self@.header;
        let ghost texts = values.deep_view();
        let mut i: usize = 0;
        assert(header.skip(0) =~= header && texts.skip(0) =~= texts);
        proof {
            lemma_set_each_known(header, self@.values, header, texts);
        }
        while i < self.header.len()
            invariant
                i <= self.header.len(),
                self.header.len() == values.len(),
                self.header == old(self).header,
                header == self@.header,
                texts == values.deep_view(),
                set_each(header, old(self)@.values, header, texts) == set_each(
                    header,
                    self@.values,
                    header.skip(i as int),
                    texts.skip(i as int),
                ),
            decreases self.header.len() - i,
        {
            let key = self.header[i].as_str();
            assert(header.skip(i as int).skip(1) =~= header.skip(i + 1));
            assert(texts.skip(i as int).skip(1) =~= texts.skip(i + 1));
            self.set(key, values[i].clone())?;
            i += 1;
        }
        Ok(())
    }

    /// Sets the columns that `columns` name to `values`, in their order, as
    /// far as both reach. Fails at the first column that the header does
    /// not have; those before it stay set.
    pub fn insert_values(&mut self, columns: &Vec<Token>, values: Vec<String>) -> (r: Result<
        (),
        Errored,
    >)
        ensures
            final(self).header == old(self).header,
            final(self)@.values == set_each(
                old(self)@.header,
                old(self)@.values,
                token_values(columns.deep_view()),
                values.deep_view(),
            ).0,
            fails_with(
                r,
                set_each(
                    old(self)@.header,
                    old(self)@.values,
                    token_values(columns.deep_view()),
                    values.deep_view(),
                ).1,
            ),
    {
        let ghost header = self@.header;
        let ghost keys = token_values(columns.deep_view());
        let ghost texts = values.deep_view();
        let mut i: usize = 0;
        assert(keys.skip(0) =~= keys && texts.skip(0) =~= texts);
        while i < columns.len() && i < values.len()
            invariant
                i <= columns.len(),
                i <= values.len(),
                self.header == old(self).header,
                header == self@.header,
                keys == token_values(columns.deep_view()),
                texts == values.deep_view(),
                set_each(header, old(self)@.values, keys, texts) == set_each(
                    header,
                    self@.values,
                    keys.skip(i as int),
                    texts.skip(i as int),
                ),
            decreases columns.len() - i,
        {
            let key = columns[i].value.as_str();
            assert(keys.skip(i as int).skip(1) =~= keys.skip(i + 1));
            assert(texts.skip(i as int).skip(1) =~= texts.skip(i + 1));
            self.set(key, values[i].clone())?;
            i += 1;
        }
        Ok(())
    }

    /// The record as a line of the columns `fields`, in that order; a
    /// column that the record does not have is left empty.
    pub fn as_csv_projection(&self, fields: &Vec<String>) -> (line: String)
        ensures
            line@ == csv_projection(self@.values, fields.deep_view()),
    {
        let mut projection: Vec<String> = Vec::new();
        let mut i: usize = 0;
        while i < fields.len()
            invariant
                i <= fields.len(),
                projection.deep_view() == cells(self@.values, fields.deep_view().take(i as int)),
            decreases fields.len() - i,
        {
            let ghost done = projection.deep_view();
            let value = match self.values.get(fields[i].as_str()) {
                Some(v) => v.clone(),
                None => String::new(),
            };
            projection.push(value);
            i += 1;
            assert(projection.deep_view() =~= done.push(value@));
        }
        assert(fields.deep_view().take(i as int) =~= fields.deep_view());
        join(&projection, ",")
    }

    /// The record as a line of all the columns of the header.
    pub fn as_csv_row(&self) -> (line: String)
        ensures
            line@ == csv_projection(self@.values, self@.header),
    {
        self.as_csv_projection(self.header)
    }

    /// The line that a selection of `columns` shows for the record: all
    /// the columns of the header where none is named.
    pub fn projection_line(&self, columns: &Vec<Token>) -> (line: String)
        ensures
            line@ == projection_line_spec(self@, columns.deep_view()),
    {
        if columns.len() == 0 {
            self.as_csv_row()
        } else {
            let values = values_of(columns);
            self.as_csv_projection(&values)
        }
    }

    /// Whether the record meets the condition of `query`.
    pub fn matches_condition(&self, query: &Query) -> (r: Result<bool, Errored>)
        ensures
            agrees(r, matches_spec(query@.conditions, self@.values)),
    {
        match query.conditions.evaluate(&self.values)? {
            ExpressionResult::Bool(b) => Ok(b),
            _ => Err(
                Errored::Syntax(String::from_str("query condition evaluates to non-boolean value.")),
            ),
        }
    }
}

} // verus!
