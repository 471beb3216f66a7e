//! The format of table files: the name of a table's file and the fields of
//! a record.
use crate::utils::text::{char_is_whitespace, chars_of, text_of, whitespace};
use vstd::prelude::*;
use vstd::string::*;

verus! {

/// `s` without the whitespace at its start.
pub open spec fn trim_start(s: Seq<char>) -> Seq<char>
    decreases s.len(),
{
    if s.len() > 0 && whitespace(s[0]) {
        trim_start(s.skip(1))
    } else {
        s
    }
}

/// `s` without the whitespace at its end.
pub open spec fn trim_end(s: Seq<char>) -> Seq<char>
    decreases s.len(),
{
    if s.len() > 0 && whitespace(s.last()) {
        trim_end(s.drop_last())
    } else {
        s
    }
}

/// `s` without the whitespace around it.
pub open spec fn trimmed(s: Seq<char>) -> Seq<char> {
    trim_end(trim_start(s))
}

/// The pieces of `s` between its commas: one more than there are commas.
pub open spec fn comma_separated(s: Seq<char>) -> Seq<Seq<char>>
    decreases s.len(),
{
    if s.len() == 0 {
        seq![Seq::empty()]
    } else {
        let before = comma_separated(s.drop_last());
        if s.last() == ',' {
            before.push(Seq::empty())
        } else {
            before.drop_last().push(before.last().push(s.last()))
        }
    }
}

/// The fields of a record: the pieces between the commas, each without
/// the whitespace around it.
pub open spec fn split_csv_spec(line: Seq<char>) -> Seq<Seq<char>> {
    trim_all(comma_separated(line))
}

/// Each of `fields` without the whitespace around it.
pub open spec fn trim_all(fields: Seq<Seq<char>>) -> Seq<Seq<char>> {
    fields.map_values(|field: Seq<char>| trimmed(field))
}

/// `items` with `separator` between each two of them.
pub open spec fn joined(items: Seq<Seq<char>>, separator: Seq<char>) -> Seq<char>
    decreases items.len(),
{
    if items.len() == 0 {
        Seq::empty()
    } else if items.len() == 1 {
        items[0]
    } else {
        joined(items.drop_last(), separator) + separator + items.last()
    }
}

/// The name of the file that holds the table `table`.
pub open spec fn table_file_name_spec(table: Seq<char>) -> Seq<char> {
    table + ".csv"@
}

/// `chars[from..to]` without the whitespace around it.
fn trim_range(chars: &Vec<char>, from: usize, to: usize) -> (r: String)
    requires
        from <= to <= chars.len(),
    ensures
        r@ == trimmed(chars@.subrange(from as int, to as int)),
{
    let ghost field = chars@.subrange(from as int, to as int);
    let mut start = from;
    assert(field.skip(0) =~= field);
    while start < to && char_is_whitespace(chars[start])
        invariant
            from <= start <= to <= chars.len(),
            field == chars@.subrange(from as int, to as int),
            trim_start(field) == trim_start(field.skip(start - from)),
        decreases to - start,
    {
        assert(field.skip(start - from).skip(1) =~= field.skip(start - from + 1));
        start += 1;
    }
    let ghost tail = field.skip(start - from);
    let mut end = to;
    assert(tail.take(tail.len() as int) =~= tail);
    while end > start && char_is_whitespace(chars[end - 1])
        invariant
            from <= start <= end <= to <= chars.len(),
            field == chars@.subrange(from as int, to as int),
            tail == field.skip(start - from),
            trim_end(tail) == trim_end(tail.take(end - start)),
        decreases end - start,
    {
        assert(tail.take(end - start).drop_last() =~= tail.take(end - start - 1));
        end -= 1;
    }
    text_of(chars, start, end)
}

/// Splits a record into its fields, each without the whitespace around it.
pub fn split_csv(line: &str) -> (fields: Vec<String>)
    ensures
        fields.deep_view() == split_csv_spec(line@),
{
    let chars = chars_of(line);
    let mut fields: Vec<String> = Vec::new();
    let mut from: usize = 0;
    let mut i: usize = 0;
    let ghost s = chars@;
    let ghost mut raw: Seq<Seq<char>> = Seq::empty();
    assert(s.take(0) =~= Seq::<char>::empty());
    while i < chars.len()
        invariant
            from <= i <= chars.len(),
            s == chars@,
            s == line@,
            comma_separated(s.take(i as int)) == raw.push(s.subrange(from as int, i as int)),
            fields.deep_view() == trim_all(raw),
        decreases chars.len() - i,
    {
        let ghost done = fields.deep_view();
        assert(s.take(i + 1).drop_last() =~= s.take(i as int));
        if chars[i] == ',' {
            fields.push(trim_range(&chars, from, i));
            proof {
                let field = s.subrange(from as int, i as int);
                assert(fields.deep_view() =~= done.push(trimmed(field)));
                raw = raw.push(field);
                assert(s.subrange(i + 1, i + 1) =~= Seq::<char>::empty());
            }
            from = i + 1;
        } else {
            assert(s.subrange(from as int, i as int).push(s[i as int]) =~= s.subrange(
                from as int,
                i + 1,
            ));
        }
        i += 1;
    }
    assert(s.take(i as int) =~= s);
    let ghost done = fields.deep_view();
    fields.push(trim_range(&chars, from, i));
    proof {
        let field = s.subrange(from as int, i as int);
        assert(fields.deep_view() =~= done.push(trimmed(field)));
    }
    fields
}

/// Joins `items` with `separator` between each two of them.
pub fn join(items: &Vec<String>, separator: &str) -> (line: String)
    ensures
        line@ == joined(items.deep_view(), separator@),
{
    let mut line = String::new();
    let ghost all = items.deep_view();
    let mut i: usize = 0;
    while i < items.len()
        invariant
            i <= items.len(),
            all == items.deep_view(),
            line@ == joined(all.take(i as int), separator@),
        decreases items.len() - i,
    {
        if i > 0 {
            line.append(separator);
        }
        line.append(items[i].as_str());
        assert(all.take(i + 1).drop_last() =~= all.take(i as int));
        i += 1;
    }
    assert(all.take(i as int) =~= all);
    line
}

/// The name of the file that holds the table `table`: the table's name
/// with the extension `csv`.
pub fn table_file_name(table: &str) -> (name: String)
    ensures
        name@ == table_file_name_spec(table@),
{
    let mut name = String::from_str(table);
    name.append(".csv");
    name
}

} // verus!
