//! What a table holds.

use crate::laws::terms;
use crate::table;
use crate::table::TextTable;
use crate::text;
use vstd::prelude::*;

verus! {

/// The rows are in order exactly if each name comes before the next.
pub proof fn order_is_of_neighbours(rows: table::Rows)
    ensures
        table::is_ordered(rows) <==> forall|i: int|
            0 <= i < rows.len() - 1 ==> text::text_before((#[trigger] rows[i]).0, rows[i + 1].0),
{
    if forall|i: int|
        0 <= i < rows.len() - 1 ==> text::text_before((#[trigger] rows[i]).0, rows[i + 1].0) {
        assert forall|i: int, j: int| 0 <= i < j < rows.len() implies text::text_before(
            #[trigger] rows[i].0,
            #[trigger] rows[j].0,
        ) by {
            neighbours_reach(rows, i, j);
        }
    }
}

proof fn neighbours_reach(rows: table::Rows, i: int, j: int)
    requires
        0 <= i < j < rows.len(),
        forall|k: int|
            0 <= k < rows.len() - 1 ==> text::text_before((#[trigger] rows[k]).0, rows[k + 1].0),
    ensures
        text::text_before(rows[i].0, rows[j].0),
    decreases j - i,
{
    if i + 1 < j {
        neighbours_reach(rows, i, j - 1);
        assert(text::text_before(rows[j - 1].0, rows[(j - 1) + 1].0));
        text::text_before_transitive(rows[i].0, rows[j - 1].0, rows[j].0);
    } else {
        assert(text::text_before(rows[i].0, rows[i + 1].0));
    }
}

/// In an ordered table looking up a name gives a value exactly if a row holds both.
pub proof fn lookups_read_rows(rows: table::Rows, name: Seq<char>, value: Seq<char>)
    requires
        table::is_ordered(rows),
    ensures
        table::lookup(rows, name) == Some(value) <==> rows.contains((name, value)),
        table::lookup(rows, name) is None <==> terms::unnamed(rows, name),
        table::is_bound(rows, name) <==> !terms::unnamed(rows, name),
        terms::unique(rows),
{
    if rows.contains((name, value)) {
        let i = rows.index_of((name, value));
        assert(rows[i] == (name, value));
        table::lookup_of_row(rows, i);
    }
    if table::is_bound(rows, name) {
        let i = table::row_of(rows, name);
        assert(rows[i].0 == name);
        if table::lookup(rows, name) == Some(value) {
            assert(rows[i] == (name, value));
        }
    }
    if !terms::unnamed(rows, name) {
        let i = choose|i: int| 0 <= i < rows.len() && (#[trigger] rows[i]).0 == name;
        assert(rows[i].0 == name);
    }
    assert forall|i: int, j: int| 0 <= i < j < rows.len() implies (#[trigger] rows[i]).0 != (
    #[trigger] rows[j]).0 by {
        if rows[i].0 == rows[j].0 {
            table::ordered_names_differ(rows, i, j);
        }
    }
}

/// Where no name stands twice, looking up the name of a row gives its value.
pub proof fn lookups_find_unique_rows(rows: table::Rows, name: Seq<char>, value: Seq<char>)
    requires
        terms::unique(rows),
        rows.contains((name, value)),
    ensures
        table::lookup(rows, name) == Some(value),
{
    let i = rows.index_of((name, value));
    assert(rows[i].0 == name);
    let k = table::row_of(rows, name);
    if i < k {
        assert(rows[i].0 != rows[k].0);
    } else if k < i {
        assert(rows[k].0 != rows[i].0);
    }
}

/// A value is found exactly if a row holds the name and that value.
pub proof fn finding_reads_rows(table: &TextTable, name: &str, value: Option<&String>)
    requires
        call_ensures(TextTable::get, (table, name), value),
    ensures
        value is Some ==> table@.contains((name@, value->0@)),
        value is None ==> terms::unnamed(table@, name@),
        terms::unique(table@),
{
    lookups_read_rows(table@, name@, if value is Some { value->0@ } else { Seq::empty() });
}

/// `after` holds the rows of `before`, and `row`, and no others.
pub open spec fn gains(before: table::Rows, after: table::Rows, row: terms::Row) -> bool {
    &&& after.len() == before.len() + 1
    &&& forall|r: terms::Row| #[trigger] after.contains(r) <==> before.contains(r) || r == row
}

/// Rows in order of which all lookups agree but that of `row`, which is new, differ in `row` alone.
pub proof fn lookups_show_a_gain(before: table::Rows, after: table::Rows, row: terms::Row)
    requires
        table::is_ordered(before),
        table::is_ordered(after),
        after.len() == before.len() + 1,
        !table::is_bound(before, row.0),
        table::lookup(after, row.0) == Some(row.1),
        forall|other: Seq<char>|
            other != row.0 ==> #[trigger] table::lookup(after, other) == table::lookup(
                before,
                other,
            ),
    ensures
        gains(before, after, row),
{
    assert forall|r: terms::Row| #[trigger] after.contains(r) <==> before.contains(r) || r
        == row by {
        lookups_read_rows(before, r.0, r.1);
        lookups_read_rows(after, r.0, r.1);
        if r.0 == row.0 && before.contains(r) {
            let i = before.index_of(r);
            assert(before[i].0 == row.0);
        }
        assert(r.0 != row.0 ==> table::lookup(after, r.0) == table::lookup(before, r.0));
    }
}

/// Inserting adds the row if no row has its name, and else changes nothing. The names stay in order.
pub proof fn inserting_adds_one_row(table: &mut TextTable, name: String, value: String, added: bool)
    requires
        call_ensures(TextTable::insert, (table, name, value), added),
    ensures
        added <==> terms::unnamed(old(table)@, name@),
        added ==> gains(old(table)@, final(table)@, (name@, value@)),
        !added ==> final(table)@ == old(table)@,
        table::is_ordered(final(table)@),
{
    lookups_read_rows(old(table)@, name@, value@);
    if added {
        lookups_show_a_gain(old(table)@, final(table)@, (name@, value@));
    }
}

/// Removing takes the row with that name out and hands its value over, or changes nothing where no
/// row has it.
pub proof fn removing_takes_one_row(table: &mut TextTable, name: &str, value: Option<String>)
    requires
        call_ensures(TextTable::remove, (table, name), value),
    ensures
        value is None <==> terms::unnamed(old(table)@, name@),
        value is None ==> final(table)@ == old(table)@,
        value is Some ==> gains(final(table)@, old(table)@, (name@, value->0@)),
{
    lookups_read_rows(old(table)@, name@, if value is Some { value->0@ } else { Seq::empty() });
    if value is Some {
        assert(forall|other: Seq<char>|
            other != name@ ==> #[trigger] table::lookup(old(table)@, other) == table::lookup(
                final(table)@,
                other,
            ));
        lookups_show_a_gain(final(table)@, old(table)@, (name@, value->0@));
    }
}

/// Wiping leaves every name in its row, beside an empty value.
pub proof fn wiping_empties_every_value(table: &mut TextTable)
    requires
        call_ensures(TextTable::wipe_values, (table,), ()),
    ensures
        final(table)@.len() == old(table)@.len(),
        forall|i: int|
            0 <= i < old(table)@.len() ==> (#[trigger] final(table)@[i]).0 == old(table)@[i].0
                && final(table)@[i].1.len() == 0,
{
}

/// What a table says of itself is so: how many rows it has, and what stands in each.
pub proof fn tables_show_their_rows(
    table: &TextTable,
    i: usize,
    name: &str,
    len: usize,
    empty: bool,
    name_there: &String,
    value_there: &String,
    bound: bool,
)
    requires
        i < table@.len(),
        call_ensures(TextTable::len, (table,), len),
        call_ensures(TextTable::is_empty, (table,), empty),
        call_ensures(TextTable::name_at, (table, i), name_there),
        call_ensures(TextTable::value_at, (table, i), value_there),
        call_ensures(TextTable::contains, (table, name), bound),
    ensures
        len == table@.len(),
        !empty,
        table@[i as int] == (name_there@, value_there@),
        bound <==> !terms::unnamed(table@, name@),
        table::is_ordered(table@),
{
    lookups_read_rows(table@, name@, name@);
}

/// A new table has no rows, and says so; a clone has the rows of the table that it was made of.
pub proof fn tables_begin_empty_and_are_copied_whole(
    new: TextTable,
    empty: bool,
    table: &TextTable,
    copy: TextTable,
)
    requires
        call_ensures(TextTable::new, (), new),
        call_ensures(TextTable::is_empty, (&new,), empty),
        call_ensures(TextTable::clone, (table,), copy),
    ensures
        new@.len() == 0,
        empty,
        copy@ == table@,
{
}

} // verus!
