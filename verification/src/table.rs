//! An ordered table from names to values, both of them text.

use crate::hygiene::wipe_text;
use crate::text;
use crate::text::{relate, Relation};
use vstd::prelude::*;

verus! {

/// The rows of a table: each a name and its value.
pub type Rows = Seq<(Seq<char>, Seq<char>)>;

/// The rows stand in strictly increasing order of their names, so that no name occurs twice.
pub open spec fn is_ordered(rows: Rows) -> bool {
    forall|i: int, j: int|
        0 <= i < j < rows.len() ==> text::text_before(#[trigger] rows[i].0, #[trigger] rows[j].0)
}

/// Some row has this name.
pub open spec fn is_bound(rows: Rows, name: Seq<char>) -> bool {
    exists|i: int| 0 <= i < rows.len() && #[trigger] rows[i].0 == name
}

/// A row that has this name, if there is one.
pub open spec fn row_of(rows: Rows, name: Seq<char>) -> int {
    choose|i: int| 0 <= i < rows.len() && #[trigger] rows[i].0 == name
}

/// The value that stands beside `name`, if some row has that name.
pub open spec fn lookup(rows: Rows, name: Seq<char>) -> Option<Seq<char>> {
    if is_bound(rows, name) {
        Some(rows[row_of(rows, name)].1)
    } else {
        None
    }
}

/// In an ordered table a name stands in one row only.
pub proof fn ordered_names_differ(rows: Rows, i: int, j: int)
    requires
        is_ordered(rows),
        0 <= i < rows.len(),
        0 <= j < rows.len(),
        rows[i].0 == rows[j].0,
    ensures
        i == j,
{
    text::text_before_irreflexive(rows[i].0);
}

/// Looking up the name of a row gives the value of that row.
pub proof fn lookup_of_row(rows: Rows, i: int)
    requires
        is_ordered(rows),
        0 <= i < rows.len(),
    ensures
        lookup(rows, rows[i].0) == Some(rows[i].1),
{
    assert(is_bound(rows, rows[i].0));
    ordered_names_differ(rows, i, row_of(rows, rows[i].0));
}

/// Two ordered tables that answer every lookup alike are the same table.
pub proof fn ordered_rows_determined_by_lookup(a: Rows, b: Rows)
    requires
        is_ordered(a),
        is_ordered(b),
        forall|name: Seq<char>| #[trigger] lookup(a, name) == lookup(b, name),
    ensures
        a == b,
{
    same_rows_below(a, b, if a.len() <= b.len() { a.len() as int } else { b.len() as int });
    no_extra_row(a, b);
    no_extra_row(b, a);
    assert(a =~= b);
}

proof fn same_rows_below(a: Rows, b: Rows, n: int)
    requires
        is_ordered(a),
        is_ordered(b),
        forall|name: Seq<char>| #[trigger] lookup(a, name) == lookup(b, name),
        0 <= n <= a.len(),
        n <= b.len(),
    ensures
        forall|i: int| 0 <= i < n ==> a[i] == b[i],
    decreases n,
{
    if n > 0 {
        let k = n - 1;
        same_rows_below(a, b, k);
        lookup_of_row(a, k);
        lookup_of_row(b, k);
        assert(lookup(a, a[k].0) == lookup(b, a[k].0));
        assert(lookup(a, b[k].0) == lookup(b, b[k].0));
        let i = row_of(b, a[k].0);
        let j = row_of(a, b[k].0);
        // Neither name can stand in an earlier row of the other table: those rows are shared.
        if i < k {
            ordered_names_differ(a, i, k);
        }
        if j < k {
            ordered_names_differ(b, j, k);
        }
        if a[k].0 != b[k].0 {
            assert(text::text_before(b[k].0, b[i].0));
            assert(text::text_before(a[k].0, a[j].0));
            text::text_before_transitive(a[k].0, b[k].0, a[k].0);
            text::text_before_irreflexive(a[k].0);
        }
    }
}

proof fn no_extra_row(long: Rows, short: Rows)
    requires
        is_ordered(long),
        forall|i: int| 0 <= i < short.len() && i < long.len() ==> short[i] == long[i],
        forall|name: Seq<char>| #[trigger] lookup(long, name) == lookup(short, name),
    ensures
        long.len() <= short.len(),
{
    if short.len() < long.len() {
        let k = short.len() as int;
        lookup_of_row(long, k);
        assert(lookup(long, long[k].0) == lookup(short, long[k].0));
        let i = row_of(short, long[k].0);
        ordered_names_differ(long, i, k);
    }
}

/// The problem of the first row that has one.
pub open spec fn first_problem<E>(
    rows: Rows,
    problem: spec_fn((Seq<char>, Seq<char>)) -> Option<E>,
) -> Option<E>
    decreases rows.len(),
{
    if rows.len() == 0 {
        None
    } else {
        match first_problem(rows.drop_last(), problem) {
            Some(found) => Some(found),
            None => problem(rows.last()),
        }
    }
}

/// The first problem is the problem of a row, and no row before it has one; where there is no
/// first problem, no row has one.
pub proof fn first_problem_is_first<E>(
    rows: Rows,
    problem: spec_fn((Seq<char>, Seq<char>)) -> Option<E>,
)
    ensures
        match first_problem(rows, problem) {
            Some(found) => exists|i: int|
                0 <= i < rows.len() && #[trigger] problem(rows[i]) == Some(found) && forall|j: int|
                    0 <= j < i ==> problem(#[trigger] rows[j]) is None,
            None => forall|i: int| 0 <= i < rows.len() ==> problem(#[trigger] rows[i]) is None,
        },
    decreases rows.len(),
{
    if rows.len() > 0 {
        let shorter = rows.drop_last();
        first_problem_is_first(shorter, problem);
        match first_problem(shorter, problem) {
            Some(found) => {
                let i = choose|i: int|
                    0 <= i < shorter.len() && #[trigger] problem(shorter[i]) == Some(found)
                        && forall|j: int| 0 <= j < i ==> problem(#[trigger] shorter[j]) is None;
                assert(problem(rows[i]) == Some(found));
                assert forall|j: int| 0 <= j < i implies problem(#[trigger] rows[j]) is None by {
                    assert(rows[j] == shorter[j]);
                }
            },
            None => {
                assert forall|i: int| 0 <= i < rows.len() - 1 implies problem(
                    #[trigger] rows[i],
                ) is None by {
                    assert(rows[i] == shorter[i]);
                }
                let last = rows.len() - 1;
                assert(problem(rows[last]) == problem(rows.last()));
            },
        }
    }
}

/// A problem found in the first rows is the first problem of all rows.
pub proof fn first_problem_of_prefix<E>(
    rows: Rows,
    n: int,
    problem: spec_fn((Seq<char>, Seq<char>)) -> Option<E>,
)
    requires
        0 <= n <= rows.len(),
        first_problem(rows.take(n), problem) is Some,
    ensures
        first_problem(rows, problem) == first_problem(rows.take(n), problem),
    decreases rows.len(),
{
    if n < rows.len() {
        assert(rows.drop_last().take(n) =~= rows.take(n));
        first_problem_of_prefix(rows.drop_last(), n, problem);
    } else {
        assert(rows.take(n) =~= rows);
    }
}

/// What one more row adds to the search for the first problem.
pub proof fn first_problem_step<E>(
    rows: Rows,
    n: int,
    problem: spec_fn((Seq<char>, Seq<char>)) -> Option<E>,
)
    requires
        0 <= n < rows.len(),
        first_problem(rows.take(n), problem) is None,
    ensures
        first_problem(rows.take(n + 1), problem) == problem(rows[n]),
        problem(rows[n]) is Some ==> first_problem(rows, problem) == problem(rows[n]),
{
    assert(rows.take(n + 1).drop_last() =~= rows.take(n));
    assert(rows.take(n + 1).last() == rows[n]);
    if problem(rows[n]) is Some {
        first_problem_of_prefix(rows, n + 1, problem);
    }
}

/// An ordered table from names to values.
#[derive(Debug, PartialEq, Eq)]
pub struct TextTable {
    entries: Vec<(String, String)>,
}

/// The rows that `entries` holds.
spec fn rows_of(entries: Seq<(String, String)>) -> Rows {
    entries.map_values(|entry: (String, String)| (entry.0@, entry.1@))
}

impl View for TextTable {
    type V = Rows;

    closed spec fn view(&self) -> Rows {
        rows_of(self.entries@)
    }
}

impl TextTable {
    /// The rows of every table are in order.
    #[verifier::type_invariant]
    pub open spec fn in_order(self) -> bool {
        is_ordered(self@)
    }

    /// A table without rows.
    pub fn new() -> (table: Self)
        ensures
            table@ == Rows::empty(),
    {
        let table = TextTable { entries: Vec::new() };
        assert(table@ =~= Rows::empty());
        table
    }

    /// The number of rows.
    pub fn len(&self) -> (len: usize)
        ensures
            len == self@.len(),
            is_ordered(self@),
    {
        proof {
            use_type_invariant(self);
        }
        self.entries.len()
    }

    /// Whether there are no rows.
    pub fn is_empty(&self) -> (empty: bool)
        ensures
            empty == (self@.len() == 0),
    {
        self.entries.len() == 0
    }

    /// The name in row `i`.
    pub fn name_at(&self, i: usize) -> (name: &String)
        requires
            i < self@.len(),
        ensures
            name@ == self@[i as int].0,
    {
        &self.entries[i].0
    }

    /// The value in row `i`.
    pub fn value_at(&self, i: usize) -> (value: &String)
        requires
            i < self@.len(),
        ensures
            value@ == self@[i as int].1,
    {
        &self.entries[i].1
    }

    /// The first row whose name does not come before `name`, and whether it has that name.
    fn position(&self, name: &str) -> (found: (usize, bool))
        ensures
            is_ordered(self@),
            found.0 <= self@.len(),
            forall|i: int| 0 <= i < found.0 ==> text::text_before(#[trigger] self@[i].0, name@),
            found.1 ==> found.0 < self@.len() && self@[found.0 as int].0 == name@,
            !found.1 ==> forall|i: int|
                found.0 <= i < self@.len() ==> text::text_before(name@, #[trigger] self@[i].0),
    {
        proof {
            use_type_invariant(self);
        }
        let mut low: usize = 0;
        let mut high: usize = self.entries.len();
        while low < high
            invariant
                is_ordered(self@),
                low <= high <= self@.len(),
                self@.len() == self.entries@.len(),
                forall|i: int| 0 <= i < low ==> text::text_before(#[trigger] self@[i].0, name@),
                forall|i: int|
                    high <= i < self@.len() ==> text::text_before(name@, #[trigger] self@[i].0),
            decreases high - low,
        {
            let middle: usize = low + (high - low) / 2;
            let ghost here = self@[middle as int].0;
            match relate(self.name_at(middle).as_str(), name) {
                Relation::Same => {
                    return (middle, true);
                },
                Relation::Before => {
                    assert forall|i: int| 0 <= i < middle + 1 implies text::text_before(
                        #[trigger] self@[i].0,
                        name@,
                    ) by {
                        if i < middle {
                            text::text_before_transitive(self@[i].0, here, name@);
                        }
                    }
                    low = middle + 1;
                },
                Relation::After => {
                    assert forall|i: int| middle <= i < self@.len() implies text::text_before(
                        name@,
                        #[trigger] self@[i].0,
                    ) by {
                        if middle < i {
                            text::text_before_transitive(name@, here, self@[i].0);
                        }
                    }
                    high = middle;
                },
            }
        }
        (low, false)
    }

    /// The value beside `name`.
    pub fn get(&self, name: &str) -> (value: Option<&String>)
        ensures
            is_ordered(self@),
            value is Some <==> lookup(self@, name@) is Some,
            value is Some ==> Some(value->0@) == lookup(self@, name@),
    {
        let (i, found) = self.position(name);
        if found {
            proof {
                lookup_of_row(self@, i as int);
            }
            Some(self.value_at(i))
        } else {
            proof {
                absent_between(self@, name@, i as int);
            }
            None
        }
    }

    /// Whether some row has this name.
    pub fn contains(&self, name: &str) -> (bound: bool)
        ensures
            bound == is_bound(self@, name@),
    {
        self.get(name).is_some()
    }

    /// Adds a row, unless some row has that name already: then the table stays as it is and the
    /// answer is `false`.
    pub fn insert(&mut self, name: String, value: String) -> (added: bool)
        ensures
            added == !is_bound(old(self)@, name@),
            !added ==> final(self)@ == old(self)@,
            added ==> final(self)@.len() == old(self)@.len() + 1,
            added ==> lookup(final(self)@, name@) == Some(value@),
            forall|other: Seq<char>|
                other != name@ ==> #[trigger] lookup(final(self)@, other) == lookup(
                    old(self)@,
                    other,
                ),
            is_ordered(old(self)@),
            is_ordered(final(self)@),
    {
        let (i, found) = self.position(name.as_str());
        let ghost before = self@;
        if found {
            return false;
        }
        let ghost row = (name@, value@);
        let mut entries: Vec<(String, String)> = Vec::new();
        assert(rows_of(entries@) =~= Rows::empty());
        std::mem::swap(&mut self.entries, &mut entries);
        entries.insert(i, (name, value));
        proof {
            assert(rows_of(entries@) =~= before.insert(i as int, row));
            absent_between(before, row.0, i as int);
            insertion_keeps_order(before, i as int, row);
            insertion_answers(before, i as int, row);
        }
        self.entries = entries;
        true
    }

    /// Takes the row with this name out and hands its value over.
    pub fn remove(&mut self, name: &str) -> (value: Option<String>)
        ensures
            value is Some <==> lookup(old(self)@, name@) is Some,
            value is Some ==> Some(value->0@) == lookup(old(self)@, name@),
            value is Some ==> final(self)@.len() == old(self)@.len() - 1,
            value is None ==> final(self)@ == old(self)@,
            lookup(final(self)@, name@) is None,
            forall|other: Seq<char>|
                other != name@ ==> #[trigger] lookup(final(self)@, other) == lookup(
                    old(self)@,
                    other,
                ),
            is_ordered(old(self)@),
            is_ordered(final(self)@),
    {
        let (i, found) = self.position(name);
        let ghost before = self@;
        if !found {
            proof {
                absent_between(before, name@, i as int);
            }
            return None;
        }
        let mut entries: Vec<(String, String)> = Vec::new();
        assert(rows_of(entries@) =~= Rows::empty());
        std::mem::swap(&mut self.entries, &mut entries);
        let (_, value) = entries.remove(i);
        proof {
            assert(rows_of(entries@) =~= before.remove(i as int));
            removal_answers(before, i as int);
        }
        self.entries = entries;
        Some(value)
    }

    /// Overwrites every value. The names stay, each beside an empty value.
    pub fn wipe_values(&mut self)
        ensures
            is_ordered(old(self)@),
            is_ordered(final(self)@),
            final(self)@ == old(self)@.map_values(
                |row: (Seq<char>, Seq<char>)| (row.0, Seq::<char>::empty()),
            ),
    {
        proof {
            use_type_invariant(&*self);
        }
        let ghost before = self@;
        let mut entries: Vec<(String, String)> = Vec::new();
        assert(rows_of(entries@) =~= Rows::empty());
        std::mem::swap(&mut self.entries, &mut entries);
        let mut i: usize = 0;
        while i < entries.len()
            invariant
                i <= entries.len() == before.len(),
                forall|j: int| 0 <= j < entries.len() ==> (#[trigger] entries@[j]).0@ == before[j].0,
                forall|j: int| 0 <= j < i ==> (#[trigger] entries@[j]).1@ == Seq::<char>::empty(),
            decreases entries.len() - i,
        {
            wipe_text(&mut entries[i].1);
            i += 1;
        }
        let ghost after = before.map_values(
            |row: (Seq<char>, Seq<char>)| (row.0, Seq::<char>::empty()),
        );
        proof {
            assert(rows_of(entries@) =~= after);
            assert forall|a: int, b: int| 0 <= a < b < after.len() implies text::text_before(
                #[trigger] after[a].0,
                #[trigger] after[b].0,
            ) by {
                assert(after[a].0 == before[a].0 && after[b].0 == before[b].0);
            }
        }
        self.entries = entries;
    }
}

impl Clone for TextTable {
    /// A table with the same rows.
    fn clone(&self) -> (table: Self)
        ensures
            table@ == self@,
    {
        proof {
            use_type_invariant(self);
        }
        let mut entries: Vec<(String, String)> = Vec::new();
        let mut i: usize = 0;
        while i < self.entries.len()
            invariant
                i <= self.entries.len(),
                rows_of(entries@) == rows_of(self.entries@).take(i as int),
            decreases self.entries.len() - i,
        {
            let ghost copied = rows_of(entries@);
            let (name, value) = (self.entries[i].0.clone(), self.entries[i].1.clone());
            entries.push((name, value));
            assert(rows_of(entries@) =~= copied.push((name@, value@)));
            assert(copied.push((name@, value@)) =~= rows_of(self.entries@).take(i + 1));
            i += 1;
        }
        assert(rows_of(entries@) =~= self@);
        TextTable { entries }
    }
}

/// A name that comes after the rows below `i` and before the others is not bound.
proof fn absent_between(rows: Rows, name: Seq<char>, i: int)
    requires
        0 <= i <= rows.len(),
        forall|k: int| 0 <= k < i ==> text::text_before(#[trigger] rows[k].0, name),
        forall|k: int| i <= k < rows.len() ==> text::text_before(name, #[trigger] rows[k].0),
    ensures
        !is_bound(rows, name),
{
    text::text_before_irreflexive(name);
}

/// A row put between the names before it and after it leaves the table in order.
proof fn insertion_keeps_order(rows: Rows, i: int, row: (Seq<char>, Seq<char>))
    requires
        is_ordered(rows),
        0 <= i <= rows.len(),
        forall|k: int| 0 <= k < i ==> text::text_before(#[trigger] rows[k].0, row.0),
        forall|k: int| i <= k < rows.len() ==> text::text_before(row.0, #[trigger] rows[k].0),
    ensures
        is_ordered(rows.insert(i, row)),
{
    let after = rows.insert(i, row);
    assert forall|a: int, b: int| 0 <= a < b < after.len() implies text::text_before(
        #[trigger] after[a].0,
        #[trigger] after[b].0,
    ) by {
        assert(after[a] == if a < i { rows[a] } else if a == i { row } else { rows[a - 1] });
        assert(after[b] == if b < i { rows[b] } else if b == i { row } else { rows[b - 1] });
    }
}

/// What a table answers once a row with a new name was put into it.
proof fn insertion_answers(rows: Rows, i: int, row: (Seq<char>, Seq<char>))
    requires
        is_ordered(rows),
        is_ordered(rows.insert(i, row)),
        0 <= i <= rows.len(),
    ensures
        lookup(rows.insert(i, row), row.0) == Some(row.1),
        forall|other: Seq<char>|
            other != row.0 ==> #[trigger] lookup(rows.insert(i, row), other) == lookup(rows, other),
{
    let after = rows.insert(i, row);
    assert(after[i] == row);
    lookup_of_row(after, i);
    assert forall|other: Seq<char>| other != row.0 implies #[trigger] lookup(after, other)
        == lookup(rows, other) by {
        if is_bound(rows, other) {
            let k = row_of(rows, other);
            lookup_of_row(rows, k);
            let l = if k < i { k } else { k + 1 };
            assert(after[l] == rows[k]);
            lookup_of_row(after, l);
        } else if is_bound(after, other) {
            let l = row_of(after, other);
            let k = if l < i { l } else { l - 1 };
            assert(after[l] == rows[k]);
        }
    }
}

/// What a table answers once a row was taken out of it.
proof fn removal_answers(rows: Rows, i: int)
    requires
        is_ordered(rows),
        0 <= i < rows.len(),
    ensures
        is_ordered(rows.remove(i)),
        lookup(rows, rows[i].0) == Some(rows[i].1),
        lookup(rows.remove(i), rows[i].0) is None,
        forall|other: Seq<char>|
            other != rows[i].0 ==> #[trigger] lookup(rows.remove(i), other) == lookup(rows, other),
{
    let after = rows.remove(i);
    assert forall|a: int, b: int| 0 <= a < b < after.len() implies text::text_before(
        #[trigger] after[a].0,
        #[trigger] after[b].0,
    ) by {
        assert(after[a] == if a < i { rows[a] } else { rows[a + 1] });
        assert(after[b] == if b < i { rows[b] } else { rows[b + 1] });
    }
    lookup_of_row(rows, i);
    if is_bound(after, rows[i].0) {
        let l = row_of(after, rows[i].0);
        let k = if l < i { l } else { l + 1 };
        assert(after[l] == rows[k]);
        ordered_names_differ(rows, i, k);
    }
    assert forall|other: Seq<char>| other != rows[i].0 implies #[trigger] lookup(after, other)
        == lookup(rows, other) by {
        if is_bound(rows, other) {
            let k = row_of(rows, other);
            lookup_of_row(rows, k);
            let l = if k < i { k } else { k - 1 };
            assert(after[l] == rows[k]);
            lookup_of_row(after, l);
        } else if is_bound(after, other) {
            let l = row_of(after, other);
            let k = if l < i { l } else { l + 1 };
            assert(after[l] == rows[k]);
        }
    }
}

} // verus!
