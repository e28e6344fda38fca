//! Tables of typed rows under named columns, and their vertical merge.

use crate::text::{same_texts, texts};
use vstd::prelude::*;

verus! {

/// An ordered set of named columns over rows of type `R`.
#[derive(Clone, Debug, PartialEq, Eq)]
pub struct Table<R> {
    /// The names of the columns, in order.
    pub columns: Vec<String>,
    /// The rows, in order.
    pub rows: Vec<R>,
}

impl<R> Table<R> {
    /// The names of the columns as texts.
    pub open spec fn column_names(self) -> Seq<Seq<char>> {
        texts(self.columns@)
    }

    /// A table with the given columns and no rows.
    pub fn empty(columns: Vec<String>) -> (t: Table<R>)
        ensures
            t.columns == columns,
            t.rows@.len() == 0,
    {
        Table { columns, rows: Vec::new() }
    }

    /// The number of rows.
    pub fn height(&self) -> (n: usize)
        ensures
            n == self.rows@.len(),
    {
        self.rows.len()
    }

    /// The number of columns.
    pub fn width(&self) -> (n: usize)
        ensures
            n == self.columns@.len(),
    {
        self.columns.len()
    }
}

/// The rows of those tables whose columns are named `names`, table after
/// table, each table's rows in their own order.
pub open spec fn stacked_rows<R>(tables: Seq<Table<R>>, names: Seq<Seq<char>>) -> Seq<R>
    decreases tables.len(),
{
    if tables.len() == 0 {
        Seq::empty()
    } else if tables.last().column_names() == names {
        stacked_rows(tables.drop_last(), names) + tables.last().rows@
    } else {
        stacked_rows(tables.drop_last(), names)
    }
}

/// The column names of a merge: those of the first table, or `fallback` where
/// there is no table.
pub open spec fn merged_names<R>(tables: Seq<Table<R>>, fallback: Seq<Seq<char>>) -> Seq<
    Seq<char>,
> {
    if tables.len() == 0 {
        fallback
    } else {
        tables[0].column_names()
    }
}

/// Stacks tables vertically. The result has the columns of the first table
/// and the rows of every table with those same columns, in order; a table
/// with other columns contributes nothing. Without any table the result is
/// the empty table over `empty_schema`.
pub fn merge<R>(tables: Vec<Table<R>>, empty_schema: Vec<String>) -> (merged: Table<R>)
    ensures
        merged.column_names() == merged_names(tables@, texts(empty_schema@)),
        merged.rows@ == stacked_rows(tables@, merged.column_names()),
{
    let ghost all = tables@;
    let mut rest = tables;
    if rest.len() == 0 {
        return Table { columns: empty_schema, rows: Vec::new() };
    }
    let mut kept: Vec<Table<R>> = Vec::new();
    // Take the tables from the back, so that each leaves the vector in one step.
    while rest.len() > 0
        invariant
            all == rest@ + kept@.reverse(),
        decreases rest.len(),
    {
        let t = rest.pop().unwrap();
        kept.push(t);
        assert(all =~= rest@ + kept@.reverse());
    }
    assert(all =~= kept@.reverse());
    let first = kept.pop().unwrap();
    assert(first == all[0]);
    let columns = first.columns;
    let mut rows = first.rows;
    let ghost names = texts(columns@);
    let ghost done: int = 1;
    assert(all.take(1).drop_last() =~= all.take(0));
    assert(stacked_rows(all.take(0), names) =~= Seq::<R>::empty());
    assert(rows@ =~= stacked_rows(all.take(1), names));
    while kept.len() > 0
        invariant
            1 <= done <= all.len(),
            done + kept.len() == all.len(),
            forall|k: int| 0 <= k < kept.len() ==> kept@[k] == all[all.len() - 1 - k],
            names == texts(columns@),
            rows@ == stacked_rows(all.take(done), names),
        decreases kept.len(),
    {
        let mut t = kept.pop().unwrap();
        assert(t == all[done]);
        assert(all.take(done + 1).drop_last() =~= all.take(done));
        assert(all.take(done + 1).last() == t);
        if same_texts(&t.columns, &columns) {
            rows.append(&mut t.rows);
        }
        proof {
            done = done + 1;
        }
    }
    assert(all.take(done) =~= all);
    Table { columns, rows }
}

/// The tables that are there, in order.
pub open spec fn present_tables<R>(parts: Seq<Option<Table<R>>>) -> Seq<Table<R>>
    decreases parts.len(),
{
    if parts.len() == 0 {
        Seq::empty()
    } else {
        match parts.last() {
            Some(t) => present_tables(parts.drop_last()).push(t),
            None => present_tables(parts.drop_last()),
        }
    }
}

/// Stacks the tables that are there, as `merge` does; a part without a table
/// contributes nothing.
pub fn merge_present<R>(parts: Vec<Option<Table<R>>>, empty_schema: Vec<String>) -> (t: Table<R>)
    ensures
        t.column_names() == merged_names(present_tables(parts@), texts(empty_schema@)),
        t.rows@ == stacked_rows(present_tables(parts@), t.column_names()),
{
    let ghost all = parts@;
    let mut rest = parts;
    let mut found: Vec<Table<R>> = Vec::new();
    // The parts leave from the back, so the tables found are in reverse.
    while rest.len() > 0
        invariant
            rest@.len() <= all.len(),
            rest@ == all.take(rest@.len() as int),
            present_tables(all) == present_tables(rest@) + found@.reverse(),
        decreases rest.len(),
    {
        let ghost before = rest@;
        let ghost found_before = found@;
        let part = rest.pop().unwrap();
        assert(rest@ =~= before.drop_last());
        assert(rest@ =~= all.take(rest@.len() as int));
        match part {
            Some(t) => {
                found.push(t);
                assert(found@.reverse() =~= seq![t] + found_before.reverse());
                assert(present_tables(before) + found_before.reverse() =~= present_tables(rest@)
                    + found@.reverse());
            },
            None => {},
        }
    }
    assert(present_tables(all) =~= found@.reverse());
    let mut tables: Vec<Table<R>> = Vec::new();
    while found.len() > 0
        invariant
            present_tables(all) == tables@ + found@.reverse(),
        decreases found.len(),
    {
        let ghost found_before = found@;
        let ghost tables_before = tables@;
        let t = found.pop().unwrap();
        tables.push(t);
        assert(found_before.reverse() =~= seq![t] + found@.reverse());
        assert(tables_before + found_before.reverse() =~= tables@ + found@.reverse());
    }
    assert(present_tables(all) =~= tables@);
    merge(tables, empty_schema)
}

/// A part without a table leaves no trace: the tables that are there are
/// those of the parts without it.
pub proof fn lemma_absent_part_skipped<R>(parts: Seq<Option<Table<R>>>, i: int)
    requires
        0 <= i < parts.len(),
        parts[i] is None,
    ensures
        present_tables(parts) == present_tables(parts.remove(i)),
    decreases parts.len(),
{
    if i == parts.len() - 1 {
        assert(parts.remove(i) =~= parts.drop_last());
    } else {
        lemma_absent_part_skipped(parts.drop_last(), i);
        assert(parts.remove(i).drop_last() =~= parts.drop_last().remove(i));
        assert(parts.remove(i).last() == parts.last());
    }
}

} // verus!
