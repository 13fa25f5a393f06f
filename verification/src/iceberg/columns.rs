//! Columns of plans, by name.

use vstd::prelude::*;
use vstd::string::*;

use crate::string_map::str_eq;

verus! {

use crate::iceberg::contents::texts;

/// The column that tells which file a row comes from.
pub const MERGE_FILE_COLUMN: &'static str = "__sail_file_path";

/// The position of the first column with the given name.
pub open spec fn column_position(columns: Seq<Seq<char>>, name: Seq<char>) -> Option<int>
    decreases columns.len(),
{
    if columns.len() == 0 {
        None
    } else {
        match column_position(columns.drop_last(), name) {
            Some(at) => Some(at),
            None => if columns.last() == name {
                Some(columns.len() - 1)
            } else {
                None
            },
        }
    }
}

proof fn lemma_column_position_prefix(columns: Seq<Seq<char>>, n: int, name: Seq<char>)
    requires
        0 <= n <= columns.len(),
    ensures
        column_position(columns.take(n), name) is Some ==> column_position(columns, name)
            == column_position(columns.take(n), name),
    decreases columns.len() - n,
{
    if n < columns.len() {
        assert(columns.take(n + 1).drop_last() =~= columns.take(n));
        lemma_column_position_prefix(columns, n + 1, name);
    } else {
        assert(columns.take(n) =~= columns);
    }
}

/// A column's position is in range and the column has the name; where there is no position, no
/// column has the name.
pub proof fn lemma_column_position(columns: Seq<Seq<char>>, name: Seq<char>)
    ensures
        column_position(columns, name) matches Some(at) ==> 0 <= at < columns.len() && columns[at]
            == name,
        column_position(columns, name) is None ==> !columns.contains(name),
    decreases columns.len(),
{
    if columns.len() > 0 {
        let init = columns.drop_last();
        lemma_column_position(init, name);
        if column_position(columns, name) is None && columns.contains(name) {
            let i = choose|i: int| 0 <= i < columns.len() && columns[i] == name;
            if i < init.len() {
                assert(init[i] == name);
            }
        }
    }
}

/// The position of the first column with the given name.
pub fn find_column(columns: &Vec<String>, name: &str) -> (at: Option<usize>)
    ensures
        match at {
            Some(i) => column_position(texts(columns@), name@) == Some(i as int) && i
                < columns@.len(),
            None => column_position(texts(columns@), name@) is None,
        },
{
    let ghost names = texts(columns@);
    for i in 0..columns.len()
        invariant
            names == texts(columns@),
            column_position(names.take(i as int), name@) is None,
    {
        proof {
            assert(names.take(i + 1).drop_last() =~= names.take(i as int));
            assert(names.take(i + 1).last() == columns@[i as int]@);
        }
        if str_eq(columns[i].as_str(), name) {
            proof {
                lemma_column_position_prefix(names, i + 1, name@);
            }
            return Some(i);
        }
    }
    assert(names.take(names.len() as int) =~= names);
    None
}

/// The columns of a table that an input has, with their positions in the input.
pub open spec fn kept_columns(input: Seq<Seq<char>>, table: Seq<Seq<char>>) -> Seq<
    (Seq<char>, int),
>
    decreases table.len(),
{
    if table.len() == 0 {
        Seq::empty()
    } else {
        let before = kept_columns(input, table.drop_last());
        match column_position(input, table.last()) {
            Some(at) => before.push((table.last(), at)),
            None => before,
        }
    }
}

/// Columns with their positions, by name.
pub open spec fn projection_view(projection: Seq<(String, usize)>) -> Seq<(Seq<char>, int)> {
    projection.map_values(|column: (String, usize)| (column.0@, column.1 as int))
}

/// Strip internal columns (file path, row ID, etc.) that are not part of the table schema.
/// Keeps only columns whose name matches a field of the table, in the order of the table.
pub fn strip_internal_columns(input: &Vec<String>, table_schema: &Vec<String>) -> (projection: Vec<
    (String, usize),
>)
    ensures
        projection_view(projection@) == kept_columns(texts(input@), texts(table_schema@)),
{
    let ghost table = texts(table_schema@);
    let mut projection: Vec<(String, usize)> = Vec::new();
    assert(projection_view(projection@) =~= kept_columns(texts(input@), table.take(0)));
    for i in 0..table_schema.len()
        invariant
            table == texts(table_schema@),
            projection_view(projection@) == kept_columns(texts(input@), table.take(i as int)),
    {
        let ghost before = projection_view(projection@);
        proof {
            assert(table.take(i + 1).drop_last() =~= table.take(i as int));
            assert(table.take(i + 1).last() == table_schema@[i as int]@);
        }
        match find_column(input, table_schema[i].as_str()) {
            Some(at) => {
                projection.push((table_schema[i].clone(), at));
                assert(projection_view(projection@) =~= before.push(
                    (table_schema@[i as int]@, at as int),
                ));
            },
            None => {},
        }
    }
    assert(table.take(table.len() as int) =~= table);
    projection
}

/// Stripping keeps the columns of the table that the input has, and no others; and it takes
/// each from where it stands in the input.
pub proof fn law_internal_columns_are_stripped(input: Seq<Seq<char>>, table: Seq<Seq<char>>)
    ensures
        forall|i: int|
            #![trigger kept_columns(input, table)[i]]
            0 <= i < kept_columns(input, table).len() ==> {
                let column = kept_columns(input, table)[i];
                0 <= column.1 < input.len() && input[column.1] == column.0 && table.contains(
                    column.0,
                )
            },
        forall|name: Seq<char>| #[trigger]
            table.contains(name) && input.contains(name) ==> exists|i: int|
                0 <= i < kept_columns(input, table).len() && (#[trigger] kept_columns(
                    input,
                    table,
                )[i]).0 == name,
    decreases table.len(),
{
    if table.len() > 0 {
        let (init, last) = (table.drop_last(), table.last());
        law_internal_columns_are_stripped(input, init);
        lemma_column_position(input, last);
        let before = kept_columns(input, init);
        let after = kept_columns(input, table);
        assert forall|i: int|
            #![trigger after[i]]
            0 <= i < after.len() implies {
            let column = after[i];
            0 <= column.1 < input.len() && input[column.1] == column.0 && table.contains(column.0)
        } by {
            if i < before.len() {
                assert(after[i] == before[i]);
                let k = choose|k: int| 0 <= k < init.len() && init[k] == before[i].0;
                assert(table[k] == before[i].0);
            } else {
                assert(table[table.len() - 1] == last);
            }
        }
        assert forall|name: Seq<char>| #[trigger]
            table.contains(name) && input.contains(name) implies exists|i: int|
            0 <= i < after.len() && (#[trigger] after[i]).0 == name by {
            let k = choose|k: int| 0 <= k < table.len() && table[k] == name;
            if k < init.len() {
                assert(init[k] == name);
                assert(init.contains(name));
                let i = choose|i: int| 0 <= i < before.len() && (#[trigger] before[i]).0 == name;
                assert(after[i].0 == name);
            } else {
                assert(after[after.len() - 1].0 == name);
            }
        }
    }
}

/// The columns of a plan with a column added, unless it is there already.
pub open spec fn with_column(columns: Seq<Seq<char>>, name: Seq<char>) -> Seq<Seq<char>> {
    if column_position(columns, name) is Some {
        columns
    } else {
        columns.push(name)
    }
}

/// Adds a column, unless it is there already.
pub fn add_column(columns: Vec<String>, name: &str) -> (extended: Vec<String>)
    ensures
        texts(extended@) == with_column(texts(columns@), name@),
{
    if find_column(&columns, name).is_some() {
        return columns;
    }
    let ghost before = texts(columns@);
    let mut columns = columns;
    columns.push(name.to_owned());
    assert(texts(columns@) =~= before.push(name@));
    columns
}

/// The columns other than the given one.
pub open spec fn other_column(name: Seq<char>) -> spec_fn(Seq<char>) -> bool {
    |column: Seq<char>| column != name
}

/// The columns other than the given one, in order.
pub fn without_column(columns: &Vec<String>, name: &str) -> (others: Vec<String>)
    ensures
        texts(others@) == texts(columns@).filter(other_column(name@)),
{
    let ghost all = texts(columns@);
    let mut others: Vec<String> = Vec::new();
    assert(texts(others@) =~= all.take(0).filter(other_column(name@))) by {
        reveal(Seq::filter);
    }
    for i in 0..columns.len()
        invariant
            all == texts(columns@),
            texts(others@) == all.take(i as int).filter(other_column(name@)),
    {
        let ghost before = texts(others@);
        proof {
            reveal(Seq::filter);
            assert(all.take(i + 1).drop_last() =~= all.take(i as int));
            assert(all.take(i + 1).last() == columns@[i as int]@);
        }
        if !str_eq(columns[i].as_str(), name) {
            others.push(columns[i].clone());
            assert(texts(others@) =~= before.push(columns@[i as int]@));
        }
    }
    assert(all.take(all.len() as int) =~= all);
    others
}

/// The projection of a scan with the position of a column added, unless it is there already.
pub open spec fn projected(projection: Seq<usize>, columns: Seq<Seq<char>>, name: Seq<char>) -> Seq<
    usize,
> {
    match column_position(columns, name) {
        Some(at) => if projection.contains(at as usize) {
            projection
        } else {
            projection.push(at as usize)
        },
        None => projection,
    }
}

/// The projection of a scan with the position of a column added, unless it is there already.
pub fn project_column(projection: Vec<usize>, columns: &Vec<String>, name: &str) -> (extended: Vec<
    usize,
>)
    ensures
        extended@ == projected(projection@, texts(columns@), name@),
{
    let mut extended = projection;
    match find_column(columns, name) {
        Some(at) => {
            let count: usize = extended.len();
            for i in 0..count
                invariant
                    count == extended@.len(),
                    extended@ == projection@,
                    column_position(texts(columns@), name@) == Some(at as int),
                    forall|j: int| 0 <= j < i ==> extended@[j] != at,
            {
                if extended[i] == at {
                    assert(projection@.contains(at));
                    return extended;
                }
            }
            extended.push(at);
        },
        None => {},
    }
    extended
}

/// The position of a column is the first one with its name.
pub proof fn law_column_positions(columns: Seq<Seq<char>>, name: Seq<char>)
    ensures
        match column_position(columns, name) {
            Some(at) => 0 <= at < columns.len() && columns[at] == name && forall|i: int|
                0 <= i < at ==> #[trigger] columns[i] != name,
            None => forall|i: int| 0 <= i < columns.len() ==> #[trigger] columns[i] != name,
        },
    decreases columns.len(),
{
    if columns.len() > 0 {
        let init = columns.drop_last();
        law_column_positions(init, name);
        assert forall|i: int| 0 <= i < init.len() implies init[i] == #[trigger] columns[i] by {}
        if column_position(init, name) is None {
            assert forall|i: int| 0 <= i < init.len() implies #[trigger] columns[i] != name by {
                assert(init[i] == columns[i]);
            }
        }
    }
}

/// Without a column, the others are left: each of them, and never that one. Where the column was
/// not there, nothing changes.
pub proof fn law_one_column_is_left_out(columns: Vec<String>, name: &str, others: Vec<String>)
    requires
        call_ensures(without_column, (&columns, name), others),
    ensures
        forall|column: Seq<char>| #[trigger]
            texts(others@).contains(column) <==> texts(columns@).contains(column) && column != name@,
        !texts(columns@).contains(name@) ==> texts(others@) == texts(columns@),
{
    broadcast use vstd::seq_lib::group_filter_ensures;

    let all = texts(columns@);
    let other = other_column(name@);
    assert forall|column: Seq<char>| #[trigger] all.filter(other).contains(column) <==> all.contains(
        column,
    ) && column != name@ by {
        if all.filter(other).contains(column) {
            let i = choose|i: int| 0 <= i < all.filter(other).len() && all.filter(other)[i] == column;
            assert(other(all.filter(other)[i]));
            all.lemma_filter_contains_rev(other, column);
        }
        if all.contains(column) && column != name@ {
            let i = choose|i: int| 0 <= i < all.len() && all[i] == column;
            assert(all.filter(other).contains(all[i]));
        }
    }
    if !all.contains(name@) {
        lemma_filter_keeps(all, other);
    }
}

proof fn lemma_filter_keeps(all: Seq<Seq<char>>, kept: spec_fn(Seq<char>) -> bool)
    requires
        forall|i: int| 0 <= i < all.len() ==> kept(#[trigger] all[i]),
    ensures
        all.filter(kept) == all,
    decreases all.len(),
{
    reveal(Seq::filter);
    if all.len() > 0 {
        let init = all.drop_last();
        assert forall|i: int| 0 <= i < init.len() implies kept(#[trigger] init[i]) by {
            assert(init[i] == all[i]);
        }
        lemma_filter_keeps(init, kept);
        assert(kept(all[all.len() - 1]));
        assert(all =~= init.push(all.last()));
    }
}

} // verus!
