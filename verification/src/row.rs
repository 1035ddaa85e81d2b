//! Result rows: what a query hands back for each row of the engine.

use crate::codec::{decode, from_sql};
use crate::value::{sql_models, DynModel, DynValue, SqlModel, SqlValue};
use vstd::prelude::*;
use vstd::string::*;

verus! {

/// One result row: the cells of the row in column order, each under the name
/// of its column. Read as a mapping from column name to value, a name that
/// occurs more than once stands for its last cell.
#[derive(Debug, Clone, PartialEq)]
pub struct Row {
    pub cells: Vec<(String, DynValue)>,
}

/// The models of named cells, in order.
pub open spec fn pair_models(pairs: Seq<(String, DynValue)>) -> Seq<(Seq<char>, DynModel)> {
    Seq::new(pairs.len(), |i: int| (pairs[i].0@, pairs[i].1@))
}

/// The models of column names, in order.
pub open spec fn name_models(names: Seq<String>) -> Seq<Seq<char>> {
    Seq::new(names.len(), |i: int| names[i]@)
}

/// The models of the rows an engine handed out, in order.
pub open spec fn fetched_models(fetched: Seq<Vec<SqlValue>>) -> Seq<Seq<SqlModel>> {
    Seq::new(fetched.len(), |i: int| sql_models(fetched[i]@))
}

/// The models of result rows, in order.
pub open spec fn row_models(rows: Seq<Row>) -> Seq<Map<Seq<char>, DynModel>> {
    Seq::new(rows.len(), |i: int| rows[i]@)
}

/// The mapping that named cells stand for: each name maps to the value of
/// the last cell that bears it.
pub open spec fn row_map(pairs: Seq<(Seq<char>, DynModel)>) -> Map<Seq<char>, DynModel>
    decreases pairs.len(),
{
    if pairs.len() == 0 {
        Map::empty()
    } else {
        row_map(pairs.drop_last()).insert(pairs.last().0, pairs.last().1)
    }
}

/// The number of cells a row is built from: a column without a cell, or a
/// cell without a column, is left out.
pub open spec fn width(names: Seq<Seq<char>>, cells: Seq<SqlModel>) -> nat {
    if names.len() <= cells.len() {
        names.len()
    } else {
        cells.len()
    }
}

/// The named cells of a row: column `i` paired with the caller value that
/// cell `i` is read as.
pub open spec fn zip_cells(names: Seq<Seq<char>>, cells: Seq<SqlModel>) -> Seq<
    (Seq<char>, DynModel),
> {
    Seq::new(width(names, cells), |i: int| (names[i], from_sql(cells[i])))
}

/// The result row for one row of the engine.
pub open spec fn row_of(names: Seq<Seq<char>>, cells: Seq<SqlModel>) -> Map<Seq<char>, DynModel> {
    row_map(zip_cells(names, cells))
}

/// The result rows for the rows of the engine, in the order they came.
pub open spec fn rows_of(names: Seq<Seq<char>>, fetched: Seq<Seq<SqlModel>>) -> Seq<
    Map<Seq<char>, DynModel>,
> {
    Seq::new(fetched.len(), |i: int| row_of(names, fetched[i]))
}

impl View for Row {
    type V = Map<Seq<char>, DynModel>;

    open spec fn view(&self) -> Map<Seq<char>, DynModel> {
        row_map(pair_models(self.cells@))
    }
}

/// A name that no cell bears is not in the mapping.
pub proof fn lemma_row_map_absent(pairs: Seq<(Seq<char>, DynModel)>, name: Seq<char>)
    requires
        forall|j: int| 0 <= j < pairs.len() ==> pairs[j].0 != name,
    ensures
        !row_map(pairs).contains_key(name),
    decreases pairs.len(),
{
    if pairs.len() > 0 {
        lemma_row_map_absent(pairs.drop_last(), name);
    }
}

/// A name maps to the value of the last cell that bears it.
pub proof fn lemma_row_map_last(pairs: Seq<(Seq<char>, DynModel)>, i: int)
    requires
        0 <= i < pairs.len(),
        forall|j: int| i < j < pairs.len() ==> pairs[j].0 != pairs[i].0,
    ensures
        row_map(pairs).contains_key(pairs[i].0),
        row_map(pairs)[pairs[i].0] == pairs[i].1,
    decreases pairs.len(),
{
    if i < pairs.len() - 1 {
        lemma_row_map_last(pairs.drop_last(), i);
    }
}

impl Row {
    /// Looks a column up by name: the value of the last cell under that
    /// name, or `None` if the row has no such column.
    pub fn get(&self, name: &str) -> (found: Option<&DynValue>)
        ensures
            match found {
                Some(value) => self@.contains_key(name@) && self@[name@] == value@,
                None => !self@.contains_key(name@),
            },
    {
        let wanted = String::from_str(name);
        let ghost pairs = pair_models(self.cells@);
        let mut i: usize = self.cells.len();
        while i > 0
            invariant
                i <= self.cells.len(),
                wanted@ == name@,
                pairs == pair_models(self.cells@),
                forall|j: int| i <= j < pairs.len() ==> pairs[j].0 != name@,
            decreases i,
        {
            i -= 1;
            if self.cells[i].0 == wanted {
                proof {
                    assert(pairs[i as int].0 == name@);
                    lemma_row_map_last(pairs, i as int);
                }
                return Some(&self.cells[i].1);
            }
        }
        proof {
            lemma_row_map_absent(pairs, name@);
        }
        None
    }
}

/// Builds the result row for one row of the engine.
pub fn decode_row(names: &Vec<String>, cells: &Vec<SqlValue>) -> (row: Row)
    ensures
        pair_models(row.cells@) == zip_cells(name_models(names@), sql_models(cells@)),
        row@ == row_of(name_models(names@), sql_models(cells@)),
{
    let mut pairs: Vec<(String, DynValue)> = Vec::new();
    let mut i: usize = 0;
    while i < names.len() && i < cells.len()
        invariant
            i <= names.len(),
            i <= cells.len(),
            pairs.len() == i,
            forall|j: int|
                0 <= j < i ==> (#[trigger] pairs[j]).0@ == names[j]@ && pairs[j].1@ == from_sql(
                    cells[j]@,
                ),
        decreases names.len() - i,
    {
        let value = decode(&cells[i]);
        pairs.push((names[i].clone(), value));
        i += 1;
    }
    assert(pair_models(pairs@) =~= zip_cells(name_models(names@), sql_models(cells@)));
    Row { cells: pairs }
}

/// Builds the result rows for the rows of the engine, in the order they
/// came.
pub fn decode_rows(names: &Vec<String>, fetched: &Vec<Vec<SqlValue>>) -> (rows: Vec<Row>)
    ensures
        row_models(rows@) == rows_of(name_models(names@), fetched_models(fetched@)),
{
    let mut rows: Vec<Row> = Vec::new();
    let mut i: usize = 0;
    while i < fetched.len()
        invariant
            i <= fetched.len(),
            rows.len() == i,
            forall|j: int|
                0 <= j < i ==> (#[trigger] rows[j])@ == row_of(
                    name_models(names@),
                    sql_models(fetched[j]@),
                ),
        decreases fetched.len() - i,
    {
        let row = decode_row(names, &fetched[i]);
        rows.push(row);
        i += 1;
    }
    assert(row_models(rows@) =~= rows_of(name_models(names@), fetched_models(fetched@)));
    rows
}

/// A query that the engine answers with no rows yields the empty sequence
/// of result rows, whatever its columns are.
pub proof fn law_no_rows(names: Seq<Seq<char>>)
    ensures
        rows_of(names, Seq::empty()) == Seq::<Map<Seq<char>, DynModel>>::empty(),
{
    assert(rows_of(names, Seq::empty()) =~= Seq::<Map<Seq<char>, DynModel>>::empty());
}

/// There is one result row for each row of the engine, in the same order,
/// built from that row alone.
pub proof fn law_rows_in_order(names: Seq<Seq<char>>, fetched: Seq<Seq<SqlModel>>)
    ensures
        rows_of(names, fetched).len() == fetched.len(),
        forall|i: int|
            0 <= i < fetched.len() ==> (#[trigger] rows_of(names, fetched)[i]) == row_of(
                names,
                fetched[i],
            ),
{
}

/// A result row has exactly the columns that come with a cell, and each
/// holds what its last cell is read as: where a column name repeats, the
/// last write wins.
pub proof fn law_last_column_wins(names: Seq<Seq<char>>, cells: Seq<SqlModel>, name: Seq<char>)
    ensures
        row_of(names, cells).contains_key(name) <==> exists|i: int|
            0 <= i < width(names, cells) && names[i] == name,
        forall|i: int|
            0 <= i < width(names, cells) && names[i] == name && (forall|j: int|
                i < j < width(names, cells) ==> names[j] != name) ==> row_of(names, cells)[name]
                == from_sql(cells[i]),
{
    let pairs = zip_cells(names, cells);
    if exists|i: int| 0 <= i < width(names, cells) && names[i] == name {
        let last = choose|i: int|
            0 <= i < width(names, cells) && names[i] == name && (forall|j: int|
                i < j < width(names, cells) ==> names[j] != name);
        lemma_has_last(names, name, width(names, cells) as int);
        assert(pairs[last].0 == name);
        lemma_row_map_last(pairs, last);
    } else {
        lemma_row_map_absent(pairs, name);
    }
    assert forall|i: int|
        0 <= i < width(names, cells) && names[i] == name && (forall|j: int|
            i < j < width(names, cells) ==> names[j] != name) implies row_of(names, cells)[name]
        == from_sql(cells[i]) by {
        assert(pairs[i].0 == name);
        lemma_row_map_last(pairs, i);
    }
}

/// Among the first `n` names, a name that occurs has a last occurrence.
proof fn lemma_has_last(names: Seq<Seq<char>>, name: Seq<char>, n: int)
    requires
        0 <= n <= names.len(),
        exists|i: int| 0 <= i < n && names[i] == name,
    ensures
        exists|i: int|
            0 <= i < n && names[i] == name && (forall|j: int| i < j < n ==> names[j] != name),
    decreases n,
{
    if names[n - 1] == name {
        assert(0 <= n - 1 < n && names[n - 1] == name && (forall|j: int|
            n - 1 < j < n ==> names[j] != name));
    } else {
        let w = choose|i: int| 0 <= i < n && names[i] == name;
        assert(0 <= w < n - 1 && names[w] == name);
        lemma_has_last(names, name, n - 1);
        let l = choose|i: int|
            0 <= i < n - 1 && names[i] == name && (forall|j: int|
                i < j < n - 1 ==> names[j] != name);
        assert(0 <= l < n && names[l] == name && (forall|j: int| l < j < n ==> names[j] != name));
    }
}

} // verus!
