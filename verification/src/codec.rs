//! Conversion between caller values and engine values, in both directions,
//! and the shaping of a parameter list into the rows a statement is run with.

use crate::value::{
    lemma_array_model,
    models,
    sql_models,
    DynModel,
    DynValue,
    SqlModel,
    SqlValue,
};
use vstd::prelude::*;

verus! {

/// The engine value a caller value is bound as, or `None` where it has no
/// counterpart and no bind is made for it. A truth value is bound as the
/// integer 0 or 1.
pub open spec fn to_sql(value: DynModel) -> Option<SqlModel> {
    match value {
        DynModel::Null => Some(SqlModel::Null),
        DynModel::Boolean(b) => Some(
            SqlModel::Integer(
                if b {
                    1i64
                } else {
                    0i64
                },
            ),
        ),
        DynModel::Integer(n) => Some(SqlModel::Integer(n)),
        DynModel::Float(f) => Some(SqlModel::Float(f)),
        DynModel::Text(s) => Some(SqlModel::Text(s)),
        DynModel::Array(_) => None,
        DynModel::Unsupported => None,
    }
}

/// The caller value a result cell is read as. A blob is read as the array of
/// its byte values.
pub open spec fn from_sql(cell: SqlModel) -> DynModel {
    match cell {
        SqlModel::Null => DynModel::Null,
        SqlModel::Integer(n) => DynModel::Integer(n),
        SqlModel::Float(f) => DynModel::Float(f),
        SqlModel::Text(s) => DynModel::Text(s),
        SqlModel::Binary(bytes) => DynModel::Array(
            Seq::new(bytes.len(), |i: int| DynModel::Integer(bytes[i] as i64)),
        ),
    }
}

/// Whether a parameter list is a batch: its first element is itself a
/// sequence. An empty list is not.
pub open spec fn spec_is_batch(values: Seq<DynModel>) -> bool {
    values.len() > 0 && values[0] is Array
}

/// Whether a parameter list is one flat row or a sequence of rows: once its
/// first element is a sequence, every element is.
pub open spec fn well_shaped(values: Seq<DynModel>) -> bool {
    spec_is_batch(values) ==> forall|i: int| 0 <= i < values.len() ==> values[i] is Array
}

/// The rows a statement is run with, in order: the elements of a batch, or
/// the whole list as the single row of a flat list.
pub open spec fn bind_rows(values: Seq<DynModel>) -> Seq<Seq<DynModel>> {
    if spec_is_batch(values) {
        Seq::new(values.len(), |i: int| values[i]->Array_0)
    } else {
        seq![values]
    }
}

/// What one row asks of a statement: entry `i` is the value bound at
/// position `i + 1`, or `None` where no bind is made at that position.
pub open spec fn slots(row: Seq<DynModel>) -> Seq<Option<SqlModel>> {
    Seq::new(row.len(), |i: int| to_sql(row[i]))
}

/// The parameters of a query, one for each element of the list: element
/// `i` is the parameter at position `i + 1`. An element without an engine
/// value keeps its position and is bound as NULL, which is what a position
/// reads as that nothing was bound to; no later element moves into its
/// place.
pub open spec fn params_of(values: Seq<DynModel>) -> Seq<SqlModel> {
    Seq::new(
        values.len(),
        |i: int|
            match to_sql(values[i]) {
                Some(cell) => cell,
                None => SqlModel::Null,
            },
    )
}

/// Whether position `i + 1` is among those that the earlier runs of a batch
/// have bound.
pub open spec fn flagged(flags: Seq<bool>, i: int) -> bool {
    0 <= i < flags.len() && flags[i]
}

/// Whether a row gives a value for position `i + 1`.
pub open spec fn gives(row: Seq<DynModel>, i: int) -> bool {
    0 <= i < row.len() && to_sql(row[i]) is Some
}

/// The number of positions that a run looks at: those of its row and those
/// that earlier runs have bound.
pub open spec fn reach(row: Seq<DynModel>, flags: Seq<bool>) -> nat {
    if row.len() >= flags.len() {
        row.len()
    } else {
        flags.len()
    }
}

/// The positions bound after a run: those bound before it and those its row
/// gives a value for.
pub open spec fn marked(row: Seq<DynModel>, flags: Seq<bool>) -> Seq<bool> {
    Seq::new(reach(row, flags), |i: int| flagged(flags, i) || gives(row, i))
}

/// What one run of a batch asks of a statement, given the positions that
/// earlier runs have bound: entry `i` is the value bound at position
/// `i + 1`. That is the row's own value where it gives one; NULL where it
/// gives none but an earlier run has bound the position, so that nothing of
/// an earlier row stays bound; and `None`, no bind, anywhere else.
pub open spec fn cleared_slots(row: Seq<DynModel>, flags: Seq<bool>) -> Seq<Option<SqlModel>> {
    Seq::new(
        reach(row, flags),
        |i: int|
            if gives(row, i) {
                to_sql(row[i])
            } else if flagged(flags, i) {
                Some(SqlModel::Null)
            } else {
                None
            },
    )
}

/// The positions that the first `k` rows have bound.
pub open spec fn flags_upto(rows: Seq<Seq<DynModel>>, k: int) -> Seq<bool>
    decreases k,
{
    if k <= 0 {
        Seq::empty()
    } else {
        marked(rows[k - 1], flags_upto(rows, k - 1))
    }
}

/// The models of a vector of optional engine values, in order.
pub open spec fn slot_models(slots: Seq<Option<SqlValue>>) -> Seq<Option<SqlModel>> {
    Seq::new(
        slots.len(),
        |i: int|
            match slots[i] {
                Some(cell) => Some(cell@),
                None => None,
            },
    )
}

/// What a parameter list asks of a statement, run by run: entry `k` holds
/// the binds of the `k`-th run, as [`cleared_slots`] gives them for its row
/// and the positions that the rows before it have bound. The first run, and
/// the only run of a flat list, binds as [`slots`] says.
pub open spec fn plan_of(values: Seq<DynModel>) -> Seq<Seq<Option<SqlModel>>> {
    Seq::new(
        bind_rows(values).len(),
        |k: int| cleared_slots(bind_rows(values)[k], flags_upto(bind_rows(values), k)),
    )
}

/// The models of the runs of a plan, in order.
pub open spec fn plan_models(plan: Seq<Vec<Option<SqlValue>>>) -> Seq<Seq<Option<SqlModel>>> {
    Seq::new(plan.len(), |k: int| slot_models(plan[k]@))
}

/// Converts a caller value into the engine value it is bound as.
pub fn encode(value: &DynValue) -> (cell: Option<SqlValue>)
    ensures
        match cell {
            Some(c) => to_sql(value@) == Some(c@),
            None => to_sql(value@) is None,
        },
{
    match value {
        DynValue::Null => Some(SqlValue::Null),
        DynValue::Boolean(b) => {
            if *b {
                Some(SqlValue::Integer(1))
            } else {
                Some(SqlValue::Integer(0))
            }
        },
        DynValue::Integer(n) => Some(SqlValue::Integer(*n)),
        DynValue::Float(f) => Some(SqlValue::Float(f.clone())),
        DynValue::Text(s) => Some(SqlValue::Text(s.clone())),
        DynValue::Array(_) => None,
        DynValue::Unsupported => None,
    }
}

/// Converts a result cell into the caller value it is read as.
pub fn decode(cell: &SqlValue) -> (value: DynValue)
    ensures
        value@ == from_sql(cell@),
{
    match cell {
        SqlValue::Null => DynValue::Null,
        SqlValue::Integer(n) => DynValue::Integer(*n),
        SqlValue::Float(f) => DynValue::Float(f.clone()),
        SqlValue::Text(s) => DynValue::Text(s.clone()),
        SqlValue::Binary(bytes) => {
            let mut items: Vec<DynValue> = Vec::new();
            let mut i: usize = 0;
            while i < bytes.len()
                invariant
                    i <= bytes.len(),
                    items.len() == i,
                    forall|j: int|
                        0 <= j < i ==> (#[trigger] items[j])@ == DynModel::Integer(bytes[j] as i64),
                decreases bytes.len() - i,
            {
                items.push(DynValue::Integer(bytes[i] as i64));
                i += 1;
            }
            proof {
                lemma_array_model(items);
                assert(models(items@) =~= from_sql(cell@)->Array_0);
            }
            DynValue::Array(items)
        },
    }
}

/// Tells whether a parameter list is a batch.
pub fn is_batch(values: &Vec<DynValue>) -> (batch: bool)
    ensures
        batch == spec_is_batch(models(values@)),
{
    if values.len() == 0 {
        false
    } else {
        match &values[0] {
            DynValue::Array(_) => true,
            _ => false,
        }
    }
}

/// Computes what one row asks of a statement: entry `i` of the result is
/// bound at position `i + 1`, and nothing is bound where it is `None`.
pub fn row_slots(row: &Vec<DynValue>) -> (found: Vec<Option<SqlValue>>)
    ensures
        slot_models(found@) == slots(models(row@)),
{
    let mut found: Vec<Option<SqlValue>> = Vec::new();
    let mut i: usize = 0;
    while i < row.len()
        invariant
            i <= row.len(),
            found.len() == i,
            forall|j: int| 0 <= j < i ==> slot_models(found@)[j] == to_sql(#[trigger] row[j]@),
        decreases row.len() - i,
    {
        let cell = encode(&row[i]);
        found.push(cell);
        i += 1;
    }
    assert(slot_models(found@) =~= slots(models(row@)));
    found
}

/// Computes what one run asks of a statement, and the positions bound
/// after it, from its row and the positions bound before it.
pub fn next_run(row: &Vec<DynValue>, flags: &Vec<bool>) -> (out: (Vec<Option<SqlValue>>, Vec<bool>))
    ensures
        slot_models(out.0@) == cleared_slots(models(row@), flags@),
        out.1@ == marked(models(row@), flags@),
{
    let mut run: Vec<Option<SqlValue>> = Vec::new();
    let mut marks: Vec<bool> = Vec::new();
    let n: usize = if row.len() >= flags.len() {
        row.len()
    } else {
        flags.len()
    };
    let mut i: usize = 0;
    while i < n
        invariant
            i <= n,
            n == reach(models(row@), flags@),
            run.len() == i,
            marks.len() == i,
            forall|j: int|
                0 <= j < i ==> (#[trigger] slot_models(run@)[j]) == cleared_slots(
                    models(row@),
                    flags@,
                )[j],
            forall|j: int| 0 <= j < i ==> (#[trigger] marks[j]) == marked(models(row@), flags@)[j],
        decreases n - i,
    {
        let ghost before = slot_models(run@);
        let was = i < flags.len() && flags[i];
        let given = if i < row.len() {
            encode(&row[i])
        } else {
            None
        };
        match given {
            Some(cell) => {
                run.push(Some(cell));
                marks.push(true);
            },
            None => {
                if was {
                    run.push(Some(SqlValue::Null));
                } else {
                    run.push(None);
                }
                marks.push(was);
            },
        }
        assert forall|j: int| 0 <= j < i + 1 implies (#[trigger] slot_models(run@)[j])
            == cleared_slots(models(row@), flags@)[j] by {
            if j < i {
                assert(slot_models(run@)[j] == before[j]);
            }
        }
        i += 1;
    }
    assert(slot_models(run@) =~= cleared_slots(models(row@), flags@));
    assert(marks@ =~= marked(models(row@), flags@));
    (run, marks)
}

/// Computes what a parameter list asks of a statement: one entry per run,
/// in order. A batch has one run per row; a flat list, the empty one
/// included, has one run. The first run binds as [`row_slots`] gives it; a
/// later run of a batch also binds NULL at each position that an earlier
/// run has bound and its own row gives no value for.
pub fn bind_plan(values: &Vec<DynValue>) -> (plan: Vec<Vec<Option<SqlValue>>>)
    requires
        well_shaped(models(values@)),
    ensures
        plan_models(plan@) == plan_of(models(values@)),
{
    let mut plan: Vec<Vec<Option<SqlValue>>> = Vec::new();
    let mut flags: Vec<bool> = Vec::new();
    let ghost rows = bind_rows(models(values@));
    if is_batch(values) {
        let mut k: usize = 0;
        while k < values.len()
            invariant
                k <= values.len(),
                plan.len() == k,
                spec_is_batch(models(values@)),
                well_shaped(models(values@)),
                rows == bind_rows(models(values@)),
                flags@ == flags_upto(rows, k as int),
                forall|j: int|
                    0 <= j < k ==> slot_models((#[trigger] plan[j])@) == cleared_slots(
                        rows[j],
                        flags_upto(rows, j),
                    ),
            decreases values.len() - k,
        {
            assert(models(values@)[k as int] is Array);
            match &values[k] {
                DynValue::Array(row) => {
                    proof {
                        lemma_array_model(*row);
                        assert(rows[k as int] == models(row@));
                    }
                    let (run, marks) = next_run(row, &flags);
                    plan.push(run);
                    flags = marks;
                },
                _ => {
                    assert(false);
                },
            }
            k += 1;
        }
    } else {
        let (run, _marks) = next_run(values, &flags);
        plan.push(run);
        assert(rows[0] == models(values@));
    }
    assert(plan_models(plan@) =~= plan_of(models(values@)));
    plan
}

/// Computes the parameters of a query from a flat list of caller values:
/// one for each element, in order, with NULL in the place of an element
/// that has no engine value.
pub fn select_params(values: &Vec<DynValue>) -> (params: Vec<SqlValue>)
    ensures
        sql_models(params@) == params_of(models(values@)),
{
    let mut params: Vec<SqlValue> = Vec::new();
    let mut i: usize = 0;
    while i < values.len()
        invariant
            i <= values.len(),
            params.len() == i,
            forall|j: int|
                0 <= j < i ==> (#[trigger] params[j])@ == params_of(models(values@))[j],
        decreases values.len() - i,
    {
        match encode(&values[i]) {
            Some(cell) => {
                params.push(cell);
            },
            None => {
                params.push(SqlValue::Null);
            },
        }
        i += 1;
    }
    assert(sql_models(params@) =~= params_of(models(values@)));
    params
}

/// Every value that is null, an integer, a float or a piece of text is bound
/// and read back as itself.
pub proof fn law_round_trip(value: DynModel)
    requires
        value is Null || value is Integer || value is Float || value is Text,
    ensures
        to_sql(value) is Some,
        from_sql(to_sql(value)->0) == value,
{
}

/// A truth value is bound as an integer and comes back as that integer: 1
/// for true, 0 for false.
pub proof fn law_boolean_is_bound_as_integer(b: bool)
    ensures
        to_sql(DynModel::Boolean(b)) == Some(SqlModel::Integer(if b { 1i64 } else { 0i64 })),
        from_sql(to_sql(DynModel::Boolean(b))->0) == DynModel::Integer(if b { 1i64 } else { 0i64 }),
{
}

/// A blob does not come back as a blob: it is read as an array that holds
/// one integer per byte, in order, and such an array cannot be bound again.
pub proof fn law_binary_is_read_as_bytes(bytes: Seq<u8>)
    ensures
        from_sql(SqlModel::Binary(bytes)) is Array,
        from_sql(SqlModel::Binary(bytes))->Array_0.len() == bytes.len(),
        forall|i: int|
            0 <= i < bytes.len() ==> (#[trigger] from_sql(SqlModel::Binary(bytes))->Array_0[i])
                == DynModel::Integer(bytes[i] as i64),
        to_sql(from_sql(SqlModel::Binary(bytes))) is None,
{
}

/// The parameters of a query keep the positions of the list: there is one
/// for each element, an element with an engine value is bound as that value
/// at its own position, and an element without one is bound as NULL there,
/// so that no element ever takes the position of another.
pub proof fn law_params_keep_positions(values: Seq<DynModel>)
    ensures
        params_of(values).len() == values.len(),
        forall|i: int|
            0 <= i < values.len() && to_sql(values[i]) is Some ==> Some(
                #[trigger] params_of(values)[i],
            ) == to_sql(values[i]),
        forall|i: int|
            0 <= i < values.len() && to_sql(values[i]) is None ==> (#[trigger] params_of(
                values,
            )[i]) == SqlModel::Null,
{
}

/// A batch of N rows runs the statement exactly N times, in the order of
/// the rows, and the k-th run binds each value that the k-th row gives at
/// the position of that value.
pub proof fn law_batch_runs(values: Seq<DynModel>)
    requires
        spec_is_batch(values),
        well_shaped(values),
    ensures
        plan_of(values).len() == values.len(),
        forall|k: int, i: int|
            0 <= k < values.len() && gives(values[k]->Array_0, i) ==> i < plan_of(values)[k].len()
                && (#[trigger] plan_of(values)[k][i]) == to_sql(values[k]->Array_0[i]),
{
}

/// A position that some run has bound stays among the bound positions of
/// every later run.
pub proof fn lemma_flags_stay(rows: Seq<Seq<DynModel>>, j: int, k: int, i: int)
    requires
        0 <= j < k,
        flagged(flags_upto(rows, j), i) || gives(rows[j], i),
    ensures
        flagged(flags_upto(rows, k), i),
    decreases k,
{
    if j + 1 < k {
        lemma_flags_stay(rows, j, k - 1, i);
    }
}

/// Each row of a batch is bound independently: wherever an earlier run has
/// bound a position, every later run binds that position itself, with its
/// own row's value where the row gives one and with NULL where it gives
/// none. So no value of an earlier row is in effect when a later row runs.
pub proof fn law_rows_are_independent(values: Seq<DynModel>, j: int, k: int, i: int)
    requires
        well_shaped(values),
        0 <= j < k < plan_of(values).len(),
        0 <= i < plan_of(values)[j].len(),
        plan_of(values)[j][i] is Some,
    ensures
        i < plan_of(values)[k].len(),
        plan_of(values)[k][i] is Some,
        gives(bind_rows(values)[k], i) ==> plan_of(values)[k][i] == to_sql(bind_rows(values)[k][i]),
        !gives(bind_rows(values)[k], i) ==> plan_of(values)[k][i] == Some(SqlModel::Null),
{
    lemma_flags_stay(bind_rows(values), j, k, i);
}

/// The first run of a plan, which is the only run of a flat list, binds
/// element `i` of its row at position `i + 1`, as that element alone
/// decides, and nothing else.
pub proof fn law_first_run(values: Seq<DynModel>)
    ensures
        plan_of(values).len() >= 1,
        plan_of(values)[0] == slots(bind_rows(values)[0]),
        !spec_is_batch(values) ==> plan_of(values).len() == 1 && plan_of(values)[0] == slots(
            values,
        ),
{
    assert(plan_of(values)[0] =~= slots(bind_rows(values)[0]));
}

} // verus!
