//! The four operations: open a database, run a script, run a statement with
//! parameters, and query.

use crate::codec::{
    bind_plan,
    is_batch,
    params_of,
    plan_models,
    plan_of,
    select_params,
    slot_models,
    spec_is_batch,
    well_shaped,
};
use crate::engine::{open_connection, run_script};
use crate::error::{EngineError, Error};
use crate::registry::SqliteMap;
use crate::row::{decode_rows, fetched_models, name_models, row_models, rows_of, Row};
use crate::statement::{
    accepted,
    answered,
    binds_of,
    binds_upto,
    calls_of,
    calls_upto,
    lemma_accepted_join,
    lemma_answered_join,
    lemma_binds_prefix,
    lemma_calls_within,
    refusal,
    run_calls,
    Prepared,
    Request,
    Rows,
};
use crate::value::{models, sql_models, DynValue, SqlModel, SqlValue};
use vstd::prelude::*;

verus! {

/// What an operation without a result of its own reports for the outcome of
/// its last engine call: `true` after a success, the engine's failure
/// otherwise.
pub fn report(outcome: Result<(), EngineError>) -> (done: Result<bool, Error>)
    ensures
        match outcome {
            Ok(_) => done == Ok::<bool, Error>(true),
            Err(failure) => done == Err::<bool, Error>(Error::Sqlite(failure)),
        },
{
    match outcome {
        Ok(_) => Ok(true),
        Err(failure) => Err(Error::Sqlite(failure)),
    }
}

/// Finishes an opening: a connection is registered under the path, in place
/// of one that was there, and `true` is reported; a failure is reported and
/// leaves the registry as it was.
pub fn register(
    state: &mut SqliteMap,
    path: String,
    opened: Result<sqlite::Connection, EngineError>,
) -> (done: Result<bool, Error>)
    ensures
        match opened {
            Ok(connection) => done == Ok::<bool, Error>(true) && final(state)@ == old(
                state,
            )@.insert(path@, connection),
            Err(failure) => done == Err::<bool, Error>(Error::Sqlite(failure)) && final(state)@
                == old(state)@,
        },
{
    match opened {
        Ok(connection) => {
            state.insert(path, connection);
            Ok(true)
        },
        Err(failure) => Err(Error::Sqlite(failure)),
    }
}

/// Opens the database at `path`, creating it if it is absent, and registers
/// the connection under `path`. Opening a path again replaces the connection
/// that was registered. Whether the engine can open the path is its own
/// decision; a failure leaves the registry as it was.
pub fn open(state: &mut SqliteMap, path: String) -> (done: Result<bool, Error>)
    ensures
        match done {
            Ok(flag) => flag && exists|connection: sqlite::Connection|
                final(state)@ == old(state)@.insert(path@, connection),
            Err(error) => error is Sqlite && final(state)@ == old(state)@,
        },
{
    let opened = open_connection(path.as_str());
    register(state, path, opened)
}

/// Runs SQL text without parameters on the database open under `path`. It
/// fails with `DatabaseNotOpened`, carrying `path`, exactly if no database
/// is open under it; otherwise the engine decides between `true` and its
/// own failure.
pub fn execute(state: &SqliteMap, path: String, sql: String) -> (done: Result<bool, Error>)
    ensures
        !state@.contains_key(path@) ==> done == Err::<bool, Error>(Error::DatabaseNotOpened(path)),
        state@.contains_key(path@) ==> done == Ok::<bool, Error>(true) || (done is Err
            && done->Err_0 is Sqlite),
{
    let connection = match state.get(path.as_str()) {
        Ok(connection) => connection,
        Err(_) => {
            return Err(Error::DatabaseNotOpened(path));
        },
    };
    report(run_script(connection, sql.as_str()))
}

/// Makes the binds of one run: entry `i` at position `i + 1`, and nothing
/// at the position of an entry that is `None`. It stops at the first bind
/// the engine refuses and returns that failure. So it succeeds exactly if
/// the engine accepted every bind of the run, and fails exactly if the
/// engine refused one, which is then the last request made.
pub fn bind_slots(statement: &mut Prepared<'_>, run: &Vec<Option<SqlValue>>) -> (done: Result<
    (),
    EngineError,
>)
    ensures
        match done {
            Ok(_) => final(statement).asked() == old(statement).asked() + accepted(
                binds_of(slot_models(run@)),
            ),
            Err(failure) => exists|n: int|
                1 <= n <= binds_of(slot_models(run@)).len() && final(statement).asked() == old(
                    statement,
                ).asked() + answered(binds_of(slot_models(run@)), n, Some(failure)),
        },
        (forall|i: int| 0 <= i < run.len() ==> (#[trigger] run[i]) is None) ==> done is Ok,
{
    let ghost before = statement.asked();
    let ghost wanted = slot_models(run@);
    let mut i: usize = 0;
    assert(statement.asked() =~= before + accepted(binds_upto(wanted, 0)));
    while i < run.len()
        invariant
            i <= run.len(),
            wanted == slot_models(run@),
            before == old(statement).asked(),
            statement.asked() == before + accepted(binds_upto(wanted, i as int)),
        decreases run.len() - i,
    {
        let ghost front = binds_upto(wanted, i as int);
        match &run[i] {
            Some(cell) => {
                let bound = statement.bind(i + 1, cell);
                proof {
                    assert(wanted[i as int] == Some(cell@));
                    assert(binds_upto(wanted, i + 1) == front.push(
                        Request::Bind(i + 1, cell@),
                    ));
                }
                match bound {
                    Ok(_) => {
                        assert(statement.asked() =~= before + accepted(
                            binds_upto(wanted, i + 1),
                        ));
                    },
                    Err(failure) => {
                        proof {
                            let part = binds_upto(wanted, i + 1);
                            let n = part.len() as int;
                            lemma_binds_prefix(wanted, i + 1, wanted.len() as int);
                            assert(statement.asked() =~= before + answered(
                                part,
                                n,
                                Some(failure),
                            ));
                            assert(answered(part, n, Some(failure)) =~= answered(
                                binds_of(wanted),
                                n,
                                Some(failure),
                            )) by {
                                assert forall|j: int| 0 <= j < n implies part[j] == binds_of(
                                    wanted,
                                )[j] by {
                                    assert(binds_of(wanted).take(n)[j] == binds_of(wanted)[j]);
                                }
                            }
                        }
                        return Err(failure);
                    },
                }
            },
            None => {
                assert(wanted[i as int] is None);
            },
        }
        i += 1;
    }
    Ok(())
}

/// Runs a statement as a plan asks: for each run in order, makes its binds
/// and advances the statement, and in a batch resets it for the next run.
/// It stops at the first request the engine refuses and returns that
/// failure; the runs before it stay done and no later request is made. So
/// it succeeds exactly if the engine accepted every request of the plan,
/// and fails exactly if the engine refused one, which is then the last
/// request made.
pub fn run_plan(statement: &mut Prepared<'_>, plan: &Vec<Vec<Option<SqlValue>>>, batch: bool) -> (done:
    Result<(), EngineError>)
    ensures
        match done {
            Ok(_) => final(statement).asked() == old(statement).asked() + accepted(
                calls_of(plan_models(plan@), batch),
            ),
            Err(failure) => exists|n: int|
                1 <= n <= calls_of(plan_models(plan@), batch).len() && final(statement).asked()
                    == old(statement).asked() + answered(
                    calls_of(plan_models(plan@), batch),
                    n,
                    Some(failure),
                ),
        },
        plan.len() == 0 ==> done is Ok,
{
    let ghost before = statement.asked();
    let ghost wanted = plan_models(plan@);
    let ghost whole = calls_of(wanted, batch);
    let mut k: usize = 0;
    assert(statement.asked() =~= before + accepted(calls_upto(wanted, batch, 0)));
    while k < plan.len()
        invariant
            k <= plan.len(),
            wanted == plan_models(plan@),
            whole == calls_of(wanted, batch),
            before == old(statement).asked(),
            statement.asked() == before + accepted(calls_upto(wanted, batch, k as int)),
        decreases plan.len() - k,
    {
        let ghost front = calls_upto(wanted, batch, k as int);
        let ghost run = wanted[k as int];
        let ghost calls = run_calls(run, batch);
        assert(run == slot_models(plan[k as int]@));
        match bind_slots(statement, &plan[k]) {
            Ok(_) => {},
            Err(failure) => {
                proof {
                    let n = choose|n: int|
                        1 <= n <= binds_of(run).len() && statement.asked() == (before + accepted(
                            front,
                        )) + answered(binds_of(run), n, Some(failure));
                    assert(calls.take(n) =~= binds_of(run).take(n));
                    lemma_calls_within(wanted, batch, k as int, n);
                    assert(answered(binds_of(run), n, Some(failure)) =~= answered(
                        calls,
                        n,
                        Some(failure),
                    ));
                    lemma_answered_join(front, calls, whole, n, Some(failure));
                    assert(statement.asked() =~= before + answered(
                        whole,
                        front.len() + n,
                        Some(failure),
                    ));
                }
                return Err(failure);
            },
        }
        let stepped = statement.step();
        proof {
            assert(statement.asked() =~= (before + accepted(front)) + answered(
                calls,
                binds_of(run).len() as int + 1,
                refusal(stepped),
            ));
        }
        match stepped {
            Ok(_) => {},
            Err(failure) => {
                proof {
                    let m = binds_of(run).len() as int + 1;
                    lemma_calls_within(wanted, batch, k as int, m);
                    lemma_answered_join(front, calls, whole, m, Some(failure));
                    assert(statement.asked() =~= before + answered(
                        whole,
                        front.len() + m,
                        Some(failure),
                    ));
                }
                return Err(failure);
            },
        }
        if batch {
            let rewound = statement.reset();
            proof {
                assert(statement.asked() =~= (before + accepted(front)) + answered(
                    calls,
                    calls.len() as int,
                    refusal(rewound),
                ));
            }
            match rewound {
                Ok(_) => {},
                Err(failure) => {
                    proof {
                        let m = calls.len() as int;
                        lemma_calls_within(wanted, batch, k as int, m);
                        lemma_answered_join(front, calls, whole, m, Some(failure));
                        assert(statement.asked() =~= before + answered(
                            whole,
                            front.len() + m,
                            Some(failure),
                        ));
                    }
                    return Err(failure);
                },
            }
        }
        proof {
            lemma_accepted_join(front, calls);
            assert(statement.asked() =~= (before + accepted(front)) + accepted(calls));
            assert(calls_upto(wanted, batch, k + 1) == front + calls);
            assert(statement.asked() =~= before + accepted(calls_upto(wanted, batch, k + 1)));
        }
        k += 1;
    }
    Ok(())
}

/// Runs a prepared statement with a parameter list: once per row of a
/// batch, in order and with no transaction around the rows, or once with a
/// flat list as its row. The requests made are those of the plan of the
/// list, [`plan_of`]: all of them, all accepted, after a success; after a
/// failure those up to the first one the engine refused, whose failure is
/// returned.
pub fn run_values(statement: &mut Prepared<'_>, values: &Vec<DynValue>) -> (done: Result<
    (),
    EngineError,
>)
    requires
        well_shaped(models(values@)),
    ensures
        match done {
            Ok(_) => final(statement).asked() == old(statement).asked() + accepted(
                calls_of(plan_of(models(values@)), spec_is_batch(models(values@))),
            ),
            Err(failure) => exists|n: int|
                1 <= n <= calls_of(
                    plan_of(models(values@)),
                    spec_is_batch(models(values@)),
                ).len() && final(statement).asked() == old(statement).asked() + answered(
                    calls_of(plan_of(models(values@)), spec_is_batch(models(values@))),
                    n,
                    Some(failure),
                ),
        },
{
    let batch = is_batch(values);
    let plan = bind_plan(values);
    run_plan(statement, &plan, batch)
}

/// Runs one statement with parameters on the database open under `path`.
/// The statement is prepared once and then run as [`run_values`] says. It
/// fails with `DatabaseNotOpened`, carrying `path`, exactly if no database
/// is open under it; otherwise the engine decides between `true` and its
/// own failure.
pub fn execute2(state: &SqliteMap, path: String, sql: String, values: Vec<DynValue>) -> (done:
    Result<bool, Error>)
    requires
        well_shaped(models(values@)),
    ensures
        !state@.contains_key(path@) ==> done == Err::<bool, Error>(Error::DatabaseNotOpened(path)),
        state@.contains_key(path@) ==> done == Ok::<bool, Error>(true) || (done is Err
            && done->Err_0 is Sqlite),
{
    let connection = match state.get(path.as_str()) {
        Ok(connection) => connection,
        Err(_) => {
            return Err(Error::DatabaseNotOpened(path));
        },
    };
    let mut statement = match Prepared::new(connection, sql.as_str()) {
        Ok(statement) => statement,
        Err(failure) => {
            return Err(Error::Sqlite(failure));
        },
    };
    report(run_values(&mut statement, &values))
}

/// Walks a cursor on from where it stands and gathers the rows it hands
/// out, in order and without leaving one out, until the cursor answers that
/// no row is left. It stops at the first failure of the cursor and returns
/// it. The walk also ends at the number of rows that a vector can index.
fn fetch_all(cursor: &mut Rows<'_>) -> (fetched: Result<Vec<Vec<SqlValue>>, EngineError>)
    ensures
        final(cursor).bound() == old(cursor).bound(),
        match fetched {
            Ok(rows) => final(cursor).handed() == old(cursor).handed() + fetched_models(rows@)
                && final(cursor).refusals() == old(cursor).refusals() && (final(cursor).ended()
                || rows.len() == usize::MAX),
            Err(failure) => final(cursor).refusals() == old(cursor).refusals().push(failure)
                && old(cursor).handed().is_prefix_of(final(cursor).handed()),
        },
{
    let ghost before = cursor.handed();
    let mut rows: Vec<Vec<SqlValue>> = Vec::new();
    assert(cursor.handed() =~= before + fetched_models(rows@));
    while rows.len() < usize::MAX
        invariant
            cursor.bound() == old(cursor).bound(),
            cursor.refusals() == old(cursor).refusals(),
            before == old(cursor).handed(),
            cursor.handed() == before + fetched_models(rows@),
        decreases usize::MAX - rows.len(),
    {
        let ghost gathered = fetched_models(rows@);
        match cursor.next() {
            Ok(Some(cells)) => {
                rows.push(cells);
                assert(fetched_models(rows@) =~= gathered.push(sql_models(cells@)));
                assert(cursor.handed() =~= before + fetched_models(rows@));
            },
            Ok(None) => {
                return Ok(rows);
            },
            Err(failure) => {
                assert(before.is_prefix_of(cursor.handed()));
                return Err(failure);
            },
        }
    }
    Ok(rows)
}

/// Runs a query on a cursor. The parameters bound are those of `values`,
/// one for each element at its own position. After a success the result
/// rows are built, one for one and in order, from `names` and the rows that
/// the cursor handed out during the call, up to the cursor's answer that no
/// row is left (or up to the number of rows that a vector can index), and
/// the cursor answered with no failure. A failure of the cursor ends the
/// call and is returned.
pub fn query(cursor: &mut Rows<'_>, names: &Vec<String>, values: &Vec<DynValue>) -> (found: Result<
    Vec<Row>,
    EngineError,
>)
    ensures
        final(cursor).bound() == params_of(models(values@)),
        old(cursor).handed().is_prefix_of(final(cursor).handed()),
        match found {
            Ok(rows) => row_models(rows@) == rows_of(
                name_models(names@),
                final(cursor).handed().skip(old(cursor).handed().len() as int),
            ) && final(cursor).refusals() == old(cursor).refusals() && (final(cursor).ended()
                || rows.len() == usize::MAX),
            Err(failure) => final(cursor).refusals() == old(cursor).refusals().push(failure),
        },
{
    let params = select_params(values);
    match cursor.bind(&params) {
        Ok(_) => {},
        Err(failure) => {
            return Err(failure);
        },
    }
    let fetched = match fetch_all(cursor) {
        Ok(fetched) => fetched,
        Err(failure) => {
            return Err(failure);
        },
    };
    let rows = decode_rows(names, &fetched);
    proof {
        assert(cursor.handed().skip(old(cursor).handed().len() as int) =~= fetched_models(
            fetched@,
        ));
        assert(row_models(rows@).len() == rows_of(
            name_models(names@),
            fetched_models(fetched@),
        ).len());
    }
    Ok(rows)
}

/// Queries the database open under `path`: prepares `sql` and runs it as
/// [`query`] says, with `names` as the names of the result columns, in
/// column order. Every row the engine hands out becomes one result row, in
/// order, that maps each column name to what its cell is read as; no rows
/// give the empty vector. It fails with `DatabaseNotOpened`, carrying
/// `path`, exactly if no database is open under it; otherwise a failure is
/// the engine's own.
pub fn select(
    state: &SqliteMap,
    path: String,
    sql: String,
    names: Vec<String>,
    values: Vec<DynValue>,
) -> (found: Result<Vec<Row>, Error>)
    ensures
        !state@.contains_key(path@) ==> found == Err::<Vec<Row>, Error>(
            Error::DatabaseNotOpened(path),
        ),
        state@.contains_key(path@) ==> match found {
            Ok(rows) => exists|fetched: Seq<Seq<SqlModel>>|
                row_models(rows@) == rows_of(name_models(names@), fetched),
            Err(error) => error is Sqlite,
        },
{
    let connection = match state.get(path.as_str()) {
        Ok(connection) => connection,
        Err(_) => {
            return Err(Error::DatabaseNotOpened(path));
        },
    };
    let statement = match Prepared::new(connection, sql.as_str()) {
        Ok(statement) => statement,
        Err(failure) => {
            return Err(Error::Sqlite(failure));
        },
    };
    let mut cursor = statement.into_rows();
    match query(&mut cursor, &names, &values) {
        Ok(rows) => Ok(rows),
        Err(failure) => Err(Error::Sqlite(failure)),
    }
}

} // verus!
