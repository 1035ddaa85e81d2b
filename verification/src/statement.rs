//! A prepared statement and a cursor, each kept together with a record of
//! what the library has asked of it and what the engine answered. The record
//! is what the contracts of the functions that drive the engine speak of: it
//! says which requests were made, with which values, in which order, and
//! which of them the engine refused.

use crate::engine::{
    bind_at,
    cursor_bind,
    cursor_next,
    from_engine,
    into_cursor,
    prepare,
    reset,
    step,
    to_engine,
};
use crate::error::EngineError;
use crate::value::{sql_models, SqlModel, SqlValue};
use vstd::prelude::*;

verus! {

/// One request made of a prepared statement.
pub enum Request {
    /// Bind a value at a 1-based position.
    Bind(int, SqlModel),
    /// Advance the statement.
    Step,
    /// Make the statement ready to run again.
    Reset,
}

/// One request made of a prepared statement, with the engine's answer to
/// it: `None` where the engine accepted the request, its failure where it
/// refused.
pub struct Asked {
    pub request: Request,
    pub answer: Option<EngineError>,
}

/// The answer that an outcome of the engine is recorded as.
pub open spec fn refusal(outcome: Result<(), EngineError>) -> Option<EngineError> {
    match outcome {
        Ok(_) => None,
        Err(failure) => Some(failure),
    }
}

/// A prepared statement, with the requests made of it so far and the answer
/// to each, in order.
pub struct Prepared<'l> {
    pub(crate) raw: sqlite::Statement<'l>,
    pub(crate) asked: Ghost<Seq<Asked>>,
}

/// A cursor over the rows of a statement, with the parameters it was last
/// given, the rows it has handed out so far, whether its last answer was
/// that no row is left, and the failures it has answered with.
pub struct Rows<'l> {
    pub(crate) raw: sqlite::Cursor<'l>,
    pub(crate) bound: Ghost<Seq<SqlModel>>,
    pub(crate) handed: Ghost<Seq<Seq<SqlModel>>>,
    pub(crate) ended: Ghost<bool>,
    pub(crate) refusals: Ghost<Seq<EngineError>>,
}

/// The record of the first `n` of some requests, made in order, where the
/// engine accepted all but the last and answered the last with `last`.
pub open spec fn answered(calls: Seq<Request>, n: int, last: Option<EngineError>) -> Seq<Asked> {
    Seq::new(
        n as nat,
        |i: int|
            Asked {
                request: calls[i],
                answer: if i == n - 1 {
                    last
                } else {
                    None
                },
            },
    )
}

/// The record of some requests, made in order, all of which the engine
/// accepted.
pub open spec fn accepted(calls: Seq<Request>) -> Seq<Asked> {
    answered(calls, calls.len() as int, None)
}

/// The binds that the first `n` entries of a run ask for, in order: entry
/// `i` is bound at position `i + 1` if it holds a value, and asks for
/// nothing if it holds none.
pub open spec fn binds_upto(run: Seq<Option<SqlModel>>, n: int) -> Seq<Request>
    decreases n,
{
    if n <= 0 {
        Seq::empty()
    } else {
        let front = binds_upto(run, n - 1);
        match run[n - 1] {
            Some(cell) => front.push(Request::Bind(n, cell)),
            None => front,
        }
    }
}

/// The binds that a run asks for, in order.
pub open spec fn binds_of(run: Seq<Option<SqlModel>>) -> Seq<Request> {
    binds_upto(run, run.len() as int)
}

/// The requests of one run: its binds, then a step, and in a batch a reset.
pub open spec fn run_calls(run: Seq<Option<SqlModel>>, batch: bool) -> Seq<Request> {
    if batch {
        binds_of(run).push(Request::Step).push(Request::Reset)
    } else {
        binds_of(run).push(Request::Step)
    }
}

/// The requests of the first `k` runs of a plan, run after run.
pub open spec fn calls_upto(plan: Seq<Seq<Option<SqlModel>>>, batch: bool, k: int) -> Seq<Request>
    decreases k,
{
    if k <= 0 {
        Seq::empty()
    } else {
        calls_upto(plan, batch, k - 1) + run_calls(plan[k - 1], batch)
    }
}

/// The requests that a plan asks for, in order.
pub open spec fn calls_of(plan: Seq<Seq<Option<SqlModel>>>, batch: bool) -> Seq<Request> {
    calls_upto(plan, batch, plan.len() as int)
}

/// The binds of fewer entries are the first of the binds of more entries.
pub proof fn lemma_binds_prefix(run: Seq<Option<SqlModel>>, j: int, k: int)
    requires
        0 <= j <= k,
    ensures
        binds_upto(run, j).len() <= binds_upto(run, k).len(),
        binds_upto(run, k).take(binds_upto(run, j).len() as int) == binds_upto(run, j),
    decreases k,
{
    if j < k {
        lemma_binds_prefix(run, j, k - 1);
        assert(binds_upto(run, k).take(binds_upto(run, j).len() as int) =~= binds_upto(
            run,
            k - 1,
        ).take(binds_upto(run, j).len() as int));
    } else {
        assert(binds_upto(run, k).take(binds_upto(run, j).len() as int) =~= binds_upto(run, j));
    }
}

/// The requests of fewer runs are the first of the requests of more runs.
pub proof fn lemma_calls_prefix(plan: Seq<Seq<Option<SqlModel>>>, batch: bool, j: int, k: int)
    requires
        0 <= j <= k,
    ensures
        calls_upto(plan, batch, j).len() <= calls_upto(plan, batch, k).len(),
        calls_upto(plan, batch, k).take(calls_upto(plan, batch, j).len() as int) == calls_upto(
            plan,
            batch,
            j,
        ),
    decreases k,
{
    if j < k {
        lemma_calls_prefix(plan, batch, j, k - 1);
        assert(calls_upto(plan, batch, k).take(calls_upto(plan, batch, j).len() as int)
            =~= calls_upto(plan, batch, k - 1).take(calls_upto(plan, batch, j).len() as int));
    } else {
        assert(calls_upto(plan, batch, k).take(calls_upto(plan, batch, j).len() as int)
            =~= calls_upto(plan, batch, j));
    }
}

/// The requests of a plan up to the `m`-th request of its run `k` are the
/// requests of the runs before it, followed by the first `m` of that run.
pub proof fn lemma_calls_within(plan: Seq<Seq<Option<SqlModel>>>, batch: bool, k: int, m: int)
    requires
        0 <= k < plan.len(),
        0 <= m <= run_calls(plan[k], batch).len(),
    ensures
        calls_upto(plan, batch, k).len() + m <= calls_of(plan, batch).len(),
        calls_of(plan, batch).take(calls_upto(plan, batch, k).len() + m) == calls_upto(
            plan,
            batch,
            k,
        ) + run_calls(plan[k], batch).take(m),
{
    let whole = calls_of(plan, batch);
    let front = calls_upto(plan, batch, k);
    let next = calls_upto(plan, batch, k + 1);
    lemma_calls_prefix(plan, batch, k + 1, plan.len() as int);
    assert(next == front + run_calls(plan[k], batch));
    assert(whole.take(next.len() as int) == next);
    assert(whole.take(front.len() + m) =~= next.take(front.len() + m));
    assert(next.take(front.len() + m) =~= front + run_calls(plan[k], batch).take(m));
}

/// Accepted requests followed by accepted requests are the accepted
/// requests of the two lists joined.
pub proof fn lemma_accepted_join(front: Seq<Request>, back: Seq<Request>)
    ensures
        accepted(front) + accepted(back) == accepted(front + back),
{
    assert(accepted(front) + accepted(back) =~= accepted(front + back));
}

/// Accepted requests followed by the record of a part that ends in the
/// answer `last` are the record of the whole up to there.
pub proof fn lemma_answered_join(
    front: Seq<Request>,
    part: Seq<Request>,
    whole: Seq<Request>,
    m: int,
    last: Option<EngineError>,
)
    requires
        1 <= m <= part.len(),
        front.len() + m <= whole.len(),
        whole.take(front.len() + m) == front + part.take(m),
    ensures
        accepted(front) + answered(part, m, last) == answered(whole, front.len() + m, last),
{
    let left = accepted(front) + answered(part, m, last);
    let right = answered(whole, front.len() + m, last);
    assert forall|i: int| 0 <= i < front.len() + m implies left[i] == right[i] by {
        assert(whole[i] == whole.take(front.len() + m)[i]);
        if i >= front.len() {
            assert(part[i - front.len()] == part.take(m)[i - front.len()]);
        }
    }
    assert(left =~= right);
}

impl<'l> Prepared<'l> {
    /// The requests made of the statement so far and the answer to each, in
    /// order.
    pub closed spec fn asked(&self) -> Seq<Asked> {
        self.asked@
    }

    /// Prepares SQL text on a connection. Whether the engine accepts the
    /// text is its own decision; of a new statement nothing has been asked.
    pub fn new(connection: &'l sqlite::Connection, sql: &str) -> (made: Result<
        Prepared<'l>,
        EngineError,
    >)
        ensures
            made matches Ok(statement) ==> statement.asked() == Seq::<Asked>::empty(),
    {
        match prepare(connection, sql) {
            Ok(raw) => Ok(Prepared { raw, asked: Ghost(Seq::empty()) }),
            Err(failure) => Err(failure),
        }
    }

    /// Asks the engine to bind a value at a 1-based position, and hands on
    /// its answer.
    pub fn bind(&mut self, position: usize, cell: &SqlValue) -> (done: Result<(), EngineError>)
        requires
            position >= 1,
        ensures
            final(self).asked() == old(self).asked().push(
                Asked { request: Request::Bind(position as int, cell@), answer: refusal(done) },
            ),
    {
        let done = bind_at(&mut self.raw, position, cell);
        self.asked = Ghost(
            self.asked@.push(Asked { request: Request::Bind(position as int, cell@), answer: refusal(done) }),
        );
        done
    }

    /// Asks the engine to advance the statement, and hands on its answer.
    pub fn step(&mut self) -> (done: Result<(), EngineError>)
        ensures
            final(self).asked() == old(self).asked().push(
                Asked { request: Request::Step, answer: refusal(done) },
            ),
    {
        let done = step(&mut self.raw);
        self.asked = Ghost(self.asked@.push(Asked { request: Request::Step, answer: refusal(done) }));
        done
    }

    /// Asks the engine to make the statement ready to run again, and hands
    /// on its answer.
    pub fn reset(&mut self) -> (done: Result<(), EngineError>)
        ensures
            final(self).asked() == old(self).asked().push(
                Asked { request: Request::Reset, answer: refusal(done) },
            ),
    {
        let done = reset(&mut self.raw);
        self.asked = Ghost(self.asked@.push(Asked { request: Request::Reset, answer: refusal(done) }));
        done
    }

    /// Turns the statement into a cursor over its rows, which has no
    /// parameters yet and has handed out nothing.
    pub fn into_rows(self) -> (rows: Rows<'l>)
        ensures
            rows.bound() == Seq::<SqlModel>::empty(),
            rows.handed() == Seq::<Seq<SqlModel>>::empty(),
            !rows.ended(),
            rows.refusals() == Seq::<EngineError>::empty(),
    {
        Rows {
            raw: into_cursor(self.raw),
            bound: Ghost(Seq::empty()),
            handed: Ghost(Seq::empty()),
            ended: Ghost(false),
            refusals: Ghost(Seq::empty()),
        }
    }
}

/// Writes the parameters of a query as the engine's own values, one for
/// one.
fn engine_params(params: &Vec<SqlValue>) -> (raw: Vec<sqlite::Value>)
    ensures
        raw.len() == params.len(),
{
    let mut raw: Vec<sqlite::Value> = Vec::new();
    let mut i: usize = 0;
    while i < params.len()
        invariant
            i <= params.len(),
            raw.len() == i,
        decreases params.len() - i,
    {
        raw.push(to_engine(&params[i]));
        i += 1;
    }
    raw
}

/// Reads the cells of one row of the engine, one for one.
fn read_cells(raw: &Vec<sqlite::Value>) -> (cells: Vec<SqlValue>)
    ensures
        cells.len() == raw.len(),
{
    let mut cells: Vec<SqlValue> = Vec::new();
    let mut i: usize = 0;
    while i < raw.len()
        invariant
            i <= raw.len(),
            cells.len() == i,
        decreases raw.len() - i,
    {
        cells.push(from_engine(&raw[i]));
        i += 1;
    }
    cells
}

impl<'l> Rows<'l> {
    /// The parameters the cursor was last given, in order of position.
    pub closed spec fn bound(&self) -> Seq<SqlModel> {
        self.bound@
    }

    /// The rows the cursor has handed out so far, in order.
    pub closed spec fn handed(&self) -> Seq<Seq<SqlModel>> {
        self.handed@
    }

    /// Whether the last answer of the cursor was that no row is left.
    pub closed spec fn ended(&self) -> bool {
        self.ended@
    }

    /// The failures the cursor has answered with so far, in order.
    pub closed spec fn refusals(&self) -> Seq<EngineError> {
        self.refusals@
    }

    /// Gives the cursor its parameters: value `i` for position `i + 1`. The
    /// cursor starts over; the rows handed out before stay on record. A
    /// failure of the engine is handed on and goes on record.
    pub fn bind(&mut self, params: &Vec<SqlValue>) -> (done: Result<(), EngineError>)
        ensures
            final(self).bound() == sql_models(params@),
            final(self).handed() == old(self).handed(),
            !final(self).ended(),
            match done {
                Ok(_) => final(self).refusals() == old(self).refusals(),
                Err(failure) => final(self).refusals() == old(self).refusals().push(failure),
            },
    {
        let raw = engine_params(params);
        let done = cursor_bind(&mut self.raw, &raw);
        self.bound = Ghost(sql_models(params@));
        self.ended = Ghost(false);
        match done {
            Ok(_) => Ok(()),
            Err(failure) => {
                self.refusals = Ghost(self.refusals@.push(failure));
                Err(failure)
            },
        }
    }

    /// Asks the cursor for its next row. A row that it hands out goes on
    /// record; the answer that no row is left is recorded as the end; a
    /// failure is handed on and goes on record.
    pub fn next(&mut self) -> (row: Result<Option<Vec<SqlValue>>, EngineError>)
        ensures
            final(self).bound() == old(self).bound(),
            match row {
                Ok(Some(cells)) => final(self).handed() == old(self).handed().push(
                    sql_models(cells@),
                ) && !final(self).ended() && final(self).refusals() == old(self).refusals(),
                Ok(None) => final(self).handed() == old(self).handed() && final(self).ended()
                    && final(self).refusals() == old(self).refusals(),
                Err(failure) => final(self).handed() == old(self).handed() && final(self).ended()
                    == old(self).ended() && final(self).refusals() == old(self).refusals().push(
                    failure,
                ),
            },
    {
        match cursor_next(&mut self.raw) {
            Ok(Some(raw)) => {
                let cells = read_cells(&raw);
                self.handed = Ghost(self.handed@.push(sql_models(cells@)));
                self.ended = Ghost(false);
                Ok(Some(cells))
            },
            Ok(None) => {
                self.ended = Ghost(true);
                Ok(None)
            },
            Err(failure) => {
                self.refusals = Ghost(self.refusals@.push(failure));
                Err(failure)
            },
        }
    }
}

} // verus!
