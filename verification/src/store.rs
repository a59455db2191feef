//! The store: the SQLite database that holds the records and their text
//! index.
//!
//! SQLite itself is outside what is proved here. Each call into it stands in
//! a small function of its own, marked as trusted and documented as such.
//! What SQLite does with a call is not stated. Each call is recorded, with
//! its arguments and with what came back, by the one function that makes it;
//! what is proved is how an operation's result follows from that record.

use vstd::prelude::*;
use crate::pattern::{
    effective_limit_spec, mode_of, plan_search, search_argument_spec, SearchPlan,
};
use crate::record::{
    field_or_zero, readable_records, record_views, records_of, Record, RecordView, Walked,
};
use crate::sql::{
    row_limit, row_limit_spec, schema_spec, schema_statements, statement_for, statement_of,
    COUNT_FILES, DELETE_FILES, INSERT_FILE, SELECT_GLOB, SELECT_TEXT,
};

verus! {

/// A connection to a SQLite database.
#[verifier::external_type_specification]
#[verifier::external_body]
pub struct ExConnection(rusqlite::Connection);

/// A transaction that is open on a connection.
#[verifier::external_type_specification]
#[verifier::external_body]
pub struct ExTransaction<'conn>(rusqlite::Transaction<'conn>);

/// A prepared statement.
#[verifier::external_type_specification]
#[verifier::external_body]
pub struct ExStatement<'conn>(rusqlite::Statement<'conn>);

/// The error that a call into SQLite reports.
#[verifier::external_type_specification]
#[verifier::external_body]
pub struct ExSqlError(rusqlite::Error);

/// A failure of the store, by the step that failed. Each is final: the
/// operation that met it stops and hands it on.
#[derive(Debug)]
pub enum StorageError {
    /// The store could not be opened.
    Open(rusqlite::Error),
    /// A table or trigger of the schema could not be created.
    Schema(rusqlite::Error),
    /// The records could not be deleted.
    Clear(rusqlite::Error),
    /// The transaction could not be started.
    Begin(rusqlite::Error),
    /// A statement could not be prepared.
    Prepare(rusqlite::Error),
    /// A query could not be run.
    Query(rusqlite::Error),
    /// The transaction could not be committed.
    Commit(rusqlite::Error),
}

/// What the index holds: how many records, and how many bytes the store
/// takes on disk.
#[derive(Clone, Copy, Debug, PartialEq, Eq, Structural)]
pub struct Stats {
    pub record_count: usize,
    pub byte_size: i64,
}

/// Calls `rusqlite::Connection::open`. Whether the database opens depends on
/// the machine, so nothing is claimed of the result.
#[verifier::external_body]
fn open_connection(location: &str) -> (r: Result<rusqlite::Connection, rusqlite::Error>) {
    rusqlite::Connection::open(location)
}

/// Calls `rusqlite::Connection::execute` with no parameters. Nothing is
/// claimed of the result.
#[verifier::external_body]
fn execute(conn: &rusqlite::Connection, sql: &str) -> (r: Result<usize, rusqlite::Error>) {
    conn.execute(sql, [])
}

/// Calls `rusqlite::Connection::transaction`. Nothing is claimed of the
/// result.
#[verifier::external_body]
fn begin<'a>(conn: &'a mut rusqlite::Connection) -> (r: Result<
    rusqlite::Transaction<'a>,
    rusqlite::Error,
>) {
    conn.transaction()
}

/// Calls `Deref::deref` of `rusqlite::Transaction`: the connection on which
/// the transaction is open.
#[verifier::external_body]
fn connection_of<'a, 'conn>(tx: &'a rusqlite::Transaction<'conn>) -> (r: &'a rusqlite::Connection) {
    tx
}

/// Calls `rusqlite::Transaction::commit`. Nothing is claimed of the result.
#[verifier::external_body]
fn commit(tx: rusqlite::Transaction<'_>) -> (r: Result<(), rusqlite::Error>) {
    tx.commit()
}

/// Calls `rusqlite::Connection::prepare`. Nothing is claimed of the result.
#[verifier::external_body]
fn prepare<'a>(conn: &'a rusqlite::Connection, sql: &str) -> (r: Result<
    rusqlite::Statement<'a>,
    rusqlite::Error,
>) {
    conn.prepare(sql)
}

/// Calls `rusqlite::Statement::execute` with the four fields of a record as
/// the statement's parameters. Nothing is claimed of the result.
#[verifier::external_body]
fn execute_insert(stmt: &mut rusqlite::Statement<'_>, record: &Record) -> (r: Result<
    usize,
    rusqlite::Error,
>) {
    stmt.execute((&record.path, record.identity, record.modified_at, record.size))
}

/// Calls `rusqlite::Statement::query_map` with a text and a row limit as the
/// statement's parameters, reading the first column of each row as text,
/// and gathers the rows up to the first that fails. Nothing is claimed of
/// the result.
#[verifier::external_body]
fn query_paths(stmt: &mut rusqlite::Statement<'_>, argument: &str, limit: i64) -> (r: Result<
    Vec<String>,
    rusqlite::Error,
>) {
    stmt.query_map((argument, limit), |row| row.get::<_, String>(0)).and_then(
        |rows| rows.collect(),
    )
}

/// Calls `rusqlite::Connection::query_row` with no parameters, reading the
/// first column of the first row as an integer. Nothing is claimed of the
/// result.
#[verifier::external_body]
fn query_count(conn: &rusqlite::Connection, sql: &str) -> (r: Result<i64, rusqlite::Error>) {
    conn.query_row(sql, [], |row| row.get::<_, i64>(0))
}

/// One call that a store makes on its connection.
pub enum Call {
    /// The store at a location is opened.
    Open { location: Seq<char> },
    /// A statement is run as it stands.
    Execute { sql: Seq<char> },
    /// A transaction is started.
    Begin,
    /// A statement is prepared.
    Prepare { sql: Seq<char> },
    /// The prepared insert is run with a record's fields.
    Insert { record: RecordView },
    /// The prepared query is run with a text and a row limit.
    Query { argument: Seq<char>, limit: int },
    /// A query for one integer is run.
    Count { sql: Seq<char> },
    /// The transaction is committed.
    Commit,
}

/// What came back from a call.
pub enum Reply {
    /// The call failed.
    Failed,
    /// The call succeeded.
    Done,
    /// The call succeeded and gave an integer.
    Number(int),
    /// The call succeeded and gave rows of paths.
    Rows(Seq<Seq<char>>),
}

/// A call together with what came back from it.
pub struct Step {
    pub call: Call,
    pub reply: Reply,
}

/// The reply of a call that gives nothing but success or failure.
pub open spec fn plain_reply(ok: bool) -> Reply {
    if ok {
        Reply::Done
    } else {
        Reply::Failed
    }
}

/// A step that ends the operation it belongs to: a failed call, unless it
/// is the insert of one record, which is passed over.
pub open spec fn halts(step: Step) -> bool {
    step.reply is Failed && !(step.call is Insert)
}

/// Whether `error` is the failure that a store reports for a failed `call`:
/// each kind of failure belongs to one kind of call, the schema and the
/// delete being both statements that are run as they stand.
pub open spec fn raised_by(error: StorageError, call: Call) -> bool {
    match error {
        StorageError::Open(_) => call is Open,
        StorageError::Schema(_) => call is Execute,
        StorageError::Clear(_) => call is Execute,
        StorageError::Begin(_) => call is Begin,
        StorageError::Prepare(_) => call is Prepare,
        StorageError::Query(_) => call is Query || call is Count,
        StorageError::Commit(_) => call is Commit,
    }
}

/// An insert that went in.
pub open spec fn went_in(step: Step) -> bool {
    step.call is Insert && !(step.reply is Failed)
}

/// `steps` carry out `calls` in their order and stop at the first step that
/// ends the operation: no call is left out before it, and none is made
/// after it.
pub open spec fn carried_out(steps: Seq<Step>, calls: Seq<Call>) -> bool {
    &&& steps.len() <= calls.len()
    &&& calls.len() > 0 ==> steps.len() > 0
    &&& forall|i: int| 0 <= i < steps.len() ==> (#[trigger] steps[i]).call == calls[i]
    &&& forall|i: int| 0 <= i < steps.len() - 1 ==> !halts(#[trigger] steps[i])
    &&& steps.len() < calls.len() ==> halts(steps.last())
}

/// `steps` carried out all of `calls`, and none of them ended the operation.
pub open spec fn completed(steps: Seq<Step>, calls: Seq<Call>) -> bool {
    &&& steps.len() == calls.len()
    &&& forall|i: int| 0 <= i < steps.len() ==> !halts(#[trigger] steps[i])
}

/// The number of inserts among `steps` that went in.
pub open spec fn inserted(steps: Seq<Step>) -> nat
    decreases steps.len(),
{
    if steps.len() == 0 {
        0
    } else {
        inserted(steps.drop_last()) + if went_in(steps.last()) {
            1nat
        } else {
            0nat
        }
    }
}

/// The steps that were added to a record since it read `before`.
pub open spec fn added(before: Seq<Step>, after: Seq<Step>) -> Seq<Step> {
    after.skip(before.len() as int)
}

/// The views of a vector of paths, in order.
pub open spec fn path_views(paths: Seq<String>) -> Seq<Seq<char>> {
    Seq::new(paths.len(), |i: int| paths[i]@)
}

/// The first `limit` of `paths`, or all of them where there are fewer.
pub open spec fn bounded(paths: Seq<Seq<char>>, limit: nat) -> Seq<Seq<char>> {
    if paths.len() <= limit {
        paths
    } else {
        paths.subrange(0, limit as int)
    }
}

/// The rows of a reply; none where the reply holds no rows.
pub open spec fn reply_rows(reply: Reply) -> Seq<Seq<char>> {
    match reply {
        Reply::Rows(rows) => rows,
        _ => Seq::empty(),
    }
}

/// The record count reported for the reply of the counting query: the count
/// where the query gave one that a `usize` holds, else 0.
pub open spec fn reply_count(reply: Reply) -> usize {
    match reply {
        Reply::Number(n) => if 0 <= n <= usize::MAX {
            n as usize
        } else {
            0
        },
        _ => 0,
    }
}

/// The reply that stands for the outcome of a query for paths.
pub open spec fn rows_reply(outcome: Result<Vec<String>, rusqlite::Error>) -> Reply {
    match outcome {
        Ok(rows) => Reply::Rows(path_views(rows@)),
        Err(_) => Reply::Failed,
    }
}

/// The reply that stands for the outcome of the counting query.
pub open spec fn count_reply(outcome: Result<i64, rusqlite::Error>) -> Reply {
    match outcome {
        Ok(n) => Reply::Number(n as int),
        Err(_) => Reply::Failed,
    }
}

/// The statistics reported for the outcome of the counting query and the
/// store's size on disk, where it could be read: what is missing counts as 0.
pub open spec fn stats_spec(count: Result<i64, rusqlite::Error>, byte_size: Option<i64>) -> Stats {
    Stats {
        record_count: reply_count(count_reply(count)),
        byte_size: field_or_zero(byte_size) as i64,
    }
}

/// The calls that create the schema: each of its statements, in order.
pub open spec fn schema_calls() -> Seq<Call> {
    Seq::new(schema_spec().len(), |i: int| Call::Execute { sql: schema_spec()[i] })
}

/// The calls that insert `records`: the insert is prepared once, then run
/// for each record in turn.
pub open spec fn insert_calls(records: Seq<RecordView>) -> Seq<Call> {
    seq![Call::Prepare { sql: INSERT_FILE@ }] + Seq::new(
        records.len(),
        |i: int| Call::Insert { record: records[i] },
    )
}

/// The calls that replace every record by `records`: the delete, then one
/// transaction round the inserts.
pub open spec fn replace_calls(records: Seq<RecordView>) -> Seq<Call> {
    seq![Call::Execute { sql: DELETE_FILES@ }, Call::Begin] + insert_calls(records)
        + seq![Call::Commit]
}

/// The calls that rebuild the index from `records`: the schema, then the
/// replacement.
pub open spec fn rebuild_calls(records: Seq<RecordView>) -> Seq<Call> {
    schema_calls() + replace_calls(records)
}

/// The calls of one query: it is prepared, then run with its argument and
/// the row limit for `limit`.
pub open spec fn query_calls(sql: Seq<char>, argument: Seq<char>, limit: usize) -> Seq<Call> {
    seq![
        Call::Prepare { sql },
        Call::Query { argument, limit: row_limit_spec(limit) as int },
    ]
}

/// The calls of the search for `pattern`: the schema, then, unless the
/// pattern is empty, the query of the pattern's mode with the pattern's
/// argument.
pub open spec fn search_calls(pattern: Seq<char>, limit: Option<usize>) -> Seq<Call> {
    if pattern.len() == 0 {
        schema_calls()
    } else {
        schema_calls() + query_calls(
            statement_of(mode_of(pattern)),
            search_argument_spec(pattern),
            effective_limit_spec(limit),
        )
    }
}

/// The paths that a search returns for the steps it made: those of the rows
/// that the query gave, at most as many as the limit allows; none for an
/// empty pattern.
pub open spec fn search_result(steps: Seq<Step>, pattern: Seq<char>, limit: Option<usize>) -> Seq<
    Seq<char>,
> {
    if pattern.len() == 0 {
        Seq::empty()
    } else {
        bounded(reply_rows(steps.last().reply), effective_limit_spec(limit) as nat)
    }
}

/// A bounded list is a prefix of the full one, and is as long as the limit
/// wherever the full list is at least that long.
pub proof fn bounded_is_prefix(paths: Seq<Seq<char>>, limit: nat)
    ensures
        bounded(paths, limit).is_prefix_of(paths),
        bounded(paths, limit).len() <= limit,
        paths.len() >= limit ==> bounded(paths, limit).len() == limit,
        paths.len() <= limit ==> bounded(paths, limit) == paths,
{
}

/// Of the same rows, the list bounded by the smaller limit is the list
/// bounded by the larger one, bounded again.
pub proof fn bounded_twice(paths: Seq<Seq<char>>, small: nat, large: nat)
    requires
        small <= large,
    ensures
        bounded(bounded(paths, large), small) == bounded(paths, small),
{
    assert(bounded(bounded(paths, large), small) =~= bounded(paths, small));
}

/// In a rebuild every record of the earlier generation is deleted before
/// the first record of the new one is inserted, and every insert stands
/// between the start of the transaction and its commit.
pub proof fn rebuild_deletes_before_it_inserts(records: Seq<RecordView>, i: int)
    requires
        0 <= i < records.len(),
    ensures
        rebuild_calls(records).len() == 9 + records.len(),
        rebuild_calls(records)[5] == (Call::Execute { sql: DELETE_FILES@ }),
        rebuild_calls(records)[6] == Call::Begin,
        rebuild_calls(records)[8 + i] == (Call::Insert { record: records[i] }),
        rebuild_calls(records).last() == Call::Commit,
{
}

/// The inserts that went in among two runs of steps are those of the one
/// and those of the other.
pub proof fn inserted_of_both(first: Seq<Step>, second: Seq<Step>)
    ensures
        inserted(first + second) == inserted(first) + inserted(second),
    decreases second.len(),
{
    if second.len() == 0 {
        assert(first + second =~= first);
    } else {
        inserted_of_both(first, second.drop_last());
        assert((first + second).drop_last() =~= first + second.drop_last());
    }
}

/// Steps that carry out calls of which none is an insert hold no insert
/// that went in.
pub proof fn no_insert_no_count(steps: Seq<Step>)
    requires
        forall|i: int| 0 <= i < steps.len() ==> !((#[trigger] steps[i]).call is Insert),
    ensures
        inserted(steps) == 0,
    decreases steps.len(),
{
    if steps.len() > 0 {
        no_insert_no_count(steps.drop_last());
    }
}

/// Where every step is an insert that went in, as many went in as there
/// are steps.
pub proof fn every_insert_counts(steps: Seq<Step>)
    requires
        forall|i: int| 0 <= i < steps.len() ==> went_in(#[trigger] steps[i]),
    ensures
        inserted(steps) == steps.len(),
    decreases steps.len(),
{
    if steps.len() > 0 {
        every_insert_counts(steps.drop_last());
    }
}

/// Where a first run of calls was completed and a second was carried out
/// after it, the two together were carried out, and were completed exactly
/// where the second was.
pub proof fn carried_out_after(
    first: Seq<Step>,
    first_calls: Seq<Call>,
    second: Seq<Step>,
    second_calls: Seq<Call>,
)
    requires
        carried_out(first, first_calls),
        completed(first, first_calls),
        carried_out(second, second_calls),
    ensures
        carried_out(first + second, first_calls + second_calls),
        completed(first + second, first_calls + second_calls) <==> completed(second, second_calls),
        inserted(first + second) == inserted(first) + inserted(second),
{
    inserted_of_both(first, second);
    let steps = first + second;
    let calls = first_calls + second_calls;
    assert forall|i: int| 0 <= i < steps.len() implies (#[trigger] steps[i]).call == calls[i] by {
        if i >= first.len() {
            assert(steps[i] == second[i - first.len()]);
        } else {
            assert(steps[i] == first[i]);
        }
    }
    assert forall|i: int| 0 <= i < steps.len() - 1 implies !halts(#[trigger] steps[i]) by {
        if i >= first.len() {
            assert(steps[i] == second[i - first.len()]);
        } else {
            assert(steps[i] == first[i]);
        }
    }
    if second.len() > 0 {
        assert(steps.last() == second.last());
    }
    if completed(second, second_calls) {
        assert forall|i: int| 0 <= i < steps.len() implies !halts(#[trigger] steps[i]) by {
            if i >= first.len() {
                assert(steps[i] == second[i - first.len()]);
            } else {
                assert(steps[i] == first[i]);
            }
        }
    }
    if completed(steps, calls) {
        assert forall|i: int| 0 <= i < second.len() implies !halts(#[trigger] second[i]) by {
            assert(steps[i + first.len()] == second[i]);
        }
    }
}

/// Where a first run of calls was ended before its last call succeeded, it
/// also stands for that run followed by more calls, of which none was made.
pub proof fn carried_out_ended(first: Seq<Step>, first_calls: Seq<Call>, more: Seq<Call>)
    requires
        carried_out(first, first_calls),
        !completed(first, first_calls),
    ensures
        carried_out(first, first_calls + more),
        !completed(first, first_calls + more),
{
    if first.len() == first_calls.len() {
        let i = choose|i: int| 0 <= i < first.len() && halts(#[trigger] first[i]);
        assert(i == first.len() - 1);
    }
}

/// Keeps the first `limit` of `rows`, or all of them where there are fewer.
pub fn collect_paths(rows: &Vec<String>, limit: usize) -> (r: Vec<String>)
    ensures
        path_views(r@) == bounded(path_views(rows@), limit as nat),
        r@.len() <= limit,
{
    let mut out: Vec<String> = Vec::new();
    let mut i: usize = 0;
    while i < rows.len() && i < limit
        invariant
            i <= rows.len(),
            i <= limit,
            out@.len() == i,
            path_views(out@) == path_views(rows@).subrange(0, i as int),
        decreases rows.len() - i,
    {
        let ghost before = out@;
        out.push(rows[i].clone());
        assert(path_views(out@) =~= path_views(before).push(rows@[i as int]@));
        assert(path_views(out@) =~= path_views(rows@).subrange(0, i + 1));
        i += 1;
    }
    assert(path_views(out@) =~= bounded(path_views(rows@), limit as nat));
    out
}

/// The record count reported for the outcome of the counting query: the
/// count, or 0 where the query failed or gave no count.
pub fn count_or_zero(outcome: Result<i64, rusqlite::Error>) -> (r: usize)
    ensures
        r == reply_count(count_reply(outcome)),
{
    match outcome {
        Ok(n) => {
            if n >= 0 && n as u64 <= usize::MAX as u64 {
                n as usize
            } else {
                0
            }
        },
        Err(_) => 0,
    }
}

/// Puts the statistics together; nothing that is missing is an error.
pub fn stats_of(count: Result<i64, rusqlite::Error>, byte_size: Option<i64>) -> (r: Stats)
    ensures
        r == stats_spec(count, byte_size),
{
    let record_count = count_or_zero(count);
    let byte_size = match byte_size {
        Some(n) => n,
        None => 0,
    };
    Stats { record_count, byte_size }
}

/// The number of records that went in, after one more attempted insert.
pub fn next_count(count: usize, outcome: &Result<usize, rusqlite::Error>) -> (r: usize)
    requires
        count < usize::MAX,
    ensures
        r == count + if *outcome is Ok {
            1nat
        } else {
            0nat
        },
{
    match outcome {
        Ok(_) => count + 1,
        Err(_) => count,
    }
}

/// Opens a connection and records the call.
fn run_open(location: &str) -> (r: (Result<rusqlite::Connection, rusqlite::Error>, Ghost<Step>))
    ensures
        r.1@ == (Step { call: Call::Open { location: location@ }, reply: plain_reply(r.0 is Ok) }),
{
    let outcome = open_connection(location);
    let ghost step = Step {
        call: Call::Open { location: location@ },
        reply: plain_reply(outcome is Ok),
    };
    (outcome, Ghost(step))
}

/// Runs a statement and records the call.
fn run_execute(conn: &rusqlite::Connection, sql: &str) -> (r: (
    Result<usize, rusqlite::Error>,
    Ghost<Step>,
))
    ensures
        r.1@ == (Step { call: Call::Execute { sql: sql@ }, reply: plain_reply(r.0 is Ok) }),
{
    let outcome = execute(conn, sql);
    let ghost step = Step { call: Call::Execute { sql: sql@ }, reply: plain_reply(outcome is Ok) };
    (outcome, Ghost(step))
}

/// Starts a transaction and records the call.
fn run_begin<'a>(conn: &'a mut rusqlite::Connection) -> (r: (
    Result<rusqlite::Transaction<'a>, rusqlite::Error>,
    Ghost<Step>,
))
    ensures
        r.1@ == (Step { call: Call::Begin, reply: plain_reply(r.0 is Ok) }),
{
    let outcome = begin(conn);
    let ghost step = Step { call: Call::Begin, reply: plain_reply(outcome is Ok) };
    (outcome, Ghost(step))
}

/// Commits a transaction and records the call.
fn run_commit(tx: rusqlite::Transaction<'_>) -> (r: (Result<(), rusqlite::Error>, Ghost<Step>))
    ensures
        r.1@ == (Step { call: Call::Commit, reply: plain_reply(r.0 is Ok) }),
{
    let outcome = commit(tx);
    let ghost step = Step { call: Call::Commit, reply: plain_reply(outcome is Ok) };
    (outcome, Ghost(step))
}

/// Prepares a statement and records the call.
fn run_prepare<'a>(conn: &'a rusqlite::Connection, sql: &str) -> (r: (
    Result<rusqlite::Statement<'a>, rusqlite::Error>,
    Ghost<Step>,
))
    ensures
        r.1@ == (Step { call: Call::Prepare { sql: sql@ }, reply: plain_reply(r.0 is Ok) }),
{
    let outcome = prepare(conn, sql);
    let ghost step = Step { call: Call::Prepare { sql: sql@ }, reply: plain_reply(outcome is Ok) };
    (outcome, Ghost(step))
}

/// Runs the prepared insert for one record and records the call.
fn run_insert(stmt: &mut rusqlite::Statement<'_>, record: &Record) -> (r: (
    Result<usize, rusqlite::Error>,
    Ghost<Step>,
))
    ensures
        r.1@ == (Step { call: Call::Insert { record: record@ }, reply: plain_reply(r.0 is Ok) }),
{
    let outcome = execute_insert(stmt, record);
    let ghost step = Step {
        call: Call::Insert { record: record@ },
        reply: plain_reply(outcome is Ok),
    };
    (outcome, Ghost(step))
}

/// Runs the prepared query and records the call with the rows it gave.
fn run_paths(stmt: &mut rusqlite::Statement<'_>, argument: &str, limit: i64) -> (r: (
    Result<Vec<String>, rusqlite::Error>,
    Ghost<Step>,
))
    ensures
        r.1@ == (Step {
            call: Call::Query { argument: argument@, limit: limit as int },
            reply: rows_reply(r.0),
        }),
{
    let outcome = query_paths(stmt, argument, limit);
    let ghost step = Step {
        call: Call::Query { argument: argument@, limit: limit as int },
        reply: rows_reply(outcome),
    };
    (outcome, Ghost(step))
}

/// Runs the counting query and records the call with the number it gave.
fn run_count(conn: &rusqlite::Connection, sql: &str) -> (r: (
    Result<i64, rusqlite::Error>,
    Ghost<Step>,
))
    ensures
        r.1@ == (Step { call: Call::Count { sql: sql@ }, reply: count_reply(r.0) }),
{
    let outcome = query_count(conn, sql);
    let ghost step = Step { call: Call::Count { sql: sql@ }, reply: count_reply(outcome) };
    (outcome, Ghost(step))
}

/// Runs the statements of the schema on `conn`, in their order, and stops at
/// the first that fails. Returns with the outcome the steps that were made.
fn init_db(conn: &rusqlite::Connection) -> (r: (Result<(), StorageError>, Ghost<Seq<Step>>))
    ensures
        carried_out(r.1@, schema_calls()),
        r.0 is Ok <==> completed(r.1@, schema_calls()),
        r.0 is Err ==> r.0->Err_0 is Schema,
        r.0 is Err ==> raised_by(r.0->Err_0, r.1@.last().call),
        inserted(r.1@) == 0,
{
    let statements = schema_statements();
    let ghost mut steps: Seq<Step> = Seq::empty();
    let mut i: usize = 0;
    while i < 5
        invariant
            i <= 5,
            statements@.len() == 5,
            forall|j: int| 0 <= j < 5 ==> (#[trigger] statements@[j])@ == schema_spec()[j],
            steps.len() == i,
            forall|j: int| 0 <= j < i ==> (#[trigger] steps[j]).call == schema_calls()[j],
            forall|j: int| 0 <= j < i ==> !halts(#[trigger] steps[j]),
        decreases 5 - i,
    {
        let (outcome, Ghost(step)) = run_execute(conn, statements[i]);
        proof {
            steps = steps.push(step);
        }
        match outcome {
            Ok(_) => {},
            Err(e) => {
                proof {
                    assert(halts(steps[i as int]));
                    no_insert_no_count(steps);
                }
                return (Err(StorageError::Schema(e)), Ghost(steps));
            },
        }
        i += 1;
    }
    proof {
        no_insert_no_count(steps);
    }
    (Ok(()), Ghost(steps))
}

/// Inserts `records` through `conn`, in their order, and counts those that
/// went in. A record whose insert fails is passed over. Returns with the
/// outcome the steps that were made.
fn insert_all(conn: &rusqlite::Connection, records: &Vec<Record>) -> (r: (
    Result<usize, StorageError>,
    Ghost<Seq<Step>>,
))
    ensures
        carried_out(r.1@, insert_calls(record_views(records@))),
        r.0 is Ok <==> completed(r.1@, insert_calls(record_views(records@))),
        r.0 is Ok ==> r.0->Ok_0 == inserted(r.1@),
        r.0 is Ok ==> r.0->Ok_0 <= records@.len(),
        r.0 is Err ==> r.0->Err_0 is Prepare,
        r.0 is Err ==> raised_by(r.0->Err_0, r.1@.last().call),
        r.0 is Err ==> inserted(r.1@) == 0,
{
    let ghost calls = insert_calls(record_views(records@));
    let (prepared, Ghost(first)) = run_prepare(conn, INSERT_FILE);
    let ghost mut steps: Seq<Step> = seq![first];
    proof {
        no_insert_no_count(steps);
    }
    let mut stmt = match prepared {
        Ok(stmt) => stmt,
        Err(e) => {
            proof {
                assert(halts(steps[0]));
            }
            return (Err(StorageError::Prepare(e)), Ghost(steps));
        },
    };
    let mut count: usize = 0;
    let mut i: usize = 0;
    while i < records.len()
        invariant
            i <= records.len(),
            calls == insert_calls(record_views(records@)),
            steps.len() == i + 1,
            forall|j: int| 0 <= j <= i ==> (#[trigger] steps[j]).call == calls[j],
            forall|j: int| 0 <= j <= i ==> !halts(#[trigger] steps[j]),
            count == inserted(steps),
            count <= i,
        decreases records.len() - i,
    {
        let (outcome, Ghost(step)) = run_insert(&mut stmt, &records[i]);
        proof {
            let before = steps;
            steps = steps.push(step);
            assert(steps.drop_last() =~= before);
            assert(went_in(step) <==> outcome is Ok);
        }
        count = next_count(count, &outcome);
        i += 1;
    }
    (Ok(count), Ghost(steps))
}

/// Deletes every record through `conn`, then inserts `records` in one
/// transaction. Returns with the outcome the steps that were made.
fn replace_records(conn: &mut rusqlite::Connection, records: &Vec<Record>) -> (r: (
    Result<usize, StorageError>,
    Ghost<Seq<Step>>,
))
    ensures
        carried_out(r.1@, replace_calls(record_views(records@))),
        r.0 is Ok <==> completed(r.1@, replace_calls(record_views(records@))),
        r.0 is Ok ==> r.0->Ok_0 == inserted(r.1@),
        r.0 is Ok ==> r.0->Ok_0 <= records@.len(),
        r.0 is Err ==> r.0->Err_0 is Clear || r.0->Err_0 is Begin || r.0->Err_0 is Prepare
            || r.0->Err_0 is Commit,
        r.0 is Err ==> raised_by(r.0->Err_0, r.1@.last().call),
{
    let ghost views = record_views(records@);
    let ghost opening = seq![Call::Execute { sql: DELETE_FILES@ }, Call::Begin];
    let ghost closing = seq![Call::Commit];
    proof {
        assert(replace_calls(views) =~= opening + (insert_calls(views) + closing));
    }
    let (cleared, Ghost(first)) = run_execute(conn, DELETE_FILES);
    match cleared {
        Ok(_) => {},
        Err(e) => {
            proof {
                assert(halts(seq![first][0]));
                assert(carried_out(seq![first], opening));
                carried_out_ended(seq![first], opening, insert_calls(views) + closing);
            }
            let ghost only = seq![first];
            return (Err(StorageError::Clear(e)), Ghost(only));
        },
    }
    let (begun, Ghost(second)) = run_begin(conn);
    let ghost head = seq![first, second];
    proof {
        assert(carried_out(head, opening));
        no_insert_no_count(head);
    }
    let tx = match begun {
        Ok(tx) => tx,
        Err(e) => {
            proof {
                assert(halts(head[1]));
                carried_out_ended(head, opening, insert_calls(views) + closing);
            }
            return (Err(StorageError::Begin(e)), Ghost(head));
        },
    };
    proof {
        assert(completed(head, opening));
    }
    let (inserts, Ghost(middle)) = insert_all(connection_of(&tx), records);
    let count = match inserts {
        Ok(count) => count,
        Err(e) => {
            proof {
                carried_out_ended(middle, insert_calls(views), closing);
                carried_out_after(head, opening, middle, insert_calls(views) + closing);
            }
            return (Err(e), Ghost(head + middle));
        },
    };
    let (committed, Ghost(last)) = run_commit(tx);
    proof {
        let tail = seq![last];
        assert(carried_out(tail, closing));
        no_insert_no_count(tail);
        carried_out_after(middle, insert_calls(views), tail, closing);
        carried_out_after(head, opening, middle + tail, insert_calls(views) + closing);
        assert(completed(tail, closing) <==> committed is Ok) by {
            assert(tail[0] == last);
        }
    }
    let ghost steps = head + (middle + seq![last]);
    match committed {
        Ok(_) => (Ok(count), Ghost(steps)),
        Err(e) => (Err(StorageError::Commit(e)), Ghost(steps)),
    }
}

/// Runs a query that takes a text and a row limit, and keeps the paths it
/// gives, at most `limit` of them, in the query's order. Returns with the
/// outcome the steps that were made.
fn run_query(conn: &rusqlite::Connection, sql: &str, argument: &str, limit: usize) -> (r: (
    Result<Vec<String>, StorageError>,
    Ghost<Seq<Step>>,
))
    ensures
        carried_out(r.1@, query_calls(sql@, argument@, limit)),
        r.0 is Ok <==> completed(r.1@, query_calls(sql@, argument@, limit)),
        r.0 is Ok ==> path_views(r.0->Ok_0@) == bounded(
            reply_rows(r.1@.last().reply),
            limit as nat,
        ),
        r.0 is Ok ==> r.0->Ok_0@.len() <= limit,
        r.0 is Err ==> r.0->Err_0 is Prepare || r.0->Err_0 is Query,
        r.0 is Err ==> raised_by(r.0->Err_0, r.1@.last().call),
        inserted(r.1@) == 0,
{
    let (prepared, Ghost(first)) = run_prepare(conn, sql);
    let mut stmt = match prepared {
        Ok(stmt) => stmt,
        Err(e) => {
            proof {
                assert(halts(seq![first][0]));
                no_insert_no_count(seq![first]);
            }
            let ghost only = seq![first];
            return (Err(StorageError::Prepare(e)), Ghost(only));
        },
    };
    let (rows, Ghost(second)) = run_paths(&mut stmt, argument, row_limit(limit));
    let ghost steps = seq![first, second];
    proof {
        no_insert_no_count(steps);
        assert(steps.last() == second);
        assert(rows is Err ==> halts(steps[1]));
    }
    match rows {
        Ok(rows) => (Ok(collect_paths(&rows, limit)), Ghost(steps)),
        Err(e) => (Err(StorageError::Query(e)), Ghost(steps)),
    }
}

/// An open store, with the record of the steps it has made.
pub struct Store {
    conn: rusqlite::Connection,
    trace: Ghost<Seq<Step>>,
}

/// What opening the store at a location gives: the store, or the failure,
/// and in either case the step that was made.
pub fn open_store(location: &str) -> (r: (Result<Store, StorageError>, Ghost<Step>))
    ensures
        r.1@ == (Step { call: Call::Open { location: location@ }, reply: plain_reply(r.0 is Ok) }),
        r.0 is Ok ==> r.0->Ok_0.trace() == seq![r.1@],
        r.0 is Err ==> r.0->Err_0 is Open,
{
    let (outcome, Ghost(step)) = run_open(location);
    let ghost only = seq![step];
    match outcome {
        Ok(conn) => (Ok(Store { conn, trace: Ghost(only) }), Ghost(step)),
        Err(e) => (Err(StorageError::Open(e)), Ghost(step)),
    }
}

impl Store {
    /// The steps that the store has made, in their order, the opening
    /// first.
    pub closed spec fn trace(&self) -> Seq<Step> {
        self.trace@
    }

    /// The record of the steps that the store has made.
    pub fn steps(&self) -> (r: Ghost<Seq<Step>>)
        ensures
            r@ == self.trace(),
    {
        self.trace
    }

    /// Opens the store at `location` for reading and writing.
    pub fn open(location: &str) -> (r: Result<Store, StorageError>)
        ensures
            r is Ok ==> r->Ok_0.trace() == seq![
                Step { call: Call::Open { location: location@ }, reply: Reply::Done },
            ],
            r is Err ==> r->Err_0 is Open,
    {
        open_store(location).0
    }

    fn record(&mut self, steps: Ghost<Seq<Step>>)
        ensures
            final(self).trace() == old(self).trace() + steps@,
            old(self).trace().is_prefix_of(final(self).trace()),
            added(old(self).trace(), final(self).trace()) == steps@,
            steps@.len() > 0 ==> final(self).trace().last() == steps@.last(),
    {
        let ghost before = self.trace@;
        self.trace = Ghost(before + steps@);
        proof {
            assert((before + steps@).skip(before.len() as int) =~= steps@);
        }
    }

    /// Creates the tables and triggers of the schema: runs its statements in
    /// order and stops at the first that fails, which is then the error.
    /// Each creates only what is absent.
    pub fn ensure_schema(&mut self) -> (r: Result<(), StorageError>)
        ensures
            old(self).trace().is_prefix_of(final(self).trace()),
            carried_out(added(old(self).trace(), final(self).trace()), schema_calls()),
            r is Ok <==> completed(added(old(self).trace(), final(self).trace()), schema_calls()),
            r is Err ==> r->Err_0 is Schema,
            r is Err ==> raised_by(r->Err_0, final(self).trace().last().call),
            inserted(added(old(self).trace(), final(self).trace())) == 0,
    {
        let (outcome, steps) = init_db(&self.conn);
        self.record(steps);
        outcome
    }

    /// Deletes every record, and with each its text-index entry.
    pub fn clear(&mut self) -> (r: Result<(), StorageError>)
        ensures
            final(self).trace() == old(self).trace().push(
                Step { call: Call::Execute { sql: DELETE_FILES@ }, reply: plain_reply(r is Ok) },
            ),
            r is Err ==> r->Err_0 is Clear,
            r is Err ==> raised_by(r->Err_0, final(self).trace().last().call),
    {
        let (outcome, Ghost(step)) = run_execute(&self.conn, DELETE_FILES);
        let ghost only = seq![step];
        self.record(Ghost(only));
        proof {
            assert(self.trace@ =~= old(self).trace@.push(step));
        }
        match outcome {
            Ok(_) => Ok(()),
            Err(e) => Err(StorageError::Clear(e)),
        }
    }

    /// Inserts `records`, in their order, and returns how many went in. A
    /// record whose insert fails is passed over. Only a statement that
    /// cannot be prepared is an error.
    pub fn insert_batch(&mut self, records: &Vec<Record>) -> (r: Result<usize, StorageError>)
        ensures
            old(self).trace().is_prefix_of(final(self).trace()),
            carried_out(
                added(old(self).trace(), final(self).trace()),
                insert_calls(record_views(records@)),
            ),
            r is Ok <==> completed(
                added(old(self).trace(), final(self).trace()),
                insert_calls(record_views(records@)),
            ),
            r is Ok ==> r->Ok_0 == inserted(added(old(self).trace(), final(self).trace())),
            r is Ok ==> r->Ok_0 <= records@.len(),
            r is Err ==> r->Err_0 is Prepare,
            r is Err ==> raised_by(r->Err_0, final(self).trace().last().call),
    {
        let (outcome, steps) = insert_all(&self.conn, records);
        self.record(steps);
        outcome
    }

    /// Replaces all records by `records`: deletes what is there, then inserts
    /// them in one transaction. Returns how many went in. The delete comes
    /// before the transaction and is not undone with it. A delete, a start,
    /// a prepare or a commit that fails is the error.
    pub fn replace_all(&mut self, records: &Vec<Record>) -> (r: Result<usize, StorageError>)
        ensures
            old(self).trace().is_prefix_of(final(self).trace()),
            carried_out(
                added(old(self).trace(), final(self).trace()),
                replace_calls(record_views(records@)),
            ),
            r is Ok <==> completed(
                added(old(self).trace(), final(self).trace()),
                replace_calls(record_views(records@)),
            ),
            r is Ok ==> r->Ok_0 == inserted(added(old(self).trace(), final(self).trace())),
            r is Ok ==> r->Ok_0 <= records@.len(),
            r is Err ==> r->Err_0 is Clear || r->Err_0 is Begin || r->Err_0 is Prepare
                || r->Err_0 is Commit,
            r is Err ==> raised_by(r->Err_0, final(self).trace().last().call),
    {
        let (outcome, steps) = replace_records(&mut self.conn, records);
        self.record(steps);
        outcome
    }

    /// Runs a planned search: the query of the plan's mode with the plan's
    /// argument. Returns the rows that the query gave, at most as many as
    /// the plan allows. A query that cannot be prepared or run is the error.
    pub fn run(&mut self, plan: &SearchPlan) -> (r: Result<Vec<String>, StorageError>)
        ensures
            old(self).trace().is_prefix_of(final(self).trace()),
            carried_out(
                added(old(self).trace(), final(self).trace()),
                query_calls(statement_of(plan.mode), plan.argument@, plan.limit),
            ),
            r is Ok <==> completed(
                added(old(self).trace(), final(self).trace()),
                query_calls(statement_of(plan.mode), plan.argument@, plan.limit),
            ),
            r is Ok ==> path_views(r->Ok_0@) == bounded(
                reply_rows(final(self).trace().last().reply),
                plan.limit as nat,
            ),
            r is Ok ==> r->Ok_0@.len() <= plan.limit,
            r is Err ==> r->Err_0 is Prepare || r->Err_0 is Query,
            r is Err ==> raised_by(r->Err_0, final(self).trace().last().call),
            inserted(added(old(self).trace(), final(self).trace())) == 0,
    {
        let (outcome, steps) = run_query(
            &self.conn,
            statement_for(plan.mode),
            plan.argument.as_str(),
            plan.limit,
        );
        self.record(steps);
        outcome
    }

    /// The paths that match a LIKE pattern, in the order of the paths, at
    /// most `limit` of them.
    pub fn query_glob(&mut self, like_pattern: &str, limit: usize) -> (r: Result<
        Vec<String>,
        StorageError,
    >)
        ensures
            old(self).trace().is_prefix_of(final(self).trace()),
            carried_out(
                added(old(self).trace(), final(self).trace()),
                query_calls(SELECT_GLOB@, like_pattern@, limit),
            ),
            r is Ok <==> completed(
                added(old(self).trace(), final(self).trace()),
                query_calls(SELECT_GLOB@, like_pattern@, limit),
            ),
            r is Ok ==> path_views(r->Ok_0@) == bounded(
                reply_rows(final(self).trace().last().reply),
                limit as nat,
            ),
            r is Ok ==> r->Ok_0@.len() <= limit,
            r is Err ==> r->Err_0 is Prepare || r->Err_0 is Query,
            r is Err ==> raised_by(r->Err_0, final(self).trace().last().call),
    {
        let (outcome, steps) = run_query(&self.conn, SELECT_GLOB, like_pattern, limit);
        self.record(steps);
        outcome
    }

    /// The paths whose text-index entry matches an expression, best match
    /// first, at most `limit` of them.
    pub fn query_text(&mut self, expression: &str, limit: usize) -> (r: Result<
        Vec<String>,
        StorageError,
    >)
        ensures
            old(self).trace().is_prefix_of(final(self).trace()),
            carried_out(
                added(old(self).trace(), final(self).trace()),
                query_calls(SELECT_TEXT@, expression@, limit),
            ),
            r is Ok <==> completed(
                added(old(self).trace(), final(self).trace()),
                query_calls(SELECT_TEXT@, expression@, limit),
            ),
            r is Ok ==> path_views(r->Ok_0@) == bounded(
                reply_rows(final(self).trace().last().reply),
                limit as nat,
            ),
            r is Ok ==> r->Ok_0@.len() <= limit,
            r is Err ==> r->Err_0 is Prepare || r->Err_0 is Query,
            r is Err ==> raised_by(r->Err_0, final(self).trace().last().call),
    {
        let (outcome, steps) = run_query(&self.conn, SELECT_TEXT, expression, limit);
        self.record(steps);
        outcome
    }

    /// The number of records, or the failure of the counting query.
    pub fn count(&mut self) -> (r: Result<i64, StorageError>)
        ensures
            final(self).trace().drop_last() == old(self).trace(),
            final(self).trace().last().call == (Call::Count { sql: COUNT_FILES@ }),
            r is Ok <==> !(final(self).trace().last().reply is Failed),
            r is Ok ==> final(self).trace().last().reply == Reply::Number(r->Ok_0 as int),
            r is Err ==> r->Err_0 is Query,
            r is Err ==> raised_by(r->Err_0, final(self).trace().last().call),
    {
        let (outcome, Ghost(step)) = run_count(&self.conn, COUNT_FILES);
        let ghost only = seq![step];
        self.record(Ghost(only));
        proof {
            assert(self.trace@ =~= old(self).trace@.push(step));
            assert(self.trace@.drop_last() =~= old(self).trace@);
        }
        match outcome {
            Ok(n) => Ok(n),
            Err(e) => Err(StorageError::Query(e)),
        }
    }

    /// Rebuilds the index from a directory walk: creates what is absent of
    /// the schema, and replaces all records by those of the walk's readable
    /// entries. Returns the number of records that went in: an unreadable
    /// entry, or one whose insert fails, is passed over and not counted.
    /// Any other step that fails is the error.
    pub fn rebuild(&mut self, walk: &Vec<Walked>) -> (r: Result<usize, StorageError>)
        ensures
            old(self).trace().is_prefix_of(final(self).trace()),
            carried_out(
                added(old(self).trace(), final(self).trace()),
                rebuild_calls(records_of(walk@)),
            ),
            r is Ok <==> completed(
                added(old(self).trace(), final(self).trace()),
                rebuild_calls(records_of(walk@)),
            ),
            r is Ok ==> r->Ok_0 == inserted(added(old(self).trace(), final(self).trace())),
            r is Ok ==> r->Ok_0 <= records_of(walk@).len(),
            r is Err ==> r->Err_0 is Schema || r->Err_0 is Clear || r->Err_0 is Begin
                || r->Err_0 is Prepare || r->Err_0 is Commit,
            r is Err ==> raised_by(r->Err_0, final(self).trace().last().call),
    {
        let ghost before = self.trace@;
        let ghost replace = replace_calls(records_of(walk@));
        match self.ensure_schema() {
            Ok(_) => {},
            Err(e) => {
                proof {
                    carried_out_ended(added(before, self.trace@), schema_calls(), replace);
                }
                return Err(e);
            },
        }
        let ghost middle = self.trace@;
        let records = readable_records(walk);
        let outcome = self.replace_all(&records);
        proof {
            let first = added(before, middle);
            let second = added(middle, self.trace@);
            assert(middle =~= before + first);
            assert(self.trace@ =~= middle + second);
            assert(added(before, self.trace@) =~= first + second);
            carried_out_after(first, schema_calls(), second, replace);
        }
        outcome
    }

    /// Searches the index for `pattern` and returns the matching paths, at
    /// most `limit` of them (1000 where no limit is given). The schema is
    /// created first where it is absent. A glob search orders the paths by
    /// path, a free-text search by relevance. An empty pattern matches
    /// nothing, and no query is run for it. A step that fails is the error.
    pub fn search(&mut self, pattern: &str, limit: Option<usize>) -> (r: Result<
        Vec<String>,
        StorageError,
    >)
        ensures
            old(self).trace().is_prefix_of(final(self).trace()),
            carried_out(
                added(old(self).trace(), final(self).trace()),
                search_calls(pattern@, limit),
            ),
            r is Ok <==> completed(
                added(old(self).trace(), final(self).trace()),
                search_calls(pattern@, limit),
            ),
            r is Ok ==> path_views(r->Ok_0@) == search_result(
                final(self).trace(),
                pattern@,
                limit,
            ),
            r is Ok ==> r->Ok_0@.len() <= effective_limit_spec(limit),
            r is Err ==> r->Err_0 is Schema || r->Err_0 is Prepare || r->Err_0 is Query,
            r is Err ==> raised_by(r->Err_0, final(self).trace().last().call),
    {
        let ghost before = self.trace@;
        let ghost query = query_calls(
            statement_of(mode_of(pattern@)),
            search_argument_spec(pattern@),
            effective_limit_spec(limit),
        );
        match self.ensure_schema() {
            Ok(_) => {},
            Err(e) => {
                proof {
                    if pattern@.len() > 0 {
                        carried_out_ended(added(before, self.trace@), schema_calls(), query);
                    }
                }
                return Err(e);
            },
        }
        if pattern.is_empty() {
            let none: Vec<String> = Vec::new();
            proof {
                assert(path_views(none@) =~= Seq::<Seq<char>>::empty());
            }
            return Ok(none);
        }
        let ghost middle = self.trace@;
        let plan = plan_search(pattern, limit);
        let outcome = self.run(&plan);
        proof {
            let first = added(before, middle);
            let second = added(middle, self.trace@);
            assert(middle =~= before + first);
            assert(self.trace@ =~= middle + second);
            assert(added(before, self.trace@) =~= first + second);
            carried_out_after(first, schema_calls(), second, query);
        }
        outcome
    }

    /// Reports the statistics of the index. `byte_size` is the store's size
    /// on disk where the caller could read it. The schema is created first
    /// where it is absent. Nothing is an error here: a schema that cannot be
    /// created is passed over, and a count that cannot be had is reported
    /// as 0.
    pub fn stats(&mut self, byte_size: Option<i64>) -> (r: Stats)
        ensures
            old(self).trace().is_prefix_of(final(self).trace()),
            carried_out(
                added(old(self).trace(), final(self).trace()).drop_last(),
                schema_calls(),
            ),
            final(self).trace().last().call == (Call::Count { sql: COUNT_FILES@ }),
            r.record_count == reply_count(final(self).trace().last().reply),
            r.byte_size == field_or_zero(byte_size),
    {
        let ghost before = self.trace@;
        let _ = self.ensure_schema();
        let ghost middle = self.trace@;
        let (outcome, Ghost(step)) = run_count(&self.conn, COUNT_FILES);
        let ghost only = seq![step];
        self.record(Ghost(only));
        proof {
            let first = added(before, middle);
            assert(middle =~= before + first);
            assert(self.trace@ =~= middle.push(step));
            assert(added(before, self.trace@) =~= first.push(step));
            assert(first.push(step).drop_last() =~= first);
        }
        stats_of(outcome, byte_size)
    }
}

} // verus!
