//! The calls that a database makes on its SQLite connection, and the record
//! of them. Only the calls here extend the record: its field is out of
//! reach of the rest of the library.

use vstd::prelude::*;
use super::{DB, QueryError, SqlCall};
use crate::cmd::sql::SqlValue;

verus! {

/// The calls made on one connection, in the order they were made.
pub struct CallLog {
    calls: Ghost<Seq<SqlCall>>,
}

impl CallLog {
    /// The calls recorded so far.
    pub closed spec fn calls(&self) -> Seq<SqlCall> {
        self.calls@
    }
}

/// `rusqlite::Connection::open`: opens the database file at `path`,
/// creating an empty one where there is none. Claims only that a database
/// it returns holds the connection opened at `path`, recorded as such;
/// whether opening succeeds rests on the disk.
#[verifier::external_body]
pub(crate) fn open_db(path: &str) -> (r: Result<DB, rusqlite::Error>)
    ensures
        r is Ok ==> r->Ok_0.handed() == seq![SqlCall::Open(path@)],
{
    match rusqlite::Connection::open(path) {
        Ok(conn) => Ok(DB { conn, log: CallLog { calls: Ghost(seq![SqlCall::Open(path@)]) } }),
        Err(e) => Err(e),
    }
}

/// `rusqlite::Connection::execute_batch`: runs each statement of `sql` on
/// the database's connection. Claims only that this batch was handed over,
/// recorded as such; nothing of the outcome.
#[verifier::external_body]
pub(crate) fn execute_batch(db: &mut DB, sql: &str) -> (r: Result<(), rusqlite::Error>)
    ensures
        final(db).handed() == old(db).handed().push(SqlCall::Batch(sql@)),
{
    let r = db.conn.execute_batch(sql);
    db.log.calls = Ghost(db.log.calls@.push(SqlCall::Batch(sql@)));
    r
}

/// `rusqlite::Connection::query_row`, reading the first column of the first
/// row as an `i64`; rusqlite's `QueryReturnedNoRows` becomes `NoRows`, any
/// other error `Failed`. Only the query for the newest timestamp is run
/// through it: its one column, `timestamp`, has an ASCII name, on which
/// `Row::get` cannot panic. Claims only that the query was handed over and
/// what came back is recorded; nothing of the outcome.
#[verifier::external_body]
pub(crate) fn query_first_i64(db: &mut DB, sql: &str) -> (r: Result<i64, QueryError>)
    requires
        sql@ == super::LATEST_TIMESTAMP_QUERY@,
    ensures
        final(db).handed() == old(db).handed().push(SqlCall::ReadFirst(sql@, r)),
{
    let r = match db.conn.query_row(sql, (), |row| row.get(0)) {
        Ok(v) => Ok(v),
        Err(rusqlite::Error::QueryReturnedNoRows) => Err(QueryError::NoRows),
        Err(e) => Err(QueryError::Failed(e)),
    };
    db.log.calls = Ghost(db.log.calls@.push(SqlCall::ReadFirst(sql@, r)));
    r
}

/// `rusqlite::Connection::prepare`: compiles one statement on `conn`, the
/// connection that `log` records. Claims only that compiling `sql` was
/// asked for and whether it succeeded, recorded as such.
#[verifier::external_body]
pub(crate) fn prepare<'c>(conn: &'c rusqlite::Connection, log: &mut CallLog, sql: &str) -> (r: Result<
    rusqlite::Statement<'c>,
    rusqlite::Error,
>)
    ensures
        final(log).calls() == old(log).calls().push(SqlCall::Prepare(sql@, r is Ok)),
{
    let r = conn.prepare(sql);
    log.calls = Ghost(log.calls@.push(SqlCall::Prepare(sql@, r is Ok)));
    r
}

/// `rusqlite::Statement::execute` with the four values of a track bound in
/// order. Claims only that the statement was run with these values and
/// whether that succeeded, recorded as such.
#[verifier::external_body]
pub(crate) fn execute_track(
    stmt: &mut rusqlite::Statement<'_>,
    log: &mut CallLog,
    artist: &str,
    album: &str,
    name: &str,
    timestamp: i64,
) -> (r: Result<usize, rusqlite::Error>)
    ensures
        final(log).calls() == old(log).calls().push(
            SqlCall::InsertTrack(artist@, album@, name@, timestamp, r is Ok),
        ),
{
    let r = stmt.execute((artist, album, name, timestamp));
    log.calls = Ghost(log.calls@.push(SqlCall::InsertTrack(artist@, album@, name@, timestamp, r is Ok)));
    r
}

/// `rusqlite::Statement::column_count`: the number of columns of the
/// statement's result. Claims only that the count was read and what came
/// back, recorded as such.
#[verifier::external_body]
pub(crate) fn column_count(stmt: &rusqlite::Statement<'_>, log: &mut CallLog) -> (r: usize)
    ensures
        final(log).calls() == old(log).calls().push(SqlCall::ColumnCount(r)),
{
    let r = stmt.column_count();
    log.calls = Ghost(log.calls@.push(SqlCall::ColumnCount(r)));
    r
}

/// A value of a result row in the library's own form: the same variant,
/// the same integer, the text's bytes read as UTF-8, the bytes of a blob,
/// and a floating-point number's bit pattern.
#[verifier::external_body]
fn sql_value(v: rusqlite::types::ValueRef<'_>) -> SqlValue {
    match v {
        rusqlite::types::ValueRef::Null => SqlValue::Null,
        rusqlite::types::ValueRef::Integer(i) => SqlValue::Integer(i),
        rusqlite::types::ValueRef::Real(f) => SqlValue::Real(f.to_bits()),
        rusqlite::types::ValueRef::Text(t) => SqlValue::Text(String::from_utf8_lossy(t).into_owned()),
        rusqlite::types::ValueRef::Blob(b) => SqlValue::Blob(b.to_vec()),
    }
}

/// `rusqlite::Statement::query` with no parameters, stepping through every
/// row with `Rows::next` and reading its first `n` columns with
/// `Row::get_ref` (by index, which reads no column name). Claims that each
/// row read has `n` values, as the loop below makes them, and that the
/// reading and what came back are recorded; nothing of the values.
#[verifier::external_body]
pub(crate) fn query_rows(stmt: &mut rusqlite::Statement<'_>, log: &mut CallLog, n: usize) -> (r: Result<
    Vec<Vec<SqlValue>>,
    rusqlite::Error,
>)
    ensures
        final(log).calls() == old(log).calls().push(SqlCall::ReadRows(n, r)),
        r is Ok ==> forall|k: int| 0 <= k < r->Ok_0@.len() ==> (#[trigger] r->Ok_0@[k])@.len() == n,
{
    let r = (|| -> Result<Vec<Vec<SqlValue>>, rusqlite::Error> {
        let mut rows = stmt.query(())?;
        let mut out = Vec::new();
        while let Some(row) = rows.next()? {
            let mut cells = Vec::new();
            for i in 0..n {
                cells.push(sql_value(row.get_ref(i)?));
            }
            out.push(cells);
        }
        Ok(out)
    })();
    log.calls = Ghost(log.calls@.push(SqlCall::ReadRows(n, r)));
    r
}

} // verus!
