//! The local SQLite copy of a user's listening history.

mod calls;

use vstd::prelude::*;
use crate::lastfm::Track;
use crate::cmd::sql::SqlValue;
use crate::text::same_text;
use self::calls::{CallLog, open_db, execute_batch, query_first_i64, prepare, execute_track, column_count, query_rows};

verus! {

#[verifier::external_type_specification]
#[verifier::external_body]
pub struct ExConnection(rusqlite::Connection);

#[verifier::external_type_specification]
#[verifier::external_body]
pub struct ExSqliteError(rusqlite::Error);

#[verifier::external_type_specification]
#[verifier::external_body]
pub struct ExStatement<'conn>(rusqlite::Statement<'conn>);

#[verifier::external_type_specification]
#[verifier::external_body]
pub struct ExValueRef<'a>(rusqlite::types::ValueRef<'a>);

/// The tables and views of a new database: the tracks, and the tracks of
/// the last year, month and week.
pub const SCHEMA: &'static str = "
    CREATE TABLE `tracks` (
        artist varchar(1024) NOT NULL,
        album varchar(1024) DEFAULT NULL,
        name varchar(1024) NOT NULL,
        timestamp integer(11) NOT NULL
    );
    CREATE VIEW `yearly_tracks` as
        SELECT *
        FROM tracks
        WHERE strftime('%s') - timestamp < 60*60*24*365;
    CREATE VIEW `monthly_tracks` as
        SELECT *
        FROM tracks
        WHERE strftime('%s') - timestamp < 60*60*24*30;
    CREATE VIEW `weekly_tracks` as
        SELECT *
        FROM tracks
        WHERE strftime('%s') - timestamp < 60*60*24*7;
";

/// The query for the newest stored timestamp.
pub const LATEST_TIMESTAMP_QUERY: &'static str = "SELECT timestamp FROM tracks ORDER BY timestamp DESC LIMIT 1";

/// The statement that stores one track.
pub const INSERT_TRACK: &'static str = "INSERT INTO tracks VALUES (?, ?, ?, ?)";

/// A call that a `DB` made on its SQLite connection, with what came back
/// where the library goes on with it.
pub enum SqlCall {
    /// The database file at this path was opened.
    Open(Seq<char>),
    /// This batch of statements was run.
    Batch(Seq<char>),
    /// This query for a single integer was run, with what came back.
    ReadFirst(Seq<char>, Result<i64, QueryError>),
    /// Compiling a statement from this text was asked for; whether that
    /// succeeded.
    Prepare(Seq<char>, bool),
    /// The compiled statement was run once with a track's artist, album,
    /// name and timestamp; whether that succeeded.
    InsertTrack(Seq<char>, Seq<char>, Seq<char>, i64, bool),
    /// The number of columns of the compiled statement was read, with what
    /// came back.
    ColumnCount(usize),
    /// The compiled statement was run and its rows read, `n` values each,
    /// with what came back.
    ReadRows(usize, Result<Vec<Vec<SqlValue>>, rusqlite::Error>),
}

/// A connection to the track database, with the record of the calls made
/// on it through this value. The stored data lives in the connection, out
/// of sight of the contracts; what they speak of is the record.
pub struct DB {
    conn: rusqlite::Connection,
    log: CallLog,
}

/// What went wrong with the database.
#[derive(Debug)]
pub enum DbError {
    /// The existing database at the path could not be opened.
    Open(String, rusqlite::Error),
    /// A new database could not be created at the path.
    Create(String, rusqlite::Error),
    /// The schema could not be set up in a new database.
    Schema(rusqlite::Error),
    /// A statement failed.
    Sqlite(rusqlite::Error),
}

/// The outcome of a query for a single value that did not give one.
#[derive(Debug)]
pub enum QueryError {
    /// The query gave no row.
    NoRows,
    /// The query failed.
    Failed(rusqlite::Error),
}

/// What the newest stored timestamp is, from the outcome of the query for
/// it: none when the table holds no track.
pub open spec fn latest_timestamp_spec(r: Result<i64, QueryError>) -> Result<Option<i64>, DbError> {
    match r {
        Ok(t) => Ok(Some(t)),
        Err(QueryError::NoRows) => Ok(None),
        Err(QueryError::Failed(e)) => Err(DbError::Sqlite(e)),
    }
}

/// The newest stored timestamp, from the outcome of the query for it: none
/// when the table holds no track.
pub fn latest_timestamp(r: Result<i64, QueryError>) -> (out: Result<Option<i64>, DbError>)
    ensures
        out == latest_timestamp_spec(r),
{
    match r {
        Ok(t) => Ok(Some(t)),
        Err(QueryError::NoRows) => Ok(None),
        Err(QueryError::Failed(e)) => Err(DbError::Sqlite(e)),
    }
}

/// The record of storing a track: the compiled insert run with its four
/// values, and whether that succeeded.
pub open spec fn track_call(t: Track, ok: bool) -> SqlCall {
    SqlCall::InsertTrack(t.artist@, t.album@, t.name@, t.timestamp, ok)
}

/// The record of storing each of the tracks, in order, each successfully.
pub open spec fn stored_calls(tracks: Seq<Track>) -> Seq<SqlCall> {
    tracks.map_values(|t: Track| track_call(t, true))
}

/// The calls of a run of `DB::insert_tracks` that stopped at track `k`:
/// the insert compiled, the tracks before `k` stored, and the insert of
/// track `k` failed.
pub open spec fn insert_stopped_at(tracks: Seq<Track>, k: int) -> Seq<SqlCall> {
    seq![SqlCall::Prepare(INSERT_TRACK@, true)] + stored_calls(tracks.take(k)).push(track_call(tracks[k], false))
}

/// Storing tracks binds each track's artist, album, name and timestamp, in
/// that order, to the four placeholders of `INSERT_TRACK`, which fill the
/// columns `artist`, `album`, `name` and `timestamp` of the schema: the
/// `k`-th recorded insert carries the `k`-th track's own artist, album,
/// name and timestamp, one insert per track.
pub proof fn law_inserts_bind_each_field_to_its_column(tracks: Seq<Track>)
    ensures
        stored_calls(tracks).len() == tracks.len(),
        forall|k: int| 0 <= k < tracks.len() ==> #[trigger] stored_calls(tracks)[k] == SqlCall::InsertTrack(
            tracks[k].artist@,
            tracks[k].album@,
            tracks[k].name@,
            tracks[k].timestamp,
            true,
        ),
{
}

impl DB {
    /// The calls made on the connection through this value, in order: the
    /// opening of the file first.
    pub closed spec fn handed(&self) -> Seq<SqlCall> {
        self.log.calls()
    }

    /// Opens the track database at `path`. Where a file is there
    /// (`file_exists`), it is opened as it is; otherwise a new one is made
    /// and given the schema.
    pub fn new(path: &str, file_exists: bool) -> (r: Result<DB, DbError>)
        ensures
            r is Ok ==> r->Ok_0.handed() == if file_exists {
                seq![SqlCall::Open(path@)]
            } else {
                seq![SqlCall::Open(path@), SqlCall::Batch(SCHEMA@)]
            },
            r is Err ==> if file_exists {
                r->Err_0 is Open && r->Err_0->Open_0@ == path@
            } else {
                (r->Err_0 is Create && r->Err_0->Create_0@ == path@) || r->Err_0 is Schema
            },
    {
        if file_exists {
            match open_db(path) {
                Ok(db) => Ok(db),
                Err(e) => Err(DbError::Open(path.to_string(), e)),
            }
        } else {
            Self::create(path)
        }
    }

    /// Makes a new database at `path` and runs the schema in it.
    fn create(path: &str) -> (r: Result<DB, DbError>)
        ensures
            r is Ok ==> r->Ok_0.handed() == seq![SqlCall::Open(path@), SqlCall::Batch(SCHEMA@)],
            r is Err ==> (r->Err_0 is Create && r->Err_0->Create_0@ == path@) || r->Err_0 is Schema,
    {
        let mut db = match open_db(path) {
            Ok(db) => db,
            Err(e) => return Err(DbError::Create(path.to_string(), e)),
        };
        match execute_batch(&mut db, SCHEMA) {
            Ok(()) => Ok(db),
            Err(e) => Err(DbError::Schema(e)),
        }
    }

    /// The connection itself. Calls made on it directly are not in the
    /// record of this value.
    pub fn connection(&self) -> &rusqlite::Connection {
        &self.conn
    }

    /// The timestamp of the newest stored track, or none when no track is
    /// stored: the query for it is run once, and the result is what
    /// `latest_timestamp` makes of what came back.
    pub fn most_recent_timestamp(&mut self) -> (r: Result<Option<i64>, DbError>)
        ensures
            final(self).handed().len() == old(self).handed().len() + 1,
            final(self).handed().drop_last() == old(self).handed(),
            final(self).handed().last() is ReadFirst,
            final(self).handed().last()->ReadFirst_0 == LATEST_TIMESTAMP_QUERY@,
            r == latest_timestamp_spec(final(self).handed().last()->ReadFirst_1),
    {
        let o = query_first_i64(self, LATEST_TIMESTAMP_QUERY);
        latest_timestamp(o)
    }

    /// Stores the tracks, in order: the insert is compiled once and run
    /// with each track's values; the run stops at the first track that
    /// fails.
    pub fn insert_tracks(&mut self, tracks: &[Track]) -> (r: Result<(), DbError>)
        ensures
            r is Ok ==> final(self).handed() == old(self).handed() + seq![
                SqlCall::Prepare(INSERT_TRACK@, true),
            ] + stored_calls(tracks@),
            r is Ok ==> final(self).handed().len() == old(self).handed().len() + 1 + tracks@.len(),
            r is Ok ==> forall|k: int| 0 <= k < tracks@.len() ==> #[trigger] final(self).handed()[old(
                self,
            ).handed().len() + 1 + k] == SqlCall::InsertTrack(
                tracks@[k].artist@,
                tracks@[k].album@,
                tracks@[k].name@,
                tracks@[k].timestamp,
                true,
            ),
            r is Err ==> r->Err_0 is Sqlite && (final(self).handed() == old(self).handed().push(
                SqlCall::Prepare(INSERT_TRACK@, false),
            ) || exists|k: int|
                0 <= k < tracks@.len() && final(self).handed() == old(self).handed()
                    + insert_stopped_at(tracks@, k)),
    {
        let mut stmt = match prepare(&self.conn, &mut self.log, INSERT_TRACK) {
            Ok(s) => s,
            Err(e) => return Err(DbError::Sqlite(e)),
        };
        let n = tracks.len();
        let mut i: usize = 0;
        while i < n
            invariant
                n == tracks@.len(),
                i <= n,
                self.log.calls() == old(self).handed() + seq![SqlCall::Prepare(INSERT_TRACK@, true)]
                    + stored_calls(tracks@.take(i as int)),
            decreases n - i,
        {
            let t = &tracks[i];
            let res = execute_track(
                &mut stmt,
                &mut self.log,
                t.artist.as_str(),
                t.album.as_str(),
                t.name.as_str(),
                t.timestamp,
            );
            proof {
                assert(tracks@.take(i + 1) =~= tracks@.take(i as int).push(*t));
                assert(stored_calls(tracks@.take(i + 1)) =~= stored_calls(tracks@.take(i as int)).push(
                    track_call(*t, true),
                ));
            }
            match res {
                Ok(_) => {},
                Err(e) => {
                    proof {
                        assert(self.log.calls() =~= old(self).handed() + insert_stopped_at(
                            tracks@,
                            i as int,
                        ));
                    }
                    return Err(DbError::Sqlite(e));
                },
            }
            i = i + 1;
        }
        assert(tracks@.take(n as int) =~= tracks@);
        proof {
            law_inserts_bind_each_field_to_its_column(tracks@);
            let before = old(self).handed();
            assert forall|k: int| 0 <= k < tracks@.len() implies #[trigger] self.log.calls()[before.len() + 1
                + k] == SqlCall::InsertTrack(
                tracks@[k].artist@,
                tracks@[k].album@,
                tracks@[k].name@,
                tracks@[k].timestamp,
                true,
            ) by {
                assert(self.log.calls()[before.len() + 1 + k] == stored_calls(tracks@)[k]);
            }
        }
        Ok(())
    }

    /// Runs `query` and gives the number of its columns and all its rows,
    /// each with one value per column: the statement is compiled from
    /// `query`, its number of columns read, then its rows, and what is
    /// returned is what came back.
    pub fn query(&mut self, query: &str) -> (r: Result<(usize, Vec<Vec<SqlValue>>), DbError>)
        ensures
            r is Ok ==> {
                &&& final(self).handed() == old(self).handed() + seq![
                    SqlCall::Prepare(query@, true),
                    SqlCall::ColumnCount(r->Ok_0.0),
                    SqlCall::ReadRows(r->Ok_0.0, Ok(r->Ok_0.1)),
                ]
                &&& forall|k: int| 0 <= k < r->Ok_0.1@.len() ==> (#[trigger] r->Ok_0.1@[k])@.len() == r->Ok_0.0
            },
            r is Err ==> r->Err_0 is Sqlite && (final(self).handed() == old(self).handed().push(
                SqlCall::Prepare(query@, false),
            ) || exists|n: usize|
                final(self).handed() == old(self).handed() + seq![
                    SqlCall::Prepare(query@, true),
                    SqlCall::ColumnCount(n),
                    SqlCall::ReadRows(n, Err(r->Err_0->Sqlite_0)),
                ]),
    {
        let mut stmt = match prepare(&self.conn, &mut self.log, query) {
            Ok(s) => s,
            Err(e) => return Err(DbError::Sqlite(e)),
        };
        let n = column_count(&stmt, &mut self.log);
        let rows = query_rows(&mut stmt, &mut self.log, n);
        proof {
            assert(self.log.calls() =~= old(self).handed() + seq![
                SqlCall::Prepare(query@, true),
                SqlCall::ColumnCount(n),
                SqlCall::ReadRows(n, rows),
            ]);
        }
        match rows {
            Ok(rows) => Ok((n, rows)),
            Err(e) => Err(DbError::Sqlite(e)),
        }
    }
}

/// A span of listening history: all of it, the last year, month or week,
/// or none of it.
#[derive(Debug, Clone, Copy, PartialEq, Eq)]
pub enum TimeWindow {
    All,
    Yearly,
    Monthly,
    Weekly,
    Nothing,
}

/// The time window of a name: `all`, `yearly`, `monthly`, `weekly` or
/// `none`.
pub open spec fn timewindow_spec(name: Seq<char>) -> Option<TimeWindow> {
    if name == "all"@ {
        Some(TimeWindow::All)
    } else if name == "yearly"@ {
        Some(TimeWindow::Yearly)
    } else if name == "monthly"@ {
        Some(TimeWindow::Monthly)
    } else if name == "weekly"@ {
        Some(TimeWindow::Weekly)
    } else if name == "none"@ {
        Some(TimeWindow::Nothing)
    } else {
        None
    }
}

/// The time window that `name` names, if it names one.
pub fn parse_timewindow(name: &str) -> (r: Option<TimeWindow>)
    ensures
        r == timewindow_spec(name@),
{
    if same_text(name, "all") {
        Some(TimeWindow::All)
    } else if same_text(name, "yearly") {
        Some(TimeWindow::Yearly)
    } else if same_text(name, "monthly") {
        Some(TimeWindow::Monthly)
    } else if same_text(name, "weekly") {
        Some(TimeWindow::Weekly)
    } else if same_text(name, "none") {
        Some(TimeWindow::Nothing)
    } else {
        None
    }
}

} // verus!
