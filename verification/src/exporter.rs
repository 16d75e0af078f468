//! Bringing the local copy up to date: which tracks are still to fetch, and
//! where they go.

use vstd::prelude::*;
use crate::db::{DB, DbError, QueryError, SqlCall, LATEST_TIMESTAMP_QUERY, latest_timestamp_spec};
use crate::lastfm::LastFMClient;

verus! {

/// What stops a sync before any track is fetched.
#[derive(Debug)]
pub enum SyncError {
    /// The database could not be read.
    Db(DbError),
    /// The newest stored timestamp is the largest there is: no later time
    /// can be asked for.
    TimestampOverflow,
}

/// The time from which on tracks are fetched, given the newest stored
/// timestamp: one second after it, or from the start when none is stored.
pub open spec fn sync_start_spec(latest: Option<i64>) -> Result<Option<i64>, SyncError> {
    match latest {
        None => Ok(None),
        Some(t) => if t < i64::MAX {
            Ok(Some((t + 1) as i64))
        } else {
            Err(SyncError::TimestampOverflow)
        },
    }
}

/// The start of a sync, from the outcome of the query for the newest stored
/// timestamp.
pub open spec fn sync_from_spec(o: Result<i64, QueryError>) -> Result<Option<i64>, SyncError> {
    match latest_timestamp_spec(o) {
        Ok(latest) => sync_start_spec(latest),
        Err(e) => Err(SyncError::Db(e)),
    }
}

/// The time from which on tracks are fetched: one second after the newest
/// stored track, or from the start when none is stored.
pub fn sync_start(latest: Option<i64>) -> (r: Result<Option<i64>, SyncError>)
    ensures
        r == sync_start_spec(latest),
        latest is None ==> r == Ok::<Option<i64>, SyncError>(None),
        latest is Some && latest->0 < i64::MAX ==> r == Ok::<Option<i64>, SyncError>(
            Some((latest->0 + 1) as i64),
        ),
        latest == Some(i64::MAX) ==> r is Err && r->Err_0 is TimestampOverflow,
{
    match latest {
        None => Ok(None),
        Some(t) => {
            if t < i64::MAX {
                Ok(Some(t + 1))
            } else {
                Err(SyncError::TimestampOverflow)
            }
        },
    }
}

/// Copies a user's new tracks from last.fm into the database.
pub struct Exporter<'d, 'l> {
    db: &'d mut DB,
    lastfm: &'l LastFMClient,
}

impl<'d, 'l> Exporter<'d, 'l> {
    /// The record of the calls made on the database.
    pub closed spec fn db_log(&self) -> Seq<SqlCall> {
        self.db.handed()
    }

    pub closed spec fn lastfm(&self) -> &'l LastFMClient {
        self.lastfm
    }

    /// An exporter from `lastfm` into `db`.
    pub fn new(db: &'d mut DB, lastfm: &'l LastFMClient) -> (e: Exporter<'d, 'l>)
        ensures
            e.db_log() == old(db).handed(),
            e.lastfm() == lastfm,
    {
        Exporter { db, lastfm }
    }

    /// The last.fm account that tracks are fetched from.
    pub fn client(&self) -> (c: &'l LastFMClient)
        ensures
            c == self.lastfm(),
    {
        self.lastfm
    }

    /// The time from which on tracks are still to be fetched: the query for
    /// the newest stored timestamp is run once, and the start is one second
    /// after what it gave, or from the start when nothing is stored.
    pub fn sync_from(&mut self) -> (r: Result<Option<i64>, SyncError>)
        ensures
            final(self).lastfm() == old(self).lastfm(),
            final(self).db_log().len() == old(self).db_log().len() + 1,
            final(self).db_log().drop_last() == old(self).db_log(),
            final(self).db_log().last() is ReadFirst,
            final(self).db_log().last()->ReadFirst_0 == LATEST_TIMESTAMP_QUERY@,
            r == sync_from_spec(final(self).db_log().last()->ReadFirst_1),
    {
        match self.db.most_recent_timestamp() {
            Ok(latest) => sync_start(latest),
            Err(e) => Err(SyncError::Db(e)),
        }
    }
}

} // verus!
