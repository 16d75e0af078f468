use lastfm_query::cmd::sql::SqlValue;
use lastfm_query::db::{latest_timestamp, parse_timewindow, DbError, QueryError, TimeWindow, DB};
use lastfm_query::exporter::{sync_start, Exporter, SyncError};
use lastfm_query::lastfm::{LastFMClient, Track};

fn track(name: &str, timestamp: i64) -> Track {
    Track {
        artist: "Artist".to_string(),
        album: "Album".to_string(),
        name: name.to_string(),
        timestamp,
    }
}

#[test]
fn new_database_has_the_schema_and_no_tracks() {
    let mut db = DB::new(":memory:", false).unwrap();
    assert_eq!(db.most_recent_timestamp().unwrap(), None);
    let (ncols, rows) = db.query("SELECT name FROM sqlite_master ORDER BY name").unwrap();
    assert_eq!(ncols, 1);
    let names: Vec<String> = rows
        .iter()
        .map(|r| match &r[0] {
            SqlValue::Text(s) => s.clone(),
            _ => panic!("names are text"),
        })
        .collect();
    assert_eq!(names, vec!["monthly_tracks", "tracks", "weekly_tracks", "yearly_tracks"]);
}

#[test]
fn stored_tracks_come_back() {
    let mut db = DB::new(":memory:", false).unwrap();
    db.insert_tracks(&[track("one", 10), track("two", 30), track("three", 20)]).unwrap();
    assert_eq!(db.most_recent_timestamp().unwrap(), Some(30));
    let (ncols, rows) = db.query("SELECT name, timestamp, NULL, x'0102', 1.5 FROM tracks ORDER BY timestamp").unwrap();
    assert_eq!(ncols, 5);
    assert!(rows.iter().all(|r| r.len() == 5));
    assert_eq!(rows.len(), 3);
    assert!(matches!(&rows[0][0], SqlValue::Text(s) if s == "one"));
    assert!(matches!(rows[0][1], SqlValue::Integer(10)));
    assert!(matches!(rows[0][2], SqlValue::Null));
    assert!(matches!(&rows[0][3], SqlValue::Blob(b) if b == &vec![1u8, 2]));
    assert!(matches!(rows[0][4], SqlValue::Real(bits) if bits == 1.5f64.to_bits()));
    assert!(matches!(&rows[2][0], SqlValue::Text(s) if s == "two"));
}

#[test]
fn bad_query_is_an_error() {
    let mut db = DB::new(":memory:", false).unwrap();
    assert!(matches!(db.query("SELECT * FROM nowhere"), Err(DbError::Sqlite(_))));
    assert!(matches!(db.query("SELEC 1"), Err(DbError::Sqlite(_))));
    let (ncols, rows) = db.query("SELECT 1, 2").unwrap();
    assert_eq!(ncols, 2);
    assert_eq!(rows.len(), 1);
}

#[test]
fn empty_result_means_no_timestamp() {
    assert!(matches!(latest_timestamp(Ok(5)), Ok(Some(5))));
    assert!(matches!(latest_timestamp(Err(QueryError::NoRows)), Ok(None)));
}

#[test]
fn sync_starts_after_the_newest_track() {
    assert!(matches!(sync_start(None), Ok(None)));
    assert!(matches!(sync_start(Some(41)), Ok(Some(42))));
    assert!(matches!(sync_start(Some(i64::MAX)), Err(SyncError::TimestampOverflow)));

    let mut db = DB::new(":memory:", false).unwrap();
    let client = LastFMClient::new("KEY", "alice");
    let mut exporter = Exporter::new(&mut db, &client);
    assert!(matches!(exporter.sync_from(), Ok(None)));
    drop(exporter);
    db.insert_tracks(&[track("a", 100), track("b", 40)]).unwrap();
    let mut exporter = Exporter::new(&mut db, &client);
    assert!(matches!(exporter.sync_from(), Ok(Some(101))));
    assert_eq!(
        exporter.client().request_params(None, None),
        client.request_params(None, None)
    );
}

#[test]
fn time_windows_by_name() {
    assert_eq!(parse_timewindow("all"), Some(TimeWindow::All));
    assert_eq!(parse_timewindow("yearly"), Some(TimeWindow::Yearly));
    assert_eq!(parse_timewindow("monthly"), Some(TimeWindow::Monthly));
    assert_eq!(parse_timewindow("weekly"), Some(TimeWindow::Weekly));
    assert_eq!(parse_timewindow("none"), Some(TimeWindow::Nothing));
    assert_eq!(parse_timewindow("daily"), None);
}

#[test]
fn unopenable_paths_give_open_or_create_errors() {
    match DB::new("/no-such-directory-here/tracks.sqlite", true) {
        Err(DbError::Open(path, _)) => assert_eq!(path, "/no-such-directory-here/tracks.sqlite"),
        _ => panic!("opening must fail"),
    }
    match DB::new("/no-such-directory-here/tracks.sqlite", false) {
        Err(DbError::Create(path, _)) => assert_eq!(path, "/no-such-directory-here/tracks.sqlite"),
        _ => panic!("creating must fail"),
    }
}

#[test]
fn a_failing_insert_stops_the_run() {
    let mut db = DB::new(":memory:", false).unwrap();
    db.query("CREATE TRIGGER no_twos BEFORE INSERT ON tracks WHEN NEW.timestamp = 2 BEGIN SELECT RAISE(ABORT, 'no'); END")
        .unwrap();
    let tracks = [track("one", 1), track("two", 2), track("three", 3)];
    assert!(matches!(db.insert_tracks(&tracks), Err(DbError::Sqlite(_))));
    let (_, rows) = db.query("SELECT name FROM tracks").unwrap();
    assert_eq!(rows.len(), 1);
    assert!(matches!(&rows[0][0], SqlValue::Text(s) if s == "one"));
    assert_eq!(db.most_recent_timestamp().unwrap(), Some(1));
}

#[test]
fn existing_database_is_opened_without_the_schema() {
    let mut db = DB::new(":memory:", true).unwrap();
    let (_, rows) = db.query("SELECT name FROM sqlite_master").unwrap();
    assert!(rows.is_empty());
    assert!(matches!(db.most_recent_timestamp(), Err(DbError::Sqlite(_))));
}

#[test]
fn column_names_come_from_the_connection() {
    let db = DB::new(":memory:", false).unwrap();
    let stmt = db.connection().prepare("SELECT artist, timestamp AS t FROM tracks").unwrap();
    let names: Vec<&str> = stmt.column_names().collect();
    assert_eq!(names, vec!["artist", "t"]);
}
