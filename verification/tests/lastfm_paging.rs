use lastfm_query::lastfm::api_types::{
    recent_tracks, recent_tracks_recenttracks, recent_tracks_recenttracks_attr, track,
    track_album, track_artist, track_date,
};
use lastfm_query::lastfm::{
    check_status, normalize_api_key, page_tracks, total_pages, total_tracks, LastFMClient,
    LastfmError, Track, TracksStep, API_ROOT,
};

fn entry(artist: &str, name: &str, uts: Option<&str>) -> track {
    track {
        artist: track_artist { text: artist.to_string() },
        name: name.to_string(),
        album: track_album { text: format!("{} album", artist) },
        date: uts.map(|u| track_date { uts: u.to_string() }),
    }
}

fn answer(entries: Vec<track>, total: &str, pages: &str) -> recent_tracks {
    recent_tracks {
        recenttracks: recent_tracks_recenttracks {
            track: entries,
            attr: recent_tracks_recenttracks_attr {
                total: total.to_string(),
                totalPages: pages.to_string(),
            },
        },
    }
}

fn pairs(params: &[(String, String)]) -> Vec<(&str, &str)> {
    params.iter().map(|(a, b)| (a.as_str(), b.as_str())).collect()
}

#[test]
fn request_parameters_follow_the_api() {
    let client = LastFMClient::new("KEY", "alice");
    assert_eq!(
        pairs(&client.request_params(None, None)),
        vec![
            ("method", "user.getrecenttracks"),
            ("api_key", "KEY"),
            ("user", "alice"),
            ("format", "json"),
            ("limit", "200"),
        ]
    );
    assert_eq!(
        pairs(&client.request_params(Some(3), Some(1546300801))),
        vec![
            ("method", "user.getrecenttracks"),
            ("api_key", "KEY"),
            ("user", "alice"),
            ("format", "json"),
            ("page", "3"),
            ("limit", "200"),
            ("from", "1546300801"),
        ]
    );
    assert_eq!(API_ROOT, "https://ws.audioscrobbler.com/2.0/");
}

#[test]
fn only_successful_statuses_pass() {
    assert!(check_status(200).is_ok());
    assert!(check_status(204).is_ok());
    assert!(check_status(299).is_ok());
    assert!(matches!(check_status(404), Err(LastfmError::Status(404))));
    assert!(matches!(check_status(199), Err(LastfmError::Status(199))));
    assert!(matches!(check_status(300), Err(LastfmError::Status(300))));
}

#[test]
fn page_keeps_dated_tracks_in_order() {
    let data = answer(
        vec![
            entry("Now", "Playing", None),
            entry("ABBA", "SOS", Some("100")),
            entry("Kate Bush", "Babooshka", Some("90")),
        ],
        "2",
        "1",
    );
    let tracks = page_tracks(&data).unwrap();
    assert_eq!(tracks.len(), 2);
    assert_eq!(tracks[0].artist, "ABBA");
    assert_eq!(tracks[0].album, "ABBA album");
    assert_eq!(tracks[0].name, "SOS");
    assert_eq!(tracks[0].timestamp, 100);
    assert_eq!(tracks[1].name, "Babooshka");
    assert_eq!(tracks[1].timestamp, 90);
}

#[test]
fn page_with_a_bad_date_fails() {
    let data = answer(vec![entry("A", "x", Some("1")), entry("B", "y", Some("soon"))], "2", "1");
    assert!(page_tracks(&data).is_err());
}

#[test]
fn totals_are_read_as_numbers() {
    let data = answer(vec![], "1234", "7");
    assert_eq!(total_tracks(&data), Ok(1234));
    assert_eq!(total_pages(&data), Ok(7));
    let bad = answer(vec![], "many", "");
    assert!(total_tracks(&bad).is_err());
    assert!(total_pages(&bad).is_err());
}

#[test]
fn api_key_loses_its_trailing_newline() {
    assert_eq!(normalize_api_key("0123abcd\n"), "0123abcd");
    assert_eq!(normalize_api_key("0123abcd"), "0123abcd");
}

fn names(t: &Option<Track>) -> Option<String> {
    t.as_ref().map(|t| t.name.clone())
}

#[test]
fn tracks_are_fetched_from_the_last_page_down() {
    let client = LastFMClient::new("KEY", "alice");
    let mut tracks = client.tracks(Some(50));

    match tracks.step() {
        TracksStep::FetchPageCount(params) => {
            assert_eq!(pairs(&params).last(), Some(&("from", "50")));
            assert!(!pairs(&params).iter().any(|(k, _)| *k == "page"));
        }
        _ => panic!("the page count comes first"),
    }
    tracks.receive_page_count(&answer(vec![], "3", "2")).unwrap();

    match tracks.step() {
        TracksStep::FetchPage(2, params) => {
            assert!(pairs(&params).contains(&("page", "2")));
        }
        _ => panic!("page 2 comes next"),
    }
    let page2 = answer(vec![entry("B", "b2", Some("70")), entry("B", "b1", Some("60"))], "3", "2");
    let first = tracks.receive_page(&page2).unwrap();
    assert_eq!(names(&first), Some("b1".to_string()));
    match tracks.step() {
        TracksStep::Emit(t) => assert_eq!(names(&t), Some("b2".to_string())),
        _ => panic!("the rest of page 2 comes next"),
    }

    match tracks.step() {
        TracksStep::FetchPage(1, _) => {}
        _ => panic!("page 1 comes next"),
    }
    let page1 = answer(vec![entry("A", "a1", Some("80"))], "3", "2");
    assert_eq!(names(&tracks.receive_page(&page1).unwrap()), Some("a1".to_string()));

    match tracks.step() {
        TracksStep::Emit(None) => {}
        _ => panic!("no page is left"),
    }
}

#[test]
fn unreadable_page_count_changes_nothing() {
    let client = LastFMClient::new("KEY", "bob");
    let mut tracks = client.tracks(None);
    assert!(tracks.receive_page_count(&answer(vec![], "0", "x")).is_err());
    assert!(matches!(tracks.step(), TracksStep::FetchPageCount(_)));
    tracks.receive_page_count(&answer(vec![], "0", "0")).unwrap();
    assert!(matches!(tracks.step(), TracksStep::Emit(None)));
}

#[test]
fn bad_page_is_asked_for_again() {
    let client = LastFMClient::new("KEY", "bob");
    let mut tracks = client.tracks(None);
    tracks.receive_page_count(&answer(vec![], "1", "1")).unwrap();
    assert!(matches!(tracks.step(), TracksStep::FetchPage(1, _)));
    let bad = answer(vec![entry("A", "a", Some("?"))], "1", "1");
    assert!(tracks.receive_page(&bad).is_err());
    assert!(matches!(tracks.step(), TracksStep::FetchPage(1, _)));
}

fn next_track(
    tracks: &mut lastfm_query::lastfm::Tracks,
    count: &recent_tracks,
    pages: &[recent_tracks],
) -> Option<Track> {
    loop {
        match tracks.step() {
            TracksStep::Emit(t) => return t,
            TracksStep::FetchPageCount(_) => tracks.receive_page_count(count).unwrap(),
            TracksStep::FetchPage(p, _) => {
                return tracks.receive_page(&pages[p as usize - 1]).unwrap();
            }
        }
    }
}

#[test]
fn tracks_come_out_oldest_first_then_end() {
    let client = LastFMClient::new("KEY", "alice");
    let mut tracks = client.tracks(None);
    let count = answer(vec![], "5", "3");
    let pages = vec![
        answer(vec![entry("A", "a2", Some("900")), entry("A", "now", None), entry("A", "a1", Some("800"))], "5", "3"),
        answer(vec![entry("B", "b2", Some("700")), entry("B", "b1", Some("600"))], "5", "3"),
        answer(vec![entry("C", "c1", Some("500"))], "5", "3"),
    ];
    let mut seen = Vec::new();
    for _ in 0..5 {
        let t = next_track(&mut tracks, &count, &pages).expect("a track");
        seen.push((t.name.clone(), t.timestamp));
    }
    let expected: Vec<(String, i64)> = vec![("c1", 500), ("b1", 600), ("b2", 700), ("a1", 800), ("a2", 900)]
        .into_iter()
        .map(|(n, t)| (n.to_string(), t))
        .collect();
    assert_eq!(seen, expected);
    for _ in 0..3 {
        match tracks.step() {
            TracksStep::Emit(None) => {}
            _ => panic!("after the last track nothing more is asked for"),
        }
    }
}
