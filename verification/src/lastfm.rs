//! The last.fm side: the tracks of a user's history, the parameters of the
//! `user.getrecenttracks` request, and the paging through its answers.

pub mod api_types;

use vstd::prelude::*;
use crate::decimal::{parse_i64, parse_u64, parse_i64_spec, parse_u64_spec, render_i64, render_u64,
    decimal_chars, signed_decimal_chars, ParseNumberError};
use crate::text::{trim_end_spec, trim_end};
use self::api_types::{recent_tracks, track};

verus! {

/// The address of the last.fm API.
pub const API_ROOT: &'static str = "https://ws.audioscrobbler.com/2.0/";

/// One scrobbled track.
#[derive(Debug)]
pub struct Track {
    pub artist: String,
    pub album: String,
    pub name: String,
    pub timestamp: i64,
}

/// The account whose history is read, and the key that reads it.
pub struct LastFMClient {
    api_key: String,
    user: String,
}

/// What went wrong in an exchange with last.fm.
#[derive(Debug)]
pub enum LastfmError {
    /// The answer's HTTP status was not a success; its code.
    Status(u16),
    /// A number in the answer could not be read.
    Number(ParseNumberError),
}

/// One parameter of a request: its name and its value.
pub type Param = (String, String);

/// The character views of request parameters.
pub open spec fn params_view(params: Seq<Param>) -> Seq<(Seq<char>, Seq<char>)> {
    params.map_values(|p: Param| (p.0@, p.1@))
}

/// The parameters of a `user.getrecenttracks` request, in order: the
/// method, the key, the user, the JSON format, the page when one is asked
/// for, 200 tracks per page, and the time to start from when there is one.
pub open spec fn recent_tracks_params(
    api_key: Seq<char>,
    user: Seq<char>,
    page: Option<u64>,
    from: Option<i64>,
) -> Seq<(Seq<char>, Seq<char>)> {
    let base = seq![
        ("method"@, "user.getrecenttracks"@),
        ("api_key"@, api_key),
        ("user"@, user),
        ("format"@, "json"@),
    ];
    let paged = match page {
        Some(p) => base.push(("page"@, decimal_chars(p as nat))),
        None => base,
    };
    let limited = paged.push(("limit"@, "200"@));
    match from {
        Some(f) => limited.push(("from"@, signed_decimal_chars(f as int))),
        None => limited,
    }
}

fn param(name: &str, value: String) -> (p: Param)
    ensures
        p.0@ == name@,
        p.1@ == value@,
{
    (name.to_string(), value)
}

impl LastFMClient {
    /// The key of the client.
    pub closed spec fn api_key_text(&self) -> Seq<char> {
        self.api_key@
    }

    /// The user whose history the client reads.
    pub closed spec fn user_text(&self) -> Seq<char> {
        self.user@
    }

    /// A client for `user`'s history, reading it with `api_key`.
    pub fn new(api_key: &str, user: &str) -> (c: LastFMClient)
        ensures
            c.api_key_text() == api_key@,
            c.user_text() == user@,
    {
        LastFMClient { api_key: api_key.to_string(), user: user.to_string() }
    }

    /// The parameters of a `user.getrecenttracks` request for this client:
    /// for page `page` when one is given, and for the tracks from time
    /// `from` on when one is given.
    pub fn request_params(&self, page: Option<u64>, from: Option<i64>) -> (params: Vec<Param>)
        ensures
            params_view(params@) == recent_tracks_params(
                self.api_key_text(),
                self.user_text(),
                page,
                from,
            ),
    {
        proof {
            reveal_strlit("method");
            reveal_strlit("user.getrecenttracks");
            reveal_strlit("api_key");
            reveal_strlit("user");
            reveal_strlit("format");
            reveal_strlit("json");
            reveal_strlit("page");
            reveal_strlit("limit");
            reveal_strlit("200");
            reveal_strlit("from");
        }
        let mut params: Vec<Param> = Vec::new();
        params.push(param("method", "user.getrecenttracks".to_string()));
        params.push(param("api_key", self.api_key.clone()));
        params.push(param("user", self.user.clone()));
        params.push(param("format", "json".to_string()));
        match page {
            Some(p) => params.push(param("page", render_u64(p))),
            None => {},
        }
        params.push(param("limit", "200".to_string()));
        match from {
            Some(f) => params.push(param("from", render_i64(f))),
            None => {},
        }
        assert(params_view(params@) =~= recent_tracks_params(
            self.api_key_text(),
            self.user_text(),
            page,
            from,
        ));
        params
    }

    /// The tracks of this client's user from time `from` on, not yet
    /// fetched.
    pub fn tracks(&self, from: Option<i64>) -> (t: Tracks<'_>)
        ensures
            t.client() == self,
            t.page() is None,
            t.buffered() == Seq::<Track>::empty(),
            t.from_time() == from,
    {
        Tracks::new(self, from)
    }
}

/// Whether an HTTP status code is a success (200 to 299), as reqwest's
/// `StatusCode::is_success` tells.
pub open spec fn is_success(code: u16) -> bool {
    200 <= code && code <= 299
}

/// Accepts an answer whose HTTP status is a success; refuses any other with
/// its status code.
pub fn check_status(code: u16) -> (r: Result<(), LastfmError>)
    ensures
        is_success(code) ==> r is Ok,
        !is_success(code) ==> r == Err::<(), LastfmError>(LastfmError::Status(code)),
{
    if 200 <= code && code <= 299 {
        Ok(())
    } else {
        Err(LastfmError::Status(code))
    }
}

/// The library's track for an entry of the answer, scrobbled at `timestamp`.
pub open spec fn track_of(t: track, timestamp: i64) -> Track {
    Track { artist: t.artist.text, album: t.album.text, name: t.name, timestamp }
}

/// The tracks of a page of the answer: its dated entries, in the order of
/// the page, each with its time read as a number; nothing when the time of
/// a dated entry is not a number.
pub open spec fn page_tracks_spec(entries: Seq<track>) -> Option<Seq<Track>>
    decreases entries.len(),
{
    if entries.len() == 0 {
        Some(Seq::empty())
    } else {
        match page_tracks_spec(entries.drop_last()) {
            None => None,
            Some(prev) => {
                let t = entries.last();
                match t.date {
                    None => Some(prev),
                    Some(d) => match parse_i64_spec(d.uts@) {
                        None => None,
                        Some(ts) => Some(prev.push(track_of(t, ts))),
                    },
                }
            },
        }
    }
}

fn track_from(t: &track, timestamp: i64) -> (r: Track)
    ensures
        r == track_of(*t, timestamp),
{
    Track {
        artist: t.artist.text.clone(),
        album: t.album.text.clone(),
        name: t.name.clone(),
        timestamp,
    }
}

/// The tracks of a page of the answer: the entries that have a date (the
/// track playing now has none), in the order of the page, each with its
/// date read as a timestamp. Fails when a date is not a number.
pub fn page_tracks(data: &recent_tracks) -> (r: Result<Vec<Track>, ParseNumberError>)
    ensures
        match page_tracks_spec(data.recenttracks.track@) {
            Some(v) => r matches Ok(w) && w@ == v,
            None => r is Err,
        },
{
    let entries = &data.recenttracks.track;
    let n = entries.len();
    let mut out: Vec<Track> = Vec::new();
    let mut i: usize = 0;
    while i < n
        invariant
            n == entries@.len(),
            entries@ == data.recenttracks.track@,
            i <= n,
            page_tracks_spec(entries@.subrange(0, i as int)) == Some(out@),
        decreases n - i,
    {
        let t = &entries[i];
        let ghost next = entries@.subrange(0, i + 1);
        assert(next.drop_last() =~= entries@.subrange(0, i as int));
        assert(next.last() == *t);
        match &t.date {
            None => {},
            Some(d) => {
                match parse_i64(d.uts.as_str()) {
                    Ok(ts) => {
                        out.push(track_from(t, ts));
                    },
                    Err(e) => {
                        proof {
                            assert(parse_i64_spec(d.uts@) is None);
                            assert(next.last().date == Some(*d));
                            assert(page_tracks_spec(next) is None);
                            lemma_page_tracks_none_extends(entries@, i as int + 1);
                            assert(page_tracks_spec(data.recenttracks.track@) is None);
                        }
                        return Err(e);
                    },
                }
            },
        }
        assert(page_tracks_spec(next) == Some(out@));
        i = i + 1;
    }
    assert(entries@.subrange(0, n as int) =~= entries@);
    Ok(out)
}

proof fn lemma_page_tracks_none_extends(entries: Seq<track>, k: int)
    requires
        0 <= k <= entries.len(),
        page_tracks_spec(entries.subrange(0, k)) is None,
    ensures
        page_tracks_spec(entries) is None,
    decreases entries.len() - k,
{
    if k < entries.len() {
        let next = entries.subrange(0, k + 1);
        assert(next.drop_last() =~= entries.subrange(0, k));
        lemma_page_tracks_none_extends(entries, k + 1);
    } else {
        assert(entries.subrange(0, k) =~= entries);
    }
}

/// Whether an entry of the answer has a date.
pub open spec fn is_dated(t: track) -> bool {
    t.date is Some
}

/// Reading a page keeps every dated entry and only those: when each date is
/// a number, there is one track per dated entry, in the order of the page,
/// the `k`-th with the artist, album and name of the `k`-th dated entry and
/// its date as the timestamp, whatever its neighbours are; when a date is
/// not a number, the page gives nothing.
pub proof fn law_page_tracks_one_per_dated_entry(entries: Seq<track>)
    ensures
        ({
            let dated = entries.filter(|t: track| is_dated(t));
            &&& (forall|k: int| 0 <= k < dated.len() ==> parse_i64_spec((#[trigger] dated[k]).date->0.uts@)
                is Some) ==> {
                &&& page_tracks_spec(entries) is Some
                &&& page_tracks_spec(entries)->0.len() == dated.len()
                &&& forall|k: int| 0 <= k < dated.len() ==> {
                    let v = #[trigger] page_tracks_spec(entries)->0[k];
                    &&& v.artist@ == dated[k].artist.text@
                    &&& v.album@ == dated[k].album.text@
                    &&& v.name@ == dated[k].name@
                    &&& Some(v.timestamp) == parse_i64_spec(dated[k].date->0.uts@)
                }
            }
            &&& (exists|k: int| 0 <= k < dated.len() && parse_i64_spec((#[trigger] dated[k]).date->0.uts@)
                is None) ==> page_tracks_spec(entries) is None
        }),
    decreases entries.len(),
{
    reveal(Seq::filter);
    let pred = |t: track| is_dated(t);
    let dated = entries.filter(pred);
    if entries.len() > 0 {
        let rest = entries.drop_last();
        let t = entries.last();
        law_page_tracks_one_per_dated_entry(rest);
        let drest = rest.filter(pred);
        assert(dated == if pred(t) { drest.push(t) } else { drest });
        if exists|k: int| 0 <= k < dated.len() && parse_i64_spec((#[trigger] dated[k]).date->0.uts@) is None {
            let k = choose|k: int| 0 <= k < dated.len() && parse_i64_spec((#[trigger] dated[k]).date->0.uts@)
                is None;
            if k < drest.len() {
                assert(dated[k] == drest[k]);
            }
        }
        if forall|k: int| 0 <= k < dated.len() ==> parse_i64_spec((#[trigger] dated[k]).date->0.uts@) is Some {
            assert forall|k: int| 0 <= k < drest.len() implies parse_i64_spec(
                (#[trigger] drest[k]).date->0.uts@,
            ) is Some by {
                assert(dated[k] == drest[k]);
            }
            if pred(t) {
                assert(dated[drest.len() as int] == t);
            }
        }
    } else {
        assert(dated =~= Seq::<track>::empty());
    }
}

/// The parameters of a request for page `p` hold `("page", p in decimal)`,
/// with a time to start from or without; a request with no page holds no
/// page parameter. Every request holds the method, the key, the user, the
/// JSON format and 200 tracks per page, and the time to start from when
/// there is one.
pub proof fn law_request_params_hold_what_is_asked(
    api_key: Seq<char>,
    user: Seq<char>,
    page: Option<u64>,
    from: Option<i64>,
)
    ensures
        ({
            let ps = recent_tracks_params(api_key, user, page, from);
            &&& page matches Some(p) ==> ps.contains(("page"@, decimal_chars(p as nat)))
            &&& page is None ==> forall|i: int| 0 <= i < ps.len() ==> (#[trigger] ps[i]).0 != "page"@
            &&& ps.contains(("method"@, "user.getrecenttracks"@))
            &&& ps.contains(("api_key"@, api_key))
            &&& ps.contains(("user"@, user))
            &&& ps.contains(("format"@, "json"@))
            &&& ps.contains(("limit"@, "200"@))
            &&& from matches Some(f) ==> ps.contains(("from"@, signed_decimal_chars(f as int)))
            &&& from is None ==> forall|i: int| 0 <= i < ps.len() ==> (#[trigger] ps[i]).0 != "from"@
        }),
{
    reveal_strlit("page");
    reveal_strlit("method");
    reveal_strlit("api_key");
    reveal_strlit("user");
    reveal_strlit("format");
    reveal_strlit("limit");
    reveal_strlit("from");
    let ps = recent_tracks_params(api_key, user, page, from);
    assert(ps[0] == ("method"@, "user.getrecenttracks"@));
    assert(ps[1] == ("api_key"@, api_key));
    assert(ps[2] == ("user"@, user));
    assert(ps[3] == ("format"@, "json"@));
    if let Some(p) = page {
        assert(ps[4] == ("page"@, decimal_chars(p as nat)));
        assert(ps[5] == ("limit"@, "200"@));
        if let Some(f) = from {
            assert(ps[6] == ("from"@, signed_decimal_chars(f as int)));
        }
    } else {
        assert(ps[4] == ("limit"@, "200"@));
        if let Some(f) = from {
            assert(ps[5] == ("from"@, signed_decimal_chars(f as int)));
        }
    }
    assert("page"@[0] != "method"@[0] && "page"@[0] != "api_key"@[0] && "page"@[0] != "user"@[0]
        && "page"@[0] != "format"@[0] && "page"@[0] != "limit"@[0] && "page"@[0] != "from"@[0]);
    assert("from"@[0] != "method"@[0] && "from"@[0] != "api_key"@[0] && "from"@[0] != "user"@[0]
        && "from"@[1] != "format"@[1] && "from"@[0] != "limit"@[0] && "from"@[0] != "page"@[0]);
}

/// The number of tracks that the answer counts, as `track_count` reads it.
pub fn total_tracks(data: &recent_tracks) -> (r: Result<u64, ParseNumberError>)
    ensures
        match parse_u64_spec(data.recenttracks.attr.total@) {
            Some(n) => r == Ok::<u64, ParseNumberError>(n),
            None => r is Err,
        },
{
    parse_u64(data.recenttracks.attr.total.as_str())
}

/// The number of pages that the answer counts.
pub fn total_pages(data: &recent_tracks) -> (r: Result<u64, ParseNumberError>)
    ensures
        match parse_u64_spec(data.recenttracks.attr.totalPages@) {
            Some(n) => r == Ok::<u64, ParseNumberError>(n),
            None => r is Err,
        },
{
    parse_u64(data.recenttracks.attr.totalPages.as_str())
}

/// The key as it is kept: the text it was read from, without the white
/// space at its end.
pub fn normalize_api_key(raw: &str) -> (key: String)
    ensures
        key@ == trim_end_spec(raw@),
{
    trim_end(raw)
}

/// A user's tracks from a given time on, read page by page from the last
/// page down to the first, and handed out one at a time from the end of
/// each page.
///
/// The fetching is the caller's: `step` says what to do next, and the
/// answers come back through `receive_page_count` and `receive_page`.
pub struct Tracks<'a> {
    client: &'a LastFMClient,
    page: Option<u64>,
    buf: Vec<Track>,
    from: Option<i64>,
}

/// What a `Tracks` needs done to give its next track.
pub enum TracksStep {
    /// The next track, or none when the tracks have run out.
    Emit(Option<Track>),
    /// The number of pages is not known yet: ask last.fm with these
    /// parameters.
    FetchPageCount(Vec<Param>),
    /// Page `page` comes next: ask last.fm for it with these parameters.
    FetchPage(u64, Vec<Param>),
}

/// What a step of `Tracks` does, leaving out the request parameters.
pub enum TracksMove {
    Emit(Option<Track>),
    FetchPageCount,
    FetchPage(u64),
}

/// The move that a step result makes.
pub open spec fn move_of(r: TracksStep) -> TracksMove {
    match r {
        TracksStep::Emit(t) => TracksMove::Emit(t),
        TracksStep::FetchPageCount(_) => TracksMove::FetchPageCount,
        TracksStep::FetchPage(p, _) => TracksMove::FetchPage(p),
    }
}

/// The move of a step from the state with next page `page` and buffered
/// tracks `buf`.
pub open spec fn next_move(page: Option<u64>, buf: Seq<Track>) -> TracksMove {
    if buf.len() > 0 {
        TracksMove::Emit(Some(buf.last()))
    } else {
        match page {
            None => TracksMove::FetchPageCount,
            Some(p) => if p == 0 {
                TracksMove::Emit(None)
            } else {
                TracksMove::FetchPage(p)
            },
        }
    }
}

/// The buffered tracks after a step.
pub open spec fn buffer_after_move(buf: Seq<Track>) -> Seq<Track> {
    if buf.len() > 0 {
        buf.drop_last()
    } else {
        buf
    }
}

/// The moves of `k` steps in a row, with no answer taken in between.
pub open spec fn moves(page: Option<u64>, buf: Seq<Track>, k: nat) -> Seq<TracksMove>
    decreases k,
{
    if k == 0 {
        Seq::empty()
    } else {
        seq![next_move(page, buf)] + moves(page, buffer_after_move(buf), (k - 1) as nat)
    }
}

/// The buffered tracks are handed out one per step, the last first, and
/// only once all of them are out does the next step ask for a page (or
/// report the end).
pub proof fn law_buffer_handed_out_last_first(page: Option<u64>, buf: Seq<Track>)
    ensures
        moves(page, buf, buf.len() + 1) == Seq::new(
            buf.len(),
            |i: int| TracksMove::Emit(Some(buf[buf.len() - 1 - i])),
        ).push(next_move(page, Seq::empty())),
    decreases buf.len(),
{
    if buf.len() == 0 {
        assert(moves(page, buf, 0) =~= Seq::empty());
        assert(buf =~= Seq::<Track>::empty());
        assert(moves(page, buf, 1) =~= seq![next_move(page, Seq::empty())]);
    } else {
        let rest = buf.drop_last();
        law_buffer_handed_out_last_first(page, rest);
        assert(buffer_after_move(buf) == rest);
        assert(moves(page, buf, buf.len() + 1) == seq![next_move(page, buf)] + moves(
            page,
            rest,
            rest.len() + 1,
        ));
        assert(moves(page, buf, buf.len() + 1) =~= Seq::new(
            buf.len(),
            |i: int| TracksMove::Emit(Some(buf[buf.len() - 1 - i])),
        ).push(next_move(page, Seq::empty())));
    }
}

/// The outcome of a request for page `p` whose answer holds the dated
/// tracks `v`: the track handed out, the next page, and the tracks left
/// buffered, as `receive_page` leaves them; with no page left, the end.
pub open spec fn page_outcome(p: u64, v: Seq<Track>) -> (Option<Track>, Option<u64>, Seq<Track>) {
    if p == 0 {
        (None, Some(0u64), Seq::empty())
    } else if v.len() > 0 {
        (Some(v.last()), Some((p - 1) as u64), v.drop_last())
    } else {
        (None, Some((p - 1) as u64), v)
    }
}

/// One call for the next track on the state with next page `page` and
/// buffered tracks `buf`, made of `step` and, where it asks for them, the
/// answers taken by `receive_page_count` and `receive_page`: last.fm
/// reports `total` pages, and page `k` holds the dated tracks
/// `pages[k - 1]`. The track handed out, the next page and the tracks left
/// buffered.
pub open spec fn next_call(page: Option<u64>, buf: Seq<Track>, total: u64, pages: Seq<Seq<Track>>) -> (
    Option<Track>,
    Option<u64>,
    Seq<Track>,
) {
    match next_move(page, buf) {
        TracksMove::Emit(t) => (t, page, buffer_after_move(buf)),
        TracksMove::FetchPageCount => page_outcome(total, pages[total - 1]),
        TracksMove::FetchPage(p) => page_outcome(p, pages[p - 1]),
    }
}

/// `k` calls for the next track in a row: what they hand out, then the
/// next page and the buffered tracks after them.
pub open spec fn next_calls(
    page: Option<u64>,
    buf: Seq<Track>,
    total: u64,
    pages: Seq<Seq<Track>>,
    k: nat,
) -> (Seq<Option<Track>>, Option<u64>, Seq<Track>)
    decreases k,
{
    if k == 0 {
        (Seq::empty(), page, buf)
    } else {
        let (t, p, b) = next_call(page, buf, total, pages);
        let rest = next_calls(p, b, total, pages, (k - 1) as nat);
        (seq![t] + rest.0, rest.1, rest.2)
    }
}

/// The tracks `ts` handed out one by one, then `extra` ends.
pub open spec fn handed_then_ended(ts: Seq<Track>, extra: nat) -> Seq<Option<Track>> {
    ts.map_values(|t: Track| Some(t)) + Seq::new(extra, |i: int| None::<Track>)
}

proof fn lemma_handed_then_ended_first(t: Track, ts: Seq<Track>, extra: nat)
    ensures
        handed_then_ended(seq![t] + ts, extra) == seq![Some(t)] + handed_then_ended(ts, extra),
{
    assert(handed_then_ended(seq![t] + ts, extra) =~= seq![Some(t)] + handed_then_ended(ts, extra));
}

/// From page `p` on, with `buf` buffered, the calls hand out the buffered
/// tracks last first, then each page's tracks, page `p` first and each
/// page's last track first, and then the end, with no page left.
proof fn lemma_calls_from_page(
    p: u64,
    buf: Seq<Track>,
    total: u64,
    pages: Seq<Seq<Track>>,
    extra: nat,
)
    requires
        p <= pages.len(),
        forall|k: int| 0 <= k < pages.len() ==> (#[trigger] pages[k]).len() > 0,
    ensures
        ({
            let later = pages.take(p as int).flatten_alt();
            let run = next_calls(Some(p), buf, total, pages, buf.len() + later.len() + extra);
            &&& run.0 == handed_then_ended((later + buf).reverse(), extra)
            &&& run.1 == Some(0u64)
            &&& run.2 == Seq::<Track>::empty()
        }),
    decreases p, buf.len(), extra,
{
    let later = pages.take(p as int).flatten_alt();
    let n = buf.len() + later.len() + extra;
    if buf.len() > 0 {
        lemma_calls_from_page(p, buf.drop_last(), total, pages, extra);
        assert(later + buf =~= (later + buf.drop_last()).push(buf.last()));
        assert((later + buf).reverse() =~= seq![buf.last()] + (later + buf.drop_last()).reverse());
        lemma_handed_then_ended_first(buf.last(), (later + buf.drop_last()).reverse(), extra);
    } else if p == 0 {
        assert(pages.take(0) =~= Seq::<Seq<Track>>::empty());
        assert(later =~= Seq::<Track>::empty());
        assert(buf =~= Seq::<Track>::empty());
        if extra > 0 {
            lemma_calls_from_page(p, buf, total, pages, (extra - 1) as nat);
            assert(handed_then_ended((later + buf).reverse(), extra) =~= seq![None::<Track>]
                + handed_then_ended((later + buf).reverse(), (extra - 1) as nat));
        } else {
            assert(handed_then_ended((later + buf).reverse(), extra) =~= Seq::<Option<Track>>::empty());
        }
    } else {
        let v = pages[p - 1];
        let earlier = pages.take(p - 1).flatten_alt();
        assert(pages.take(p as int).drop_last() =~= pages.take(p - 1));
        assert(later == earlier + v);
        assert(v.len() > 0);
        lemma_calls_from_page((p - 1) as u64, v.drop_last(), total, pages, extra);
        assert(buf =~= Seq::<Track>::empty());
        assert(later + buf =~= (earlier + v.drop_last()).push(v.last()));
        assert((later + buf).reverse() =~= seq![v.last()] + (earlier + v.drop_last()).reverse());
        lemma_handed_then_ended_first(v.last(), (earlier + v.drop_last()).reverse(), extra);
        assert(v.drop_last().len() + earlier.len() + extra == n - 1);
    }
}

/// A whole run of calls for the next track, from a fresh `Tracks`, when
/// last.fm reports `total` pages and answers each page `k` with the
/// non-empty dated tracks `pages[k - 1]`: the pages come out last page
/// first and each page last track first, every track once, so that the
/// tracks come out in the reverse of the order in which last.fm lists
/// them, oldest first where it lists them newest first; after them each
/// call reports the end, and once a call has been made the state left asks
/// for nothing more.
pub proof fn law_tracks_come_out_oldest_first(total: u64, pages: Seq<Seq<Track>>, extra: nat)
    requires
        pages.len() == total,
        forall|k: int| 0 <= k < pages.len() ==> (#[trigger] pages[k]).len() > 0,
    ensures
        ({
            let listed = pages.flatten();
            let run = next_calls(None, Seq::empty(), total, pages, listed.len() + extra);
            &&& run.0 == handed_then_ended(listed.reverse(), extra)
            &&& listed.len() + extra > 0 ==> {
                &&& run.1 == Some(0u64)
                &&& run.2 == Seq::<Track>::empty()
                &&& next_move(run.1, run.2) == TracksMove::Emit(None)
            }
            &&& (forall|i: int, j: int| 0 <= i <= j < listed.len() ==> (#[trigger] listed[i]).timestamp
                >= (#[trigger] listed[j]).timestamp) ==> forall|i: int, j: int|
                0 <= i <= j < listed.len() ==> (#[trigger] run.0[i])->0.timestamp
                    <= (#[trigger] run.0[j])->0.timestamp
        }),
{
    let listed = pages.flatten();
    pages.lemma_flatten_and_flatten_alt_are_equivalent();
    assert(pages.take(total as int) =~= pages);
    let n = listed.len() + extra;
    let empty = Seq::<Track>::empty();
    lemma_calls_from_page(total, empty, total, pages, extra);
    assert(listed + empty =~= listed);
    if n > 0 {
        assert(next_call(None, empty, total, pages) == next_call(Some(total), empty, total, pages));
        assert(next_calls(None, empty, total, pages, n) == next_calls(Some(total), empty, total, pages, n));
    }
    let run = next_calls(None, empty, total, pages, n);
    assert forall|i: int| 0 <= i < listed.len() implies #[trigger] run.0[i] == Some(
        listed[listed.len() - 1 - i],
    ) by {}
}

impl<'a> Tracks<'a> {
    pub closed spec fn client(&self) -> &'a LastFMClient {
        self.client
    }

    /// The page to fetch next: none before the number of pages is known.
    pub closed spec fn page(&self) -> Option<u64> {
        self.page
    }

    /// The tracks of the last page fetched that have not been handed out.
    pub closed spec fn buffered(&self) -> Seq<Track> {
        self.buf@
    }

    /// The time from which on tracks are read.
    pub closed spec fn from_time(&self) -> Option<i64> {
        self.from
    }

    fn new(client: &'a LastFMClient, from: Option<i64>) -> (t: Tracks<'a>)
        ensures
            t.client() == client,
            t.page() is None,
            t.buffered() == Seq::<Track>::empty(),
            t.from_time() == from,
    {
        Tracks { client, page: None, buf: Vec::new(), from }
    }

    /// What to do next. A buffered track is handed out, the last one
    /// first; with none buffered, the number of pages is asked for when it
    /// is not known, the tracks have run out when no page is left, and
    /// otherwise the next page is asked for.
    pub fn step(&mut self) -> (r: TracksStep)
        ensures
            final(self).client() == old(self).client(),
            final(self).page() == old(self).page(),
            final(self).from_time() == old(self).from_time(),
            move_of(r) == next_move(old(self).page(), old(self).buffered()),
            final(self).buffered() == buffer_after_move(old(self).buffered()),
            old(self).buffered().len() > 0 ==> {
                &&& r == TracksStep::Emit(Some(old(self).buffered().last()))
                &&& final(self).buffered() == old(self).buffered().drop_last()
            },
            old(self).buffered().len() == 0 ==> final(self).buffered() == old(self).buffered(),
            old(self).buffered().len() == 0 && old(self).page() is None ==> {
                &&& r is FetchPageCount
                &&& params_view(r->FetchPageCount_0@) == recent_tracks_params(
                    old(self).client().api_key_text(),
                    old(self).client().user_text(),
                    None,
                    old(self).from_time(),
                )
            },
            old(self).buffered().len() == 0 && old(self).page() == Some(0u64) ==> r
                == TracksStep::Emit(None),
            old(self).buffered().len() == 0 && old(self).page() is Some && old(self).page()->0 > 0 ==> {
                &&& r is FetchPage
                &&& r->FetchPage_0 == old(self).page()->0
                &&& params_view(r->FetchPage_1@) == recent_tracks_params(
                    old(self).client().api_key_text(),
                    old(self).client().user_text(),
                    Some(old(self).page()->0),
                    old(self).from_time(),
                )
            },
    {
        if self.buf.len() > 0 {
            let t = self.buf.pop();
            match t {
                Some(t) => TracksStep::Emit(Some(t)),
                None => TracksStep::Emit(None),
            }
        } else {
            match self.page {
                None => TracksStep::FetchPageCount(self.client.request_params(None, self.from)),
                Some(p) => {
                    if p < 1 {
                        TracksStep::Emit(None)
                    } else {
                        TracksStep::FetchPage(p, self.client.request_params(Some(p), self.from))
                    }
                },
            }
        }
    }

    /// Takes the answer to the request for the number of pages. When the
    /// number can be read, the last page is the one to fetch next;
    /// otherwise nothing changes.
    pub fn receive_page_count(&mut self, data: &recent_tracks) -> (r: Result<(), ParseNumberError>)
        ensures
            final(self).client() == old(self).client(),
            final(self).buffered() == old(self).buffered(),
            final(self).from_time() == old(self).from_time(),
            match parse_u64_spec(data.recenttracks.attr.totalPages@) {
                Some(n) => r is Ok && final(self).page() == Some(n),
                None => r is Err && final(self).page() == old(self).page(),
            },
    {
        match total_pages(data) {
            Ok(n) => {
                self.page = Some(n);
                Ok(())
            },
            Err(e) => Err(e),
        }
    }

    /// Takes the answer to the request for the current page. Its tracks are
    /// buffered and the page before it is the one to fetch next; the last
    /// of them is handed out now. When a date cannot be read, nothing
    /// changes.
    pub fn receive_page(&mut self, data: &recent_tracks) -> (r: Result<Option<Track>, ParseNumberError>)
        requires
            old(self).page() is Some,
            old(self).page()->0 >= 1,
        ensures
            final(self).client() == old(self).client(),
            final(self).from_time() == old(self).from_time(),
            match page_tracks_spec(data.recenttracks.track@) {
                Some(v) => {
                    &&& final(self).page() == Some((old(self).page()->0 - 1) as u64)
                    &&& v.len() > 0 ==> r == Ok::<Option<Track>, ParseNumberError>(Some(v.last()))
                        && final(self).buffered() == v.drop_last()
                    &&& v.len() == 0 ==> r == Ok::<Option<Track>, ParseNumberError>(None)
                        && final(self).buffered() == v
                },
                None => {
                    &&& r is Err
                    &&& final(self).page() == old(self).page()
                    &&& final(self).buffered() == old(self).buffered()
                },
            },
    {
        let p = match self.page {
            Some(p) => p,
            None => 0,
        };
        match page_tracks(data) {
            Ok(v) => {
                self.buf = v;
                self.page = Some(p - 1);
                Ok(self.buf.pop())
            },
            Err(e) => Err(e),
        }
    }
}

} // verus!
