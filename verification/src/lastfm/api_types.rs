//! The shape of last.fm's answer to `user.getrecenttracks`, as the library
//! reads it once the JSON has been decoded.
#![allow(non_camel_case_types)]
#![allow(non_snake_case)]

use vstd::prelude::*;

verus! {

/// The artist of a track (`"#text"` in the JSON).
pub struct track_artist {
    pub text: String,
}

/// The album of a track (`"#text"` in the JSON).
pub struct track_album {
    pub text: String,
}

/// When a track was scrobbled: seconds since the epoch, as text.
pub struct track_date {
    pub uts: String,
}

/// One entry of the recent tracks. The track that is playing right now has
/// no date.
pub struct track {
    pub artist: track_artist,
    pub name: String,
    pub album: track_album,
    pub date: Option<track_date>,
}

/// The paging attributes (`"@attr"` in the JSON): the number of tracks and
/// of pages, as text.
pub struct recent_tracks_recenttracks_attr {
    pub total: String,
    pub totalPages: String,
}

/// The page of tracks and its attributes.
pub struct recent_tracks_recenttracks {
    pub track: Vec<track>,
    pub attr: recent_tracks_recenttracks_attr,
}

/// The whole answer.
pub struct recent_tracks {
    pub recenttracks: recent_tracks_recenttracks,
}

} // verus!
