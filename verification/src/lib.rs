//! A verified core for a program that keeps a local SQLite copy of a
//! last.fm user's listening history: reading and writing the numbers of the
//! last.fm API, paging through its answers, storing and querying the
//! tracks, and rendering query results.

pub mod cmd;
pub mod db;
pub mod decimal;
pub mod exporter;
pub mod lastfm;
pub mod text;
