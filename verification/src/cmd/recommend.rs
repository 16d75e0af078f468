//! The options of the `recommend` subcommand, read from the words of the
//! command line.

use vstd::prelude::*;
use crate::db::{TimeWindow, parse_timewindow, timewindow_spec};
use crate::decimal::{parse_u64, parse_u64_spec, ParseNumberError};

verus! {

/// What `recommend` was asked for.
#[derive(Debug, Clone, Copy, PartialEq, Eq)]
pub struct Options {
    /// How many results to give.
    pub count: u64,
    /// Pick at random instead of by weight.
    pub random: bool,
    /// Also pick an album of each artist.
    pub album: bool,
    /// The listening time to draw from.
    pub included: TimeWindow,
    /// The listening time to leave out.
    pub excluded: TimeWindow,
}

/// Why the options could not be read.
#[derive(Debug)]
pub enum OptionsError {
    /// The count is not a number.
    Count(ParseNumberError),
    /// A time window of this name is not known.
    UnknownWindow(String),
}

/// Reads the options of `recommend`: the count as a number and the two
/// time windows by name.
pub fn parse_options(count: &str, random: bool, album: bool, included: &str, excluded: &str) -> (r: Result<Options, OptionsError>)
    ensures
        parse_u64_spec(count@) is None ==> r is Err && r->Err_0 is Count,
        parse_u64_spec(count@) is Some && timewindow_spec(included@) is None ==> r is Err
            && r->Err_0 is UnknownWindow && r->Err_0->UnknownWindow_0@ == included@,
        parse_u64_spec(count@) is Some && timewindow_spec(included@) is Some && timewindow_spec(excluded@) is None
            ==> r is Err && r->Err_0 is UnknownWindow && r->Err_0->UnknownWindow_0@ == excluded@,
        parse_u64_spec(count@) is Some && timewindow_spec(included@) is Some && timewindow_spec(excluded@) is Some
            ==> r == Ok::<Options, OptionsError>(Options {
                count: parse_u64_spec(count@)->0,
                random,
                album,
                included: timewindow_spec(included@)->0,
                excluded: timewindow_spec(excluded@)->0,
            }),
{
    let count = match parse_u64(count) {
        Ok(n) => n,
        Err(e) => return Err(OptionsError::Count(e)),
    };
    let include_window = match parse_timewindow(included) {
        Some(w) => w,
        None => return Err(OptionsError::UnknownWindow(included.to_string())),
    };
    let exclude_window = match parse_timewindow(excluded) {
        Some(w) => w,
        None => return Err(OptionsError::UnknownWindow(excluded.to_string())),
    };
    Ok(Options { count, random, album, included: include_window, excluded: exclude_window })
}

} // verus!
