//! The subcommands of the command-line program: which one was asked for,
//! and the computing parts of each.

pub mod recommend;
pub mod sql;

use vstd::prelude::*;
use crate::text::same_text;

verus! {

/// The subcommands the program knows.
#[derive(Debug, Clone, Copy, PartialEq, Eq)]
pub enum Subcommand {
    /// Fetch the tracks scrobbled since the last sync.
    Sync,
    /// Run an SQL query over the stored tracks.
    Sql,
    /// Recommend artists or albums to listen to.
    Recommend,
}

/// Why no subcommand could be run.
#[derive(Debug)]
pub enum CommandError {
    /// A subcommand of this name is not known.
    UnknownSubcommand(String),
    /// No subcommand was given.
    NoSubcommand,
}

/// The subcommand named `name`, as the command line gave it; `given` tells
/// whether one was given at all.
pub fn select_subcommand(name: &str, given: bool) -> (r: Result<Subcommand, CommandError>)
    ensures
        !given ==> r is Err && r->Err_0 is NoSubcommand,
        given && name@ == "sync"@ ==> r == Ok::<Subcommand, CommandError>(Subcommand::Sync),
        given && name@ == "sql"@ ==> r == Ok::<Subcommand, CommandError>(Subcommand::Sql),
        given && name@ == "recommend"@ ==> r == Ok::<Subcommand, CommandError>(Subcommand::Recommend),
        given && name@ != "sync"@ && name@ != "sql"@ && name@ != "recommend"@ ==> r is Err
            && r->Err_0 is UnknownSubcommand && r->Err_0->UnknownSubcommand_0@ == name@,
{
    proof {
        reveal_strlit("sync");
        reveal_strlit("sql");
        reveal_strlit("recommend");
        assert("sync"@.len() == 4 && "sql"@.len() == 3 && "recommend"@.len() == 9);
    }
    if !given {
        Err(CommandError::NoSubcommand)
    } else if same_text(name, "sync") {
        Ok(Subcommand::Sync)
    } else if same_text(name, "sql") {
        Ok(Subcommand::Sql)
    } else if same_text(name, "recommend") {
        Ok(Subcommand::Recommend)
    } else {
        Err(CommandError::UnknownSubcommand(name.to_string()))
    }
}

} // verus!
