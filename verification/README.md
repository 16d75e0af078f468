# lastfm-query

Keeps a local SQLite copy of a last.fm user's listening history and runs
queries over it.

- `src/` is the verified library (Verus):
  - `decimal` reads and writes decimal numbers (timestamps, counts, page
    numbers) and proves that what it writes reads back.
  - `text` builds strings: padding, joining, trimming white space.
  - `lastfm` builds the `user.getrecenttracks` request parameters, checks
    the HTTP status, turns an answer page into tracks, and pages through a
    user's history as a state machine whose fetching is left to the caller.
  - `db` is the SQLite database of tracks (through rusqlite).
  - `exporter` decides from when on tracks are still to be fetched.
  - `cmd` picks the subcommand, reads the `recommend` options and renders
    the rows of an SQL query as a table or as tab-separated values.
- `app/` is the command-line program around it: argument parsing (clap),
  HTTP (reqwest), JSON decoding (serde), files and prompts, progress bar.
- `tests/` runs the library on concrete values.
