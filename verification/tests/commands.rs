use lastfm_query::cmd::recommend::{parse_options, Options, OptionsError};
use lastfm_query::cmd::{select_subcommand, CommandError, Subcommand};
use lastfm_query::db::TimeWindow;

#[test]
fn known_subcommands_are_selected() {
    assert!(matches!(select_subcommand("sync", true), Ok(Subcommand::Sync)));
    assert!(matches!(select_subcommand("sql", true), Ok(Subcommand::Sql)));
    assert!(matches!(select_subcommand("recommend", true), Ok(Subcommand::Recommend)));
}

#[test]
fn unknown_or_missing_subcommand_is_an_error() {
    match select_subcommand("export", true) {
        Err(CommandError::UnknownSubcommand(name)) => assert_eq!(name, "export"),
        _ => panic!("export is not a subcommand"),
    }
    assert!(matches!(select_subcommand("", false), Err(CommandError::NoSubcommand)));
    assert!(matches!(select_subcommand("sync", false), Err(CommandError::NoSubcommand)));
}

#[test]
fn recommend_options_with_defaults() {
    let o = parse_options("20", false, false, "yearly", "weekly").unwrap();
    assert_eq!(
        o,
        Options {
            count: 20,
            random: false,
            album: false,
            included: TimeWindow::Yearly,
            excluded: TimeWindow::Weekly,
        }
    );
    let o = parse_options("5", true, true, "all", "none").unwrap();
    assert_eq!(o.included, TimeWindow::All);
    assert_eq!(o.excluded, TimeWindow::Nothing);
    assert!(o.random && o.album);
}

#[test]
fn recommend_options_errors() {
    assert!(matches!(parse_options("twenty", false, false, "all", "none"), Err(OptionsError::Count(_))));
    match parse_options("1", false, false, "daily", "none") {
        Err(OptionsError::UnknownWindow(w)) => assert_eq!(w, "daily"),
        _ => panic!("daily is not a window"),
    }
    match parse_options("1", false, false, "all", "hourly") {
        Err(OptionsError::UnknownWindow(w)) => assert_eq!(w, "hourly"),
        _ => panic!("hourly is not a window"),
    }
}
