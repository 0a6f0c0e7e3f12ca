use lsx::options::{
    first_path_index, is_option_token, parse_args, Invocation, OutputMode, ParseError, RunConfig,
};
use lsx::order::Grouping;

fn tokens(words: &[&str]) -> Vec<String> {
    words.iter().map(|word| String::from(*word)).collect()
}

fn listing(words: &[&str]) -> RunConfig {
    match parse_args(&tokens(words)) {
        Ok(Invocation::List(config)) => config,
        other => panic!("no listing: {other:?}"),
    }
}

fn plain_config() -> RunConfig {
    RunConfig {
        all: false,
        group_directories_first: false,
        group_directories_last: false,
        show_permissions: false,
        show_owner: false,
        show_size: false,
        show_date_modified: false,
        show_total: false,
        colors: false,
        table: false,
        json: false,
        directory: None,
    }
}

#[test]
fn no_tokens_give_the_defaults() {
    assert_eq!(listing(&[]), plain_config());
}

#[test]
fn path_alone() {
    let config = listing(&["/tmp"]);
    assert_eq!(config.directory, Some(String::from("/tmp")));
    assert_eq!(config, RunConfig { directory: Some(String::from("/tmp")), ..plain_config() });
}

#[test]
fn only_the_first_path_counts() {
    let config = listing(&["first", "second", "-a", "third"]);
    assert_eq!(config.directory, Some(String::from("first")));
    assert!(config.all);
}

#[test]
fn path_may_follow_the_options() {
    let config = listing(&["--table", "-c", "some dir"]);
    assert_eq!(config.directory, Some(String::from("some dir")));
    assert!(config.table && config.colors);
}

#[test]
fn single_dash_and_empty_token_are_paths() {
    assert_eq!(listing(&["-"]).directory, Some(String::from("-")));
    assert_eq!(listing(&["", "x"]).directory, Some(String::new()));
    assert_eq!(listing(&["-a", "-", "x"]).directory, Some(String::from("-")));
}

#[test]
fn long_options() {
    assert!(listing(&["--all"]).all);
    assert!(listing(&["--group-directories-first"]).group_directories_first);
    assert!(listing(&["--group-directories-last"]).group_directories_last);
    assert!(listing(&["--show-permissions"]).show_permissions);
    assert!(listing(&["--show-owner"]).show_owner);
    assert!(listing(&["--show-size"]).show_size);
    assert!(listing(&["--show-date-modified"]).show_date_modified);
    assert!(listing(&["--show-total"]).show_total);
    assert!(listing(&["--colors"]).colors);
    assert!(listing(&["--table"]).table);
    assert!(listing(&["--json"]).json);
}

#[test]
fn each_long_option_sets_nothing_else() {
    assert_eq!(listing(&["--all"]), RunConfig { all: true, ..plain_config() });
    assert_eq!(listing(&["--show-size"]), RunConfig { show_size: true, ..plain_config() });
    assert_eq!(listing(&["--json"]), RunConfig { json: true, ..plain_config() });
    assert_eq!(listing(&["--show-total"]), RunConfig { show_total: true, ..plain_config() });
}

#[test]
fn short_options() {
    assert_eq!(listing(&["-a"]), RunConfig { all: true, ..plain_config() });
    assert_eq!(listing(&["-c"]), RunConfig { colors: true, ..plain_config() });
    assert_eq!(listing(&["-t"]), RunConfig { table: true, ..plain_config() });
    assert_eq!(listing(&["-j"]), RunConfig { json: true, ..plain_config() });
}

#[test]
fn short_options_in_one_token() {
    let config = listing(&["-act"]);
    assert_eq!(config, RunConfig { all: true, colors: true, table: true, ..plain_config() });
    let config = listing(&["-axc"]);
    assert_eq!(config, RunConfig { all: true, colors: true, ..plain_config() });
}

#[test]
fn show_all_columns_switches_on_columns_and_total() {
    let config = listing(&["--show-all-columns"]);
    assert_eq!(
        config,
        RunConfig {
            show_permissions: true,
            show_owner: true,
            show_size: true,
            show_date_modified: true,
            show_total: true,
            ..plain_config()
        }
    );
}

#[test]
fn unknown_options_are_passed_over() {
    assert_eq!(listing(&["--frobnicate", "-x", "-Z", "--", "--all=yes", "--al"]), plain_config());
    let config = listing(&["--nothing", "dir", "-q", "--size"]);
    assert_eq!(config, RunConfig { directory: Some(String::from("dir")), ..plain_config() });
}

#[test]
fn long_options_are_matched_whole() {
    assert_eq!(listing(&["--ALL", "--Table", "--json ", "---all"]), plain_config());
    // behind two dashes no letter counts as a short option
    assert_eq!(listing(&["--a", "--t", "--ajt"]), plain_config());
}

#[test]
fn table_and_json_are_refused() {
    assert_eq!(parse_args(&tokens(&["--table", "--json"])).err(), Some(ParseError::ConflictingOutput));
    assert_eq!(parse_args(&tokens(&["-t", "-j"])).err(), Some(ParseError::ConflictingOutput));
    assert_eq!(parse_args(&tokens(&["-tj"])).err(), Some(ParseError::ConflictingOutput));
    assert_eq!(parse_args(&tokens(&["--json", "dir", "-a", "-t"])).err(), Some(ParseError::ConflictingOutput));
}

#[test]
fn both_groupings_are_refused() {
    let outcome = parse_args(&tokens(&["--group-directories-first", "--group-directories-last"]));
    assert_eq!(outcome.err(), Some(ParseError::ConflictingGrouping));
    let outcome = parse_args(&tokens(&["--group-directories-last", "x", "--group-directories-first"]));
    assert_eq!(outcome.err(), Some(ParseError::ConflictingGrouping));
}

#[test]
fn grouping_conflict_is_reported_first() {
    let outcome = parse_args(&tokens(&[
        "--table",
        "--json",
        "--group-directories-first",
        "--group-directories-last",
    ]));
    assert_eq!(outcome.err(), Some(ParseError::ConflictingGrouping));
}

#[test]
fn conflicts_are_refused_even_with_help() {
    assert_eq!(parse_args(&tokens(&["--help", "-t", "-j"])).err(), Some(ParseError::ConflictingOutput));
}

#[test]
fn help_and_version_suppress_the_listing() {
    assert!(matches!(
        parse_args(&tokens(&["--help"])),
        Ok(Invocation::Info { help: true, version: false })
    ));
    assert!(matches!(
        parse_args(&tokens(&["-V", "dir", "--table"])),
        Ok(Invocation::Info { help: false, version: true })
    ));
    assert!(matches!(
        parse_args(&tokens(&["--version", "-h"])),
        Ok(Invocation::Info { help: true, version: true })
    ));
    assert!(matches!(
        parse_args(&tokens(&["-ahV"])),
        Ok(Invocation::Info { help: true, version: true })
    ));
    assert!(matches!(
        parse_args(&tokens(&["-v"])),
        Ok(Invocation::List(_))
    ));
}

#[test]
fn repeated_options_are_harmless() {
    assert_eq!(listing(&["-a", "--all", "-aa"]), RunConfig { all: true, ..plain_config() });
}

#[test]
fn parsed_configurations_are_well_formed() {
    let words = ["-a", "-t", "-j", "--group-directories-first", "--group-directories-last", "d"];
    for mask in 0..64u32 {
        let chosen: Vec<&str> =
            (0..6).filter(|bit| mask & (1 << bit) != 0).map(|bit| words[bit]).collect();
        match parse_args(&tokens(&chosen)) {
            Ok(Invocation::List(config)) => {
                assert!(config.is_well_formed());
                assert!(mask & 0b110 != 0b110 && mask & 0b11000 != 0b11000);
            },
            Ok(Invocation::Info { .. }) => panic!("no help was asked for"),
            Err(ParseError::ConflictingGrouping) => assert!(mask & 0b11000 == 0b11000),
            Err(ParseError::ConflictingOutput) => {
                assert!(mask & 0b110 == 0b110 && mask & 0b11000 != 0b11000)
            },
        }
    }
}

#[test]
fn grouping_and_mode_of_a_configuration() {
    assert_eq!(plain_config().grouping(), None);
    assert_eq!(plain_config().mode(), OutputMode::Plain);
    assert_eq!(listing(&["--group-directories-first"]).grouping(), Some(Grouping::DirectoriesFirst));
    assert_eq!(listing(&["--group-directories-last"]).grouping(), Some(Grouping::DirectoriesLast));
    assert_eq!(listing(&["-t"]).mode(), OutputMode::Table);
    assert_eq!(listing(&["-j"]).mode(), OutputMode::Json);
    assert!(!RunConfig { table: true, json: true, ..plain_config() }.is_well_formed());
    assert!(plain_config().is_well_formed());
}

#[test]
fn path_is_found_at_its_place() {
    assert_eq!(first_path_index(&tokens(&[])), None);
    assert_eq!(first_path_index(&tokens(&["-a", "--table", "--"])), None);
    assert_eq!(first_path_index(&tokens(&["dir"])), Some(0));
    assert_eq!(first_path_index(&tokens(&["-a", "dir", "other"])), Some(1));
    assert_eq!(first_path_index(&tokens(&["--x", "-y", "-", "dir"])), Some(2));
    assert_eq!(first_path_index(&tokens(&["", "-a"])), Some(0));
}

#[test]
fn path_place_agrees_with_the_configuration() {
    let lines: [&[&str]; 5] =
        [&[], &["a"], &["-t", "b", "c"], &["--json", "-c"], &["-", "-a", "x"]];
    for words in lines {
        let given = tokens(words);
        let expected = first_path_index(&given).map(|index| given[index].clone());
        assert_eq!(listing(words).directory, expected);
    }
}

#[test]
fn options_begin_with_a_dash_and_hold_more() {
    assert!(is_option_token(&String::from("-a")));
    assert!(is_option_token(&String::from("--")));
    assert!(is_option_token(&String::from("--all")));
    assert!(is_option_token(&String::from("-é")));
    assert!(!is_option_token(&String::from("-")));
    assert!(!is_option_token(&String::new()));
    assert!(!is_option_token(&String::from("a-")));
    assert!(!is_option_token(&String::from(" -a")));
}
