use minigrep::args::Args;
use minigrep::args::SpecialMode;
use minigrep::error::Error;
use minigrep::flags::Flag;
use minigrep::flags::FlagInfo;
use minigrep::flags::FlagInfoKind;
use minigrep::flags::FlagMap;
use minigrep::flags::FlagName;
use minigrep::flags::FlagValue;
use minigrep::flags::parse;
use minigrep::parse::ParseResult;
use minigrep::parse::Parser;

fn tokens(args: &[&str]) -> Vec<String> {
    args.iter().map(|s| s.to_string()).collect()
}

fn standard_infos() -> Vec<FlagInfo> {
    vec![
        FlagInfo {
            flag: Flag::Patterns,
            name: FlagName::Long("pattern".to_string()),
            _flag_kind: FlagInfoKind::Standard,
        },
        FlagInfo {
            flag: Flag::Patterns,
            name: FlagName::Char('p'),
            _flag_kind: FlagInfoKind::Standard,
        },
        FlagInfo {
            flag: Flag::File,
            name: FlagName::Long("file".to_string()),
            _flag_kind: FlagInfoKind::Standard,
        },
        FlagInfo {
            flag: Flag::File,
            name: FlagName::Char('f'),
            _flag_kind: FlagInfoKind::Standard,
        },
    ]
}

#[test]
fn flag_map_finds_every_registered_name() {
    let map = FlagMap::new(&standard_infos());
    assert_eq!(map.find(&"pattern".to_string()), Some(0));
    assert_eq!(map.find(&"p".to_string()), Some(1));
    assert_eq!(map.find(&"file".to_string()), Some(2));
    assert_eq!(map.find(&"f".to_string()), Some(3));
}

#[test]
fn flag_map_rejects_prefixes_suffixes_and_strangers() {
    let map = FlagMap::new(&standard_infos());
    assert_eq!(map.find(&"patter".to_string()), None);
    assert_eq!(map.find(&"atter".to_string()), None);
    assert_eq!(map.find(&"patterns".to_string()), None);
    assert_eq!(map.find(&"fil".to_string()), None);
    assert_eq!(map.find(&"ile".to_string()), None);
    assert_eq!(map.find(&"".to_string()), None);
    assert_eq!(map.find(&"x".to_string()), None);
    assert_eq!(map.find(&"bogus".to_string()), None);
}

#[test]
fn help_short_circuits_before_later_garbage() {
    match parse(tokens(&["-h", "--bogus", "-%"])) {
        ParseResult::Special(m) => assert_eq!(m, SpecialMode::HelpShort),
        _ => panic!("expected the short help mode"),
    }
    match parse(tokens(&["--help", "whatever", "--", "-h"])) {
        ParseResult::Special(m) => assert_eq!(m, SpecialMode::HelpLong),
        _ => panic!("expected the long help mode"),
    }
}

#[test]
fn version_flags_short_circuit() {
    match parse(tokens(&["-v", "junk"])) {
        ParseResult::Special(m) => assert_eq!(m, SpecialMode::VersionShort),
        _ => panic!("expected the short version mode"),
    }
    match parse(tokens(&["--version", "--bogus"])) {
        ParseResult::Special(m) => assert_eq!(m, SpecialMode::VersionLong),
        _ => panic!("expected the long version mode"),
    }
}

#[test]
fn two_positionals_resolve_in_pattern_file_order() {
    let mut args = match parse(tokens(&["needle", "haystack.txt"])) {
        ParseResult::Parsed(args) => args,
        _ => panic!("expected a parsed accumulator"),
    };
    let file = args.get_file().unwrap();
    let patterns = args.get_patterns().unwrap();
    assert_eq!(file, "haystack.txt".to_string());
    assert_eq!(patterns, vec!["needle".to_string()]);
    assert!(args.positional.is_empty());
}

#[test]
fn explicit_flags_resolve_without_positionals() {
    let mut args = match parse(tokens(&["-p", "foo", "-f", "bar.txt"])) {
        ParseResult::Parsed(args) => args,
        _ => panic!("expected a parsed accumulator"),
    };
    assert!(args.positional.is_empty());
    let file = args.get_file().unwrap();
    let patterns = args.get_patterns().unwrap();
    assert_eq!(file, "bar.txt".to_string());
    assert_eq!(patterns, vec!["foo".to_string()]);
    assert!(args.positional.is_empty());
}

#[test]
fn pattern_without_file_fails_with_missing_file() {
    let mut args = match parse(tokens(&["-p", "foo"])) {
        ParseResult::Parsed(args) => args,
        _ => panic!("expected a parsed accumulator"),
    };
    let err = args.get_file().unwrap_err();
    assert!(matches!(err, Error::MissingFile));
    assert_eq!(
        err.message(),
        "file to be searched for pattern not provided".to_string()
    );
}

#[test]
fn no_pattern_fails_with_missing_pattern() {
    let mut args = match parse(tokens(&[])) {
        ParseResult::Parsed(args) => args,
        _ => panic!("expected a parsed accumulator"),
    };
    let err = args.get_patterns().unwrap_err();
    assert!(matches!(err, Error::MissingPattern));
    assert_eq!(err.message(), "pattern to search not found".to_string());
}

#[test]
fn unrecognized_long_flag_names_the_flag_and_mutates_nothing() {
    let parser = Parser::new();
    let mut args = Args::default();
    let err = parser
        .parse(&tokens(&["--bogus"]), &mut args)
        .unwrap_err();
    let message = err.message();
    assert!(message.contains("--bogus"));
    assert_eq!(message, "Unrecognized flag --bogus".to_string());
    assert!(args.special.is_none());
    assert!(args.positional.is_empty());
    assert!(args.pattern.is_empty());
    assert!(args.patterns.is_empty());
    assert!(args.file.name.is_empty());
}

#[test]
fn unrecognized_short_flag_names_the_flag() {
    match parse(tokens(&["-x"])) {
        ParseResult::Failed(err) => {
            assert_eq!(err.message(), "Unrecognized flag -x".to_string());
        },
        _ => panic!("expected a failed parse"),
    }
}

#[test]
fn value_flag_without_value_reports_missing_value() {
    match parse(tokens(&["-p"])) {
        ParseResult::Failed(err) => {
            assert_eq!(err.message(), "missing value for flag -p".to_string());
        },
        _ => panic!("expected a failed parse"),
    }
    match parse(tokens(&["needle", "--file"])) {
        ParseResult::Failed(err) => {
            assert_eq!(err.message(), "missing value for flag --file".to_string());
        },
        _ => panic!("expected a failed parse"),
    }
}

#[test]
fn equals_form_is_not_a_registered_name() {
    match parse(tokens(&["--file=x"])) {
        ParseResult::Failed(err) => {
            assert_eq!(err.message(), "Unrecognized flag --file=x".to_string());
        },
        _ => panic!("expected a failed parse"),
    }
}

#[test]
fn error_after_special_flag_is_not_reached() {
    match parse(tokens(&["-h", "-p"])) {
        ParseResult::Special(m) => assert_eq!(m, SpecialMode::HelpShort),
        _ => panic!("expected the short help mode"),
    }
}

#[test]
fn error_before_special_flag_wins() {
    match parse(tokens(&["--bogus", "-h"])) {
        ParseResult::Failed(err) => {
            assert!(err.message().contains("--bogus"));
        },
        _ => panic!("expected a failed parse"),
    }
}

#[test]
fn short_flag_takes_attached_value() {
    let mut args = match parse(tokens(&["-pfoo", "bar.txt"])) {
        ParseResult::Parsed(args) => args,
        _ => panic!("expected a parsed accumulator"),
    };
    let file = args.get_file().unwrap();
    let patterns = args.get_patterns().unwrap();
    assert_eq!(file, "bar.txt".to_string());
    assert_eq!(patterns, vec!["foo".to_string()]);
}

#[test]
fn separator_turns_the_rest_into_positionals() {
    match parse(tokens(&["--", "-h", "--bogus"])) {
        ParseResult::Parsed(args) => {
            assert_eq!(
                args.positional,
                vec!["-h".to_string(), "--bogus".to_string()]
            );
        },
        _ => panic!("expected a parsed accumulator"),
    }
}

#[test]
fn lone_dash_is_positional() {
    match parse(tokens(&["-"])) {
        ParseResult::Parsed(args) => {
            assert_eq!(args.positional, vec!["-".to_string()]);
        },
        _ => panic!("expected a parsed accumulator"),
    }
}

#[test]
fn repeated_value_flag_keeps_the_last_write() {
    let mut args = match parse(tokens(&["-p", "first", "--pattern", "second", "-f", "x"])) {
        ParseResult::Parsed(args) => args,
        _ => panic!("expected a parsed accumulator"),
    };
    let patterns = args.get_patterns().unwrap();
    assert_eq!(patterns, vec!["second".to_string()]);
}

#[test]
fn parsing_twice_resolves_identically() {
    let list = ["alpha", "beta", "-p", "x"];
    let mut first = match parse(tokens(&list)) {
        ParseResult::Parsed(args) => args,
        _ => panic!("expected a parsed accumulator"),
    };
    let mut second = match parse(tokens(&list)) {
        ParseResult::Parsed(args) => args,
        _ => panic!("expected a parsed accumulator"),
    };
    let resolved_first = first.resolve().unwrap();
    let resolved_second = second.resolve().unwrap();
    assert_eq!(resolved_first.0, resolved_second.0);
    assert_eq!(resolved_first.1, resolved_second.1);
    assert_eq!(resolved_first.0, "beta".to_string());
    assert_eq!(resolved_first.1, vec!["x".to_string()]);
}

#[test]
fn matches_possible_only_with_some_pattern_source() {
    let empty = Args::default();
    assert!(!empty.matches_possible());
    match parse(tokens(&["needle"])) {
        ParseResult::Parsed(args) => assert!(args.matches_possible()),
        _ => panic!("expected a parsed accumulator"),
    }
    match parse(tokens(&["-p", "needle"])) {
        ParseResult::Parsed(args) => assert!(args.matches_possible()),
        _ => panic!("expected a parsed accumulator"),
    }
    match parse(tokens(&["-f", "only-a-file"])) {
        ParseResult::Parsed(args) => assert!(!args.matches_possible()),
        _ => panic!("expected a parsed accumulator"),
    }
}

#[test]
fn flag_value_unwrap_value_returns_the_value() {
    let value = FlagValue::Value("abc".to_string());
    assert_eq!(value.unwrap_value(), "abc".to_string());
    let switch = FlagValue::Switch(true);
    assert!(switch._unwrap_switch());
}

#[test]
fn flag_metadata_matches_the_cli_surface() {
    assert!(!Flag::Patterns.is_switch());
    assert!(!Flag::File.is_switch());
    assert_eq!(Flag::Patterns.name_short(), Some('p'));
    assert_eq!(Flag::File.name_short(), Some('f'));
    assert_eq!(Flag::Patterns.name_long(), "pattern".to_string());
    assert_eq!(Flag::File.name_long(), "file".to_string());
}
