use minigrep::docs::generate_help_long;
use minigrep::docs::generate_help_short;
use minigrep::docs::generate_version_long;
use minigrep::docs::generate_version_short;
use minigrep::search::contains_pattern;
use minigrep::search::search;

fn lines_of(content: &str) -> Vec<String> {
    content.lines().map(|l| l.to_string()).collect()
}

fn patterns_of(pats: &[&str]) -> Vec<String> {
    pats.iter().map(|p| p.to_string()).collect()
}

#[test]
fn search_reports_exactly_the_containing_lines() {
    let lines = lines_of("foo bar\nbaz\nfoo\nbarfood");
    let found = search(&lines, &patterns_of(&["foo"]));
    assert_eq!(
        found,
        vec![
            (1, "foo bar".to_string()),
            (3, "foo".to_string()),
            (4, "barfood".to_string()),
        ]
    );
}

#[test]
fn search_finds_nothing_in_unrelated_lines() {
    let lines = lines_of("alpha\nbeta\ngamma");
    let found = search(&lines, &patterns_of(&["delta"]));
    assert!(found.is_empty());
}

#[test]
fn search_scans_patterns_in_order() {
    let lines = lines_of("ab\nb\na");
    let found = search(&lines, &patterns_of(&["a", "b"]));
    assert_eq!(
        found,
        vec![
            (1, "ab".to_string()),
            (3, "a".to_string()),
            (1, "ab".to_string()),
            (2, "b".to_string()),
        ]
    );
}

#[test]
fn empty_pattern_matches_every_line() {
    let lines = lines_of("one\ntwo");
    let found = search(&lines, &patterns_of(&[""]));
    assert_eq!(found, vec![(1, "one".to_string()), (2, "two".to_string())]);
}

#[test]
fn pattern_longer_than_the_line_never_matches() {
    assert!(!contains_pattern(
        &"abc".to_string(),
        &"abcd".to_string()
    ));
    assert!(contains_pattern(&"abcd".to_string(), &"bcd".to_string()));
    assert!(!contains_pattern(&"abcd".to_string(), &"bd".to_string()));
}

#[test]
fn containment_is_case_sensitive() {
    assert!(!contains_pattern(&"Foo".to_string(), &"foo".to_string()));
    assert!(contains_pattern(&"Foo".to_string(), &"Foo".to_string()));
}

#[test]
fn version_strings_carry_the_tool_name_and_version() {
    assert_eq!(generate_version_short(), "minigrep 0.1.0".to_string());
    let long = generate_version_long();
    assert!(long.starts_with("minigrep 0.1.0 \n"));
    assert!(long.contains("<minigrep@example.com>"));
}

#[test]
fn help_text_documents_every_flag() {
    let help = generate_help_short();
    assert!(help.contains("minigrep 0.1.0"));
    assert!(help.contains("USAGE:"));
    assert!(help.contains("-p, --pattern"));
    assert!(help.contains("-f, --file"));
    assert!(help.contains("Search for given patterns"));
    assert!(help.contains("Search for the given file for patterns"));
}

#[test]
fn help_columns_align_on_the_widest_flag() {
    let help = generate_help_short();
    assert!(help.contains("    -p, --pattern  Search for given patterns\n"));
    assert!(help.contains("    -f, --file     Search for the given file for patterns"));
}

#[test]
fn long_help_matches_short_help() {
    assert_eq!(generate_help_long(), generate_help_short());
}
