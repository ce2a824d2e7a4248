use arch_package_list_fetcher::classify::{
    classify, classify_with, display_record, has_testing_category, title_of, Classification,
    DisplayRecord, MalformedTitleError,
};
use arch_package_list_fetcher::feed::{Category, FeedItem};
use arch_package_list_fetcher::matcher::{compile, CompiledMatcher};

fn item(title: Option<&str>, categories: &[&str]) -> FeedItem {
    FeedItem {
        title: title.map(|title| title.to_string()),
        categories: categories.iter().map(|name| Category { name: name.to_string() }).collect(),
    }
}

fn record(name: &str, version: &str) -> DisplayRecord {
    DisplayRecord { package_name: name.to_string(), package_version: version.to_string() }
}

fn matcher(sources: &[&str]) -> CompiledMatcher {
    let patterns: Vec<String> = sources.iter().map(|source| source.to_string()).collect();
    compile(&patterns).expect("the patterns are valid")
}

#[test]
fn a_testing_category_skips_the_item_whatever_the_patterns() {
    let zig = item(Some("zig 0.9.0"), &["Testing"]);
    assert_eq!(classify(&matcher(&[]), &zig), Ok(Classification::Skip));
    assert_eq!(classify(&matcher(&["^haskell-"]), &zig), Ok(Classification::Skip));
    assert_eq!(classify(&matcher(&["^zig"]), &zig), Ok(Classification::Skip));
    assert_eq!(classify_with(false, &zig), Ok(Classification::Skip));
    assert_eq!(classify_with(true, &zig), Ok(Classification::Skip));
}

#[test]
fn a_category_that_contains_the_marker_is_a_testing_category() {
    let tools = item(Some("zig 0.9.0"), &["Testing Tools"]);
    assert_eq!(classify(&matcher(&[]), &tools), Ok(Classification::Skip));
    let later = item(Some("zig 0.9.0"), &["Extra", "x86_64", "Community-Testing"]);
    assert_eq!(classify(&matcher(&[]), &later), Ok(Classification::Skip));
    assert!(has_testing_category(&tools));
    assert!(has_testing_category(&later));
}

#[test]
fn the_marker_is_case_sensitive() {
    let lower = item(Some("zig 0.9.0"), &["testing", "TESTING", "Test"]);
    assert!(!has_testing_category(&lower));
    assert_eq!(classify(&matcher(&[]), &lower), Ok(Classification::Display(record("zig", "0.9.0"))));
}

#[test]
fn a_testing_category_skips_even_a_malformed_title() {
    assert_eq!(classify(&matcher(&[]), &item(Some("solo"), &["Testing"])), Ok(Classification::Skip));
}

#[test]
fn an_excluded_title_is_skipped() {
    let lens = item(Some("haskell-lens 5.0"), &[]);
    assert_eq!(classify(&matcher(&["^haskell-"]), &lens), Ok(Classification::Skip));
    assert_eq!(classify_with(true, &lens), Ok(Classification::Skip));
    assert_eq!(classify_with(true, &item(Some("solo"), &[])), Ok(Classification::Skip));
}

#[test]
fn an_accepted_item_is_shown_as_name_and_version() {
    let clap = item(Some("rust-clap 4.0"), &["Extra", "x86_64"]);
    assert_eq!(
        classify(&matcher(&["^haskell-"]), &clap),
        Ok(Classification::Display(record("rust-clap", "4.0")))
    );
    assert_eq!(classify_with(false, &clap), Ok(Classification::Display(record("rust-clap", "4.0"))));
}

#[test]
fn a_missing_title_is_judged_as_the_placeholder() {
    let untitled = item(None, &[]);
    let titled = item(Some("unknown title"), &[]);
    assert_eq!(title_of(&untitled), "unknown title");
    for sources in [vec![], vec!["^haskell-"], vec!["^unknown"], vec!["title$"]] {
        let matcher = matcher(&sources);
        assert_eq!(classify(&matcher, &untitled), classify(&matcher, &titled));
    }
    assert_eq!(classify(&matcher(&["^unknown"]), &untitled), Ok(Classification::Skip));
    assert_eq!(classify(&matcher(&[]), &item(None, &["Testing"])), Ok(Classification::Skip));
}

#[test]
fn the_placeholder_has_two_pieces() {
    assert_eq!(
        classify(&matcher(&["^haskell-"]), &item(None, &[])),
        Ok(Classification::Display(record("unknown", "title")))
    );
    assert_eq!(display_record("unknown title"), Ok(record("unknown", "title")));
}

#[test]
fn a_title_of_one_piece_is_a_named_error() {
    let solo = item(Some("solo"), &[]);
    let expected = Err(MalformedTitleError { title: "solo".to_string() });
    assert_eq!(classify(&matcher(&["^haskell-"]), &solo), expected);
    assert_eq!(classify_with(false, &solo), expected);
    assert_eq!(
        classify(&matcher(&[]), &item(Some(""), &[])),
        Err(MalformedTitleError { title: String::new() })
    );
}

#[test]
fn the_record_is_the_first_two_pieces() {
    assert_eq!(display_record("rust-clap 4.0"), Ok(record("rust-clap", "4.0")));
    assert_eq!(display_record("linux 6.1 extra words"), Ok(record("linux", "6.1")));
    assert_eq!(display_record("a  b"), Ok(record("a", "")));
    assert_eq!(display_record(" a"), Ok(record("", "a")));
    assert_eq!(display_record("a "), Ok(record("a", "")));
    assert_eq!(display_record("a\tb"), Err(MalformedTitleError { title: "a\tb".to_string() }));
}

#[test]
fn the_title_of_an_item_is_its_own_where_it_has_one() {
    assert_eq!(title_of(&item(Some("zig 0.9.0"), &[])), "zig 0.9.0");
    assert_eq!(title_of(&item(Some(""), &[])), "");
}
