use arch_package_list_fetcher::classify::{DisplayRecord, MalformedTitleError};
use arch_package_list_fetcher::config::parse_filter_patterns;
use arch_package_list_fetcher::feed::{parse_feed, Category, FeedItem};
use arch_package_list_fetcher::matcher::{compile, CompiledMatcher};
use arch_package_list_fetcher::pipeline::{
    process_response, select_records, status_is_success, Selection,
};

const FEED: &str = r#"<?xml version="1.0" encoding="utf-8"?>
<rss version="2.0">
  <channel>
    <title>Recent package updates</title>
    <link>https://example.org/packages/</link>
    <description>Recently updated packages</description>
    <item>
      <title>haskell-lens 5.0</title>
      <category>Community</category>
      <category>x86_64</category>
    </item>
    <item>
      <title>rust-clap 4.0</title>
    </item>
    <item>
      <title>go-cobra 1.0</title>
      <category>Testing</category>
    </item>
    <item>
      <category>Core</category>
    </item>
  </channel>
</rss>
"#;

fn item(title: Option<&str>, categories: &[&str]) -> FeedItem {
    FeedItem {
        title: title.map(|title| title.to_string()),
        categories: categories.iter().map(|name| Category { name: name.to_string() }).collect(),
    }
}

fn record(name: &str, version: &str) -> DisplayRecord {
    DisplayRecord { package_name: name.to_string(), package_version: version.to_string() }
}

fn matcher(sources: &[&str]) -> CompiledMatcher {
    let patterns: Vec<String> = sources.iter().map(|source| source.to_string()).collect();
    compile(&patterns).expect("the patterns are valid")
}

fn nothing() -> Selection {
    Selection { records: Vec::new(), rejected: None }
}

#[test]
fn end_to_end_one_record_is_left() {
    let items = vec![
        item(Some("haskell-lens 5.0"), &[]),
        item(Some("rust-clap 4.0"), &[]),
        item(Some("go-cobra 1.0"), &["Testing"]),
    ];
    let selection = select_records(&matcher(&["^haskell-"]), &items);
    assert_eq!(selection.records, vec![record("rust-clap", "4.0")]);
    assert_eq!(selection.rejected, None);
}

#[test]
fn records_keep_the_order_of_the_feed() {
    let items = vec![
        item(Some("b 2"), &[]),
        item(Some("skip 0"), &["Testing"]),
        item(Some("a 1"), &[]),
        item(Some("b 2"), &[]),
    ];
    let selection = select_records(&matcher(&[]), &items);
    assert_eq!(selection.records, vec![record("b", "2"), record("a", "1"), record("b", "2")]);
    assert_eq!(selection.rejected, None);
}

#[test]
fn an_empty_feed_gives_nothing() {
    assert_eq!(select_records(&matcher(&["^a"]), &Vec::new()), nothing());
}

#[test]
fn the_run_ends_at_the_first_malformed_title() {
    let items = vec![
        item(Some("a 1"), &[]),
        item(Some("solo"), &["Testing"]),
        item(Some("broken"), &[]),
        item(Some("b 2"), &[]),
        item(Some("later"), &[]),
    ];
    let selection = select_records(&matcher(&[]), &items);
    assert_eq!(selection.records, vec![record("a", "1")]);
    assert_eq!(selection.rejected, Some(MalformedTitleError { title: "broken".to_string() }));
}

#[test]
fn a_status_of_success_is_one_of_200_to_299() {
    for status in [200, 201, 204, 250, 299] {
        assert!(status_is_success(status));
    }
    for status in [0, 100, 199, 300, 301, 404, 500, 65535] {
        assert!(!status_is_success(status));
    }
}

#[test]
fn a_response_without_success_yields_nothing_and_no_error() {
    let matcher = matcher(&["^haskell-"]);
    for status in [199, 300, 404, 500] {
        assert_eq!(process_response(&matcher, status, FEED.as_bytes()), Ok(nothing()));
        assert_eq!(process_response(&matcher, status, b"no feed at all"), Ok(nothing()));
        assert_eq!(process_response(&matcher, status, b""), Ok(nothing()));
    }
}

#[test]
fn a_successful_response_is_decoded_and_classified() {
    let selection = process_response(&matcher(&["^haskell-"]), 200, FEED.as_bytes())
        .expect("the payload is a feed");
    assert_eq!(selection.records, vec![record("rust-clap", "4.0"), record("unknown", "title")]);
    assert_eq!(selection.rejected, None);
}

#[test]
fn a_successful_response_that_is_no_feed_is_an_error() {
    let matcher = matcher(&[]);
    for payload in ["", "no feed at all", "<html><body/></html>", "<rss version=\"2.0\">"] {
        match process_response(&matcher, 200, payload.as_bytes()) {
            Err(error) => assert!(!error.message.is_empty()),
            Ok(selection) => panic!("expected an error, got {:?}", selection),
        }
        assert!(parse_feed(payload.as_bytes()).is_err());
    }
}

#[test]
fn a_feed_decodes_to_its_items_in_order() {
    let items = parse_feed(FEED.as_bytes()).expect("the payload is a feed");
    assert_eq!(
        items,
        vec![
            item(Some("haskell-lens 5.0"), &["Community", "x86_64"]),
            item(Some("rust-clap 4.0"), &[]),
            item(Some("go-cobra 1.0"), &["Testing"]),
            item(None, &["Core"]),
        ]
    );
}

#[test]
fn a_feed_without_items_decodes_to_none() {
    let feed = "<rss version=\"2.0\"><channel><title>t</title></channel></rss>";
    assert_eq!(parse_feed(feed.as_bytes()), Ok(Vec::new()));
}

#[test]
fn from_configuration_text_to_records() {
    let patterns = parse_filter_patterns(r#"filter_set = [ "^haskell-", "^php\\d?-?", "^unknown" ]"#)
        .expect("the configuration is valid");
    let matcher = compile(&patterns).expect("the patterns are valid");
    let selection =
        process_response(&matcher, 200, FEED.as_bytes()).expect("the payload is a feed");
    assert_eq!(selection, Selection { records: vec![record("rust-clap", "4.0")], rejected: None });
}
