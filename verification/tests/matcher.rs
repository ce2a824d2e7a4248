use arch_package_list_fetcher::config::ConfigError;
use arch_package_list_fetcher::matcher::compile;

fn patterns(sources: &[&str]) -> Vec<String> {
    sources.iter().map(|source| source.to_string()).collect()
}

#[test]
fn matching_follows_the_patterns() {
    let matcher = compile(&patterns(&["^haskell-", "^php\\d?-?"])).expect("the patterns are valid");
    assert!(matcher.is_excluded("haskell-foo 1.0"));
    assert!(matcher.is_excluded("php8-bar 2.0"));
    assert!(!matcher.is_excluded("golang-baz 3.0"));
}

#[test]
fn any_one_pattern_suffices() {
    let matcher = compile(&patterns(&["^a", "b$", "c"])).expect("the patterns are valid");
    assert!(matcher.is_excluded("a 1"));
    assert!(matcher.is_excluded("x b"));
    assert!(matcher.is_excluded("x c y"));
    assert!(!matcher.is_excluded("x y"));
}

#[test]
fn matching_is_a_search_not_a_full_match() {
    let matcher = compile(&patterns(&["lens"])).expect("the pattern is valid");
    assert!(matcher.is_excluded("haskell-lens 5.0"));
    assert!(matcher.is_excluded("lens"));
    let anchored = compile(&patterns(&["^lens"])).expect("the pattern is valid");
    assert!(!anchored.is_excluded("haskell-lens 5.0"));
    assert!(anchored.is_excluded("lens 5.0"));
}

#[test]
fn matching_is_case_sensitive() {
    let matcher = compile(&patterns(&["^haskell-"])).expect("the pattern is valid");
    assert!(!matcher.is_excluded("Haskell-lens 5.0"));
    assert!(!matcher.is_excluded("HASKELL-LENS 5.0"));
    assert!(!matcher.is_excluded(" haskell-lens 5.0"));
}

#[test]
fn an_empty_filter_set_excludes_nothing() {
    let matcher = compile(&Vec::new()).expect("the empty set is valid");
    assert!(!matcher.is_excluded("haskell-lens 5.0"));
    assert!(!matcher.is_excluded(""));
}

#[test]
fn one_bad_pattern_invalidates_the_set() {
    let cases = [
        (vec!["("], 0),
        (vec!["^ok", "[a-"], 1),
        (vec!["a{2,1}", "^ok"], 0),
        (vec!["^ok", "*", "^fine"], 1),
        (vec!["^ok", "^fine", "x", "[z-a]"], 3),
    ];
    for (sources, position) in cases {
        match compile(&patterns(&sources)) {
            Err(ConfigError::InvalidPattern { position: found, message }) => {
                assert_eq!(found, Some(position));
                assert!(!message.is_empty());
            }
            other => panic!("expected an invalid pattern, got {:?}", other),
        }
    }
}

#[test]
fn the_first_bad_pattern_is_the_one_reported() {
    match compile(&patterns(&["^ok", "ba(d", "wor)se"])) {
        Err(ConfigError::InvalidPattern { position, message }) => {
            assert_eq!(position, Some(1));
            assert!(message.contains("ba(d"));
            assert!(!message.contains("wor)se"));
        }
        other => panic!("expected an invalid pattern, got {:?}", other),
    }
}

#[test]
fn a_set_can_be_refused_though_each_pattern_compiles() {
    let sources: Vec<String> = (0..6).map(|i| format!("{}\\pL{{150}}", i)).collect();
    assert!(compile(&vec![sources[0].clone()]).is_ok());
    match compile(&sources) {
        Err(ConfigError::InvalidPattern { position, message }) => {
            assert_eq!(position, None);
            assert!(!message.is_empty());
        }
        other => panic!("expected a refused set, got {:?}", other),
    }
}
