use slacc::JsAhoCorasick;

fn matcher(patterns: &[&str]) -> JsAhoCorasick {
    JsAhoCorasick::with_patterns(patterns.iter().map(|p| p.to_string()).collect())
}

#[test]
fn finds_any_pattern_anywhere() {
    let m = matcher(&["foo", "bar", "quux", "baz"]);
    assert!(m.is_match("xxx bar xxx".to_string()));
    assert!(!m.is_match("xxx qux xxx".to_string()));
    assert!(m.is_match("foo".to_string()));
    assert!(m.is_match("abazb".to_string()));
    assert!(!m.is_match("".to_string()));
}

#[test]
fn no_patterns_match_nothing() {
    let m = matcher(&[]);
    assert!(!m.is_match("anything".to_string()));
    assert!(!m.is_match("".to_string()));
}

#[test]
fn an_empty_pattern_matches_everything() {
    let m = matcher(&["", "zzz"]);
    assert!(m.is_match("abc".to_string()));
    assert!(m.is_match("".to_string()));
}

#[test]
fn matching_survives_more_text_around() {
    let m = matcher(&["spam.example"]);
    assert!(m.is_match("spam.example".to_string()));
    assert!(m.is_match("https://spam.example/notes".to_string()));
    assert!(!m.is_match("spam-example".to_string()));
}

#[test]
fn non_ascii_text_is_matched_by_its_bytes() {
    let m = matcher(&["みすきー", "é"]);
    assert!(m.is_match("こんにちは みすきー".to_string()));
    assert!(m.is_match("café".to_string()));
    assert!(!m.is_match("cafe".to_string()));
}

#[test]
fn checked_construction_builds_the_same_matcher() {
    let m = JsAhoCorasick::try_with_patterns(vec!["foo".to_string(), "bar".to_string()]).unwrap();
    assert!(m.is_match("a bar".to_string()));
    assert!(!m.is_match("baz".to_string()));
    let empty = JsAhoCorasick::try_with_patterns(Vec::new()).unwrap();
    assert!(!empty.is_match("foo".to_string()));
}
