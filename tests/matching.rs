use guild_triggers::match_engine::{check_match, MatchResult, MatchType, PatternError};

fn result(matched: &str, index: usize, rest: &str) -> MatchResult {
    MatchResult { matched: matched.to_string(), rest: rest.to_string(), index }
}

#[test]
fn literal_match_in_middle() {
    let r = check_match("hello world", MatchType::Literal("world".to_string()));
    assert_eq!(r, Some(result("world", 6, "hello ")));
}

#[test]
fn starting_literal_match_at_start() {
    let r = check_match("ping test", MatchType::StartingLiteral("ping".to_string()));
    assert_eq!(r, Some(result("ping", 0, " test")));
}

#[test]
fn starting_literal_not_at_start() {
    let r = check_match("test ping", MatchType::StartingLiteral("ping".to_string()));
    assert_eq!(r, None);
}

#[test]
fn regex_match_digits() {
    let m = match MatchType::new("?[0-9]+".to_string()) {
        Ok(m) => m,
        Err(_) => panic!("pattern should compile"),
    };
    assert_eq!(check_match("foo123bar", m), Some(result("123", 3, "foobar")));
}

#[test]
fn regex_no_match() {
    let m = MatchType::new("?[0-9]+".to_string()).ok().unwrap();
    assert_eq!(check_match("no digits", m), None);
}

#[test]
fn regex_rest_removes_first_textual_occurrence() {
    // The match is the lone `x` at byte 3; the remainder loses the first `x` of the text.
    let m = MatchType::new("?x$".to_string()).ok().unwrap();
    assert_eq!(check_match("xa x", m), Some(result("x", 3, "a x")));
    let m = MatchType::new("?x\\b".to_string()).ok().unwrap();
    assert_eq!(check_match("xa x", m), Some(result("x", 3, "a x")));
}

#[test]
fn literal_removes_only_first_occurrence() {
    let r = check_match("a-b-a", MatchType::Literal("a".to_string()));
    assert_eq!(r, Some(result("a", 0, "-b-a")));
}

#[test]
fn literal_index_counts_bytes() {
    let r = check_match("héllo world", MatchType::Literal("world".to_string()));
    assert_eq!(r, Some(result("world", 7, "héllo ")));
}

#[test]
fn empty_literal_matches_at_start() {
    let r = check_match("abc", MatchType::Literal(String::new()));
    assert_eq!(r, Some(result("", 0, "abc")));
}

#[test]
fn literal_absent() {
    assert_eq!(check_match("abc", MatchType::Literal("d".to_string())), None);
}

#[test]
fn classify_ampersand_is_literal() {
    match MatchType::new("&world".to_string()) {
        Ok(MatchType::Literal(s)) => assert_eq!(s, "world"),
        _ => panic!("expected a literal"),
    }
}

#[test]
fn classify_strips_one_ampersand() {
    match MatchType::new("&&foo".to_string()) {
        Ok(MatchType::Literal(s)) => assert_eq!(s, "&foo"),
        _ => panic!("expected a literal"),
    }
}

#[test]
fn classify_question_mark_is_regex() {
    match MatchType::new("?[a-z]+".to_string()) {
        Ok(MatchType::Regex(r)) => assert_eq!(r.as_str(), "[a-z]+"),
        _ => panic!("expected a regex"),
    }
}

#[test]
fn classify_other_is_starting_literal() {
    match MatchType::new("ping".to_string()) {
        Ok(MatchType::StartingLiteral(s)) => assert_eq!(s, "ping"),
        _ => panic!("expected a starting literal"),
    }
}

#[test]
fn classify_empty_pattern() {
    match MatchType::new(String::new()) {
        Ok(MatchType::StartingLiteral(s)) => assert_eq!(s, ""),
        _ => panic!("expected a starting literal"),
    }
}

#[test]
fn classify_invalid_regex_fails() {
    match MatchType::new("?(".to_string()) {
        Err(e) => assert_eq!(e, PatternError::InvalidPattern),
        Ok(_) => panic!("an unclosed group must not compile"),
    }
}

#[test]
fn classify_twice_gives_same_variant() {
    for p in ["&a", "?b+", "c"] {
        let first = MatchType::new(p.to_string()).ok().unwrap();
        let second = MatchType::new(p.to_string()).ok().unwrap();
        let text = "xx a bbb c";
        assert_eq!(check_match(text, first), check_match(text, second));
    }
}
