use ped::buffer::Buffer;
use ped::error::Error;
use ped::search::{search_regex, Match, Pattern, RegexPattern, TermPattern};

const TEXT: &str = "The quick brown fox jumps over the lazy dog";

#[test]
fn search_term_normal() {
    let pattern = TermPattern::new("BrOwN FoX", false);
    let Match(start_pos, end_pos) = pattern.find_str(TEXT, 0).unwrap();
    assert_eq!(start_pos, 10);
    assert_eq!(end_pos, 19);
}

#[test]
fn search_term_normal_at_end() {
    let pattern = TermPattern::new("DOG", false);
    let Match(start_pos, end_pos) = pattern.find_str(TEXT, 0).unwrap();
    assert_eq!(start_pos, 40);
    assert_eq!(end_pos, 43);
}

#[test]
fn search_term_normal_not_found() {
    let pattern = TermPattern::new("jumpz", false);
    let found = pattern.find_str(TEXT, 0);
    assert!(found.is_none());
}

#[test]
fn search_term_case() {
    let pattern = TermPattern::new("jump", true);
    let Match(start_pos, end_pos) = pattern.find_str(TEXT, 0).unwrap();
    assert_eq!(start_pos, 20);
    assert_eq!(end_pos, 24);
}

#[test]
fn search_term_case_at_end() {
    let pattern = TermPattern::new("dog", false);
    let Match(start_pos, end_pos) = pattern.find_str(TEXT, 0).unwrap();
    assert_eq!(start_pos, 40);
    assert_eq!(end_pos, 43);
}

#[test]
fn search_term_case_not_found() {
    let pattern = TermPattern::new("Jump", true);
    let found = pattern.find_str(TEXT, 0);
    assert!(found.is_none());
}

#[test]
fn search_regex_normal() {
    let pattern = build_regex_normal("qu[A-Z]+\\s*.+wN");
    let Match(start_pos, end_pos) = pattern.find_str(TEXT, 0).unwrap();
    assert_eq!(start_pos, 4);
    assert_eq!(end_pos, 15);
}

#[test]
fn search_regex_normal_at_end() {
    let pattern = build_regex_normal("LazY.*$");
    let Match(start_pos, end_pos) = pattern.find_str(TEXT, 0).unwrap();
    assert_eq!(start_pos, 35);
    assert_eq!(end_pos, 43);
}

#[test]
fn search_regex_normal_not_found() {
    let pattern = build_regex_normal("qu[a-z]+\\s.+nw");
    let found = pattern.find_str(TEXT, 0);
    assert!(found.is_none());
}

#[test]
fn search_regex_case() {
    let pattern = build_regex_case("qu[a-z]+\\s*.+wn");
    let Match(start_pos, end_pos) = pattern.find_str(TEXT, 0).unwrap();
    assert_eq!(start_pos, 4);
    assert_eq!(end_pos, 15);
}

#[test]
fn search_regex_case_at_end() {
    let pattern = build_regex_case("lazy.*$");
    let Match(start_pos, end_pos) = pattern.find_str(TEXT, 0).unwrap();
    assert_eq!(start_pos, 35);
    assert_eq!(end_pos, 43);
}

#[test]
fn search_regex_case_not_found() {
    let pattern = build_regex_case("qu[A-Z]+\\s.+wn");
    let found = pattern.find_str(TEXT, 0);
    assert!(found.is_none());
}

#[test]
fn search_empty_buffer() {
    let pattern = TermPattern::new("anything", false);
    let found = pattern.find_str("", 0);
    assert!(found.is_none());

    let pattern = build_regex_normal("any.+thing");
    let found = pattern.find_str("", 0);
    assert!(found.is_none());
}

#[test]
fn search_with_empty_term() {
    let pattern = TermPattern::new("", false);
    let found = pattern.find_str(TEXT, 0);
    assert!(found.is_none());
}

fn build_regex_normal(term: &str) -> RegexPattern {
    build_regex(term, false)
}

fn build_regex_case(term: &str) -> RegexPattern {
    build_regex(term, true)
}

fn build_regex(term: &str, case_strict: bool) -> RegexPattern {
    RegexPattern::new(term, !case_strict, false).ok().unwrap()
}

#[test]
fn regex_pattern_keeps_its_source() {
    let pattern = build_regex_normal("qu[a-z]+");
    assert_eq!(pattern.pattern(), "qu[a-z]+");
}

#[test]
fn regex_pattern_rejects_a_malformed_expression() {
    match RegexPattern::new("(unclosed", true, false) {
        Err(Error::InvalidRegex { pattern, .. }) => assert_eq!(pattern, "(unclosed"),
        _ => panic!("expected an invalid regex"),
    }
}

#[test]
fn regex_search_wraps_around() {
    let pattern = build_regex_normal("the");
    let Match(start_pos, end_pos) = pattern.find_str(TEXT, 30).unwrap();
    assert_eq!((start_pos, end_pos), (31, 34));
    let Match(start_pos, end_pos) = pattern.find_str(TEXT, 35).unwrap();
    assert_eq!((start_pos, end_pos), (0, 3));
}

#[test]
fn incremental_regex_search_is_multi_line() {
    let mut buffer = Buffer::new();
    buffer.insert_str("one\ntwo\nthree");
    assert_eq!(search_regex(&buffer, "^t", true, 0).unwrap(), Some(Match(4, 5)));
    assert_eq!(search_regex(&buffer, "^T", true, 0).unwrap(), None);
    assert_eq!(search_regex(&buffer, "^T", false, 5).unwrap(), Some(Match(8, 9)));
    assert!(search_regex(&buffer, "[", false, 0).is_err());
}
