use lib::graph::link_both_ways;
use lib::parse::FromToken;
use lib::source::{CheckedReadable, OnceSource, Readable, Source};

fn tokens_of(text: &str) -> Vec<String> {
    let mut s = OnceSource::new(text.to_string());
    let mut out = Vec::new();
    while let Some(t) = s.next_token() {
        out.push(t);
    }
    out
}

#[test]
fn law_whitespace_separates_tokens_of_both_sides() {
    for (a, w, b) in [("ab cd", ' ', "ef"), ("x ", '\n', " y z"), ("", '\t', "q"), ("p", '\r', "")] {
        let joined = format!("{}{}{}", a, w, b);
        let mut expected = tokens_of(a);
        expected.extend(tokens_of(b));
        assert_eq!(tokens_of(&joined), expected);
    }
}

#[test]
fn law_joining_with_spaces_then_splitting_gives_the_tokens_back() {
    let ts = vec!["12".to_string(), "-3".to_string(), "abc".to_string(), "é".to_string()];
    assert_eq!(tokens_of(&ts.join(" ")), ts);
}

#[test]
fn law_every_token_is_nonempty_and_free_of_whitespace() {
    for t in tokens_of(" a\tbb  \n ccc\r\n\x0Cd ") {
        assert!(!t.is_empty());
        assert!(!t.chars().any(|c| c.is_ascii_whitespace()));
    }
}

#[test]
fn law_blank_text_has_no_tokens() {
    assert!(tokens_of(" \t\n\r\x0C").is_empty());
    assert!(!tokens_of(" \t.\n").is_empty());
}

#[test]
fn law_once_source_is_empty_exactly_when_no_token_is_left() {
    for text in ["", "  ", "a", " a b "] {
        let mut s = OnceSource::new(text.to_string());
        loop {
            let empty = s.is_empty();
            let tok = s.next_token();
            assert_eq!(empty, tok.is_none());
            if tok.is_none() {
                break;
            }
        }
    }
}

#[test]
fn law_written_integers_read_back() {
    for v in [i64::MIN, -1, 0, 1, i64::MAX] {
        assert_eq!(<i64 as FromToken>::from_token(&format!("{}", v)), Some(v));
    }
    for v in [0usize, 1, usize::MAX] {
        assert_eq!(<usize as FromToken>::from_token(&format!("{}", v)), Some(v));
    }
}

#[test]
fn law_checked_read_agrees_with_reading_an_option() {
    for tok in [None, Some("5".to_string()), Some("x".to_string())] {
        let a = <i32 as CheckedReadable>::checked_read_from(tok.clone()).ok();
        let b = <Option<i32> as Readable>::read_from(tok).ok();
        assert_eq!(a, b);
    }
}

#[test]
fn link_both_ways_records_each_direction() {
    let mut adj: Vec<Vec<(usize, i64)>> = vec![vec![]; 3];
    link_both_ways(&mut adj, 0, 2, 5);
    link_both_ways(&mut adj, 1, 1, 7);
    assert_eq!(adj[0], vec![(2, 5)]);
    assert_eq!(adj[2], vec![(0, 5)]);
    assert_eq!(adj[1], vec![(1, 7), (1, 7)]);
}
