use lib::source::Tokens;

fn drain(text: &str) -> Vec<String> {
    let mut tokens = Tokens::from(text.to_string());
    let mut out = Vec::new();
    while let Some(t) = tokens.next_token() {
        out.push(t);
    }
    out
}

#[test]
fn tokens_split_at_every_kind_of_ascii_whitespace() {
    assert_eq!(drain("a b\tc\nd\x0Ce\rf"), vec!["a", "b", "c", "d", "e", "f"]);
}

#[test]
fn tokens_skip_leading_trailing_and_repeated_whitespace() {
    assert_eq!(drain("  \n 12   -3 \r\n xyz\n\n"), vec!["12", "-3", "xyz"]);
}

#[test]
fn tokens_of_blank_text_are_none() {
    assert!(drain("").is_empty());
    assert!(drain(" \t\r\n  ").is_empty());
}

#[test]
fn tokens_keep_vertical_tab_and_non_ascii_spaces() {
    // U+000B and U+3000 are not ASCII whitespace in `split_ascii_whitespace`.
    assert_eq!(drain("a\x0Bb c\u{3000}d"), vec!["a\x0Bb", "c\u{3000}d"]);
}

#[test]
fn tokens_keep_non_ascii_characters() {
    assert_eq!(drain("héllo wörld 黑风"), vec!["héllo", "wörld", "黑风"]);
}

#[test]
fn tokens_is_empty_looks_ahead_without_consuming() {
    let mut tokens = Tokens::from("  one  ".to_string());
    assert!(!tokens.is_empty());
    assert!(!tokens.is_empty());
    assert_eq!(tokens.next_token(), Some("one".to_string()));
    assert!(tokens.is_empty());
    assert_eq!(tokens.next_token(), None);
    assert_eq!(tokens.next_token(), None);
    assert!(tokens.is_empty());
}

#[test]
fn tokens_is_empty_after_trailing_whitespace() {
    let mut tokens = Tokens::from("x \n\n   ".to_string());
    assert_eq!(tokens.next_token(), Some("x".to_string()));
    assert!(tokens.is_empty());
}

#[test]
fn tokens_match_std_split_ascii_whitespace() {
    let text = " 3\n1 2 3\n\tab  c\r\nd\x0C\x0Ce ";
    let expected: Vec<String> = text.split_ascii_whitespace().map(|s| s.to_string()).collect();
    assert_eq!(drain(text), expected);
}
