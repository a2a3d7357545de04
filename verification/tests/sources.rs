use lib::marker::Usize1;
use lib::source::{CheckedReadable, LineRead, LineSource, OnceSource, ReadError, Readable, Source};
use lib::StdinSource;

fn once(text: &str) -> OnceSource {
    OnceSource::new(text.to_string())
}

#[test]
fn once_source_hands_out_tokens_in_order() {
    let mut s = once("3\n10 20 30\n");
    assert!(!s.is_empty());
    assert_eq!(s.next_token(), Some("3".to_string()));
    assert_eq!(s.next_token(), Some("10".to_string()));
    assert_eq!(s.next_token_unwrap(), "20".to_string());
    assert_eq!(s.next_token(), Some("30".to_string()));
    assert!(s.is_empty());
    assert_eq!(s.next_token(), None);
}

#[test]
fn read_values_of_several_types() {
    let mut s = once("5 -7 true x hello 255 1");
    assert_eq!(<usize as Readable>::read(&mut s), 5);
    assert_eq!(<i32 as Readable>::read(&mut s), -7);
    assert_eq!(<bool as Readable>::read(&mut s), true);
    assert_eq!(<char as Readable>::read(&mut s), 'x');
    assert_eq!(<String as Readable>::read(&mut s), "hello".to_string());
    assert_eq!(<u8 as Readable>::read(&mut s), 255);
    assert_eq!(<Usize1 as Readable>::read(&mut s), 0);
    assert!(s.is_empty());
}

#[test]
fn read_option_gives_none_at_the_end() {
    let mut s = once("42");
    assert_eq!(<Option<i64> as Readable>::read(&mut s), Some(42));
    assert_eq!(<Option<i64> as Readable>::read(&mut s), None);
    assert_eq!(<Option<String> as Readable>::read(&mut s), None);
}

#[test]
fn checked_read_gives_none_at_the_end() {
    let mut s = once("1 2");
    assert_eq!(<u32 as CheckedReadable>::checked_read(&mut s), Some(1));
    assert_eq!(<u32 as CheckedReadable>::checked_read(&mut s), Some(2));
    assert_eq!(<u32 as CheckedReadable>::checked_read(&mut s), None);
}

#[test]
fn read_from_reports_each_error() {
    assert_eq!(<i64 as Readable>::read_from(None), Err(ReadError::NoToken));
    assert_eq!(<i64 as Readable>::read_from(Some("abc".to_string())), Err(ReadError::Unparsable));
    assert_eq!(<u8 as Readable>::read_from(Some("300".to_string())), Err(ReadError::Unparsable));
    assert_eq!(<String as Readable>::read_from(None), Err(ReadError::NoToken));
    assert_eq!(<Usize1 as Readable>::read_from(Some("0".to_string())), Err(ReadError::ZeroIndex));
    assert_eq!(<Usize1 as Readable>::read_from(Some("-1".to_string())), Err(ReadError::Unparsable));
    assert_eq!(<Usize1 as Readable>::read_from(None), Err(ReadError::NoToken));
    assert_eq!(<Option<i8> as Readable>::read_from(Some("x".to_string())), Err(ReadError::Unparsable));
    assert_eq!(<Option<i8> as Readable>::read_from(None), Ok(None));
    assert_eq!(<i8 as CheckedReadable>::checked_read_from(Some("999".to_string())), Err(ReadError::Unparsable));
    assert_eq!(<i8 as CheckedReadable>::checked_read_from(None), Ok(None));
}

#[test]
fn usize1_shifts_indices_down_by_one() {
    assert_eq!(<Usize1 as Readable>::read_from(Some("1".to_string())), Ok(0));
    assert_eq!(<Usize1 as Readable>::read_from(Some("10".to_string())), Ok(9));
    let max = usize::MAX.to_string();
    assert_eq!(<Usize1 as Readable>::read_from(Some(max)), Ok(usize::MAX - 1));
}

#[test]
fn line_source_hands_out_whole_lines() {
    let mut s = LineSource::new();
    assert!(s.needs_line());
    s.supply(LineRead::Line("1 2 3".to_string()));
    assert!(!s.needs_line());
    assert!(!s.is_empty());
    assert!(!s.needs_line());
    assert_eq!(s.next_token(), Some("1 2 3".to_string()));
    assert!(s.needs_line());
    s.supply(LineRead::Failed);
    assert!(!s.is_empty());
    assert_eq!(s.next_token(), None);
    s.supply(LineRead::End);
    assert!(s.is_empty());
    assert_eq!(s.next_token(), None);
    assert!(s.needs_line());
}

#[test]
fn line_source_reads_a_value_per_line() {
    let mut s = LineSource::new();
    s.supply(LineRead::Line("17".to_string()));
    assert_eq!(<u64 as Readable>::read(&mut s), 17);
    s.supply(LineRead::Line("hello world".to_string()));
    assert_eq!(<String as Readable>::read(&mut s), "hello world".to_string());
}

#[test]
fn stdin_source_delegates_to_its_kind() {
    let mut s = StdinSource::Once(once("a b"));
    assert_eq!(s.next_token(), Some("a".to_string()));
    assert!(!s.is_empty());
    assert_eq!(s.next_token(), Some("b".to_string()));
    assert!(s.is_empty());

    let mut line = LineSource::new();
    line.supply(LineRead::Line("x y".to_string()));
    let mut s = StdinSource::Line(line);
    assert!(!s.is_empty());
    assert_eq!(s.next_token(), Some("x y".to_string()));
}
