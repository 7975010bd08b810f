use schedstat::parse_schedstat;
use schedstat::whitespace::starts_with_single_space;
use schedstat::ParseError;

#[test]
fn single_space_is_found() {
    assert!(starts_with_single_space(b" "));
    assert!(starts_with_single_space(b" 1"));
    assert!(starts_with_single_space(b" x y"));
    assert!(starts_with_single_space(b" \n"));
}

#[test]
fn more_than_one_blank_is_no_single_space() {
    assert!(!starts_with_single_space(b"  "));
    assert!(!starts_with_single_space(b"  1"));
    assert!(!starts_with_single_space(b" \t"));
    assert!(!starts_with_single_space(b" \t1"));
    assert!(!starts_with_single_space(b"   "));
}

#[test]
fn other_bytes_are_no_single_space() {
    assert!(!starts_with_single_space(b""));
    assert!(!starts_with_single_space(b"\t"));
    assert!(!starts_with_single_space(b"\t1"));
    assert!(!starts_with_single_space(b"\n"));
    assert!(!starts_with_single_space(b"1 "));
    assert!(!starts_with_single_space(b"\x00"));
    assert!(!starts_with_single_space(b"\xa0"));
}

#[test]
fn line_feed_ends_a_line() {
    assert!(parse_schedstat(b"1 2 3\n").is_ok());
    assert!(parse_schedstat(b"1 2 3\nmore").is_ok());
}

#[test]
fn carriage_return_with_line_feed_ends_a_line() {
    assert!(parse_schedstat(b"1 2 3\r\n").is_ok());
    assert!(parse_schedstat(b"1 2 3\r\nmore").is_ok());
}

#[test]
fn nothing_else_ends_a_line() {
    assert_eq!(Err(ParseError::LineEnding), parse_schedstat(b"1 2 3"));
    assert_eq!(Err(ParseError::LineEnding), parse_schedstat(b"1 2 3\r"));
    assert_eq!(Err(ParseError::LineEnding), parse_schedstat(b"1 2 3\r\r\n"));
    assert_eq!(Err(ParseError::LineEnding), parse_schedstat(b"1 2 3\x0b"));
    assert_eq!(Err(ParseError::LineEnding), parse_schedstat(b"1 2 3\x0c"));
    assert_eq!(Err(ParseError::LineEnding), parse_schedstat(b"1 2 3\x00\n"));
}
