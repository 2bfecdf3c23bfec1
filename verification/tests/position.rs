use todo_list::{parse_position, resolve_position, Task, TodoError};

fn sample() -> Vec<Task> {
    vec![
        Task::new(3, String::from("water the plants")),
        Task::new(7, String::from("file the report")),
        Task::new(8, String::from("call home")),
    ]
}

#[test]
fn parse_position_reads_plain_numbers() {
    assert_eq!(parse_position("1"), Some(1));
    assert_eq!(parse_position("9"), Some(9));
    assert_eq!(parse_position("10"), Some(10));
    assert_eq!(parse_position("42"), Some(42));
    assert_eq!(parse_position("1234567890"), Some(1234567890));
}

#[test]
fn parse_position_takes_a_leading_plus_and_leading_zeros() {
    assert_eq!(parse_position("+1"), Some(1));
    assert_eq!(parse_position("+42"), Some(42));
    assert_eq!(parse_position("007"), Some(7));
    assert_eq!(parse_position("+007"), Some(7));
    assert_eq!(parse_position("00000000000000000000000000000012"), Some(12));
}

#[test]
fn parse_position_reaches_the_largest_position_and_no_further() {
    assert_eq!(parse_position("4294967295"), Some(u32::MAX));
    assert_eq!(parse_position("4294967296"), None);
    assert_eq!(parse_position("4294967300"), None);
    assert_eq!(parse_position("99999999999999999999999999"), None);
    assert_eq!(parse_position("+4294967296"), None);
}

#[test]
fn parse_position_refuses_zero() {
    assert_eq!(parse_position("0"), None);
    assert_eq!(parse_position("000"), None);
    assert_eq!(parse_position("+0"), None);
}

#[test]
fn parse_position_refuses_what_is_no_number() {
    assert_eq!(parse_position(""), None);
    assert_eq!(parse_position("+"), None);
    assert_eq!(parse_position("-"), None);
    assert_eq!(parse_position("abc"), None);
    assert_eq!(parse_position("1a"), None);
    assert_eq!(parse_position("a1"), None);
    assert_eq!(parse_position("-1"), None);
    assert_eq!(parse_position("++1"), None);
    assert_eq!(parse_position("1+"), None);
    assert_eq!(parse_position(" 1"), None);
    assert_eq!(parse_position("1 "), None);
    assert_eq!(parse_position("1.0"), None);
    assert_eq!(parse_position("1_000"), None);
    assert_eq!(parse_position("0x10"), None);
    assert_eq!(parse_position("\u{663}"), None);
    assert_eq!(parse_position("1\u{663}"), None);
    assert_eq!(parse_position("\u{ff11}"), None);
}

#[test]
fn parse_position_agrees_with_the_standard_parser_on_positive_numbers() {
    let texts = [
        "1", "2", "10", "+3", "003", "4294967295", "4294967296", "", "+", "-", "-5", "abc", "5x",
        " 5", "5 ", "1e3", "١", "+-1", "12345", "0", "+0", "00",
    ];
    for text in texts {
        let expected = match text.parse::<u32>() {
            Ok(0) => None,
            Ok(n) => Some(n),
            Err(_) => None,
        };
        assert_eq!(parse_position(text), expected, "text {:?}", text);
    }
}

#[test]
fn resolve_position_finds_the_id_shown_there() {
    let listing = sample();
    assert_eq!(resolve_position(&listing, "1"), Ok(3));
    assert_eq!(resolve_position(&listing, "2"), Ok(7));
    assert_eq!(resolve_position(&listing, "3"), Ok(8));
    assert_eq!(resolve_position(&listing, "+2"), Ok(7));
    assert_eq!(resolve_position(&listing, "03"), Ok(8));
}

#[test]
fn resolve_position_beyond_the_listing_is_not_found() {
    let listing = sample();
    assert_eq!(resolve_position(&listing, "4"), Err(TodoError::PositionNotFound));
    assert_eq!(resolve_position(&listing, "4294967295"), Err(TodoError::PositionNotFound));
    let nothing: Vec<Task> = Vec::new();
    assert_eq!(resolve_position(&nothing, "1"), Err(TodoError::PositionNotFound));
}

#[test]
fn resolve_position_refuses_what_is_no_position() {
    let listing = sample();
    assert_eq!(resolve_position(&listing, "abc"), Err(TodoError::InvalidPosition));
    assert_eq!(resolve_position(&listing, ""), Err(TodoError::InvalidPosition));
    assert_eq!(resolve_position(&listing, "0"), Err(TodoError::InvalidPosition));
    assert_eq!(resolve_position(&listing, "-1"), Err(TodoError::InvalidPosition));
    assert_eq!(resolve_position(&listing, "4294967296"), Err(TodoError::InvalidPosition));
    let nothing: Vec<Task> = Vec::new();
    assert_eq!(resolve_position(&nothing, "abc"), Err(TodoError::InvalidPosition));
}

#[test]
fn resolve_position_goes_by_place_not_by_id() {
    let listing = vec![Task::new(20, String::from("b")), Task::new(10, String::from("a"))];
    assert_eq!(resolve_position(&listing, "1"), Ok(20));
    assert_eq!(resolve_position(&listing, "2"), Ok(10));
    assert_eq!(resolve_position(&listing, "10"), Err(TodoError::PositionNotFound));
}
