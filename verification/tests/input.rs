use todo_list::input::{parse_flag, parse_number, same_text};

#[test]
fn numbers_are_read_in_decimal() {
    assert_eq!(parse_number("0"), Some(0));
    assert_eq!(parse_number("7"), Some(7));
    assert_eq!(parse_number("42"), Some(42));
    assert_eq!(parse_number("1234567890"), Some(1234567890));
}

#[test]
fn leading_zeros_count_for_nothing() {
    assert_eq!(parse_number("007"), Some(7));
    assert_eq!(parse_number("000"), Some(0));
}

#[test]
fn a_plus_sign_may_stand_in_front() {
    assert_eq!(parse_number("+7"), Some(7));
    assert_eq!(parse_number("+0"), Some(0));
    assert_eq!(parse_number("+"), None);
    assert_eq!(parse_number("++7"), None);
    assert_eq!(parse_number("7+"), None);
}

#[test]
fn text_without_digits_is_no_number() {
    assert_eq!(parse_number(""), None);
    assert_eq!(parse_number("abc"), None);
    assert_eq!(parse_number("-"), None);
}

#[test]
fn anything_besides_digits_spoils_a_number() {
    assert_eq!(parse_number("-1"), None);
    assert_eq!(parse_number("12a"), None);
    assert_eq!(parse_number("a12"), None);
    assert_eq!(parse_number("1 2"), None);
    assert_eq!(parse_number(" 1"), None);
    assert_eq!(parse_number("1\n"), None);
    assert_eq!(parse_number("1_000"), None);
    assert_eq!(parse_number("1.5"), None);
    assert_eq!(parse_number("\u{0663}"), None);
}

#[test]
fn the_largest_number_is_read_and_the_next_is_not() {
    let largest = usize::MAX.to_string();
    assert_eq!(parse_number(&largest), Some(usize::MAX));
    let mut beyond = largest.clone();
    beyond.push('0');
    assert_eq!(parse_number(&beyond), None);
    let next = (usize::MAX as u128 + 1).to_string();
    assert_eq!(parse_number(&next), None);
}

#[test]
fn numbers_are_read_as_the_standard_library_reads_them() {
    let samples = [
        "", "0", "1", "+1", "-1", "+", "-", "00012", "12x", "x12", " 12", "12 ", "+-1", "९",
        "4294967295", "4294967296", "18446744073709551615", "18446744073709551616",
        "99999999999999999999999999",
    ];
    for text in samples {
        assert_eq!(parse_number(text), text.parse::<usize>().ok(), "on {:?}", text);
    }
}

#[test]
fn flags_are_spelled_exactly() {
    assert_eq!(parse_flag("true"), Some(true));
    assert_eq!(parse_flag("false"), Some(false));
    assert_eq!(parse_flag("True"), None);
    assert_eq!(parse_flag("FALSE"), None);
    assert_eq!(parse_flag("truee"), None);
    assert_eq!(parse_flag("tru"), None);
    assert_eq!(parse_flag(""), None);
    assert_eq!(parse_flag(" true"), None);
    assert_eq!(parse_flag("1"), None);
    assert_eq!(parse_flag("yes"), None);
}

#[test]
fn flags_are_read_as_the_standard_library_reads_them() {
    for text in ["true", "false", "", "t", "TRUE", "false ", "0", "falsee"] {
        assert_eq!(parse_flag(text), text.parse::<bool>().ok(), "on {:?}", text);
    }
}

#[test]
fn same_text_compares_every_character() {
    assert!(same_text("", ""));
    assert!(same_text("abc", "abc"));
    assert!(!same_text("abc", "abd"));
    assert!(!same_text("abc", "ab"));
    assert!(!same_text("ab", "abc"));
    assert!(!same_text("", "a"));
    assert!(same_text("héllo", "héllo"));
    assert!(!same_text("héllo", "hello"));
}
