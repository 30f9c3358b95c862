use text_box::format::{decimal_string, digit_char, format_line, push_decimal};
use text_box::strings::{chars_of, insert_char, remove_char, string_of};
use text_box::{clamp, pad, Align};

#[test]
fn clamp_keeps_a_value_in_range() {
    assert_eq!(clamp(5, 0, 10), 5);
    assert_eq!(clamp(0, 0, 10), 0);
    assert_eq!(clamp(10, 0, 10), 10);
}

#[test]
fn clamp_cuts_at_both_bounds() {
    assert_eq!(clamp(-1, 0, 10), 0);
    assert_eq!(clamp(11, 0, 10), 10);
    assert_eq!(clamp(i128::MIN, -3, 3), -3);
    assert_eq!(clamp(i128::MAX, -3, 3), 3);
}

#[test]
fn clamp_with_crossed_bounds() {
    assert_eq!(clamp(1, 5, 3), 5);
    assert_eq!(clamp(4, 5, 3), 5);
    assert_eq!(clamp(7, 5, 3), 3);
}

#[test]
fn pad_right_fills_before_the_text() {
    assert_eq!(pad("7".to_string(), 3, Align::Right), "  7");
    assert_eq!(pad("".to_string(), 2, Align::Right), "  ");
}

#[test]
fn pad_left_fills_after_the_text() {
    assert_eq!(pad("7".to_string(), 3, Align::Left), "7  ");
    assert_eq!(pad("ab".to_string(), 2, Align::Left), "ab");
}

#[test]
fn pad_leaves_a_long_text_alone() {
    assert_eq!(pad("12345".to_string(), 3, Align::Right), "12345");
    assert_eq!(pad("12345".to_string(), 0, Align::Left), "12345");
}

#[test]
fn pad_counts_characters() {
    assert_eq!(pad("\u{e9}".to_string(), 3, Align::Right), "  \u{e9}");
}

#[test]
fn digits_are_the_decimal_digits() {
    assert_eq!(digit_char(0), '0');
    assert_eq!(digit_char(5), '5');
    assert_eq!(digit_char(9), '9');
}

#[test]
fn decimal_string_writes_numbers() {
    assert_eq!(decimal_string(0), "0");
    assert_eq!(decimal_string(7), "7");
    assert_eq!(decimal_string(10), "10");
    assert_eq!(decimal_string(12), "12");
    assert_eq!(decimal_string(1000), "1000");
    assert_eq!(decimal_string(90817), "90817");
    assert_eq!(decimal_string(usize::MAX), usize::MAX.to_string());
}

#[test]
fn push_decimal_appends() {
    let mut s = "n=".to_string();
    push_decimal(&mut s, 405);
    assert_eq!(s, "n=405");
}

#[test]
fn format_line_numbers_a_line() {
    assert_eq!(format_line(3, 2, "text"), " 3 | text");
    assert_eq!(format_line(12, 2, ""), "12 | ");
    assert_eq!(format_line(100, 1, "x | y"), "100 | x | y");
}

#[test]
fn chars_and_strings_convert_both_ways() {
    assert_eq!(chars_of("a\u{e9}\n"), vec!['a', '\u{e9}', '\n']);
    assert_eq!(chars_of(""), Vec::<char>::new());
    assert_eq!(string_of(&vec!['a', '\u{e9}', '\n']), "a\u{e9}\n");
    assert_eq!(string_of(&Vec::new()), "");
}

#[test]
fn insert_char_counts_characters() {
    assert_eq!(insert_char("\u{e9}b", 1, 'x'), "\u{e9}xb");
    assert_eq!(insert_char("ab", 0, 'x'), "xab");
    assert_eq!(insert_char("ab", 2, 'x'), "abx");
    assert_eq!(insert_char("", 0, '\n'), "\n");
}

#[test]
fn remove_char_counts_characters() {
    assert_eq!(remove_char("\u{e9}bc", 1), "\u{e9}c");
    assert_eq!(remove_char("abc", 0), "bc");
    assert_eq!(remove_char("abc", 2), "ab");
}
