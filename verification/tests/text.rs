use mini_lust::text::{
    chars_of, decimal, find_char, find_line_end, find_pair, skip_blanks, spells, starts_with_at,
    string_of, tag_at, unsigned_decimal,
};

#[test]
fn decimal_text_of_numbers() {
    assert_eq!(decimal(0), "0");
    assert_eq!(decimal(7), "7");
    assert_eq!(decimal(10), "10");
    assert_eq!(decimal(-1), "-1");
    assert_eq!(decimal(32767), "32767");
    assert_eq!(decimal(-32768), "-32768");
    assert_eq!(decimal(i64::MAX), "9223372036854775807");
    assert_eq!(decimal(i64::MIN), "-9223372036854775808");
    assert_eq!(unsigned_decimal(0), "0");
    assert_eq!(unsigned_decimal(16777217), "16777217");
    assert_eq!(unsigned_decimal(u64::MAX), "18446744073709551615");
}

#[test]
fn decimal_text_agrees_with_the_standard_library() {
    let mut n: i64 = -5000;
    while n <= 5000 {
        assert_eq!(decimal(n), n.to_string());
        n += 1;
    }
}

#[test]
fn words_are_found_where_they_stand() {
    let chars = chars_of("  list<i32> // end\nnext");
    assert_eq!(skip_blanks(&chars, 0), 2);
    assert!(starts_with_at(&chars, 2, "list"));
    assert!(!starts_with_at(&chars, 3, "list"));
    assert_eq!(tag_at(&chars, 2, "list"), Some(6));
    assert_eq!(tag_at(&chars, 2, "map"), None);
    assert!(spells(&chars, 7, 10, "i32"));
    assert!(!spells(&chars, 7, 10, "i64"));
    assert_eq!(string_of(&chars, 2, 6), "list");
    assert_eq!(find_char(&chars, '>', 0), Some(10));
    assert_eq!(find_char(&chars, '#', 0), None);
    assert_eq!(find_pair(&chars, '/', '/', 0), Some(12));
    assert_eq!(find_line_end(&chars, 12), 18);
}

#[test]
fn positions_past_the_end_find_nothing() {
    let chars = chars_of("ab c");
    assert_eq!(skip_blanks(&chars, 9), 9);
    assert_eq!(find_line_end(&chars, 9), 9);
    assert_eq!(find_line_end(&chars, 4), 4);
    assert_eq!(find_char(&chars, 'a', 9), None);
    assert_eq!(find_pair(&chars, 'a', 'b', 9), None);
    assert_eq!(tag_at(&chars, 9, "a"), None);
    assert!(!starts_with_at(&chars, 9, ""));
    // what is no stretch of the text spells nothing
    assert_eq!(string_of(&chars, 3, 2), "");
    assert_eq!(string_of(&chars, 2, 9), "");
    assert_eq!(string_of(&chars, 4, 4), "");
    assert!(!spells(&chars, 3, 2, ""));
    assert!(!spells(&chars, 2, 9, "c"));
    assert!(spells(&chars, 4, 4, ""));
}
