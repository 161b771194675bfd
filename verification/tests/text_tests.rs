use termslides::text::{dec_chars, header_from_stem, str_chars, two_digit_chars};

#[test]
fn decimal_digits_render_most_significant_first() {
    assert_eq!(dec_chars(0), vec!['0']);
    assert_eq!(dec_chars(7), vec!['7']);
    assert_eq!(dec_chars(42), vec!['4', '2']);
    assert_eq!(dec_chars(1000), vec!['1', '0', '0', '0']);
    assert_eq!(
        dec_chars(65535),
        vec!['6', '5', '5', '3', '5']
    );
}

#[test]
fn seconds_always_take_two_digits() {
    assert_eq!(two_digit_chars(0), vec!['0', '0']);
    assert_eq!(two_digit_chars(5), vec!['0', '5']);
    assert_eq!(two_digit_chars(59), vec!['5', '9']);
}

#[test]
fn header_writes_underscores_as_spaces() {
    assert_eq!(header_from_stem("The_End"), "The End");
    assert_eq!(header_from_stem("TODO"), "TODO");
    assert_eq!(header_from_stem("a_b_c"), "a b c");
    assert_eq!(header_from_stem(""), "");
}

#[test]
fn str_chars_lists_every_character() {
    assert_eq!(str_chars("abc"), vec!['a', 'b', 'c']);
    assert_eq!(str_chars(""), Vec::<char>::new());
}
