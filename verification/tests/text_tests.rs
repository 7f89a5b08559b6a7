use lox::text::chars_of;
use lox::text::push_decimal;
use lox::text::push_left_aligned;
use lox::text::push_padded;
use lox::text::push_repeated;
use lox::text::push_text;
use lox::text::string_of;

#[test]
fn characters_of_a_string() {
    assert_eq!(chars_of(""), Vec::<char>::new());
    assert_eq!(chars_of("ab\u{e9}\n"), vec!['a', 'b', '\u{e9}', '\n']);
}

#[test]
fn string_of_a_range_of_characters() {
    let chars = chars_of("hello");
    assert_eq!(string_of(&chars, 0, 5), "hello");
    assert_eq!(string_of(&chars, 1, 4), "ell");
    assert_eq!(string_of(&chars, 2, 2), "");
}

#[test]
fn decimal_numerals() {
    for (n, text) in [(0usize, "0"), (7, "7"), (10, "10"), (255, "255"), (65536, "65536")] {
        let mut s = String::from("n=");
        push_decimal(&mut s, n);
        assert_eq!(s, format!("n={}", text));
    }
    let mut s = String::new();
    push_decimal(&mut s, usize::MAX);
    assert_eq!(s, usize::MAX.to_string());
}

#[test]
fn padded_numerals_and_names() {
    let mut s = String::new();
    push_padded(&mut s, 7, 4, '0');
    push_text(&mut s, " ");
    push_padded(&mut s, 12345, 4, '0');
    push_text(&mut s, " ");
    push_padded(&mut s, 42, 4, ' ');
    assert_eq!(s, "0007 12345   42");
    let mut s = String::new();
    push_left_aligned(&mut s, "OP", 5);
    push_text(&mut s, "|");
    push_left_aligned(&mut s, "OP_LONGER", 5);
    push_text(&mut s, "|");
    push_repeated(&mut s, '-', 3);
    push_repeated(&mut s, '-', 0);
    assert_eq!(s, "OP   |OP_LONGER|---");
}
