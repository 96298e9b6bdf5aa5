use theme_css::text::{push_decimal, string_from_chars};

#[test]
fn decimal_digits_are_appended() {
    let mut s = String::from("n=");
    push_decimal(&mut s, 0);
    assert_eq!(s, "n=0");
    push_decimal(&mut s, 7);
    push_decimal(&mut s, 10);
    push_decimal(&mut s, 4096);
    assert_eq!(s, "n=07104096");
    let mut max = String::new();
    push_decimal(&mut max, usize::MAX);
    assert_eq!(max, usize::MAX.to_string());
}

#[test]
fn string_from_chars_keeps_every_character() {
    assert_eq!(string_from_chars(&vec!['a', 'é', '_', '1']), "aé_1");
    assert_eq!(string_from_chars(&vec![]), "");
}
