use theme_css::names::{
    is_alphanumeric_char, is_lowercase_char, is_uppercase_char, lowercase_of,
    pop_trailing_separators, push_collapsed, push_piece, to_ascii_lower, to_snake_case,
};

fn has_doubled_separator(s: &str) -> bool {
    s.contains("__")
}

#[test]
fn camel_case_words_are_split() {
    assert_eq!(to_snake_case("fooBar"), "foo_bar");
    assert_eq!(to_snake_case("backgroundColorActive"), "background_color_active");
}

#[test]
fn capitals_in_a_row_stay_together() {
    assert_eq!(to_snake_case("FOO"), "foo");
    assert_eq!(to_snake_case("HTMLParser"), "htmlparser");
}

#[test]
fn empty_input_gives_empty_output() {
    assert_eq!(to_snake_case(""), "");
}

#[test]
fn spaces_and_punctuation_become_separators() {
    assert_eq!(to_snake_case("Night Owl"), "night_owl");
    assert_eq!(to_snake_case("border.variant"), "border_variant");
    assert_eq!(to_snake_case("text-accent"), "text_accent");
}

#[test]
fn extension_names_are_normalized() {
    assert_eq!(to_snake_case("MyExt"), "my_ext");
}

#[test]
fn consecutive_separators_are_collapsed() {
    let out = to_snake_case("foo   bar--baz");
    assert!(!has_doubled_separator(&out));
    assert_eq!(out, "foo_bar_baz");
}

#[test]
fn separator_runs_of_mixed_characters_are_collapsed() {
    assert_eq!(to_snake_case("a _-_ b"), "a_b");
    assert_eq!(to_snake_case("a__b"), "a_b");
    assert_eq!(to_snake_case("one, two;  three"), "one_two_three");
}

#[test]
fn trailing_separators_are_stripped() {
    assert_eq!(to_snake_case("foo--"), "foo");
    assert_eq!(to_snake_case("foo_"), "foo");
    assert_eq!(to_snake_case("foo !?"), "foo");
}

#[test]
fn only_separators_give_empty_output() {
    assert_eq!(to_snake_case("---"), "");
    assert_eq!(to_snake_case(" "), "");
}

#[test]
fn leading_separators_are_kept_once() {
    assert_eq!(to_snake_case(" foo"), "_foo");
    assert_eq!(to_snake_case("--foo"), "_foo");
}

#[test]
fn digits_are_kept_and_open_no_word() {
    assert_eq!(to_snake_case("color2"), "color2");
    assert_eq!(to_snake_case("a1B2"), "a1b2");
    assert_eq!(to_snake_case("2Fast"), "2fast");
}

#[test]
fn capital_after_separator_opens_no_second_separator() {
    assert_eq!(to_snake_case("foo_Bar"), "foo_bar");
    assert_eq!(to_snake_case("foo Bar"), "foo_bar");
}

#[test]
fn first_capital_gets_no_separator() {
    assert_eq!(to_snake_case("Foo"), "foo");
    assert_eq!(to_snake_case("FooBar"), "foo_bar");
}

#[test]
fn letters_beyond_ascii_follow_unicode_case() {
    assert_eq!(to_snake_case("éÉ"), "é_é");
    assert_eq!(to_snake_case("ΑΒΓ"), "αβγ");
    assert_eq!(to_snake_case("straße"), "straße");
}

#[test]
fn normalizing_twice_changes_nothing_more() {
    let inputs = [
        "",
        "fooBar",
        "FOO",
        "Night Owl",
        "foo   bar--baz",
        " leading",
        "trailing  ",
        "MyExt",
        "a1B2",
        "player_1_cursor",
        "éÉ",
        "syntax.keyword",
    ];
    for input in inputs {
        let once = to_snake_case(input);
        let twice = to_snake_case(&once);
        assert_eq!(twice, once, "input {:?}", input);
    }
}

#[test]
fn lowercase_form_with_a_mark_is_rewritten_by_a_second_pass() {
    // The lowercase form of U+0130 ends in a combining mark, which is no letter.
    let once = to_snake_case("\u{130}");
    assert_eq!(once, "i\u{307}");
    assert_eq!(to_snake_case(&once), "i");
}

#[test]
fn capital_without_lowercase_form_gets_a_separator_on_a_second_pass() {
    // U+2102 is uppercase and has no lowercase form of its own.
    let once = to_snake_case("A\u{2102}");
    assert_eq!(once, "a\u{2102}");
    assert_eq!(to_snake_case(&once), "a_\u{2102}");
}

#[test]
fn output_never_has_doubled_or_trailing_separator() {
    let inputs = ["a  b", "a-_-b", "__", "x__", "__x", "aB__Cd", "a_ B", "1 - 2"];
    for input in inputs {
        let out = to_snake_case(input);
        assert!(!has_doubled_separator(&out), "input {:?}", input);
        assert!(!out.ends_with('_'), "input {:?}", input);
    }
}

#[test]
fn ascii_capitals_are_lowered() {
    assert_eq!(to_ascii_lower('A'), 'a');
    assert_eq!(to_ascii_lower('Z'), 'z');
    assert_eq!(to_ascii_lower('m'), 'm');
    assert_eq!(to_ascii_lower('5'), '5');
    assert_eq!(to_ascii_lower('É'), 'É');
    assert_eq!(to_ascii_lower('@'), '@');
    assert_eq!(to_ascii_lower('['), '[');
}

#[test]
fn push_collapsed_skips_a_second_separator() {
    let mut out = vec!['a', '_'];
    push_collapsed(&mut out, '_');
    assert_eq!(out, vec!['a', '_']);
    push_collapsed(&mut out, 'b');
    assert_eq!(out, vec!['a', '_', 'b']);
    push_collapsed(&mut out, '_');
    assert_eq!(out, vec!['a', '_', 'b', '_']);
    let mut empty: Vec<char> = Vec::new();
    push_collapsed(&mut empty, '_');
    assert_eq!(empty, vec!['_']);
}

#[test]
fn push_piece_follows_the_character_classes() {
    let mut out = vec!['f', 'o', 'o'];
    push_piece(&mut out, 'B', true, true, &vec!['b'], true);
    assert_eq!(out, vec!['f', 'o', 'o', '_', 'b']);
    push_piece(&mut out, 'C', true, true, &vec!['c'], false);
    assert_eq!(out, vec!['f', 'o', 'o', '_', 'b', 'c']);
    push_piece(&mut out, 'Q', false, true, &vec![], false);
    assert_eq!(out, vec!['f', 'o', 'o', '_', 'b', 'c', 'q']);
    push_piece(&mut out, '-', false, false, &vec![], true);
    push_piece(&mut out, ' ', false, false, &vec![], false);
    assert_eq!(out, vec!['f', 'o', 'o', '_', 'b', 'c', 'q', '_']);
    push_piece(&mut out, 'X', true, true, &vec!['x', 'y'], true);
    assert_eq!(out, vec!['f', 'o', 'o', '_', 'b', 'c', 'q', '_', 'x', 'y']);
}

#[test]
fn pop_trailing_separators_drops_them_all() {
    let mut out = vec!['a', '_', '_', '_'];
    pop_trailing_separators(&mut out);
    assert_eq!(out, vec!['a']);
    let mut only = vec!['_', '_'];
    pop_trailing_separators(&mut only);
    assert!(only.is_empty());
    let mut inner = vec!['a', '_', 'b'];
    pop_trailing_separators(&mut inner);
    assert_eq!(inner, vec!['a', '_', 'b']);
}

#[test]
fn ascii_classes_are_those_of_the_ranges() {
    for c in ['A', 'M', 'Z'] {
        assert!(is_uppercase_char(c) && !is_lowercase_char(c) && is_alphanumeric_char(c));
        assert_eq!(lowercase_of(c), vec![c.to_ascii_lowercase()]);
    }
    for c in ['a', 'm', 'z'] {
        assert!(!is_uppercase_char(c) && is_lowercase_char(c) && is_alphanumeric_char(c));
        assert_eq!(lowercase_of(c), vec![c]);
    }
    for c in ['0', '5', '9'] {
        assert!(!is_uppercase_char(c) && !is_lowercase_char(c) && is_alphanumeric_char(c));
    }
    for c in ['_', ' ', '-', '@', '[', '`', '{', '/', ':', '\0', '\u{7f}'] {
        assert!(!is_uppercase_char(c) && !is_lowercase_char(c) && !is_alphanumeric_char(c));
    }
}

#[test]
fn classes_agree_with_the_standard_library_on_every_character() {
    for code in 0..=0x10ffff_u32 {
        if let Some(c) = char::from_u32(code) {
            assert_eq!(is_uppercase_char(c), c.is_uppercase(), "U+{:04X}", code);
            assert_eq!(is_lowercase_char(c), c.is_lowercase(), "U+{:04X}", code);
            assert_eq!(is_alphanumeric_char(c), c.is_alphanumeric(), "U+{:04X}", code);
        }
    }
}

#[test]
fn lowercase_forms_agree_with_the_standard_library_on_every_character() {
    for code in 0..=0x10ffff_u32 {
        if let Some(c) = char::from_u32(code) {
            let expected: Vec<char> = c.to_lowercase().collect();
            assert_eq!(lowercase_of(c), expected, "U+{:04X}", code);
        }
    }
}

#[test]
fn lowercase_form_may_hold_several_characters() {
    assert_eq!(lowercase_of('\u{130}'), vec!['i', '\u{307}']);
    assert_eq!(lowercase_of('É'), vec!['é']);
    assert_eq!(lowercase_of('ß'), vec!['ß']);
}

#[test]
fn normalizing_twice_changes_nothing_more_on_ascii() {
    let alphabet = ['a', 'Z', '0', '_', ' ', '-', 'b', 'Q'];
    let mut inputs = vec![String::new()];
    for _ in 0..4 {
        let mut longer = Vec::new();
        for input in &inputs {
            for c in alphabet {
                let mut next = input.clone();
                next.push(c);
                longer.push(next);
            }
        }
        for input in &longer {
            let once = to_snake_case(input);
            assert_eq!(to_snake_case(&once), once, "input {:?}", input);
            assert!(!once.contains("__"), "input {:?}", input);
            assert!(!once.ends_with('_'), "input {:?}", input);
        }
        inputs = longer;
    }
}
