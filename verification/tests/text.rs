use envlock::text::{char_is_space, chars_of, string_of, trim_range};

#[test]
fn whitespace_is_what_unicode_says() {
    for code in 0u32..=0x10ffff {
        if let Some(c) = char::from_u32(code) {
            assert_eq!(char_is_space(c), c.is_whitespace());
        }
    }
}

#[test]
fn known_whitespace_and_its_neighbours() {
    for c in [' ', '\t', '\n', '\r', '\u{0b}', '\u{0c}', '\u{85}', '\u{a0}', '\u{1680}',
        '\u{2000}', '\u{200a}', '\u{2028}', '\u{2029}', '\u{202f}', '\u{205f}', '\u{3000}']
    {
        assert!(char_is_space(c));
    }
    for c in ['a', '=', '#', '\u{08}', '\u{0e}', '\u{1f}', '\u{84}', '\u{86}', '\u{180e}',
        '\u{1fff}', '\u{200b}', '\u{feff}', '\u{3001}']
    {
        assert!(!char_is_space(c));
    }
}

#[test]
fn characters_of_a_string() {
    assert_eq!(chars_of(""), Vec::<char>::new());
    assert_eq!(chars_of("a=1"), vec!['a', '=', '1']);
    assert_eq!(chars_of("é日😀"), vec!['é', '日', '😀']);
}

#[test]
fn string_of_a_range_of_characters() {
    let chars = vec!['k', 'e', 'y', '=', 'v', 'ä', 'l'];
    assert_eq!(string_of(&chars, 0, 3), "key");
    assert_eq!(string_of(&chars, 4, 7), "väl");
    assert_eq!(string_of(&chars, 3, 3), "");
    assert_eq!(string_of(&chars, 0, 7), "key=väl");
}

#[test]
fn trimming_a_range() {
    let chars: Vec<char> = "  a b \t".chars().collect();
    assert_eq!(trim_range(&chars, 0, chars.len()), (2, 5));
    assert_eq!(trim_range(&chars, 2, 5), (2, 5));
    assert_eq!(trim_range(&chars, 3, 4), (4, 4));
    assert_eq!(trim_range(&chars, 0, 2), (2, 2));
    assert_eq!(trim_range(&chars, 5, 7), (7, 7));
    assert_eq!(trim_range(&chars, 0, 0), (0, 0));
}

#[test]
fn trimming_agrees_with_the_standard_library() {
    for text in ["", " ", "a", " a", "a ", "  a  b  ", "\u{a0}x\u{3000}", "\t\r\n", "x\u{200b} "] {
        let chars: Vec<char> = text.chars().collect();
        let (lo, hi) = trim_range(&chars, 0, chars.len());
        assert_eq!(string_of(&chars, lo, hi), text.trim());
    }
}
