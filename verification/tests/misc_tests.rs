use red::chars::{same_text, text_less, word_char};
use red::utils::pad_left;

#[test]
fn test_colored_output() {
    let (r, g, b) = (100, 200, 200);
    let line = "hello colored world";
    println!("\u{1b}[38;2;{r};{g};{b}m{line} \u{1b}[0m", r = r, g = g, b = b, line = line);
    assert_eq!(pad_left(line, 4), line);
}

#[test]
fn texts_are_compared_as_strings_are() {
    let words = ["", "a", "ab", "b", "B", "\u{e9}", "e\u{301}", "z", "\u{4f60}", "ab\0", "abc"];
    for a in words {
        for b in words {
            assert_eq!(same_text(a, b), a == b, "{:?} == {:?}", a, b);
            assert_eq!(text_less(a, b), a < b, "{:?} < {:?}", a, b);
        }
    }
    assert!(text_less("a", "b"));
    assert!(!text_less("b", "a"));
    assert!(text_less("", "a"));
    assert!(!text_less("a", "a"));
    assert!(text_less("ab", "abc"));
}

#[test]
fn ascii_characters_have_their_classes() {
    for c in ['a', 'z', 'A', 'Z', '0', '9', '_'] {
        assert!(word_char(c));
    }
    for c in [' ', '\t', '\n', '-', '.', '(', '\u{7f}', '\0'] {
        assert!(!word_char(c));
    }
    assert!(word_char('\u{e9}'));
    for code in 0u32..128 {
        let c = char::from_u32(code).unwrap();
        assert_eq!(c.is_whitespace(), c == ' ' || (0x09..=0x0d).contains(&code));
        assert_eq!(c.is_alphanumeric(), c.is_ascii_alphanumeric());
        assert_eq!(c.is_control(), code < 0x20 || code == 0x7f);
    }
}
