use red::screen::Color;
use red::utils::{
    file_name_of, find_next_word, find_prev_word, get_file_name, hex_to_color, hex_to_rgb,
    is_hex_color, is_ignored_dir, is_ignored_ext, is_ignored_file, pad_left, score_matches,
    ClickType, CursorHistory, CursorPosition,
};

#[test]
fn hex_colours() {
    assert_eq!(hex_to_rgb("#1a2B3c"), (0x1a, 0x2b, 0x3c));
    assert_eq!(hex_to_rgb("ff0080"), (255, 0, 128));
    assert_eq!(hex_to_rgb("##000000"), (0, 0, 0));
    // what is no hexadecimal number counts as 0
    assert_eq!(hex_to_rgb("#zz10+f"), (0, 0x10, 0x0f));
    assert_eq!(hex_to_rgb("#-1ffffrest"), (0, 255, 255));
    assert_eq!(hex_to_color("#102030"), Color::Rgb { r: 16, g: 32, b: 48 });
    assert!(is_hex_color("#102030"));
    assert!(is_hex_color("102030ff"));
    assert!(!is_hex_color("#10203"));
    assert!(!is_hex_color(""));
    assert!(!is_hex_color("#"));
    // a pair may not cut a character in two
    assert!(!is_hex_color("#1\u{e9}2030"));
    assert!(is_hex_color("#\u{e9}2030aa"));
    assert_eq!(hex_to_rgb("#\u{e9}2030aa"), (0, 0x20, 0x30));
}

#[test]
fn file_names() {
    assert_eq!(get_file_name("/home/user/main.rs"), "main.rs");
    assert_eq!(get_file_name("main.rs"), "main.rs");
    assert_eq!(get_file_name("dir/sub/"), "sub");
    assert_eq!(file_name_of("/a/b.txt"), Some("b.txt".to_string()));
    assert_eq!(file_name_of("/"), None);
    assert_eq!(file_name_of("a/.."), None);
}

#[test]
fn scores() {
    assert_eq!(score_matches("range", "range"), 1010);
    assert_eq!(score_matches("rangefinder", "range"), 1010);
    assert_eq!(score_matches("randint", "range"), 0);
    assert_eq!(score_matches("raise", "range"), 0);
    assert_eq!(score_matches("arrange", "range"), 510);
    assert_eq!(score_matches("a long arrange", "range"), 10);
    assert_eq!(score_matches("aaaa", "aa"), 1020);
    assert_eq!(score_matches("xaaaa", "aa"), 520);
    assert_eq!(score_matches("abc", ""), 1040);
    assert_eq!(score_matches("", ""), 1010);
    assert_eq!(score_matches("", "x"), 0);
    assert_eq!(score_matches("\u{e9}t\u{e9}", "t"), 510);
}

#[test]
fn word_motion() {
    assert_eq!(find_next_word("hello world", 0), 5);
    assert_eq!(find_next_word("hello world", 6), 10);
    assert_eq!(find_next_word("hello world", 5), 5);
    assert_eq!(find_next_word("a.b", 1), 1);
    assert_eq!(find_next_word("abc", 10), 2);
    assert_eq!(find_prev_word("hello world", 11), 6);
    assert_eq!(find_prev_word("hello world", 5), 0);
    assert_eq!(find_prev_word("hello world", 6), 6);
    assert_eq!(find_prev_word("hello world", 0), 0);
    assert_eq!(find_prev_word("hello world", 50), 0);
    assert_eq!(find_prev_word("f(x", 3), 2);
    assert_eq!(find_prev_word("", 3), 0);
}

#[test]
fn padding() {
    assert_eq!(pad_left("ab", 5), "ab   ");
    assert_eq!(pad_left("abcdef", 3), "abcdef");
    assert_eq!(pad_left("", 2), "  ");
    assert_eq!(pad_left("\u{e9}\u{e9}", 3), "\u{e9}\u{e9} ");
    assert_eq!(pad_left("x", 0), "x");
}

#[test]
fn ignored_names() {
    assert!(is_ignored_dir(".git"));
    assert!(is_ignored_dir("node_modules"));
    assert!(is_ignored_dir("venv"));
    assert!(!is_ignored_dir("src"));
    assert!(is_ignored_file(".DS_Store"));
    assert!(!is_ignored_file("main.rs"));
    assert!(is_ignored_ext("png"));
    assert!(is_ignored_ext("tar.gz"));
    assert!(is_ignored_ext("otf"));
    assert!(!is_ignored_ext("rs"));
}

fn place(file: &str, row: usize, col: usize) -> CursorPosition {
    CursorPosition { filename: file.to_string(), row, col, y: 0, x: 0 }
}

#[test]
fn cursor_history_walks_back_and_forth() {
    let mut history = CursorHistory::new();
    assert!(history.current().is_none());
    assert!(history.undo().is_none());
    assert!(history.redo().is_none());
    assert!(history.peek_redo().is_none());

    history.push(place("a.rs", 1, 1));
    history.push(place("a.rs", 2, 2));
    // the place that was pushed last is not pushed again
    history.push(CursorPosition { filename: "a.rs".to_string(), row: 2, col: 2, y: 9, x: 9 });
    history.push(place("b.rs", 2, 2));
    assert_eq!(history.current().unwrap().filename, "b.rs");

    let back = history.undo().unwrap();
    assert_eq!((back.filename.as_str(), back.row), ("b.rs", 2));
    let back = history.undo().unwrap();
    assert_eq!((back.filename.as_str(), back.row, back.y), ("a.rs", 2, 0));
    assert_eq!(history.peek_redo().unwrap().row, 2);
    assert_eq!(history.current().unwrap().row, 1);
    let forth = history.redo().unwrap();
    assert_eq!(forth.row, 2);

    // a new place drops what going back has left
    history.push(place("c.rs", 7, 7));
    assert!(history.redo().is_none());
    assert_eq!(history.undo().unwrap().filename, "c.rs");
    assert_eq!(history.undo().unwrap().row, 2);
    assert_eq!(history.undo().unwrap().row, 1);
    assert!(history.undo().is_none());
}

#[test]
fn cursor_history_is_bounded() {
    let mut history = CursorHistory::new();
    for i in 0..10_005 {
        history.push(place("f", i, 0));
    }
    let mut count = 0;
    let mut last = None;
    while let Some(p) = history.undo() {
        count += 1;
        last = Some(p.row);
    }
    assert_eq!(count, 10_000);
    assert_eq!(last, Some(5));
}

#[test]
fn click_kinds() {
    assert_eq!(ClickType::from_click_history(1000, 5, None, None), ClickType::Single);
    assert_eq!(ClickType::from_click_history(1000, 5, Some((400, 5)), None), ClickType::Double);
    assert_eq!(ClickType::from_click_history(1000, 5, Some((300, 5)), None), ClickType::Single);
    assert_eq!(ClickType::from_click_history(1000, 5, Some((301, 5)), None), ClickType::Double);
    assert_eq!(ClickType::from_click_history(1000, 5, Some((400, 6)), None), ClickType::Single);
    assert_eq!(
        ClickType::from_click_history(1000, 5, Some((700, 5)), Some((400, 5))),
        ClickType::Triple
    );
    assert_eq!(
        ClickType::from_click_history(1000, 5, Some((700, 5)), Some((300, 5))),
        ClickType::Double
    );
    assert_eq!(
        ClickType::from_click_history(1000, 5, Some((700, 5)), Some((400, 4))),
        ClickType::Double
    );
    // a clock that went back counts as no time
    assert_eq!(ClickType::from_click_history(100, 5, Some((400, 5)), None), ClickType::Double);
}
