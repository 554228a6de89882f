use red::code::Code;
use red::config::{Config, IndentConfig, LanguageConf};
use red::history::Operation;

fn python_config() -> Config {
    Config {
        theme: "themes/default.yml".to_string(),
        left_panel_width: Some(25),
        language: vec![
            LanguageConf {
                name: "rust".to_string(),
                types: vec![".rs".to_string()],
                comment: "//".to_string(),
                lsp: Some(vec!["rust-analyzer".to_string()]),
                indent: IndentConfig { width: 4, unit: " ".to_string() },
                executable: Some(true),
                exec_cmd: Some("cargo run".to_string()),
                exectest: Some("cargo test {test}".to_string()),
            },
            LanguageConf {
                name: "python".to_string(),
                types: vec![".py".to_string()],
                comment: "#".to_string(),
                lsp: Some(vec!["pyright-langserver".to_string(), "--stdio".to_string()]),
                indent: IndentConfig { width: 4, unit: " ".to_string() },
                executable: Some(true),
                exec_cmd: Some("python3 {file}".to_string()),
                exectest: Some("pytest {file}::{test}".to_string()),
            },
            LanguageConf {
                name: "go".to_string(),
                types: vec![".go".to_string()],
                comment: "//".to_string(),
                lsp: None,
                indent: IndentConfig { width: 1, unit: "\t".to_string() },
                executable: None,
                exec_cmd: None,
                exectest: None,
            },
        ],
    }
}

#[test]
fn test_code_undo() {
    let mut buffer = Code::new();

    buffer.insert_text("hello", 0, 0);
    buffer.insert_text(" world", 0, 5);

    println!("{}", buffer.text.to_string());
    println!("{:?}", buffer.undo_history);

    buffer.undo();

    println!("{}", buffer.text.to_string());
    println!("{:?}", buffer.undo_history);
    assert_eq!(buffer.text.to_string(), "hello");
    assert_eq!(buffer.undo_history.len(), 1);
    assert_eq!(buffer.redo_history.len(), 1);
}

#[test]
fn test_code_redo() {
    let mut buffer = Code::new();

    // Insert initial text
    buffer.insert_text("hello", 0, 0);
    buffer.insert_text(" world", 0, 5);
    assert_eq!(buffer.text.to_string(), "hello world");

    // Undo the last change
    buffer.undo();
    assert_eq!(buffer.text.to_string(), "hello");

    // Redo the change
    buffer.redo();
    assert_eq!(buffer.text.to_string(), "hello world");

    // Test multiple operations
    buffer.insert_text("!", 0, 11);
    assert_eq!(buffer.text.to_string(), "hello world!");

    // Undo multiple times
    buffer.undo();
    assert_eq!(buffer.text.to_string(), "hello world");
    buffer.undo();
    assert_eq!(buffer.text.to_string(), "hello");
    buffer.undo();
    assert_eq!(buffer.text.to_string(), "");

    // Redo multiple times
    buffer.redo();
    assert_eq!(buffer.text.to_string(), "hello");
    buffer.redo();
    assert_eq!(buffer.text.to_string(), "hello world");
    buffer.redo();
    assert_eq!(buffer.text.to_string(), "hello world!");
}

#[test]
fn test_code_move_line_down() {
    let mut buffer = Code::from_str("hello\nworld\na");

    println!("{}", buffer.text.to_string());
    println!("{:?}", buffer.undo_history);

    buffer.move_line_down(0);

    println!("\n-------move hello to world-------------");
    println!("{}", buffer.text.to_string());
    println!("{:?}", buffer.undo_history);

    assert_eq!(buffer.text.to_string(), "world\nhello\na");

    buffer.undo();

    println!("\n--------------------\n{}", buffer.text.to_string());
    println!("{:?}", buffer.undo_history);
    assert_eq!(buffer.text.to_string(), "hello\nworld\na");
}

#[test]
fn test_code_move_line_down_last_line() {
    let mut buffer = Code::from_str("1\n2\n3\n4");
    println!("{}", buffer.text.to_string());

    buffer.move_line_down(2);
    println!("\n-------move 3 to 4-------------");

    println!("{}", buffer.text.to_string());

    assert_eq!(buffer.text.to_string(), "1\n2\n4\n3");
}

#[test]
fn test_code_indentation_level() {
    let config = python_config();
    let mut code = Code::from_str("    print('hello')");
    code.set_lang("python".to_string(), &config);

    println!("{}", code.text.to_string());

    let il = code.indentation_level(0);
    println!("indentation_level on line is {il}");

    assert_eq!(il, 1);
}

#[test]
fn test_code_indentation_level_2() {
    let config = python_config();
    let mut code = Code::from_str("        print('hello')");
    code.set_lang("python".to_string(), &config);

    println!("{}", code.text.to_string());

    let il = code.indentation_level(0);
    println!("indentation_level on line is {il}");

    assert_eq!(il, 2);
}

#[test]
fn test_code_indentation_only() {
    let config = python_config();
    let mut code = Code::from_str("        print('hello')");
    code.set_lang("python".to_string(), &config);

    println!("{}", code.text.to_string());

    let il = code.is_only_indentation_before(0, 8);
    println!("indentation_level on line is {il}");

    assert_eq!(il, true);
}

#[test]
fn test_new_text_buffer_is_empty() {
    let text_buffer = Code::new();
    assert!(text_buffer.is_empty());
}

#[test]
fn test_new_text_buffer_is_zero_len() {
    let text_buffer = Code::new();
    assert_eq!(text_buffer.len_lines(), 1);
}

#[test]
fn test_insert_char() {
    let mut text_buffer = Code::new();
    text_buffer.insert_char('a', 0, 0);
    assert_eq!(text_buffer.len_lines(), 1);
    assert_eq!(text_buffer.line_len(0), 1);
}

#[test]
fn test_remove_char() {
    let mut text_buffer = Code::new();
    text_buffer.insert_char('a', 0, 0);
    text_buffer.remove_char(0, 1);
    assert_eq!(text_buffer.len_lines(), 1);
}

#[test]
fn insert_undo_redo_walk() {
    let mut code = Code::new();
    code.insert_text("hello", 0, 0);
    code.insert_text(" world", 0, 5);
    assert!(code.undo().is_some());
    assert_eq!(code.text.to_string(), "hello");
    assert!(code.undo().is_some());
    assert_eq!(code.text.to_string(), "");
    assert!(code.undo().is_none());
    assert!(code.redo().is_some());
    assert_eq!(code.text.to_string(), "hello");
    assert!(code.redo().is_some());
    assert_eq!(code.text.to_string(), "hello world");
    assert!(code.redo().is_none());
}

#[test]
fn undo_steps_equal_prefix_states() {
    let mut code = Code::new();
    let mut states = vec![code.text.to_string()];
    code.insert_text("ab\ncd", 0, 0);
    states.push(code.text.to_string());
    code.insert_text("XY", 1, 1);
    states.push(code.text.to_string());
    code.remove_text(0, 1, 1, 2);
    states.push(code.text.to_string());
    code.insert_char('\u{e9}', 0, 0);
    states.push(code.text.to_string());
    assert_eq!(states[3], "aYd");
    assert_eq!(states[4], "\u{e9}aYd");
    for k in (0..4).rev() {
        let changes = code.undo().unwrap();
        assert_eq!(changes.changes.len(), 1);
        assert_eq!(code.text.to_string(), states[k]);
    }
    assert!(code.undo().is_none());
    assert_eq!(code.text.to_string(), "");
    for k in 1..5 {
        code.redo().unwrap();
        assert_eq!(code.text.to_string(), states[k]);
    }
}

#[test]
fn edit_after_undo_empties_redo() {
    let mut code = Code::from_str("one");
    code.insert_text(" two", 0, 3);
    code.insert_text(" three", 0, 7);
    code.undo();
    code.undo();
    assert_eq!(code.redo_history.len(), 2);
    code.insert_char('!', 0, 3);
    assert_eq!(code.redo_history.len(), 0);
    assert!(code.redo().is_none());
    assert_eq!(code.text.to_string(), "one!");
}

#[test]
fn replace_is_undone_in_one_step() {
    let mut code = Code::from_str("let x = 1;\nlet y = 2;");
    code.replace_text(0, 4, 1, 5, "z");
    assert_eq!(code.text.to_string(), "let z = 2;");
    let ops: Vec<Operation> = code.undo_history.iter().map(|c| c.operation).collect();
    assert_eq!(
        ops,
        vec![
            Operation::Insert,
            Operation::Start,
            Operation::Remove,
            Operation::Insert,
            Operation::End
        ]
    );
    let undone = code.undo().unwrap();
    assert_eq!(undone.changes.len(), 2);
    assert_eq!(undone.changes[0].operation, Operation::Insert);
    assert_eq!(undone.changes[1].operation, Operation::Remove);
    assert_eq!(undone.changes[1].text, "x = 1;\nlet y");
    assert_eq!(code.text.to_string(), "let x = 1;\nlet y = 2;");
    assert_eq!(code.undo_history.len(), 1);
}

#[test]
fn unicode_insert_then_remove_restores_bytes() {
    let first_text = "fn main() {\n    // \u{4f60}\u{597d}\n}\n";
    let mut code = Code::from_str(first_text);
    let inserted = "\u{1f600} na\u{ef}ve \u{65e5}\u{672c}\u{8a9e}\r\n\tx";
    code.insert_text(inserted, 1, 4);
    assert_ne!(code.text.to_string(), first_text);
    let from = code.offset(1, 4);
    let (row, col) = code.point(from + inserted.chars().count());
    code.remove_text(1, 4, row, col);
    assert_eq!(code.text.to_string().as_bytes(), first_text.as_bytes());
}

#[test]
fn move_line_is_refused_at_the_end_and_in_short_texts() {
    let mut code = Code::from_str("1\n2\n3\n4");
    assert!(!code.move_line_down(3));
    assert!(!code.move_line_down(4));
    assert!(!code.move_line_down(usize::MAX));
    assert_eq!(code.text.to_string(), "1\n2\n3\n4");
    assert_eq!(code.undo_history.len(), 1);

    let mut short = Code::from_str("a\nb");
    assert!(!short.move_line_down(0));
    assert_eq!(short.text.to_string(), "a\nb");
    let mut one = Code::from_str("a");
    assert!(!one.move_line_down(0));
    let mut empty = Code::new();
    assert!(!empty.move_line_down(0));
    assert_eq!(empty.undo_history.len(), 0);
}

#[test]
fn move_line_then_undo_restores() {
    let mut code = Code::from_str("1\n2\n3\n4");
    assert!(code.move_line_down(2));
    assert_eq!(code.text.to_string(), "1\n2\n4\n3");
    code.undo();
    assert_eq!(code.text.to_string(), "1\n2\n3\n4");

    let mut with_newline = Code::from_str("alpha\nbeta\ngamma\n");
    assert!(with_newline.move_line_down(0));
    assert_eq!(with_newline.text.to_string(), "beta\nalpha\ngamma\n");
    assert!(with_newline.move_line_down(1));
    assert_eq!(with_newline.text.to_string(), "beta\ngamma\nalpha\n");
    with_newline.undo();
    with_newline.undo();
    assert_eq!(with_newline.text.to_string(), "alpha\nbeta\ngamma\n");
}

#[test]
fn search_finds_places_in_order() {
    let code = Code::from_str("// comment //");
    assert_eq!(code.search("//"), vec![(0, 0), (0, 11)]);
    let code = Code::from_str("aaa\nxaax\n\u{e9}aa");
    assert_eq!(code.search("aa"), vec![(0, 0), (1, 1), (2, 1)]);
    assert_eq!(code.search("zz"), Vec::<(usize, usize)>::new());
    assert_eq!(code.search("a\nx"), vec![(0, 2)]);
}

#[test]
fn lines_and_offsets() {
    let code = Code::from_str("ab\r\ncd\n\nef");
    assert_eq!(code.len_lines(), 4);
    assert_eq!(code.len_chars(), 10);
    assert_eq!(code.line_to_char(0), 0);
    assert_eq!(code.line_to_char(1), 4);
    assert_eq!(code.line_to_char(2), 7);
    assert_eq!(code.line_to_char(3), 8);
    assert_eq!(code.line_to_char(4), 10);
    assert_eq!(code.line_len(0), 3);
    assert_eq!(code.line_len(1), 2);
    assert_eq!(code.line_len(2), 0);
    assert_eq!(code.line_len(3), 2);
    assert_eq!(code.point(5), (1, 1));
    assert_eq!(code.point(3), (0, 3));
    assert_eq!(code.point(10), (3, 2));
    assert_eq!(code.offset(3, 1), 9);
    assert!(code.has_position(3, 2));
    assert!(!code.has_position(3, 3));
    assert!(code.has_position(4, 0));
    assert!(!code.has_position(5, 0));
    assert_eq!(code.char_slice(4, 6), "cd");
    assert_eq!(code.line_at(1), Some("cd\n"));
    let unicode = Code::from_str("\u{e9}\u{4f60}x");
    assert_eq!(unicode.char_to_byte(0), 0);
    assert_eq!(unicode.char_to_byte(1), 2);
    assert_eq!(unicode.char_to_byte(2), 5);
    assert_eq!(unicode.char_to_byte(3), 6);
}

#[test]
fn get_text_and_boundaries() {
    let mut code = Code::from_str("let foo_bar = 12;\nnext line\n");
    assert_eq!(code.get_text(0, 4, 0, 11), "foo_bar");
    assert_eq!(code.get_text(0, 14, 1, 4), "12;\nnext");
    assert_eq!(code.word_boundaries(6), (4, 11));
    assert_eq!(code.word_boundaries(3), (0, 3));
    assert_eq!(code.word_boundaries(13), (13, 13));
    assert_eq!(code.word_boundaries(0), (0, 3));
    assert_eq!(code.word_boundaries(500), (500, 500));
    assert_eq!(code.line_boundaries(20), (18, 28));
    assert_eq!(code.line_boundaries(0), (0, 18));
    assert_eq!(code.line_boundaries(28), (28, 28));
}

#[test]
fn indentation_of_lines() {
    let config = python_config();
    let mut code = Code::from_str("x\n  y\n     z\n\t\tq");
    assert_eq!(code.indentation_level(3), 2);
    assert_eq!(code.indentation_level(1), 0);
    code.set_lang("python".to_string(), &config);
    assert_eq!(code.indentation_level(0), 0);
    assert_eq!(code.indentation_level(1), 1);
    assert_eq!(code.indentation_level(2), 2);
    assert_eq!(code.indentation_level(3), 0);
    assert_eq!(code.indent_string(), Some("    ".to_string()));
    assert_eq!(code.indent_width(), Some(4));
    assert_eq!(code.indent_unit(), Some(&" ".to_string()));
    assert_eq!(code.get_lang_comment(), Some("#".to_string()));
    assert!(!code.is_only_indentation_before(1, 0));
    assert!(code.is_only_indentation_before(1, 2));
    assert!(!code.is_only_indentation_before(1, 3));
    assert!(!code.is_only_indentation_before(9, 1));
    assert_eq!(code.find_first_non_whitespace(2, 10), Some(5));
    assert_eq!(code.find_first_non_whitespace(2, 5), None);
    assert_eq!(code.find_first_non_whitespace(9, 5), None);
    code.set_lang("go".to_string(), &config);
    assert_eq!(code.indentation_level(3), 2);
    assert_eq!(code.indent_string(), Some("\t".to_string()));
    code.set_lang("cobol".to_string(), &config);
    assert!(code.get_lang_conf().is_none());
    assert_eq!(code.indent_string(), None);
}

#[test]
fn insert_tab_follows_the_language() {
    let config = python_config();
    let mut code = Code::from_str("x");
    assert_eq!(code.insert_tab(0, 0), "\t");
    assert_eq!(code.text.to_string(), "\tx");
    code.set_lang("python".to_string(), &config);
    assert_eq!(code.insert_tab(0, 2), "    ");
    assert_eq!(code.text.to_string(), "\tx    ");
    code.undo();
    code.undo();
    assert_eq!(code.text.to_string(), "x");
}

#[test]
fn find_substring_scans_once() {
    let config = python_config();
    let mut code = Code::from_str("a = 1 # note\n  # only\nnothing\naab");
    code.set_lang("python".to_string(), &config);
    assert_eq!(code.find_comment(0), Some(6));
    assert_eq!(code.find_comment(1), Some(2));
    assert_eq!(code.find_comment(2), None);
    assert_eq!(code.find_comment(7), None);
    assert_eq!(code.find_substring(0, "note"), Some(8));
    // the scan starts the pattern over behind a character that differs
    assert_eq!(code.find_substring(3, "ab"), None);
}

#[test]
fn reload_replaces_all_as_one_step() {
    let mut code = Code::from_str("old\ntext");
    code.reload("brand new");
    assert_eq!(code.text.to_string(), "brand new");
    code.undo();
    assert_eq!(code.text.to_string(), "old\ntext");
}

#[test]
fn cursor_and_saving() {
    let mut code = Code::new();
    assert_eq!(code.get_cursor_position(), (0, 0, 0, 0));
    code.set_cursor_position(3, 4, 1, 2);
    assert_eq!(code.get_cursor_position(), (3, 4, 1, 2));
    assert!(!code.save_file());
    code.insert_char('x', 0, 0);
    assert!(code.changed);
    assert!(code.save_file());
    assert!(!code.changed);
}

#[test]
fn a_replacement_is_redone_whole() {
    let mut code = Code::from_str("ab");
    code.replace_text(0, 0, 0, 1, "x");
    assert_eq!(code.text.to_string(), "xb");
    let stack_before = code.undo_history.len();

    let undone = code.undo().unwrap();
    assert_eq!(undone.changes.len(), 2);
    assert_eq!(code.text.to_string(), "ab");
    assert_eq!(code.redo_history.len(), 4);

    let redone = code.redo().unwrap();
    assert_eq!(redone.changes.len(), 2);
    assert_eq!(redone.changes[0].operation, Operation::Remove);
    assert_eq!(redone.changes[0].text, "a");
    assert_eq!(redone.changes[1].operation, Operation::Insert);
    assert_eq!(redone.changes[1].text, "x");
    assert_eq!(code.text.to_string(), "xb");
    assert_eq!(code.redo_history.len(), 0);
    assert_eq!(code.undo_history.len(), stack_before);

    assert!(code.redo().is_none());
    assert_eq!(code.text.to_string(), "xb");

    code.undo().unwrap();
    assert_eq!(code.text.to_string(), "ab");
}

#[test]
fn a_line_move_is_redone_whole() {
    let mut code = Code::from_str("1\n2\n3\n4");
    assert!(code.move_line_down(0));
    assert_eq!(code.text.to_string(), "2\n1\n3\n4");

    let undone = code.undo().unwrap();
    assert_eq!(undone.changes.len(), 4);
    assert_eq!(code.text.to_string(), "1\n2\n3\n4");

    let redone = code.redo().unwrap();
    assert_eq!(redone.changes.len(), 4);
    assert_eq!(code.text.to_string(), "2\n1\n3\n4");
    assert_eq!(code.redo_history.len(), 0);
    assert!(code.redo().is_none());
    assert_eq!(code.text.to_string(), "2\n1\n3\n4");
}

#[test]
fn undos_are_redone_step_by_step_with_groups_among_them() {
    let mut code = Code::new();
    code.insert_text("one\ntwo\nthree\n", 0, 0);
    code.replace_text(0, 0, 0, 3, "1");
    code.insert_char('!', 1, 3);
    assert!(code.move_line_down(0));
    code.remove_char(0, 4);
    let text = code.text.to_string();
    assert_eq!(text, "two\n1\nthree\n");
    let stack = code.undo_history.len();

    let mut seen = vec![text.clone()];
    for _ in 0..5 {
        assert!(code.undo().is_some());
        seen.push(code.text.to_string());
    }
    assert_eq!(seen[1], "two!\n1\nthree\n");
    assert_eq!(seen[2], "1\ntwo!\nthree\n");
    assert_eq!(seen[3], "1\ntwo\nthree\n");
    assert_eq!(seen[4], "one\ntwo\nthree\n");
    assert_eq!(seen[5], "");
    assert!(code.undo().is_none());

    for k in (0..5).rev() {
        assert!(code.redo().is_some());
        assert_eq!(code.text.to_string(), seen[k]);
    }
    assert_eq!(code.text.to_string().as_bytes(), text.as_bytes());
    assert_eq!(code.redo_history.len(), 0);
    assert_eq!(code.undo_history.len(), stack);
    assert!(code.redo().is_none());
    assert_eq!(code.text.to_string(), text);
}
