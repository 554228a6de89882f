use red::code::Code;
use red::config::{Config, IndentConfig, LanguageConf};
use red::controller::{DrawPlan, Jump, KeyOutcome, SearchStep};
use red::editing::Deletion;
use red::editor::{Diagnostic, Editor, LspChange, Severity};
use red::keys::{
    is_quit_event, route_key, route_panel_key, Command, Direction, Key, Modifiers, PanelCommand,
};
use red::mouse::{drag_width, MouseEvent, MouseKind, MouseOutcome};
use red::popup::{
    completion_step, errors_step, hover_lines, list_step, popup_place, CompletionStep, ListPopup,
    ListStep,
};
use red::screen::Color;

const NONE: Modifiers = Modifiers { control: false, alt: false, shift: false, other: false };
const CTRL: Modifiers = Modifiers { control: true, alt: false, shift: false, other: false };
const ALT: Modifiers = Modifiers { control: false, alt: true, shift: false, other: false };
const SHIFT: Modifiers = Modifiers { control: false, alt: false, shift: true, other: false };
const CTRL_SHIFT: Modifiers = Modifiers { control: true, alt: false, shift: true, other: false };

fn config() -> Config {
    Config {
        theme: "theme.yml".to_string(),
        left_panel_width: None,
        language: vec![
            LanguageConf {
                name: "python".to_string(),
                types: vec![".py".to_string()],
                comment: "#".to_string(),
                lsp: Some(vec!["pyright-langserver".to_string(), "--stdio".to_string()]),
                indent: IndentConfig { width: 4, unit: " ".to_string() },
                executable: Some(true),
                exec_cmd: Some("python3 {file}".to_string()),
                exectest: None,
            },
            LanguageConf {
                name: "make".to_string(),
                types: vec!["Makefile".to_string()],
                comment: "#".to_string(),
                lsp: None,
                indent: IndentConfig { width: 1, unit: "\t".to_string() },
                executable: None,
                exec_cmd: None,
                exectest: None,
            },
        ],
    }
}

fn editor_with(text: &str, lang: &str) -> Editor {
    let conf = config();
    let grammars = vec![red::syntax::Grammar {
        name: "python".to_string(),
        language: tree_sitter_python::LANGUAGE.into(),
        highlights: None,
        tests: None,
    }];
    let code = Code::from_file(
        text,
        "file.py".to_string(),
        "/work/file.py".to_string(),
        lang.to_string(),
        &conf,
        &grammars,
    )
    .unwrap();
    let mut editor = Editor::new(conf);
    editor.resize(80, 24);
    editor.load_file(code);
    editor
}

fn text_of(editor: &Editor) -> String {
    editor.code.text.to_string()
}

fn change(c: &LspChange) -> (usize, usize, usize, usize, &str) {
    (c.start_line, c.start_column, c.end_line, c.end_column, c.text.as_str())
}

#[test]
fn backspace_in_indentation_removes_the_indent() {
    let mut editor = editor_with("    print('hi')", "python");
    editor.r = 0;
    editor.c = 4;
    assert_eq!(editor.plan_delete(), Deletion::Indent { from: 0 });
    let changes = editor.handle_delete();
    assert_eq!(text_of(&editor), "print('hi')");
    assert_eq!((editor.r, editor.c), (0, 0));
    assert_eq!(changes.len(), 1);
    assert_eq!(change(&changes[0]), (0, 0, 0, 4, ""));

    let mut deeper = editor_with("        x", "python");
    deeper.c = 8;
    deeper.handle_delete();
    assert_eq!(text_of(&deeper), "    x");
    assert_eq!(deeper.c, 4);

    let mut tabs = editor_with("\t\tx", "make");
    tabs.c = 2;
    assert_eq!(tabs.plan_delete(), Deletion::Indent { from: 1 });
    tabs.handle_delete();
    assert_eq!(text_of(&tabs), "\tx");
}

#[test]
fn backspace_removes_characters_and_line_breaks() {
    let mut editor = editor_with("ab\ncd", "python");
    editor.r = 1;
    editor.c = 1;
    assert_eq!(editor.plan_delete(), Deletion::Char);
    let changes = editor.handle_delete();
    assert_eq!(text_of(&editor), "ab\nd");
    assert_eq!(change(&changes[0]), (1, 0, 1, 1, ""));
    assert_eq!((editor.r, editor.c), (1, 0));
    assert_eq!(editor.plan_delete(), Deletion::LineBreak { column: 2 });
    let changes = editor.handle_delete();
    assert_eq!(text_of(&editor), "abd");
    assert_eq!(change(&changes[0]), (0, 2, 1, 0, ""));
    assert_eq!((editor.r, editor.c), (0, 2));
    editor.c = 0;
    assert_eq!(editor.plan_delete(), Deletion::Nothing);
    assert!(editor.handle_delete().is_empty());
    editor.c = 99;
    assert_eq!(editor.plan_delete(), Deletion::Nothing);
    assert!(editor.handle_delete().is_empty());
    assert_eq!(text_of(&editor), "abd");

    editor.selection.set_start(0, 1);
    editor.selection.set_end(0, 3);
    editor.selection.activate();
    assert_eq!(editor.plan_delete(), Deletion::Selection);
    editor.handle_delete();
    assert_eq!(text_of(&editor), "a");
}

#[test]
fn typing_tells_the_language_server() {
    let mut editor = editor_with("", "python");
    let changes = editor.insert_char('x');
    assert_eq!(change(&changes[0]), (0, 0, 0, 0, "x"));
    assert_eq!((editor.r, editor.c), (0, 1));
    assert!(editor.upd);
    let changes = editor.insert_tab();
    assert_eq!(change(&changes[0]), (0, 1, 0, 1, "    "));
    assert_eq!(editor.c, 5);
    let changes = editor.handle_enter();
    assert_eq!(change(&changes[0]), (0, 5, 0, 5, "\n"));
    assert_eq!((editor.r, editor.c), (1, 0));
    assert_eq!(text_of(&editor), "x    \n");

    let mut indented = editor_with("    if a:", "python");
    indented.c = 9;
    let changes = indented.handle_enter();
    assert_eq!(changes.len(), 2);
    assert_eq!(change(&changes[1]), (1, 0, 1, 0, "    "));
    assert_eq!(text_of(&indented), "    if a:\n    ");
    assert_eq!((indented.r, indented.c), (1, 4));

    // a cursor that does not stand in the text types nothing
    indented.r = 7;
    assert!(indented.insert_char('y').is_empty());
    assert!(indented.handle_enter().is_empty());
    assert!(indented.insert_tab().is_empty());
    assert!(indented.paste("z").is_empty());
    assert_eq!(text_of(&indented), "    if a:\n    ");
}

#[test]
fn typing_replaces_the_selection() {
    let mut editor = editor_with("hello world", "python");
    editor.selection.set_start(0, 11);
    editor.selection.set_end(0, 5);
    editor.selection.activate();
    editor.c = 5;
    let changes = editor.insert_char('!');
    assert_eq!(text_of(&editor), "hello!");
    assert_eq!(changes.len(), 2);
    assert_eq!(change(&changes[0]), (0, 5, 0, 11, ""));
    assert_eq!(change(&changes[1]), (0, 5, 0, 5, "!"));
}

#[test]
fn paste_cut_and_duplicate() {
    let mut editor = editor_with("ab", "python");
    editor.c = 1;
    assert!(editor.paste("").is_empty());
    let changes = editor.paste("1\n23");
    assert_eq!(text_of(&editor), "a1\n23b");
    assert_eq!(change(&changes[0]), (0, 1, 0, 1, "1\n23"));
    assert_eq!((editor.r, editor.c), (1, 2));

    assert!(editor.handle_cut().is_empty());
    editor.selection.set_start(1, 0);
    editor.selection.set_end(0, 1);
    editor.selection.activate();
    assert_eq!(editor.selected_text(), Some("1\n".to_string()));
    assert_eq!(editor.copy_to_clipboard(None), Some("1\n".to_string()));
    assert_eq!(editor.copy_to_clipboard(Some("given".to_string())), Some("given".to_string()));
    let changes = editor.handle_cut();
    assert_eq!(change(&changes[0]), (0, 1, 1, 0, ""));
    assert_eq!(text_of(&editor), "a23b");
    assert_eq!((editor.r, editor.c), (0, 1));
    assert!(editor.selection.empty());

    editor.keep_copy("kept".to_string());
    assert_eq!(editor.get_clipboard(None), Some("kept".to_string()));
    assert_eq!(editor.get_clipboard(Some("system".to_string())), Some("system".to_string()));

    let mut lines = editor_with("one\ntwo\n", "python");
    let changes = lines.handle_duplicate();
    assert_eq!(text_of(&lines), "one\none\ntwo\n");
    assert_eq!(lines.r, 1);
    assert_eq!(change(&changes[0]), (0, 4, 0, 4, "\none\n"));
    let changes = lines.handle_cut_line();
    assert_eq!(text_of(&lines), "one\ntwo\n");
    assert_eq!(change(&changes[0]), (1, 0, 2, 0, ""));
}

#[test]
fn comment_key_puts_and_takes_the_token() {
    let mut editor = editor_with("    x = 1\ny", "python");
    editor.c = 9;
    let changes = editor.comment_line();
    assert_eq!(text_of(&editor), "    #x = 1\ny");
    assert_eq!(change(&changes[0]), (0, 4, 0, 4, "#"));
    assert_eq!(editor.r, 1);
    editor.r = 0;
    let changes = editor.comment_line();
    assert_eq!(text_of(&editor), "    x = 1\ny");
    assert_eq!(change(&changes[0]), (0, 4, 0, 5, ""));
    let mut plain = editor_with("x", "none");
    assert!(plain.comment_line().is_empty());
    assert_eq!(text_of(&plain), "x");
}

#[test]
fn undo_and_redo_tell_the_language_server() {
    let mut editor = editor_with("", "python");
    editor.paste("ab\nc");
    editor.c = 1;
    editor.handle_delete();
    assert_eq!(text_of(&editor), "ab\n");
    let told = editor.undo();
    assert_eq!(text_of(&editor), "ab\nc");
    assert_eq!(change(&told[0]), (1, 0, 1, 0, "c"));
    assert_eq!((editor.r, editor.c), (1, 1));
    let told = editor.undo();
    assert_eq!(text_of(&editor), "");
    assert_eq!(change(&told[0]), (0, 0, 1, 1, ""));
    assert!(editor.undo().is_empty());
    let told = editor.redo();
    assert_eq!(text_of(&editor), "ab\nc");
    assert_eq!(change(&told[0]), (0, 0, 1, 1, "ab\nc"));
    assert_eq!((editor.r, editor.c), (0, 1));
    let told = editor.redo();
    assert_eq!(text_of(&editor), "ab\n");
    assert_eq!(change(&told[0]), (1, 0, 1, 0, ""));
    assert!(editor.redo().is_empty());
}

#[test]
fn line_moves_are_told_as_four_changes() {
    let mut editor = editor_with("1\n22\n333\n4", "python");
    editor.r = 1;
    editor.c = 1;
    let told = editor.move_line_down();
    assert_eq!(text_of(&editor), "1\n333\n22\n4");
    assert_eq!(editor.r, 2);
    let told: Vec<_> = told.iter().map(change).collect();
    assert_eq!(
        told,
        vec![(1, 0, 1, 2, ""), (1, 0, 1, 0, "333"), (2, 0, 2, 3, ""), (2, 0, 2, 0, "22")]
    );
    let told = editor.move_line_up();
    assert_eq!(told.len(), 4);
    assert_eq!(text_of(&editor), "1\n22\n333\n4");
    assert_eq!(editor.r, 1);
    editor.undo();
    assert_eq!(text_of(&editor), "1\n333\n22\n4");

    editor.r = 3;
    assert!(editor.move_line_down().is_empty());
    editor.r = 0;
    assert!(editor.move_line_up().is_empty());
    let mut short = editor_with("a\nb", "python");
    short.r = 1;
    assert!(short.move_line_up().is_empty());
    assert_eq!(short.r, 1);
    assert_eq!(text_of(&short), "a\nb");
}

#[test]
fn cursor_keys_move_and_keep_the_cursor_in_view() {
    let text: String = (0..100).map(|i| format!("line {}\n", i)).collect();
    let mut editor = editor_with(&text, "python");
    editor.handle_up();
    assert_eq!((editor.r, editor.c), (0, 0));
    editor.handle_left();
    assert_eq!((editor.r, editor.c), (0, 0));
    for _ in 0..7 {
        editor.handle_right();
    }
    assert_eq!((editor.r, editor.c), (1, 0));
    editor.handle_left();
    assert_eq!((editor.r, editor.c), (0, 6));
    for _ in 0..30 {
        editor.handle_down();
    }
    assert_eq!((editor.r, editor.c), (30, 6));
    assert_eq!(editor.y, 7);
    editor.handle_page_down();
    assert_eq!((editor.r, editor.y), (54, 31));
    editor.handle_page_up();
    assert_eq!((editor.r, editor.y), (30, 7));
    editor.scroll_down();
    editor.scroll_down();
    editor.scroll_up();
    assert_eq!(editor.y, 8);
    editor.r = 500;
    editor.c = 500;
    editor.fit_cursor();
    assert_eq!((editor.r, editor.c), (100, 0));
    editor.r = 60;
    editor.focus_to_center();
    assert_eq!(editor.y, 48);
    editor.r = 3;
    editor.focus();
    assert_eq!(editor.y, 3);
    assert_eq!(editor.get_line_number_width(), 7);
}

#[test]
fn word_keys() {
    let mut editor = editor_with("let alpha = beta;", "python");
    editor.c = 4;
    editor.handle_right_word();
    assert_eq!(editor.c, 9);
    editor.handle_left_word();
    assert_eq!(editor.c, 4);
    editor.c = 0;
    editor.handle_left_word();
    assert_eq!(editor.c, 0);
}

#[test]
fn keymap() {
    assert_eq!(route_key(Key::Char('q'), CTRL), Command::Quit);
    assert!(is_quit_event(Key::Char('q'), CTRL));
    assert!(!is_quit_event(Key::Char('q'), NONE));
    assert_eq!(route_key(Key::Char('s'), CTRL), Command::Save);
    assert_eq!(route_key(Key::Char('c'), CTRL), Command::Copy);
    assert_eq!(route_key(Key::Char('x'), CTRL), Command::Cut);
    assert_eq!(route_key(Key::Char('v'), CTRL), Command::Paste);
    assert_eq!(route_key(Key::Char('d'), CTRL), Command::Duplicate);
    assert_eq!(route_key(Key::Char('z'), CTRL), Command::Undo);
    assert_eq!(route_key(Key::Char('y'), CTRL), Command::Redo);
    assert_eq!(route_key(Key::Char('o'), CTRL), Command::CursorBack);
    assert_eq!(route_key(Key::Char('p'), CTRL), Command::CursorForward);
    assert_eq!(route_key(Key::Char('f'), CTRL), Command::Search);
    assert_eq!(route_key(Key::Char('g'), CTRL), Command::Definition);
    assert_eq!(route_key(Key::Char('r'), CTRL), Command::References);
    assert_eq!(route_key(Key::Char('e'), CTRL), Command::Errors);
    assert_eq!(route_key(Key::Char('h'), CTRL), Command::Hover);
    assert_eq!(route_key(Key::Char(' '), CTRL), Command::Completion);
    assert_eq!(route_key(Key::Char('t'), CTRL), Command::TogglePanel);
    assert_eq!(route_key(Key::Char('w'), CTRL), Command::Nothing);
    assert_eq!(route_key(Key::Up, SHIFT), Command::ExtendSelection(Some(Direction::Up)));
    assert_eq!(route_key(Key::Tab, SHIFT), Command::ExtendSelection(None));
    assert_eq!(route_key(Key::Char('A'), SHIFT), Command::Insert('A'));
    assert_eq!(route_key(Key::Up, ALT), Command::SelectMore);
    assert_eq!(route_key(Key::Down, ALT), Command::SelectLess);
    assert_eq!(route_key(Key::Left, ALT), Command::WordLeft);
    assert_eq!(route_key(Key::Right, ALT), Command::WordRight);
    assert_eq!(route_key(Key::Backspace, ALT), Command::CutLine);
    assert_eq!(route_key(Key::Char('\u{f7}'), NONE), Command::CommentLine);
    assert_eq!(route_key(Key::Up, CTRL_SHIFT), Command::MoveLineUp);
    assert_eq!(route_key(Key::Down, CTRL_SHIFT), Command::MoveLineDown);
    assert_eq!(route_key(Key::Left, CTRL_SHIFT), Command::Nothing);
    assert_eq!(route_key(Key::Enter, NONE), Command::Enter);
    assert_eq!(route_key(Key::Backspace, NONE), Command::Delete);
    assert_eq!(route_key(Key::Tab, NONE), Command::InsertTab);
    assert_eq!(route_key(Key::PageUp, NONE), Command::PageUp);
    assert_eq!(route_key(Key::Esc, NONE), Command::Idle);
    assert_eq!(route_panel_key(Key::Char('t'), CTRL), PanelCommand::Close);
    assert_eq!(route_panel_key(Key::Char('a'), CTRL), PanelCommand::Nothing);
    assert_eq!(route_panel_key(Key::Char('a'), SHIFT), PanelCommand::InsertFilterChar('a'));
    assert_eq!(route_panel_key(Key::Enter, NONE), PanelCommand::Open);
    assert_eq!(route_panel_key(Key::Enter, ALT), PanelCommand::Nothing);
    assert_eq!(route_panel_key(Key::Esc, NONE), PanelCommand::ClearSearch);
}

#[test]
fn keys_drive_the_editor() {
    let mut editor = editor_with("ab\ncd", "python");
    assert!(matches!(editor.handle_keyboard(Key::Char('q'), CTRL), KeyOutcome::Quit));
    match editor.handle_keyboard(Key::Char('x'), NONE) {
        KeyOutcome::Changed(changes) => assert_eq!(changes.len(), 1),
        other => panic!("{:?}", other),
    }
    assert_eq!(text_of(&editor), "xab\ncd");
    assert!(matches!(editor.handle_keyboard(Key::Right, SHIFT), KeyOutcome::Done));
    assert!(matches!(editor.handle_keyboard(Key::Right, SHIFT), KeyOutcome::Done));
    assert!(editor.selection.active);
    assert_eq!(editor.selection.from(), (0, 1));
    assert_eq!(editor.selection.to(), (0, 3));
    match editor.handle_keyboard(Key::Char('c'), CTRL) {
        KeyOutcome::Copy(text) => assert_eq!(text, Some("ab".to_string())),
        other => panic!("{:?}", other),
    }
    match editor.handle_keyboard(Key::Char('x'), CTRL) {
        KeyOutcome::Cut(text, changes) => {
            assert_eq!(text, Some("ab".to_string()));
            assert_eq!(changes.len(), 1);
        }
        other => panic!("{:?}", other),
    }
    assert_eq!(text_of(&editor), "x\ncd");
    match editor.handle_keyboard(Key::Char('z'), CTRL) {
        KeyOutcome::Changed(changes) => assert_eq!(change(&changes[0]), (0, 1, 0, 1, "ab")),
        other => panic!("{:?}", other),
    }
    assert!(matches!(editor.handle_keyboard(Key::Char('s'), CTRL), KeyOutcome::Save(true)));
    assert!(matches!(editor.handle_keyboard(Key::Char('s'), CTRL), KeyOutcome::Save(false)));
    assert!(matches!(editor.handle_keyboard(Key::Char('v'), CTRL), KeyOutcome::Paste));
    assert!(matches!(editor.handle_keyboard(Key::Char('h'), CTRL), KeyOutcome::Hover));
    assert!(matches!(editor.handle_keyboard(Key::Char(' '), CTRL), KeyOutcome::Completion));

    // a key that is taken as it is ends the selection
    editor.selection.set_start(0, 0);
    editor.selection.set_end(0, 1);
    editor.selection.keep_once = true;
    editor.handle_keyboard(Key::Down, NONE);
    assert!(!editor.selection.keep_once);
    assert!(editor.selection.empty());

    assert!(matches!(editor.handle_keyboard(Key::Char('t'), CTRL), KeyOutcome::Done));
    assert!(editor.is_lp_focused);
    assert_eq!(editor.lp_width, 25);
    match editor.handle_keyboard(Key::Char('x'), NONE) {
        KeyOutcome::Panel(PanelCommand::InsertFilterChar('x')) => {}
        other => panic!("{:?}", other),
    }
    assert!(matches!(editor.handle_keyboard(Key::Char('t'), CTRL), KeyOutcome::Done));
    assert!(!editor.is_lp_focused);
    assert_eq!(editor.lp_width, 0);
}

#[test]
fn panel_toggles() {
    let mut editor = Editor::new(config());
    editor.open_left_panel();
    assert_eq!((editor.lp_width, editor.is_lp_focused), (25, true));
    editor.close_left_panel();
    assert_eq!(editor.lp_width, 0);
    editor.left_panel_toggle();
    assert_eq!(editor.lp_width, 25);
    editor.is_lp_focused = false;
    editor.toggle_left_panel();
    assert_eq!((editor.lp_width, editor.is_lp_focused), (25, true));
    editor.toggle_left_panel();
    assert_eq!((editor.lp_width, editor.is_lp_focused), (0, false));
    editor.resize(0, 10);
    assert_eq!((editor.width, editor.height), (0, 0));
    editor.resize(100, 40);
    assert_eq!((editor.width, editor.height), (100, 40));
    assert_eq!(editor.draw_plan(), DrawPlan::Welcome);
    assert_eq!(drag_width(0, 100), 1);
    assert_eq!(drag_width(30, 100), 30);
    assert_eq!(drag_width(95, 100), 80);
    assert_eq!(drag_width(5, 10), 1);
}

#[test]
fn mouse_moves_the_cursor_and_selects() {
    let mut editor = editor_with("hello world\n\u{4f60}\u{597d}x\nlast", "python");
    let click = |column: u16, row: u16, kind: MouseKind| MouseEvent {
        kind,
        column,
        row,
        modifiers: NONE,
    };
    // the text starts behind seven cells of line numbers
    assert!(matches!(editor.handle_mouse(click(7 + 2, 0, MouseKind::Down), 1000), MouseOutcome::Done));
    assert_eq!((editor.r, editor.c), (0, 2));
    editor.handle_mouse(click(7 + 9, 0, MouseKind::Drag), 1100);
    assert_eq!((editor.r, editor.c), (0, 9));
    assert!(editor.selection.is_selected(0, 5));
    assert!(!editor.selection.is_selected(0, 9));
    // wide characters take two cells each
    editor.handle_mouse(click(7 + 4, 1, MouseKind::Down), 5000);
    assert_eq!((editor.r, editor.c), (1, 2));
    editor.handle_mouse(click(7 + 3, 1, MouseKind::Down), 9000);
    assert_eq!((editor.r, editor.c), (1, 1));
    // behind the end of a line the cursor stands at its end
    editor.handle_mouse(click(70, 2, MouseKind::Down), 13000);
    assert_eq!((editor.r, editor.c), (2, 4));
    // in the line numbers and below the text nothing is hit
    editor.handle_mouse(click(3, 0, MouseKind::Down), 17000);
    assert_eq!((editor.r, editor.c), (2, 4));
    editor.handle_mouse(click(10, 9, MouseKind::Down), 21000);
    assert_eq!((editor.r, editor.c), (2, 4));

    // a double click selects the word, a triple click the line
    editor.handle_mouse(click(7 + 8, 0, MouseKind::Down), 30000);
    editor.handle_mouse(click(7 + 8, 0, MouseKind::Down), 30200);
    assert_eq!((editor.selection.from(), editor.selection.to()), ((0, 6), (0, 11)));
    editor.handle_mouse(click(7 + 8, 0, MouseKind::Down), 30400);
    assert_eq!((editor.selection.from(), editor.selection.to()), ((0, 0), (1, 0)));

    let with_control = MouseEvent { kind: MouseKind::Down, column: 8, row: 0, modifiers: CTRL };
    assert!(matches!(editor.handle_mouse(with_control, 40000), MouseOutcome::Definition));
    assert_eq!((editor.r, editor.c), (0, 1));
    let with_alt = MouseEvent { kind: MouseKind::Down, column: 9, row: 2, modifiers: ALT };
    assert!(matches!(editor.handle_mouse(with_alt, 50000), MouseOutcome::References));
    assert_eq!((editor.r, editor.c), (2, 2));
}

#[test]
fn mouse_drags_the_panel_and_presses_run_buttons() {
    let mut editor = editor_with("print(1)", "python");
    editor.open_left_panel();
    let at = |column: u16, row: u16, kind: MouseKind| MouseEvent {
        kind,
        column,
        row,
        modifiers: NONE,
    };
    // line 0 has a run button, so the edge is not there
    assert!(editor.code.is_runnable(0));
    match editor.handle_mouse(at(25, 0, MouseKind::Up), 0) {
        MouseOutcome::Run(cmd) => assert_eq!(cmd, "python3 /work/file.py"),
        other => panic!("{:?}", other),
    }
    assert_eq!(editor.process.last_command(), Some("python3 /work/file.py".to_string()));
    assert_eq!(editor.hovered_runnable_line, Some(0));
    editor.handle_mouse(at(25, 3, MouseKind::Down), 0);
    assert!(editor.panel_moving);
    editor.handle_mouse(at(40, 3, MouseKind::Drag), 0);
    assert_eq!(editor.lp_width, 40);
    editor.handle_mouse(at(40, 3, MouseKind::Up), 0);
    assert!(!editor.panel_moving);
    assert!(matches!(editor.handle_mouse(at(5, 3, MouseKind::Down), 0), MouseOutcome::Panel));
    assert!(editor.is_lp_focused);
}

#[test]
fn search_line() {
    let mut editor = editor_with("// comment //\nx // y", "python");
    assert!(!editor.start_search());
    assert!(editor.search.active);
    for c in "//".chars() {
        assert_eq!(editor.handle_search_event(Key::Char(c), NONE, None), SearchStep::Continue);
    }
    assert_eq!(editor.search_line(), "search: // 1/3");
    let found: Vec<_> = editor.search.results.iter().map(|r| (r.line, r.column)).collect();
    assert_eq!(found, vec![(0, 0), (0, 11), (1, 2)]);
    editor.show_search_result();
    assert_eq!((editor.r, editor.c), (0, 2));
    assert!(editor.selection.is_selected(0, 1));
    editor.handle_search_event(Key::Up, NONE, None);
    assert_eq!(editor.search.index, 2);
    editor.handle_search_event(Key::Down, NONE, None);
    assert_eq!(editor.search.index, 0);
    editor.handle_search_event(Key::Down, NONE, None);
    editor.show_search_result();
    assert_eq!((editor.r, editor.c), (0, 13));
    editor.handle_search_event(Key::Left, NONE, None);
    editor.handle_search_event(Key::Backspace, NONE, None);
    assert_eq!(editor.search_line(), "search: / 4/6");
    editor.handle_search_event(Key::Char('v'), CTRL, Some(" comment"));
    assert_eq!(editor.search_line(), "search:  comment/ ");
    assert!(editor.search.results.is_empty());
    editor.show_search_result();
    assert!(!editor.selection.active);
    assert_eq!(editor.handle_search_event(Key::Char('g'), CTRL, None), SearchStep::Global);
    assert_eq!(editor.handle_search_event(Key::Enter, NONE, None), SearchStep::End);
    assert_eq!(editor.handle_search_event(Key::Esc, NONE, None), SearchStep::End);
    editor.end_search();
    assert!(!editor.search.active);

    // the place nearest to the cursor is shown first
    let mut near = editor_with("ab\nab\nab\nab", "python");
    near.r = 2;
    near.selection.set_start(0, 0);
    near.selection.set_end(0, 2);
    near.selection.activate();
    let saved = near.save_view();
    assert!(near.start_search());
    assert_eq!(near.search.index, 2);
    near.show_search_result();
    assert_eq!((near.r, near.c), (2, 2));
    near.cancel_search(&saved);
    assert_eq!((near.r, near.c), (2, 0));
    assert_eq!(near.selection.to(), (0, 2));
}

#[test]
fn documents_change_places() {
    let conf = config();
    let mut editor = editor_with("first", "python");
    editor.r = 0;
    editor.c = 3;
    editor.save_cursor_to_history();
    let second = Code::from_file(
        "second\nline",
        "b.py".to_string(),
        "/work/b.py".to_string(),
        "python".to_string(),
        &conf,
        &Vec::new(),
    )
    .unwrap();
    assert!(!editor.is_open("/work/b.py"));
    assert!(!editor.open_file("/work/b.py", None));
    assert!(editor.open_file("/work/b.py", Some(second)));
    assert_eq!(text_of(&editor), "second\nline");
    assert_eq!((editor.r, editor.c), (0, 0));
    assert!(editor.is_open("/work/file.py"));
    editor.r = 1;
    editor.c = 2;
    editor.save_cursor_to_history();
    assert!(!editor.open_file("/work/file.py", None));
    assert_eq!(text_of(&editor), "first");
    assert_eq!((editor.r, editor.c), (0, 3));
    assert!(editor.is_open("/work/b.py"));

    // back in the history: the place in the other document
    assert!(editor.undo_cursor().is_none());
    assert_eq!(text_of(&editor), "second\nline");
    assert_eq!((editor.r, editor.c), (1, 2));
    assert!(editor.undo_cursor().is_none());
    assert_eq!(text_of(&editor), "first");
    assert!(editor.redo_cursor().is_none());

    match editor.jump_to("file:///work/other.py", 0, 0) {
        Jump::NeedsFile(path) => assert_eq!(path, "/work/other.py"),
        other => panic!("{:?}", other),
    }
    assert!(matches!(editor.jump_to("file:///work/b.py", 1, 4), Jump::Done));
    assert_eq!(text_of(&editor), "second\nline");
    assert_eq!((editor.r, editor.c), (1, 4));
    assert!(matches!(editor.jump_to("file:///work/b.py", 9, 0), Jump::Nowhere));
    assert!(matches!(editor.jump_to("file:///work/b.py", 0, 9), Jump::Nowhere));
}

#[test]
fn popups() {
    let mut popup = ListPopup::new();
    assert_eq!(completion_step(&mut popup, Key::Down, NONE, 3), CompletionStep::Stay);
    assert_eq!(completion_step(&mut popup, Key::Down, NONE, 3), CompletionStep::Stay);
    assert_eq!(completion_step(&mut popup, Key::Down, NONE, 3), CompletionStep::Stay);
    assert_eq!(popup.selected, 2);
    assert_eq!(completion_step(&mut popup, Key::Up, NONE, 3), CompletionStep::Stay);
    assert_eq!(completion_step(&mut popup, Key::Enter, NONE, 3), CompletionStep::Apply(1));
    assert_eq!(completion_step(&mut popup, Key::Tab, NONE, 3), CompletionStep::Apply(1));
    assert_eq!(completion_step(&mut popup, Key::Esc, NONE, 3), CompletionStep::Close);
    assert_eq!(completion_step(&mut popup, Key::Char(' '), NONE, 3), CompletionStep::Close);
    assert_eq!(completion_step(&mut popup, Key::Char('a'), SHIFT, 3), CompletionStep::Insert('a'));
    assert_eq!(completion_step(&mut popup, Key::Left, NONE, 3), CompletionStep::Left);
    assert_eq!(completion_step(&mut popup, Key::Right, NONE, 3), CompletionStep::Right);
    assert_eq!(completion_step(&mut popup, Key::Backspace, NONE, 3), CompletionStep::Backspace);
    assert_eq!(completion_step(&mut popup, Key::Enter, CTRL, 3), CompletionStep::Stay);

    let mut list = ListPopup { selected: 0, offset: 0 };
    for _ in 0..6 {
        assert_eq!(list_step(&mut list, Key::Down, NONE, 10), ListStep::Stay);
        list.scroll(3);
    }
    assert_eq!((list.selected, list.offset), (6, 4));
    list.selected = 2;
    list.scroll(3);
    assert_eq!(list.offset, 2);
    assert_eq!(list_step(&mut list, Key::Enter, NONE, 10), ListStep::Accept(2));
    assert_eq!(list_step(&mut list, Key::Esc, NONE, 10), ListStep::Cancel);
    assert_eq!(list_step(&mut list, Key::Char('c'), NONE, 10), ListStep::Stay);
    assert_eq!(errors_step(&mut list, Key::Char('c'), NONE, 10), ListStep::Copy(2));
    assert_eq!(errors_step(&mut list, Key::Tab, NONE, 10), ListStep::Stay);
    assert_eq!(errors_step(&mut list, Key::Enter, NONE, 10), ListStep::Accept(2));

    let below = popup_place(8, 5, 3, 24);
    assert_eq!((below.from_y, below.rows, below.above), (4, 5, false));
    let above = popup_place(8, 5, 22, 24);
    assert_eq!((above.from_y, above.rows, above.above), (17, 5, true));
    let short = popup_place(2, 5, 22, 24);
    assert_eq!((short.from_y, short.rows, short.above), (20, 2, true));
    let cramped = popup_place(8, 5, 2, 4);
    assert_eq!((cramped.from_y, cramped.above), (3, false));

    assert_eq!(hover_lines("a\r\nb\n\nc\n"), vec!["a", "b", "", "c"]);
    assert_eq!(hover_lines(""), Vec::<String>::new());
    assert_eq!(hover_lines("\n"), vec![""]);
}

#[test]
fn completions_are_ranked_and_applied() {
    let mut editor = editor_with("for i in range:", "python");
    editor.c = 14;
    assert_eq!(editor.completion_prefix(), Some("range".to_string()));
    let offered = ["range", "randint", "raise", "rangefinder"]
        .iter()
        .map(|l| (l.to_string(), None))
        .collect();
    let ranked = editor.rank_completions(offered);
    let labels: Vec<_> = ranked.iter().map(|i| i.label.as_str()).collect();
    assert_eq!(labels, vec!["range", "rangefinder", "randint", "raise"]);
    assert_eq!(ranked[0].score, 1010);
    assert_eq!(ranked[3].score, 0);

    let offered = vec![
        ("arrange".to_string(), None),
        ("zzz".to_string(), None),
        ("rangefinder".to_string(), Some("rangefinder()".to_string())),
        ("range".to_string(), None),
    ];
    let ranked = editor.rank_completions(offered);
    let labels: Vec<_> = ranked.iter().map(|i| i.label.as_str()).collect();
    assert_eq!(labels, vec!["range", "rangefinder", "arrange", "zzz"]);

    let changes = editor.lsp_completion_apply(&ranked[1]);
    assert_eq!(text_of(&editor), "for i in rangefinder():");
    assert_eq!(change(&changes[0]), (0, 9, 0, 14, ""));
    assert_eq!(change(&changes[1]), (0, 9, 0, 9, "rangefinder()"));
    assert_eq!(editor.c, 22);
    assert!(editor.lsp_completion_apply(&red::popup::scored(String::new(), None, "x")).is_empty());
}

#[test]
fn what_the_view_shows() {
    let mut editor = editor_with("ab\tc\n\u{4f60}d", "python");
    editor.selcolor = Color::DarkBlue;
    editor.selection.set_start(0, 1);
    editor.selection.set_end(0, 3);
    editor.selection.activate();
    let rows = editor.draw_editor();
    assert_eq!(rows.len(), 2);
    assert_eq!((rows[0].screen_row, rows[0].line, rows[0].runnable), (0, 0, true));
    assert_eq!(rows[0].number, "  1   ");
    assert_eq!(rows[1].number, "  2   ");
    let shown: String = rows[0].cells.iter().map(|c| c.character).collect();
    assert_eq!(shown, "ab c");
    let selected: Vec<bool> = rows[0].cells.iter().map(|c| c.bg_color == Color::DarkBlue).collect();
    assert_eq!(selected, vec![false, true, true, false]);
    assert_eq!(rows[1].cells.len(), 2);
    assert_eq!(rows[0].end_col, 4);

    assert_eq!(editor.status_line(), "  1:1 python file.py ");
    editor.insert_char('x');
    assert_eq!(text_of(&editor), "axc\n\u{4f60}d");
    assert_eq!(editor.status_line(), "  1:3 python file.py*");
    assert_eq!(editor.status_place(), Some((80 - 21, 23)));
    assert_eq!(editor.cursor_place(), Some((9, 0)));
    editor.r = 1;
    editor.c = 1;
    assert_eq!(editor.cursor_place(), Some((9, 1)));
    editor.y = 5;
    assert_eq!(editor.cursor_place(), None);
    assert_eq!(editor.draw_plan(), DrawPlan::Whole);
    editor.painted();
    assert_eq!(editor.draw_plan(), DrawPlan::Cursor);
    editor.y = 0;
    editor.overlay_lines = vec![1];
    let rows = editor.draw_editor();
    assert_eq!(rows.len(), 1);
    editor.clear_overlay();
    editor.reserve_list_rows(3);
    assert_eq!(editor.overlay_lines, vec![20, 21, 22, 23, 24]);
}

#[test]
fn diagnostics_are_kept_until_an_edit() {
    let mut editor = editor_with("a\nb\nc", "python");
    let d = |line: usize, message: &str, severity: Option<Severity>| Diagnostic {
        line,
        character: 0,
        end_line: line,
        end_character: 1,
        severity,
        message: message.to_string(),
    };
    editor.handle_diagnostic_update(
        "file:///work/file.py".to_string(),
        vec![d(0, "first", Some(Severity::Error)), d(2, "third\nline", Some(Severity::Hint))],
    );
    editor.handle_diagnostic_update("file:///work/other.py".to_string(), vec![d(1, "x", None)]);
    assert_eq!(editor.current_errors().len(), 2);
    assert_eq!(editor.get_lines_errors(1, 5).len(), 1);
    let errors = editor.get_lines_errors(0, 24);
    let shown = editor.draw_error(&errors, 2, 10, 2);
    assert_eq!(shown.len(), 1);
    assert_eq!(shown[0].text, "     third line");
    assert_eq!((shown[0].x, shown[0].y, shown[0].color), (10, 2, Color::Green));
    let cut = editor.draw_error(&errors, 0, 72, 0);
    assert_eq!(cut[0].text, "     fir");
    assert_eq!(cut[0].color, Color::Red);
    assert!(editor.draw_error(&errors, 0, 80, 0).is_empty());
    editor.handle_diagnostic_update("file:///work/file.py".to_string(), vec![d(1, "only", None)]);
    assert_eq!(editor.current_errors().len(), 1);
    editor.insert_char('x');
    assert!(editor.current_errors().is_empty());
    assert_eq!(editor.diagnostics.len(), 1);
}

#[test]
fn line_numbers_show_where_errors_are() {
    let mut editor = editor_with("a\nb\nc", "python");
    editor.lncolor = Color::Grey;
    editor.ecolor = Color::Red;
    let told = |line: usize, severity: Option<Severity>| Diagnostic {
        line,
        character: 0,
        end_line: line,
        end_character: 1,
        severity,
        message: "m".to_string(),
    };
    editor.handle_diagnostic_update(
        "file:///work/file.py".to_string(),
        vec![told(1, Some(Severity::Warning)), told(2, Some(Severity::Error)), told(2, None)],
    );
    editor.handle_diagnostic_update(
        "file:///work/other.py".to_string(),
        vec![told(0, Some(Severity::Error))],
    );
    let rows = editor.draw_editor();
    let colors: Vec<Color> = rows.iter().map(|r| r.number_color).collect();
    assert_eq!(colors, vec![Color::Grey, Color::Grey, Color::Red]);
}

#[test]
fn plain_documents_have_no_run_buttons() {
    let conf = config();
    let code = Code::from_file(
        "print(1)\n",
        "file.py".to_string(),
        "/work/file.py".to_string(),
        "python".to_string(),
        &conf,
        &Vec::new(),
    )
    .unwrap();
    let mut editor = Editor::new(conf);
    editor.resize(80, 24);
    editor.load_file(code);
    assert!(!editor.code.is_runnable(0));
    editor.insert_char('x');
    assert!(!editor.code.is_runnable(0));
    let rows = editor.draw_editor();
    assert!(!rows[0].runnable);

    let with_grammar = editor_with("print(1)\n", "python");
    assert!(with_grammar.code.is_runnable(0));
}

#[test]
fn the_view_follows_the_cursor_when_typing() {
    let mut editor = editor_with("", "python");
    editor.resize(20, 4);
    for _ in 0..30 {
        editor.insert_char('x');
    }
    // 20 columns, 7 of them for the line numbers
    assert_eq!(editor.c, 30);
    assert!(editor.x <= editor.c && editor.c < editor.x + 15);
    for _ in 0..6 {
        editor.handle_enter();
    }
    assert_eq!((editor.r, editor.c), (6, 0));
    assert_eq!(editor.x, 0);
    assert!(editor.y <= editor.r && editor.r < editor.y + 4);
    // each line break was followed by its indentation, here an empty one
    for _ in 0..12 {
        editor.undo();
    }
    assert_eq!(editor.r, 0);
    assert_eq!(editor.y, 0);
    assert!(editor.x <= editor.c && editor.c < editor.x + 15);
}

#[test]
fn control_codes_are_not_painted() {
    let mut editor = editor_with("a\u{7}b\u{1b}c\td", "python");
    let rows = editor.draw_editor();
    let shown: String = rows[0].cells.iter().map(|c| c.character).collect();
    assert_eq!(shown, "abc d");
}

#[test]
fn words_are_found_on_long_lines_too() {
    // a line that is longer than a piece of the rope
    let long = format!("{} last word\n", "x".repeat(5000));
    let mut editor = editor_with(&long, "python");
    editor.c = 5003;
    editor.handle_right_word();
    assert_eq!(editor.c, 5005);
    editor.handle_left_word();
    assert_eq!(editor.c, 5001);
    editor.c = 5004;
    assert_eq!(editor.completion_prefix().as_deref(), Some("las"));
    let ranked = editor.rank_completions(vec![
        ("blast".to_string(), None),
        ("last".to_string(), None),
    ]);
    let labels: Vec<&str> = ranked.iter().map(|i| i.label.as_str()).collect();
    assert_eq!(labels, vec!["last", "blast"]);
    editor.r = 7;
    assert_eq!(editor.completion_prefix(), None);
    assert!(editor.rank_completions(vec![("a".to_string(), None)]).is_empty());
}
