use red::code::Code;
use red::config::{Config, IndentConfig, LanguageConf};
use red::controller::{Jump, KeyOutcome, SearchStep};
use red::editor::{Diagnostic, Editor, Severity};
use red::flows::{CompletionOutcome, Place};
use red::keys::{Command, Direction, Key, Modifiers};
use red::popup::{ListPopup, ListStep};
use red::search::SearchResult;

const PLAIN: Modifiers = Modifiers { control: false, alt: false, shift: false, other: false };
const CONTROL: Modifiers = Modifiers { control: true, alt: false, shift: false, other: false };

fn settings() -> Config {
    Config {
        theme: "theme.yml".to_string(),
        left_panel_width: None,
        language: vec![LanguageConf {
            name: "python".to_string(),
            types: vec![".py".to_string()],
            comment: "#".to_string(),
            lsp: None,
            indent: IndentConfig { width: 4, unit: " ".to_string() },
            executable: None,
            exec_cmd: None,
            exectest: None,
        }],
    }
}

fn document(text: &str, path: &str) -> Code {
    Code::from_file(
        text,
        path.rsplit('/').next().unwrap().to_string(),
        path.to_string(),
        "python".to_string(),
        &settings(),
        &Vec::new(),
    )
    .unwrap()
}

fn editor_on(text: &str) -> Editor {
    let mut editor = Editor::new(settings());
    editor.resize(80, 24);
    editor.load_file(document(text, "/work/main.py"));
    editor
}

fn text_in(editor: &Editor) -> String {
    editor.code.text.to_string()
}

fn place(uri: &str, line: usize, character: usize, end: usize) -> Place {
    Place { uri: uri.to_string(), line, character, end_line: line, end_character: end }
}

#[test]
fn completion_list_takes_keys() {
    let mut editor = editor_on("pri x\n");
    editor.c = 3;
    let options = editor.rank_completions(vec![
        ("sprint".to_string(), None),
        ("print".to_string(), Some("print()".to_string())),
    ]);
    assert_eq!(options[0].label, "print");
    let mut popup = ListPopup::new();

    let stay = editor.completion(&mut popup, Key::Down, PLAIN, &options);
    assert!(matches!(stay, CompletionOutcome::Stay));
    assert_eq!(popup.selected, 1);
    editor.completion(&mut popup, Key::Up, PLAIN, &options);
    assert_eq!(popup.selected, 0);

    let typed = editor.completion(&mut popup, Key::Char('n'), PLAIN, &options);
    match typed {
        CompletionOutcome::Again(changes) => {
            assert_eq!(changes.len(), 1);
            assert_eq!(changes[0].text, "n");
        }
        other => panic!("{:?}", other),
    }
    assert_eq!(text_in(&editor), "prin x\n");
    assert_eq!(editor.c, 4);

    let removed = editor.completion(&mut popup, Key::Backspace, PLAIN, &options);
    assert!(matches!(removed, CompletionOutcome::Again(ref c) if c.len() == 1));
    assert_eq!(text_in(&editor), "pri x\n");

    let left = editor.completion(&mut popup, Key::Left, PLAIN, &options);
    assert!(matches!(left, CompletionOutcome::Again(ref c) if c.is_empty()));
    assert_eq!(editor.c, 2);
    editor.completion(&mut popup, Key::Right, PLAIN, &options);
    assert_eq!(editor.c, 3);

    let applied = editor.completion(&mut popup, Key::Enter, PLAIN, &options);
    match applied {
        CompletionOutcome::Applied(changes) => {
            assert_eq!(changes.len(), 2);
            assert_eq!(changes[1].text, "print()");
        }
        other => panic!("{:?}", other),
    }
    assert_eq!(text_in(&editor), "print() x\n");
    assert_eq!((editor.r, editor.c), (0, 7));

    editor.upd = false;
    let closed = editor.completion(&mut popup, Key::Esc, PLAIN, &options);
    assert!(matches!(closed, CompletionOutcome::Close));
    assert!(editor.upd);
    let space = editor.completion(&mut popup, Key::Char(' '), PLAIN, &options);
    assert!(matches!(space, CompletionOutcome::Close));
    assert_eq!(text_in(&editor), "print() x\n");
}

#[test]
fn hover_text_is_scrolled_and_closed() {
    let mut editor = editor_on("x\n");
    let mut popup = ListPopup::new();
    editor.upd = false;
    for _ in 0..11 {
        assert_eq!(editor.hover(&mut popup, Key::Down, PLAIN, 20), ListStep::Stay);
    }
    assert_eq!((popup.selected, popup.offset), (11, 2));
    assert!(!editor.upd);
    assert_eq!(editor.hover(&mut popup, Key::Down, CONTROL, 20), ListStep::Stay);
    assert_eq!(popup.selected, 11);
    assert_eq!(editor.hover(&mut popup, Key::Esc, PLAIN, 20), ListStep::Cancel);
    assert!(editor.upd);
}

#[test]
fn references_are_shown_one_by_one() {
    let mut editor = editor_on("alpha\nbeta alpha\ngamma\n");
    editor.codes.push(document("alpha = 1\n", "/work/other.py"));
    let places = vec![
        place("file:///work/main.py", 1, 5, 10),
        place("file:///work/other.py", 0, 0, 5),
        place("file:///work/closed.py", 3, 1, 2),
        place("no address", 0, 0, 0),
    ];
    let saved = editor.save_view();
    let mut popup = ListPopup::new();

    assert!(matches!(editor.show_place(&mut popup, &places), Jump::Done));
    assert_eq!((editor.r, editor.c), (1, 5));
    assert_eq!(editor.selection.from(), (1, 5));
    assert_eq!(editor.selection.to(), (1, 10));
    assert_eq!(editor.overlay_lines, vec![20, 21, 22, 23, 24]);

    assert_eq!(editor.references(&mut popup, Key::Down, PLAIN, &places, &saved), ListStep::Stay);
    assert!(matches!(editor.show_place(&mut popup, &places), Jump::Done));
    assert_eq!(editor.code.abs_path, "/work/other.py");
    assert_eq!((editor.r, editor.c), (0, 0));
    assert_eq!(editor.codes.len(), 1);
    assert_eq!(editor.codes[0].abs_path, "/work/main.py");
    assert_eq!((editor.codes[0].r, editor.codes[0].c), (1, 5));

    editor.references(&mut popup, Key::Down, PLAIN, &places, &saved);
    match editor.show_place(&mut popup, &places) {
        Jump::NeedsFile(path) => assert_eq!(path, "/work/closed.py"),
        other => panic!("{:?}", other),
    }
    assert_eq!(editor.code.abs_path, "/work/other.py");
    editor.references(&mut popup, Key::Down, PLAIN, &places, &saved);
    assert!(matches!(editor.show_place(&mut popup, &places), Jump::Nowhere));
    popup.selected = 9;
    assert!(matches!(editor.show_place(&mut popup, &places), Jump::Nowhere));

    popup.selected = 1;
    assert_eq!(
        editor.references(&mut popup, Key::Enter, PLAIN, &places, &saved),
        ListStep::Accept(1)
    );
    assert!(editor.overlay_lines.is_empty());
    assert!(editor.selection.empty());
    assert_eq!(editor.references(&mut popup, Key::Esc, PLAIN, &places, &saved), ListStep::Cancel);
    assert_eq!((editor.r, editor.c), (saved.r, saved.c));
}

#[test]
fn definitions_are_gone_to() {
    let mut editor = editor_on("alpha\nbeta alpha\n");
    let here = vec![place("file:///work/main.py", 1, 5, 10)];
    assert!(matches!(editor.definition(&here), Jump::Done));
    assert_eq!((editor.r, editor.c), (1, 5));
    assert_eq!(editor.undo_cursor().map(|p| p.row), None);
    assert_eq!((editor.r, editor.c), (0, 0));

    let two = vec![place("file:///work/main.py", 0, 1, 2), place("file:///work/main.py", 1, 1, 2)];
    assert!(matches!(editor.definition(&two), Jump::Nowhere));
    assert!(matches!(editor.definition(&Vec::new()), Jump::Nowhere));
    assert_eq!((editor.r, editor.c), (0, 0));

    let below = place("file:///work/main.py", 7, 0, 0);
    assert!(matches!(editor.apply_reference(&below), Jump::Nowhere));
    let behind = place("file:///work/main.py", 0, 6, 6);
    assert!(matches!(editor.apply_reference(&behind), Jump::Nowhere));
    let elsewhere = place("file:///work/closed.py", 0, 0, 0);
    match editor.apply_reference(&elsewhere) {
        Jump::NeedsFile(path) => assert_eq!(path, "/work/closed.py"),
        other => panic!("{:?}", other),
    }
    assert_eq!((editor.r, editor.c), (0, 0));
}

fn error(line: usize, character: usize, message: &str) -> Diagnostic {
    Diagnostic {
        line,
        character,
        end_line: line,
        end_character: character + 1,
        severity: Some(Severity::Error),
        message: message.to_string(),
    }
}

#[test]
fn errors_are_listed_and_copied() {
    let mut editor = editor_on("a\nb\nc\nd\n");
    let errors = vec![error(2, 0, "first"), error(3, 1, "second")];
    let saved = editor.save_view();
    let mut popup = ListPopup::new();

    assert!(editor.show_error(&mut popup, &errors));
    assert_eq!((editor.r, editor.c), (2, 0));
    assert_eq!(editor.overlay_lines, vec![21, 22, 23, 24]);

    let (step, copied) = editor.handle_errors(&mut popup, Key::Down, PLAIN, &errors, &saved);
    assert_eq!((step, copied), (ListStep::Stay, None));
    assert!(editor.show_error(&mut popup, &errors));
    assert_eq!((editor.r, editor.c), (3, 1));

    let (step, copied) = editor.handle_errors(&mut popup, Key::Char('c'), PLAIN, &errors, &saved);
    assert_eq!(step, ListStep::Copy(1));
    assert_eq!(copied.as_deref(), Some("second"));

    let (step, _) = editor.handle_errors(&mut popup, Key::Esc, PLAIN, &errors, &saved);
    assert_eq!(step, ListStep::Cancel);
    assert_eq!((editor.r, editor.c), (0, 0));
    assert!(editor.overlay_lines.is_empty());

    let (step, _) = editor.handle_errors(&mut popup, Key::Enter, PLAIN, &errors, &saved);
    assert_eq!(step, ListStep::Accept(1));

    popup.selected = 5;
    let before = (editor.r, editor.c);
    assert!(!editor.show_error(&mut popup, &errors));
    assert_eq!((editor.r, editor.c), before);
}

#[test]
fn places_in_all_files_are_shown() {
    let mut editor = editor_on("one two\nthree two\n");
    for c in "two".chars() {
        editor.handle_search_event(Key::Char(c), PLAIN, None);
    }
    let found = |line: usize, column: usize| SearchResult { line, column, preview: None };
    let results = vec![
        ("/work/main.py".to_string(), found(2, 6)),
        ("/work/closed.py".to_string(), found(1, 0)),
        ("/work/main.py".to_string(), found(0, 0)),
    ];
    let saved = editor.save_view();
    let mut popup = ListPopup::new();

    assert!(matches!(editor.show_global_result(&mut popup, &results), Jump::Done));
    assert_eq!((editor.r, editor.c), (1, 6));
    assert_eq!(editor.selection.from(), (1, 6));
    assert_eq!(editor.selection.to(), (1, 9));

    assert_eq!(editor.hanle_global_search(&mut popup, Key::Down, PLAIN, 3, &saved), ListStep::Stay);
    match editor.show_global_result(&mut popup, &results) {
        Jump::NeedsFile(path) => assert_eq!(path, "/work/closed.py"),
        other => panic!("{:?}", other),
    }
    editor.hanle_global_search(&mut popup, Key::Down, PLAIN, 3, &saved);
    assert!(matches!(editor.show_global_result(&mut popup, &results), Jump::Nowhere));

    assert_eq!(
        editor.hanle_global_search(&mut popup, Key::Enter, PLAIN, 3, &saved),
        ListStep::Accept(2)
    );
    assert_eq!(editor.hanle_global_search(&mut popup, Key::Esc, PLAIN, 3, &saved), ListStep::Cancel);
    assert_eq!((editor.r, editor.c), (0, 0));
    assert!(editor.selection.empty());
}

#[test]
fn search_line_shows_what_it_finds() {
    let mut editor = editor_on("ab cd\nab\n");
    let saved = editor.save_view();
    assert!(!editor.start_search());
    assert_eq!(
        editor.handle_local_search(Key::Char('a'), PLAIN, None, &saved),
        SearchStep::Continue
    );
    assert_eq!((editor.r, editor.c), (0, 1));
    assert!(editor.selection.is_selected(0, 0));
    editor.handle_local_search(Key::Down, PLAIN, None, &saved);
    assert_eq!((editor.r, editor.c), (1, 1));
    editor.handle_local_search(Key::Char('v'), CONTROL, Some("b"), &saved);
    // the place nearest to the cursor is chosen
    assert_eq!(editor.search_line(), "search: ab 2/2");
    assert_eq!((editor.r, editor.c), (1, 2));

    assert_eq!(editor.handle_local_search(Key::Enter, PLAIN, None, &saved), SearchStep::End);
    assert!(!editor.search.active);
    assert_eq!((editor.r, editor.c), (1, 2));

    assert!(editor.start_search());
    editor.handle_local_search(Key::Down, PLAIN, None, &saved);
    assert_eq!((editor.r, editor.c), (0, 2));
    assert_eq!(editor.handle_local_search(Key::Esc, PLAIN, None, &saved), SearchStep::End);
    assert_eq!((editor.r, editor.c), (0, 0));
    assert!(!editor.search.active);
    assert_eq!(
        editor.handle_local_search(Key::Char('g'), CONTROL, None, &saved),
        SearchStep::Global
    );
}

#[test]
fn commands_are_carried_out() {
    let mut editor = editor_on("    one\ntwo\n");
    editor.c = 7;
    match editor.run(Command::Enter) {
        KeyOutcome::Changed(changes) => {
            assert_eq!(changes.len(), 2);
            assert_eq!(changes[0].text, "\n");
            assert_eq!(changes[1].text, "    ");
        }
        other => panic!("{:?}", other),
    }
    assert_eq!(text_in(&editor), "    one\n    \ntwo\n");
    assert_eq!((editor.r, editor.c), (1, 4));

    assert!(matches!(editor.run(Command::Move(Direction::Down)), KeyOutcome::Done));
    assert_eq!((editor.r, editor.c), (2, 3));
    assert!(matches!(editor.run(Command::ExtendSelection(Some(Direction::Left))), KeyOutcome::Done));
    assert_eq!(editor.selection.from(), (2, 2));
    assert_eq!(editor.selection.to(), (2, 3));
    match editor.run(Command::Copy) {
        KeyOutcome::Copy(text) => assert_eq!(text.as_deref(), Some("o")),
        other => panic!("{:?}", other),
    }
    match editor.run(Command::Cut) {
        KeyOutcome::Cut(text, changes) => {
            assert_eq!(text.as_deref(), Some("o"));
            assert_eq!(changes.len(), 1);
        }
        other => panic!("{:?}", other),
    }
    assert_eq!(text_in(&editor), "    one\n    \ntw\n");
    assert!(matches!(editor.run(Command::Save), KeyOutcome::Save(true)));
    assert!(matches!(editor.run(Command::Save), KeyOutcome::Save(false)));
    assert!(matches!(editor.run(Command::Quit), KeyOutcome::Quit));
    assert!(matches!(editor.run(Command::Nothing), KeyOutcome::Done));
    assert!(matches!(editor.run(Command::Idle), KeyOutcome::Done));
    assert!(matches!(editor.run(Command::Hover), KeyOutcome::Hover));
    assert_eq!(text_in(&editor), "    one\n    \ntw\n");
}
