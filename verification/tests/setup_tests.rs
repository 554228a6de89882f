use red::config::{Config, IndentConfig, LanguageConf};
use red::editor::Editor;
use red::lists::{
    error_label, frame_label, global_results, hover_text, reference_label, search_label,
    HoverContents,
};
use red::editor::Diagnostic;
use red::popup::ListPopup;
use red::code::Code;
use red::process::Process;
use red::screen::Color;
use red::search::{file_result, is_searched, search_on_line, FileSearchResult, SearchResult};
use red::setup::{
    detect_language, join_spaced, lsp_command, split_command, theme_pairs, yaml_to_map, LspManager,
};

fn lang(name: &str, types: &[&str], lsp: Option<&[&str]>) -> LanguageConf {
    LanguageConf {
        name: name.to_string(),
        types: types.iter().map(|t| t.to_string()).collect(),
        comment: "#".to_string(),
        lsp: lsp.map(|l| l.iter().map(|w| w.to_string()).collect()),
        indent: IndentConfig { width: 2, unit: " ".to_string() },
        executable: None,
        exec_cmd: None,
        exectest: None,
    }
}

fn config() -> Config {
    Config {
        theme: "t.yml".to_string(),
        left_panel_width: Some(30),
        language: vec![
            lang("docker", &["Dockerfile", ".docker"], None),
            lang("python", &[".py"], Some(&["pyright-langserver", "--stdio"])),
            lang("strange", &[".weird", ".py"], Some(&["one"])),
        ],
    }
}

#[test]
fn languages_are_told_by_the_path() {
    let conf = config();
    assert_eq!(detect_language("src/main.rs", &conf), "rust");
    assert_eq!(detect_language("a/b.PY", &conf), "python");
    assert_eq!(detect_language("x.hpp", &conf), "cpp");
    assert_eq!(detect_language("dir/Dockerfile", &conf), "docker");
    assert_eq!(detect_language("x.weird", &conf), "strange");
    assert_eq!(detect_language("notes", &conf), "text");
    assert_eq!(detect_language("", &conf), "text");
}

#[test]
fn server_commands() {
    let conf = config();
    assert_eq!(lsp_command(&conf, "python"), Some("pyright-langserver --stdio".to_string()));
    assert_eq!(lsp_command(&conf, "docker"), None);
    assert_eq!(lsp_command(&conf, "cobol"), None);
    assert_eq!(join_spaced(&vec![]), "");
    assert_eq!(join_spaced(&vec!["a".to_string()]), "a");
    let (program, args) = split_command("pyright-langserver --stdio  -v");
    assert_eq!(program, "pyright-langserver");
    assert_eq!(args, vec!["--stdio", "", "-v"]);
    assert_eq!(split_command("gopls"), ("gopls".to_string(), Vec::<String>::new()));
    assert_eq!(split_command(""), ("".to_string(), Vec::<String>::new()));
    assert_eq!(split_command("a "), ("a".to_string(), vec!["".to_string()]));

    let mut manager = LspManager::new(config());
    assert_eq!(manager.get("docker"), None);
    assert_eq!(manager.get("python"), Some((0, Some("pyright-langserver --stdio".to_string()))));
    assert_eq!(manager.get("python"), Some((0, None)));
    assert_eq!(manager.get("strange"), Some((1, Some("one".to_string()))));
    assert_eq!(manager.servers[1].lang, "strange");
}

#[test]
fn themes_are_read_from_yaml() {
    let text = "keyword: '#ff0000'\nlncolor: \"#102030\"\nnumber: 12\n7: '#000000'\ndircolor: '#0a0b0c'\nbad: no\nodd: nothing\n";
    let pairs = theme_pairs(text).unwrap();
    assert_eq!(
        pairs,
        vec![
            ("keyword".to_string(), "#ff0000".to_string()),
            ("lncolor".to_string(), "#102030".to_string()),
            ("dircolor".to_string(), "#0a0b0c".to_string()),
            ("bad".to_string(), "no".to_string()),
            ("odd".to_string(), "nothing".to_string()),
        ]
    );
    assert_eq!(theme_pairs("just a string").unwrap(), vec![]);
    assert!(theme_pairs("a: [unclosed").is_none());
    assert_eq!(
        yaml_to_map(Some(vec![
            (Some("a".to_string()), Some("b".to_string())),
            (None, Some("c".to_string())),
            (Some("d".to_string()), None),
        ])),
        vec![("a".to_string(), "b".to_string())]
    );
    assert_eq!(yaml_to_map(None), vec![]);
    assert_eq!(yaml_to_map(Some(vec![])), vec![]);

    let mut editor = Editor::new(config());
    let panel = editor.configure_theme(&pairs);
    assert_eq!(editor.lncolor, Color::Rgb { r: 0x10, g: 0x20, b: 0x30 });
    assert_eq!(editor.scolor, Color::AnsiValue(247));
    assert_eq!(editor.lbcolor, Color::AnsiValue(87));
    assert_eq!(panel.dir, Color::Rgb { r: 10, g: 11, b: 12 });
    assert_eq!(panel.file, Color::Reset);
    assert_eq!(editor.theme.get("keyword"), Some(Color::Rgb { r: 255, g: 0, b: 0 }));
    assert_eq!(editor.theme.get("bad"), None);
    // what spells no number counts as 0
    assert_eq!(editor.theme.get("odd"), Some(Color::Rgb { r: 0, g: 0, b: 0 }));
}

#[test]
fn searching_lines_of_files() {
    let found = search_on_line("let aa = aaa; // \u{e9}aa", 7, "aa");
    let places: Vec<_> = found.iter().map(|r| (r.line, r.column)).collect();
    assert_eq!(places, vec![(7, 4), (7, 9), (7, 18)]);
    assert_eq!(found[0].preview.as_deref(), Some("let aa = aaa; // \u{e9}aa"));
    assert!(search_on_line("nothing here", 1, "zz").is_empty());
    assert!(file_result("p".to_string(), Vec::new()).is_none());
    let kept = file_result("p".to_string(), found).unwrap();
    assert_eq!((kept.file_path.as_str(), kept.search_results.len()), ("p", 3));

    assert!(is_searched("main.rs", false, Some("rs")));
    assert!(is_searched("src", true, None));
    assert!(!is_searched(".hidden", true, None));
    assert!(!is_searched("target", true, None));
    assert!(!is_searched("photo.png", false, Some("png")));
    assert!(!is_searched("makefile", false, None));

    let result = |line, column| SearchResult { line, column, preview: None };
    let all = global_results(vec![
        FileSearchResult { file_path: "a".to_string(), search_results: vec![result(1, 2), result(3, 4)] },
        FileSearchResult { file_path: "b".to_string(), search_results: vec![result(5, 6)] },
    ]);
    let flat: Vec<_> = all.iter().map(|(p, r)| (p.as_str(), r.line, r.column)).collect();
    assert_eq!(flat, vec![("a", 1, 2), ("a", 3, 4), ("b", 5, 6)]);
}

#[test]
fn labels_of_lists() {
    assert_eq!(frame_label("ab", 4, 10), " ab   ");
    assert_eq!(frame_label("abcdef", 4, 5), " abcd");
    assert_eq!(frame_label("ab", 4, 0), "");
    assert_eq!(reference_label(0, 3, "/w/a.py", 10, 4), "1/3 /w/a.py:10 4");
    let d = Diagnostic {
        line: 3,
        character: 7,
        end_line: 3,
        end_character: 9,
        severity: None,
        message: "unexpected\ntoken here".to_string(),
    };
    assert_eq!(error_label(1, 12, &d, 80), "2/12 3:7 unexpected token here");
    assert_eq!(error_label(1, 12, &d, 15), "2/12 3:7 unexpe");
    assert_eq!(error_label(1, 12, &d, 2), "2/12 3:7 ");
    let r = SearchResult { line: 4, column: 0, preview: None };
    assert_eq!(search_label(9, 10, "/long/path.rs", &r, 80), "10/10 4:0  /long/path.rs");
    assert_eq!(search_label(9, 10, "/long/path.rs", &r, 15), "10/10 4:0  /long");
    assert_eq!(hover_text(&HoverContents::Scalar("one".to_string())), "one");
    assert_eq!(hover_text(&HoverContents::Markup("# md".to_string())), "# md");
    assert_eq!(
        hover_text(&HoverContents::Array(vec!["a".to_string(), "b".to_string(), "".to_string()])),
        "a\nb\n"
    );
    assert_eq!(hover_text(&HoverContents::Array(vec![])), "");
}

#[test]
fn rows_of_popups() {
    let conf = config();
    let code = Code::from_file(
        "one\ntwo words",
        "f".to_string(),
        "/f".to_string(),
        "text".to_string(),
        &conf,
        &Vec::new(),
    )
    .unwrap();
    let mut editor = Editor::new(conf);
    editor.resize(60, 10);
    editor.load_file(code);
    editor.r = 1;
    editor.c = 6;
    let labels: Vec<String> = ["alpha", "be", "gamma", "d"].iter().map(|s| s.to_string()).collect();
    let rows = editor.popup_rows(&labels, &ListPopup { selected: 2, offset: 1 }, 2);
    assert_eq!(rows.len(), 2);
    assert_eq!((rows[0].row, rows[0].col, rows[0].entry, rows[0].selected), (2, 10, 1, false));
    assert_eq!(rows[0].text, " be    ");
    assert_eq!((rows[1].row, rows[1].entry, rows[1].selected), (3, 2, true));
    assert_eq!(rows[1].text, " gamma ");
    let rows = editor.list_rows_of(&labels, &ListPopup { selected: 3, offset: 2 }, 3, 6);
    assert_eq!(rows.len(), 2);
    assert_eq!((rows[1].row, rows[1].col, rows[1].text.as_str(), rows[1].selected), (7, 0, "d", true));
}

#[test]
fn process_remembers_the_last_command() {
    let mut process = Process::new();
    assert_eq!(process.last_command(), None);
    process.remember("cargo test");
    assert_eq!(process.last_command(), Some("cargo test".to_string()));
    assert_eq!(process.last_cmd, "cargo test");
}
