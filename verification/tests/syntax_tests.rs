use red::code::{file_runnable, test_runnable, Code};
use red::config::{Config, IndentConfig, LanguageConf};
use red::screen::Color;
use red::syntax::{
    injected_language, name_head, order_spans, shift_spans, Grammar, NodePath, Span, Theme,
};

fn grammars() -> Vec<Grammar> {
    vec![
        Grammar {
            name: "html".to_string(),
            language: tree_sitter_html::LANGUAGE.into(),
            highlights: Some(
                "(tag_name) @tag\n(script_element (raw_text) @injection.content.javascript)\n"
                    .to_string(),
            ),
            tests: None,
        },
        Grammar {
            name: "javascript".to_string(),
            language: tree_sitter_javascript::LANGUAGE.into(),
            highlights: Some(
                "(number) @number\n\"const\" @keyword.storage\n(string) @string\n".to_string(),
            ),
            tests: None,
        },
        Grammar {
            name: "python".to_string(),
            language: tree_sitter_python::LANGUAGE.into(),
            highlights: Some(
                "\"def\" @keyword\n(function_definition name: (identifier) @function)\n(integer) @number\n(call function: (identifier) @function.call)\n"
                    .to_string(),
            ),
            tests: Some(
                "((function_definition name: (identifier) @test) (#match? @test \"^test_\"))\n"
                    .to_string(),
            ),
        },
        Grammar {
            name: "broken".to_string(),
            language: tree_sitter_python::LANGUAGE.into(),
            highlights: Some("(no_such_node) @x".to_string()),
            tests: None,
        },
    ]
}

fn config() -> Config {
    Config {
        theme: String::new(),
        left_panel_width: None,
        language: vec![LanguageConf {
            name: "python".to_string(),
            types: vec![".py".to_string()],
            comment: "#".to_string(),
            lsp: None,
            indent: IndentConfig { width: 4, unit: " ".to_string() },
            executable: Some(true),
            exec_cmd: Some("python3 {file}".to_string()),
            exectest: Some("pytest {file}::{test}".to_string()),
        }],
    }
}

fn theme() -> Theme {
    let mut theme = Theme::new();
    assert!(theme.insert("keyword", "#ff0000"));
    assert!(theme.insert("function", "#00ff00"));
    assert!(theme.insert("number", "#0000ff"));
    assert!(theme.insert("string", "#808080"));
    assert!(theme.insert("tag", "#010203"));
    assert!(!theme.insert("broken", "red"));
    theme
}

fn open(text: &str, lang: &str, path: &str) -> Code {
    Code::from_file(
        text,
        "f".to_string(),
        path.to_string(),
        lang.to_string(),
        &config(),
        &grammars(),
    )
    .unwrap()
}

const RED: Color = Color::Rgb { r: 255, g: 0, b: 0 };
const GREEN: Color = Color::Rgb { r: 0, g: 255, b: 0 };
const BLUE: Color = Color::Rgb { r: 0, g: 0, b: 255 };
const GREY: Color = Color::Rgb { r: 128, g: 128, b: 128 };

#[test]
fn theme_lookup() {
    let mut t = theme();
    assert_eq!(t.get("keyword"), Some(RED));
    assert_eq!(t.get("broken"), None);
    assert_eq!(t.get("nothing"), None);
    assert!(t.insert("keyword", "#0000ff"));
    assert_eq!(t.get("keyword"), Some(BLUE));
    assert_eq!(t.get("function"), Some(GREEN));
}

#[test]
fn capture_names() {
    assert_eq!(name_head("keyword.function"), "keyword");
    assert_eq!(name_head("string"), "string");
    assert_eq!(name_head(".x"), "");
    assert_eq!(injected_language("injection.content.javascript"), Some("javascript".to_string()));
    assert_eq!(injected_language("injection.content."), Some("".to_string()));
    assert_eq!(injected_language("injection.content"), None);
    assert_eq!(injected_language("keyword"), None);
}

fn span(start: usize, end: usize, index: usize) -> Span {
    Span { start, end, index, color: Color::Reset }
}

#[test]
fn spans_are_ordered_and_shifted() {
    let spans = vec![span(0, 2, 0), span(0, 10, 1), span(3, 5, 7), span(4, 14, 0), span(6, 8, 7)];
    let ordered: Vec<_> =
        order_spans(spans).iter().map(|s| (s.start, s.end, s.index)).collect();
    assert_eq!(ordered, vec![(0, 10, 1), (4, 14, 0), (3, 5, 7), (6, 8, 7), (0, 2, 0)]);
    let shifted: Vec<_> = shift_spans(&vec![span(0, 2, 3), span(5, usize::MAX, 1)], 100)
        .iter()
        .map(|s| (s.start, s.end, s.index))
        .collect();
    assert_eq!(shifted, vec![(100, 102, 3), (105, usize::MAX, 1)]);
}

#[test]
fn plain_text_has_no_colours() {
    let mut code = open("def f(): pass", "text", "/t.txt");
    assert!(code.syntax.is_none());
    assert!(code.highlight_interval(0, 13, &theme()).is_empty());
    assert!(code.get_node_path(0, 4).is_none());
}

#[test]
fn highlights_come_longest_first() {
    let mut code = open("def f():\n    return g(42)\n", "python", "/a.py");
    let spans = code.highlight_interval(0, 26, &theme());
    // of spans of one length the one of the later capture comes first
    assert_eq!(spans, vec![(0, 3, RED), (22, 24, BLUE), (20, 21, GREEN), (4, 5, GREEN)]);
    // only matches that reach into the range are looked at
    let spans = code.highlight_interval(9, 26, &theme());
    assert_eq!(spans, vec![(22, 24, BLUE), (20, 21, GREEN), (4, 5, GREEN)]);
    let spans = code.highlight_interval(0, 2, &theme());
    assert_eq!(spans, vec![(0, 3, RED), (4, 5, GREEN)]);

    // the tree follows the edits
    code.insert_text("x = 7\n", 0, 0);
    let spans = code.highlight_interval(0, 6, &theme());
    assert_eq!(spans, vec![(4, 5, BLUE)]);
    code.undo();
    let spans = code.highlight_interval(0, 8, &theme());
    assert_eq!(spans, vec![(0, 3, RED), (4, 5, GREEN)]);
}

#[test]
fn injected_language_is_coloured_in_place() {
    let text = "<p>a</p><script>const n = 42; \"s\"</script>";
    let mut code = open(text, "html", "/a.html");
    let spans = code.highlight_interval(0, text.len(), &theme());
    let script = text.find("const").unwrap();
    assert_eq!(script, 16);
    // what the grammar of the script finds lies where the script lies
    assert!(spans.contains(&(script, script + 5, RED)));
    assert!(spans.contains(&(script + 10, script + 12, BLUE)));
    assert!(spans.contains(&(script + 14, script + 17, GREY)));
    let tag = Color::Rgb { r: 1, g: 2, b: 3 };
    assert!(spans.contains(&(1, 2, tag)));
    assert!(spans.contains(&(9, 15, tag)));
    assert_eq!(spans.len(), 7);
    assert_eq!(spans[0], (9, 15, tag));
    assert_eq!(spans[1], (35, 41, tag));
    assert_eq!(spans[2], (script, script + 5, RED));
}

#[test]
fn a_query_that_is_refused_leaves_no_colours() {
    let mut code = open("x = 1", "broken", "/b");
    assert!(code.syntax.is_some());
    assert!(code.highlight_interval(0, 5, &theme()).is_empty());
}

#[test]
fn runnable_lines() {
    let text = "import x\n\ndef test_one():\n    pass\n\ndef helper():\n    pass\n\ndef test_two():\n    pass\n";
    let mut code = open(text, "python", "/work/t.py");
    assert!(code.is_runnable(0));
    assert_eq!(code.get_runnable(0).unwrap().cmd, "python3 /work/t.py");
    assert!(code.is_runnable(2));
    assert_eq!(code.get_runnable(2).unwrap().cmd, "pytest /work/t.py::test_one");
    assert!(!code.is_runnable(5));
    assert_eq!(code.get_runnable(8).unwrap().row, 8);
    assert!(code.get_runnable(3).is_none());

    // an edit finds the lines anew
    code.insert_text("\n", 0, 0);
    assert!(code.is_runnable(3));
    assert!(!code.is_runnable(2));
    assert!(code.is_runnable(9));
    code.remove_text(3, 4, 3, 9);
    assert!(!code.is_runnable(3));

    let plain = open(text, "text", "/work/t.txt");
    assert!(!plain.is_runnable(0));
}

#[test]
fn runnable_commands() {
    let r = file_runnable("python3 {file}", "test.py").unwrap();
    assert_eq!((r.cmd.as_str(), r.row), ("python3 test.py", 0));
    let r = test_runnable("go test -run {test} {file}", "TestX", "a_test.go", 12).unwrap();
    assert_eq!((r.cmd.as_str(), r.row), ("go test -run TestX a_test.go", 12));
    assert!(file_runnable("run {other}", "f").is_none());
    assert!(file_runnable("run {file", "f").is_none());
    assert_eq!(file_runnable("make", "f").unwrap().cmd, "make");
}

#[test]
fn node_path_grows_and_shrinks() {
    let code = open("def f():\n    return g(42)\n", "python", "/a.py");
    let mut path = code.get_node_path(1, 14).unwrap();
    assert_eq!((path.row, path.column), (1, 14));
    // the number, its argument list, the call, the return, the body, the
    // function and the module
    assert_eq!(path.nodes[0], ((1, 13), (1, 15)));
    assert_eq!(path.nodes[1], ((1, 12), (1, 16)));
    assert_eq!(path.nodes[2], ((1, 11), (1, 16)));
    assert_eq!(*path.nodes.last().unwrap(), ((0, 0), (2, 0)));
    assert_eq!(path.current_node(), Some(&((1, 13), (1, 15))));
    assert!(path.prev_node().is_none());
    assert_eq!(path.next_node(), Some(&((1, 12), (1, 16))));
    assert_eq!(path.prev_node(), Some(&((1, 13), (1, 15))));
    for _ in 0..20 {
        path.next_node();
    }
    assert_eq!(path.current_node(), Some(&((0, 0), (2, 0))));

    let mut empty = NodePath::new(0, 0, Vec::new());
    assert!(empty.current_node().is_none());
    assert!(empty.prev_node().is_none());
}

#[test]
fn structural_selection_follows_the_tree() {
    let mut editor = red::editor::Editor::new(config());
    editor.resize(80, 24);
    editor.load_file(open("def f():\n    return g(42)\n", "python", "/a.py"));
    editor.r = 1;
    editor.c = 14;

    editor.select_more();
    assert_eq!(editor.selection.from(), (1, 13));
    assert_eq!(editor.selection.to(), (1, 15));
    editor.select_more();
    assert_eq!(editor.selection.from(), (1, 12));
    assert_eq!(editor.selection.to(), (1, 16));
    editor.select_less();
    assert_eq!(editor.selection.from(), (1, 13));
    assert_eq!(editor.selection.to(), (1, 15));
    editor.select_less();
    assert!(editor.selection.empty());
    assert_eq!((editor.r, editor.c), (1, 14));

    // another place of the cursor has another chain
    editor.c = 5;
    editor.select_more();
    assert_eq!(editor.selection.from(), (1, 4));
    assert_eq!(editor.selection.to(), (1, 16));

    let mut plain = red::editor::Editor::new(config());
    plain.load_file(open("x y", "text", "/a.txt"));
    plain.select_more();
    assert!(plain.selection.empty());
    assert!(plain.node_path.is_none());
}

#[test]
fn tests_are_added_to_the_runnables() {
    let mut found = vec![file_runnable("python3 {file}", "/t.py").unwrap()];
    let tests = vec![
        ("test_a".to_string(), 4),
        ("test_b".to_string(), 0),
        ("test_c".to_string(), 4),
    ];
    red::code::add_tests(&mut found, "pytest {file}::{test}", "/t.py", &tests);
    let got: Vec<(&str, usize)> = found.iter().map(|r| (r.cmd.as_str(), r.row)).collect();
    // a test on the line of another runnable takes its place
    assert_eq!(got, vec![("pytest /t.py::test_b", 0), ("pytest /t.py::test_c", 4)]);
    red::code::add_tests(&mut found, "pytest {nothing}", "/t.py", &tests);
    assert_eq!(found.len(), 2);
}

const RUST_QUERY: &str = r#"
        [
          (string_literal)
          (raw_string_literal)
        ] @string

        (function_item
            name: (identifier) @function)

        "fn" @keyword.function
        "#;

fn rust(text: &str) -> Code {
    let grammars = vec![Grammar {
        name: "rust".to_string(),
        language: tree_sitter_rust::LANGUAGE.into(),
        highlights: Some(RUST_QUERY.to_string()),
        tests: None,
    }];
    Code::from_file(
        text,
        "f.rs".to_string(),
        "/f.rs".to_string(),
        "rust".to_string(),
        &config(),
        &grammars,
    )
    .unwrap()
}

#[test]
fn test_tree_sitter_walk() {
    let source_code = r"
        fn test() {
            let a = 5;
        }
        ";
    let code = rust(source_code);
    // from the number up to the file
    let path = code.get_node_path(2, 20).unwrap();
    assert_eq!(path.nodes[0], ((2, 20), (2, 21)));
    assert_eq!(path.nodes[1], ((2, 12), (2, 22)));
    assert_eq!(path.nodes[2], ((1, 18), (3, 9)));
    assert_eq!(path.nodes[3], ((1, 8), (3, 9)));
    assert_eq!(path.nodes.len(), 5);
    assert_eq!(path.nodes[4].0, (1, 8));
}

#[test]
fn test_tree_sitter_query() {
    let source_code = r#"
            fn foo() {
                let x = 42;
                println!("Hello, world!");
            }
        "#;
    let mut code = rust(source_code);
    let spans = code.highlight_interval(0, 38, &theme());
    assert_eq!(spans, vec![(16, 19, GREEN), (13, 15, RED)]);
}

#[test]
fn test_tree_sitter_colors_ranges() {
    let source_code = r#"
fn foo() {
    let x = 42;
    println!("Hello, world!");
}
        "#;
    let mut code = rust(source_code);
    let spans = code.highlight_interval(0, source_code.len(), &theme());
    assert_eq!(spans, vec![(41, 56, GREY), (4, 7, GREEN), (1, 3, RED)]);
    assert_eq!(&source_code[41..56], "\"Hello, world!\"");
}

#[test]
fn test_strfmt() {
    let template = "python3 {file}";

    let mut vars = std::collections::HashMap::new();
    vars.insert("file".to_string(), "test.py");
    vars.insert("job".to_string(), "python developer");

    let res = strfmt::strfmt(template, &vars).unwrap();
    println!("res {}", res);
    assert_eq!(res, "python3 test.py");

    let given = vec![
        ("file".to_string(), "test.py".to_string()),
        ("job".to_string(), "python developer".to_string()),
    ];
    let run = red::code::runnable_with(template, &given, 0).unwrap();
    assert_eq!(run.cmd, res);
    assert_eq!(run.row, 0);
    let run = file_runnable(template, "test.py").unwrap();
    assert_eq!(run.cmd, res);
    assert!(red::code::runnable_with("python3 {file} {who}", &given, 0).is_none());
}

#[test]
fn node_text_is_cut_between_characters() {
    // the second character takes two bytes, the third three
    let rope = ropey::Rope::from_str("a\u{e9}\u{4f60}b");
    assert_eq!(red::syntax::node_text(&rope, 0, 7), "a\u{e9}\u{4f60}b");
    assert_eq!(red::syntax::node_text(&rope, 1, 3), "\u{e9}");
    assert_eq!(red::syntax::node_text(&rope, 3, 6), "\u{4f60}");
    assert_eq!(red::syntax::node_text(&rope, 6, 6), "");
    // within a character, behind the end, or the wrong way round
    assert_eq!(red::syntax::node_text(&rope, 0, 2), "");
    assert_eq!(red::syntax::node_text(&rope, 4, 7), "");
    assert_eq!(red::syntax::node_text(&rope, 0, 8), "");
    assert_eq!(red::syntax::node_text(&rope, 3, 1), "");
}

#[test]
fn injections_need_their_grammars() {
    let plain = vec!["keyword".to_string(), "string".to_string()];
    let (parsers, queries) = red::syntax::build_injections(&plain, &grammars()).unwrap();
    assert!(parsers.is_empty() && queries.is_empty());

    let one = vec![
        "tag".to_string(),
        "injection.content.javascript".to_string(),
        "injection.content.python".to_string(),
        "injection.content.javascript".to_string(),
    ];
    let (parsers, queries) = red::syntax::build_injections(&one, &grammars()).unwrap();
    assert_eq!(parsers.len(), 2);
    let names: Vec<&str> = queries.iter().map(|q| q.0.as_str()).collect();
    assert_eq!(names, vec!["javascript", "python"]);

    let unknown = vec!["injection.content.cobol".to_string()];
    assert!(red::syntax::build_injections(&unknown, &grammars()).is_none());
    // a grammar whose query is refused
    let broken = vec!["injection.content.broken".to_string()];
    assert!(red::syntax::build_injections(&broken, &grammars()).is_none());
}

#[test]
fn spans_of_captures_are_gathered_in_their_order() {
    let capture = |start: usize, end: usize, index: usize, name: &str| {
        red::syntax::Capture::new(start, end, 0, index, name)
    };
    let captures = vec![
        capture(0, 3, 1, "keyword.function"),
        capture(4, 9, 2, "injection.content.javascript"),
        capture(4, 5, 0, "nothing"),
        capture(6, 8, 3, "number"),
    ];
    let rope = ropey::Rope::from_str("def f 42x");
    let mut parsers = Vec::new();
    let found =
        red::syntax::gather_spans(&captures, &rope, &theme(), &mut parsers, &Vec::new(), 0);
    let got: Vec<(usize, usize, usize, Color)> =
        found.iter().map(|s| (s.start, s.end, s.index, s.color)).collect();
    assert_eq!(got, vec![(0, 3, 1, RED), (6, 8, 3, BLUE)]);
}

#[test]
fn a_chain_keeps_only_the_spans_that_grow() {
    let chain = vec![
        ((1, 2), (1, 5)),
        ((1, 2), (1, 5)),
        ((1, 0), (1, 5)),
        ((1, 0), (1, 5)),
        ((0, 0), (3, 0)),
        ((0, 0), (3, 0)),
    ];
    assert_eq!(
        red::syntax::widen(&chain),
        vec![((1, 2), (1, 5)), ((1, 0), (1, 5)), ((0, 0), (3, 0))]
    );
    // a span that does not hold the last one kept is left out
    let odd = vec![((1, 2), (1, 5)), ((2, 0), (2, 1)), ((1, 3), (1, 9)), ((0, 0), (9, 9))];
    assert_eq!(red::syntax::widen(&odd), vec![((1, 2), (1, 5)), ((0, 0), (9, 9))]);
    assert_eq!(red::syntax::widen(&vec![((4, 4), (4, 4))]), vec![((4, 4), (4, 4))]);
    assert_eq!(red::syntax::widen(&Vec::new()), Vec::new());
    assert!(red::syntax::place_not_after((1, 9), (2, 0)));
    assert!(red::syntax::place_not_after((1, 9), (1, 9)));
    assert!(!red::syntax::place_not_after((2, 0), (1, 9)));
}

#[test]
fn the_node_path_grows_at_every_step() {
    let text = "def f():\n    return g(42)\n\nclass A:\n    def m(self):\n        pass\n";
    let code = open(text, "python", "/a.py");
    for (row, line) in text.lines().enumerate() {
        for column in 0..=line.len() {
            let path = code.get_node_path(row, column).unwrap();
            assert!(!path.nodes.is_empty());
            assert_eq!(path.current, 0);
            for pair in path.nodes.windows(2) {
                let (inner, outer) = (pair[0], pair[1]);
                assert!(outer.0 <= inner.0 && inner.1 <= outer.1);
                assert_ne!(inner, outer);
            }
            assert_eq!(*path.nodes.last().unwrap(), ((0, 0), (6, 0)));
        }
    }
    // behind the text the chain still has the root
    let far = code.get_node_path(100, 0).unwrap();
    assert!(!far.nodes.is_empty());
    assert!(Code::from_str(text).get_node_path(0, 0).is_none());
}
