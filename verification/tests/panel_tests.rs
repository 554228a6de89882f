use red::keys::PanelCommand;
use red::panel::{first_file, row_at, row_count, text_of_row, toggle_row, PanelAsk, TreeView};
use red::screen::Color;
use red::setup::PanelColors;
use red::tree::TreeNode;

fn file(name: &str, dir: &str) -> TreeNode {
    TreeNode::new(name.to_string(), format!("{}/{}", dir, name), true)
}

fn dir(name: &str, parent: &str, entries: Vec<TreeNode>) -> TreeNode {
    let mut node = TreeNode::new(name.to_string(), format!("{}/{}", parent, name), false);
    node.expand_with(entries);
    node
}

/// work: src (lib.rs, main.rs), tests (hidden), a.txt, b.rs
fn tree() -> TreeNode {
    let src = dir("src", "/work", vec![file("main.rs", "/work/src"), file("lib.rs", "/work/src")]);
    let tests = TreeNode::new("tests".to_string(), "/work/tests".to_string(), false);
    let mut root = TreeNode::new("work".to_string(), "/work".to_string(), false);
    root.expand_with(vec![file("b.rs", "/work"), tests, file("a.txt", "/work"), src]);
    root
}

fn names(panel: &TreeView) -> Vec<String> {
    let mut all = Vec::new();
    let mut i = 0;
    while let Some((node, depth)) = row_at(&panel.root, i) {
        all.push(format!("{}{}", " ".repeat(depth), node.name));
        i += 1;
    }
    all
}

#[test]
fn rows_are_counted_and_found() {
    let root = tree();
    assert_eq!(row_count(&root), 7);
    let (node, depth) = row_at(&root, 2).unwrap();
    assert_eq!((node.name.as_str(), depth), ("lib.rs", 2));
    let (node, depth) = row_at(&root, 6).unwrap();
    assert_eq!((node.name.as_str(), depth), ("b.rs", 1));
    assert!(row_at(&root, 7).is_none());
    assert_eq!(first_file(&root), 2);
    let empty = TreeNode::new("d".to_string(), "/d".to_string(), false);
    assert_eq!(first_file(&empty), 0);
    assert_eq!(row_count(&empty), 1);
}

#[test]
fn the_chosen_row_and_the_view_move() {
    let mut panel = TreeView::new(tree());
    assert_eq!((panel.width, panel.height, panel.selected, panel.x), (25, 30, 0, 0));
    panel.handle_up();
    assert_eq!(panel.selected, 0);
    for _ in 0..10 {
        panel.handle_down();
    }
    assert_eq!(panel.selected, 6);
    panel.handle_up();
    assert_eq!(panel.selected, 5);
    assert_eq!(panel.get_selected().unwrap().name, "a.txt");

    panel.set_height(3);
    panel.scroll_up();
    assert_eq!(panel.x, 0);
    for _ in 0..10 {
        panel.scroll_down();
    }
    assert_eq!(panel.x, 4);
    assert_eq!(panel.find(1).unwrap().0.name, "a.txt");
    assert!(panel.find(3).is_none());
    panel.set_selected(2);
    assert_eq!(panel.selected, 6);
    panel.scroll_up();
    assert_eq!(panel.x, 3);
    panel.set_scroll(0);
    assert_eq!(panel.x, 0);
}

#[test]
fn rows_are_painted_as_wide_as_the_panel() {
    assert_eq!(text_of_row("name", 1, 10), "  name   ");
    assert_eq!(text_of_row("a-long-name", 0, 8), " a-long");
    assert_eq!(text_of_row("deep", 9, 6), "     ");
    assert_eq!(text_of_row("x", 0, 0), "");
    assert_eq!(text_of_row("", 0, 4), "   ");

    let mut panel = TreeView::new(tree());
    panel.set_width(10);
    panel.set_height(8);
    panel.set_colors(PanelColors { dir: Color::Blue, file: Color::Grey, active_file: Color::Red });
    panel.set_active("/work/src/main.rs".to_string());
    panel.set_selected(6);
    let rows = panel.rows_to_paint();
    let texts: Vec<&str> = rows.iter().map(|r| r.text.as_str()).collect();
    assert_eq!(
        texts,
        vec![
            " work    ",
            "  src    ",
            "   lib.rs",
            "   main.r",
            "  tests  ",
            "  a.txt  ",
            "  b.rs   ",
            "         ",
        ]
    );
    let colors: Vec<Color> = rows.iter().map(|r| r.color).collect();
    assert_eq!(
        colors,
        vec![
            Color::Blue,
            Color::Blue,
            Color::Grey,
            Color::Red,
            Color::Blue,
            Color::Grey,
            Color::Red,
            Color::Reset,
        ]
    );
    panel.set_scroll(5);
    panel.set_height(2);
    let rows = panel.rows_to_paint();
    assert_eq!(rows[0].text, "  a.txt  ");
    assert_eq!(rows[1].text, "  b.rs   ");
    assert!(panel.upd);
    panel.painted();
    assert!(!panel.upd);
    panel.set_width(0);
    assert!(panel.rows_to_paint().is_empty());
    panel.set_dir_color(Color::Green);
    panel.set_file_color(Color::Yellow);
    panel.set_active_file_color(Color::White);
    assert_eq!(
        panel.colors,
        PanelColors { dir: Color::Green, file: Color::Yellow, active_file: Color::White }
    );
}

#[test]
fn clicks_hit_names() {
    let mut panel = TreeView::new(tree());
    assert!(panel.clicked(2, 2).is_none());
    let hit = panel.clicked(2, 3).unwrap();
    assert_eq!((hit.fullpath.as_str(), hit.is_file), ("/work/src/lib.rs", true));
    assert!(panel.clicked(2, 8).is_some());
    assert!(panel.clicked(2, 9).is_none());
    let hit = panel.clicked(1, 2).unwrap();
    assert_eq!((hit.fullpath.as_str(), hit.is_file), ("/work/src", false));
    assert!(panel.clicked(9, 2).is_none());
    panel.set_scroll(4);
    assert_eq!(panel.clicked(1, 2).unwrap().fullpath, "/work/a.txt");
}

#[test]
fn directories_are_toggled_in_place() {
    let mut root = tree();
    toggle_row(&mut root, 1, Vec::new());
    assert_eq!(row_count(&root), 5);
    assert_eq!(row_at(&root, 2).unwrap().0.name, "tests");
    toggle_row(&mut root, 2, vec![file("t.rs", "/work/tests"), file(".DS_Store", "/work/tests")]);
    assert_eq!(row_count(&root), 6);
    assert_eq!(row_at(&root, 3).unwrap().0.name, "t.rs");
    assert_eq!(row_at(&root, 3).unwrap().1, 2);
    toggle_row(&mut root, 1, vec![file("x.rs", "/work/src")]);
    assert_eq!(row_at(&root, 2).unwrap().0.name, "x.rs");
    toggle_row(&mut root, 40, vec![file("y", "/z")]);
    assert_eq!(row_count(&root), 7);
    toggle_row(&mut root, 0, Vec::new());
    assert_eq!(row_count(&root), 1);

    let mut panel = TreeView::new(tree());
    panel.set_selected(4);
    panel.toggle_selected(vec![file("t.rs", "/work/tests")]);
    assert_eq!(names(&panel)[5], "  t.rs");
    panel.set_scroll(1);
    panel.toggle_on_row(0, Vec::new());
    assert_eq!(names(&panel), vec!["work", " src", " tests", "  t.rs", " a.txt", " b.rs"]);
    panel.find_and_toggle(2, Vec::new());
    assert_eq!(names(&panel), vec!["work", " src", " tests", " a.txt", " b.rs"]);
}

#[test]
fn the_filter_keeps_matching_files() {
    let mut panel = TreeView::new(tree());
    assert!(panel.search_row().is_none());
    panel.insert_filter_char('r', tree());
    panel.insert_filter_char('s', tree());
    assert!(panel.is_search());
    assert_eq!(names(&panel), vec!["work", " src", "  lib.rs", "  main.rs", " b.rs"]);
    assert_eq!(panel.selected, 2);
    let (text, column) = panel.search_row().unwrap();
    assert_eq!(text, " search: rs             ");
    assert_eq!(column, 11);

    panel.handle_left();
    panel.handle_left();
    panel.handle_left();
    assert_eq!(panel.search.index, 0);
    panel.remove_filter_char(tree());
    assert_eq!(panel.search.pattern.to_string(), "rs");
    panel.insert_filter_char('.', tree());
    assert_eq!(panel.search.pattern.to_string(), ".rs");
    panel.handle_right();
    panel.handle_right();
    panel.handle_right();
    assert_eq!(panel.search.index, 3);
    panel.remove_filter_char(tree());
    assert_eq!(panel.search.pattern.to_string(), ".r");
    panel.remove_filter_char(tree());
    panel.remove_filter_char(tree());
    // without a filter the directory shows its entries, and nothing below
    assert_eq!(names(&panel), vec!["work", " src", " tests", " a.txt", " b.rs"]);

    panel.insert_filter_char('q', tree());
    assert_eq!(names(&panel), vec!["work"]);
    assert_eq!(panel.selected, 0);
    panel.clear_search(tree());
    assert!(!panel.is_search());
    assert_eq!(panel.search.index, 0);
    assert_eq!(names(&panel).len(), 5);
    panel.set_width(4);
    panel.insert_filter_char('a', tree());
    assert!(panel.search_row().is_none());
}

#[test]
fn keys_ask_for_what_they_need() {
    let mut panel = TreeView::new(tree());
    assert!(matches!(panel.handle_key(PanelCommand::Down), PanelAsk::Nothing));
    assert_eq!(panel.selected, 1);
    assert!(matches!(panel.handle_key(PanelCommand::Open), PanelAsk::Nothing));
    assert_eq!(names(&panel), vec!["work", " src", " tests", " a.txt", " b.rs"]);
    match panel.handle_key(PanelCommand::Open) {
        PanelAsk::Entries(path) => assert_eq!(path, "/work/src"),
        other => panic!("{:?}", other),
    }
    panel.handle_key(PanelCommand::Down);
    panel.handle_key(PanelCommand::Down);
    match panel.handle_key(PanelCommand::Open) {
        PanelAsk::OpenFile(path) => assert_eq!(path, "/work/a.txt"),
        other => panic!("{:?}", other),
    }
    assert!(matches!(panel.handle_key(PanelCommand::Up), PanelAsk::Nothing));
    assert_eq!(panel.selected, 2);
    assert!(matches!(panel.handle_key(PanelCommand::InsertFilterChar('x')), PanelAsk::Tree));
    assert!(matches!(panel.handle_key(PanelCommand::ClearSearch), PanelAsk::Tree));
    assert!(matches!(panel.handle_key(PanelCommand::RemoveFilterChar), PanelAsk::Nothing));
    panel.insert_filter_char('a', tree());
    assert!(matches!(panel.handle_key(PanelCommand::RemoveFilterChar), PanelAsk::Tree));
    assert!(matches!(panel.handle_key(PanelCommand::Left), PanelAsk::Nothing));
    assert_eq!(panel.search.index, 0);
    assert!(matches!(panel.handle_key(PanelCommand::Right), PanelAsk::Nothing));
    assert_eq!(panel.search.index, 1);
    assert!(matches!(panel.handle_key(PanelCommand::Nothing), PanelAsk::Nothing));
    panel.set_selected(50);
    assert!(matches!(panel.handle_key(PanelCommand::Open), PanelAsk::Nothing));
}

#[test]
fn directories_on_the_way_to_a_file_are_found() {
    let mut root = tree();
    toggle_row(&mut root, 1, Vec::new());
    let mut panel = TreeView::new(root);
    let (at, path) = panel.next_on_path("/work/src/main.rs").unwrap();
    assert_eq!((at, path.as_str()), (1, "/work/src"));
    panel.find_and_toggle(at, vec![file("main.rs", "/work/src")]);
    assert!(panel.next_on_path("/work/src/main.rs").is_none());
    assert_eq!(panel.next_on_path("/work/tests/t.rs").unwrap().0, 3);
    assert!(panel.next_on_path("/work/a.txt").is_none());
    assert!(panel.next_on_path("/elsewhere").is_none());
}

#[test]
fn test_load() {
    let mut tree_view = TreeView::new(tree());
    tree_view.expand_root(tree());
    assert_eq!(names(&tree_view), vec!["work", " src", " tests", " a.txt", " b.rs"]);

    let node = tree_view.find(3).map(|(node, _)| node.name.clone());
    assert_eq!(node.as_deref(), Some("a.txt"));
    assert!(tree_view.find(5).is_none());

    tree_view.find_and_expand(1, vec![file("main.rs", "/work/src"), file("lib.rs", "/work/src")]);
    tree_view.find_and_expand(1, vec![file("other.rs", "/work/src")]);
    tree_view.find_and_expand(9, vec![file("other.rs", "/work/src")]);
    assert_eq!(
        names(&tree_view),
        vec!["work", " src", "  lib.rs", "  main.rs", " tests", " a.txt", " b.rs"]
    );
    assert_eq!(tree_view.find(5).map(|(node, _)| node.name.as_str()), Some("a.txt"));
}

#[test]
fn test_expand_search() {
    let mut tree_view = TreeView::new(tree());
    tree_view.filter_files_by_pattern(tree(), "rs");
    assert_eq!(names(&tree_view), vec!["work", " src", "  lib.rs", "  main.rs", " b.rs"]);
    assert_eq!(tree_view.selected, 2);
}
