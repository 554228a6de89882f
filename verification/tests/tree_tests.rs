use red::tree::{TreeNode, TreeNodeIterator};

fn sample_tree() -> TreeNode {
    let mut grandchild = TreeNode::new(
        "Grandchild1".to_string(),
        "/path/to/root/child2/grandchild1".to_string(),
        true,
    );
    assert!(grandchild.is_file());
    let child1 = TreeNode::new("Child1".to_string(), "/path/to/root/child1".to_string(), true);
    let mut child2 = TreeNode::new("Child2".to_string(), "/path/to/root/child2".to_string(), false);
    child2.expand_with(vec![grandchild]);
    let mut root = TreeNode::new("Root".to_string(), "/path/to/root".to_string(), false);
    root.expand_with(vec![child1, child2]);
    root
}

#[test]
fn test_iter() {
    let root_node = sample_tree();

    let mut rows: Vec<(String, usize)> = Vec::new();
    let mut it = TreeNodeIterator::new(&root_node);
    while let Some((node, depth)) = it.next() {
        println!(
            "depth: {}, Name: {}, Fullpath: {}, Is File: {}",
            depth, node.name, node.fullpath, node.is_file
        );
        rows.push((node.name.clone(), depth));
    }
    // directories come before files, each kind in the order of the names
    assert_eq!(
        rows,
        vec![
            ("Root".to_string(), 0),
            ("Child2".to_string(), 1),
            ("Grandchild1".to_string(), 2),
            ("Child1".to_string(), 1),
        ]
    );

    let mut first_two = Vec::new();
    let mut it = TreeNodeIterator::new(&root_node);
    for _ in 0..2 {
        if let Some((node, depth)) = it.next() {
            first_two.push((node.name.clone(), depth));
        }
    }
    assert_eq!(first_two, vec![("Root".to_string(), 0), ("Child2".to_string(), 1)]);
}

#[test]
fn tree_len_counts_shown_nodes() {
    let root = sample_tree();
    assert_eq!(root.len(), 3);
    let leaf = TreeNode::new("a".to_string(), "/a".to_string(), true);
    assert_eq!(leaf.len(), 0);
}

#[test]
fn tree_expand_leaves_out_ignored_names_and_sorts() {
    let mut root = TreeNode::new("r".to_string(), "/r".to_string(), false);
    root.expand_with(vec![
        TreeNode::new("zeta.rs".to_string(), "/r/zeta.rs".to_string(), true),
        TreeNode::new("node_modules".to_string(), "/r/node_modules".to_string(), false),
        TreeNode::new(".DS_Store".to_string(), "/r/.DS_Store".to_string(), true),
        TreeNode::new("src".to_string(), "/r/src".to_string(), false),
        TreeNode::new("alpha.rs".to_string(), "/r/alpha.rs".to_string(), true),
        TreeNode::new("docs".to_string(), "/r/docs".to_string(), false),
    ]);
    let names: Vec<String> = root.children.as_ref().unwrap().iter().map(|n| n.name.clone()).collect();
    assert_eq!(names, vec!["docs", "src", "alpha.rs", "zeta.rs"]);
}

#[test]
fn tree_toggle_expands_and_collapses() {
    let mut dir = TreeNode::new("d".to_string(), "/d".to_string(), false);
    assert!(!dir.is_expanded());
    dir.toggle(vec![TreeNode::new("f".to_string(), "/d/f".to_string(), true)]);
    assert!(dir.is_expanded());
    assert_eq!(dir.len(), 1);
    dir.toggle(Vec::new());
    assert!(!dir.is_expanded());
    assert_eq!(dir.len(), 0);
    dir.toggle(Vec::new());
    dir.collapse();
    assert!(dir.children.is_none());
    assert_eq!(dir.fullpath(), "/d");
}

#[test]
fn tree_filter_keeps_matching_files_and_their_directories() {
    let mut root = sample_tree();
    let found = root.filter_files_mutate("child1");
    assert!(found);
    let names: Vec<String> = root.children.as_ref().unwrap().iter().map(|n| n.name.clone()).collect();
    assert_eq!(names, vec!["Child2"]);
    let inner: Vec<String> = root.children.as_ref().unwrap()[0]
        .children
        .as_ref()
        .unwrap()
        .iter()
        .map(|n| n.name.clone())
        .collect();
    assert_eq!(inner, vec!["Grandchild1"]);

    let mut root = sample_tree();
    assert!(!root.filter_files_mutate("nothing"));
    assert_eq!(root.len(), 0);
}
