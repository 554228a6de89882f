use red::selection::{Point, Selection};

#[test]
fn test_is_selected_when_active_and_inside_selection() {
    let mut selection = Selection::new();
    selection.start = Point { y: 1, x: 1 };
    selection.end = Point { y: 3, x: 3 };
    selection.active = true;

    assert!(selection.contains(2, 2));
    assert!(selection.contains(1, 1));
    assert!(selection.contains(3, 2));
}

#[test]
fn test_is_selected_when_active_and_outside_selection() {
    let mut selection = Selection::new();
    selection.start = Point { y: 1, x: 1 };
    selection.end = Point { y: 3, x: 3 };
    selection.active = true;

    assert!(!selection.is_selected(0, 0));
    assert!(!selection.is_selected(4, 4));
    assert!(selection.is_selected(1, 4));
    assert!(!selection.is_selected(4, 1));
}

#[test]
fn test_is_selected_when_inactive() {
    let mut selection = Selection::new();

    assert!(!selection.contains(2, 2));
    assert!(!selection.contains(1, 1));
    assert!(!selection.contains(3, 3));
}
