use red::screen::{Cell, Color, Rect, ScreenBuffer};

#[test]
fn rect_is_cut_at_the_largest_coordinate() {
    let r = Rect::new(10, 20, 30, 40);
    assert_eq!((r.left(), r.top(), r.right(), r.bottom()), (10, 20, 40, 60));
    assert_eq!(r.area(), 1200);
    assert!(!r.is_empty());
    let cut = Rect::new(65_530, 65_535, 100, 100);
    assert_eq!((cut.width, cut.height), (5, 0));
    assert_eq!((cut.right(), cut.bottom()), (65_535, 65_535));
    assert!(cut.is_empty());
    assert_eq!(Rect::new(0, 0, 65_535, 65_535).area(), 4_294_836_225);
    let wide = Rect { x: 65_000, y: 1, width: 1000, height: 2 };
    assert_eq!(wide.right(), 65_535);
}

#[test]
fn screen_buffer_holds_cells() {
    let mut buffer = ScreenBuffer::new(3, 2);
    assert!(buffer.get_cell(0, 0).is_none());
    let a = Cell::new('a', Color::Red, Color::Reset);
    buffer.set_cell(1, 1, a);
    buffer.set_cell(3, 0, a);
    buffer.set_cell(0, 2, a);
    assert_eq!(buffer.get_cell(1, 1), Some(&a));
    assert!(buffer.get_cell(3, 0).is_none());
    assert!(buffer.cell_equal(1, 1, &a));
    assert!(!buffer.cell_equal(1, 1, &Cell::new('a', Color::Blue, Color::Reset)));
    assert!(!buffer.cell_equal(0, 0, &a));
    assert!(!buffer.cell_equal(9, 9, &a));

    buffer.resize(4, 3);
    let blank = Cell::new(' ', Color::Reset, Color::Reset);
    assert_eq!((buffer.width, buffer.height), (4, 3));
    assert_eq!(buffer.get_cell(1, 1), Some(&a));
    assert!(buffer.get_cell(0, 0).is_none());
    assert_eq!(buffer.get_cell(3, 0), Some(&blank));
    assert_eq!(buffer.get_cell(0, 2), Some(&blank));
    buffer.resize(1, 1);
    assert!(buffer.get_cell(1, 1).is_none());
    assert!(buffer.get_cell(0, 0).is_none());
}
