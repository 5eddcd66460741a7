use term_gui::{Alignment, Window};

#[test]
fn new_window_defaults() {
    let w = Window::new(1, 2, 30, 10, "title", "body");
    assert_eq!(w.x, 1);
    assert_eq!(w.y, 2);
    assert_eq!(w.width, 30);
    assert_eq!(w.height, 10);
    assert_eq!(w.title, "title");
    assert_eq!(w.text_content, "body");
    assert!(w.get_children().is_empty());
    assert!(matches!(w.options.vertical_align, Alignment::Unaligned));
    assert!(matches!(w.options.horizontal_align, Alignment::Unaligned));
    assert!(matches!(w.options.vertical_text_align, Alignment::Min(0)));
    assert_eq!(w.options.horizontal_text_padding, 1);
    assert!(w.options.render_border);
    assert!(w.options.render_content);
}

#[test]
fn set_text_content_replaces_body_only() {
    let mut w = Window::new(0, 0, 10, 5, "t", "old text");
    w.set_text_content("new text");
    assert_eq!(w.text_content, "new text");
    assert_eq!(w.title, "t");
    assert_eq!(w.width, 10);
}

#[test]
fn add_child_appends_in_paint_order() {
    let mut parent = Window::new(0, 0, 40, 20, "p", "");
    parent.add_child(Window::new(1, 1, 10, 5, "first", ""));
    parent.add_child(Window::new(2, 2, 10, 5, "second", ""));
    let children = parent.get_children();
    assert_eq!(children.len(), 2);
    assert_eq!(children[0].title, "first");
    assert_eq!(children[1].title, "second");
}

#[test]
fn children_can_be_mutated_in_place() {
    let mut parent = Window::new(0, 0, 40, 20, "p", "");
    parent.add_child(Window::new(1, 1, 10, 5, "c", ""));
    parent.get_children_as_mut()[0].x = 7;
    parent.get_children_as_mut()[0].y = 3;
    assert_eq!(parent.get_children()[0].x, 7);
    assert_eq!(parent.get_children()[0].y, 3);
}

#[test]
fn fit_text_single_line_shrinks_both_axes() {
    // Padding 1: the usable text width is 20 - 2 * 2 = 16; "hello" fits
    // on one line, so the height becomes 1 + 2 and the width becomes
    // the text length plus four cells.
    let mut w = Window::new(0, 0, 20, 10, "t", "hello");
    w.fit_text();
    assert_eq!(w.height, 3);
    assert_eq!(w.width, 9);
}

#[test]
fn fit_text_multi_line_adjusts_height_only() {
    // Usable text width 10 - 2 * 2 = 6: "hi there" wraps onto two
    // lines, so the height becomes 2 + 2 and the width stays put.
    let mut w = Window::new(0, 0, 10, 9, "t", "hi there");
    w.fit_text();
    assert_eq!(w.height, 4);
    assert_eq!(w.width, 10);
}

#[test]
fn fit_text_empty_text_keeps_width() {
    let mut w = Window::new(0, 0, 12, 9, "t", "");
    w.fit_text();
    assert_eq!(w.height, 2);
    assert_eq!(w.width, 12);
}
