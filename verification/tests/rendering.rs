use term_gui::{render_window_tree, Alignment, DrawCmd, Window};

fn count_glyph(cmds: &[DrawCmd], glyph: &str) -> usize {
    cmds.iter().filter(|c| c.text == glyph).count()
}

fn find_at(cmds: &[DrawCmd], col: u16, row: u16) -> Vec<String> {
    cmds.iter().filter(|c| c.col == col && c.row == row).map(|c| c.text.clone()).collect()
}

#[test]
fn root_only_border_glyph_counts() {
    // width 10, height 5, border on, empty text: one glyph per border
    // cell and nothing else. Corners: 4. Horizontal edges: 8 in the top
    // row and 8 in the bottom row. Vertical edges: 3 on each side.
    let w = Window::new(0, 0, 10, 5, "", "");
    let cmds = render_window_tree(&w).unwrap();
    assert_eq!(count_glyph(&cmds, "╔"), 1);
    assert_eq!(count_glyph(&cmds, "╗"), 1);
    assert_eq!(count_glyph(&cmds, "╚"), 1);
    assert_eq!(count_glyph(&cmds, "╝"), 1);
    assert_eq!(count_glyph(&cmds, "═"), 16);
    assert_eq!(count_glyph(&cmds, "║"), 6);
    // Empty text produces zero content writes.
    assert_eq!(cmds.len(), 26);
}

#[test]
fn border_corner_positions() {
    let w = Window::new(0, 0, 10, 5, "", "");
    let cmds = render_window_tree(&w).unwrap();
    assert_eq!(find_at(&cmds, 0, 0), vec!["╔"]);
    assert_eq!(find_at(&cmds, 9, 0), vec!["╗"]);
    assert_eq!(find_at(&cmds, 0, 4), vec!["╚"]);
    assert_eq!(find_at(&cmds, 9, 4), vec!["╝"]);
}

#[test]
fn title_overwrites_top_edge_space_padded() {
    let w = Window::new(0, 0, 12, 5, "hi", "");
    let cmds = render_window_tree(&w).unwrap();
    // The frame's edge glyph is written first; the title overwrites it.
    assert_eq!(find_at(&cmds, 2, 0), vec!["═", " hi "]);
}

#[test]
fn empty_title_writes_nothing_but_the_frame() {
    let w = Window::new(0, 0, 12, 5, "", "");
    let cmds = render_window_tree(&w).unwrap();
    assert_eq!(cmds.len(), 2 * 12 + 2 * (5 - 2));
    assert!(cmds.iter().all(|c| c.text.chars().count() == 1));
}

#[test]
fn content_words_land_on_the_wrap_grid() {
    // width 10, border on, default padding 1: the text width is
    // 10 - 2 - 2 = 6 and the text origin is (2, 1). "hi"(2) is placed
    // at column 0 of line 0; the cursor moves to 3; "there"(5) crosses
    // the width (3 + 5 > 6) and wraps to line 1.
    let w = Window::new(0, 0, 10, 5, "", "hi there");
    let cmds = render_window_tree(&w).unwrap();
    assert_eq!(find_at(&cmds, 2, 1), vec!["hi"]);
    assert_eq!(find_at(&cmds, 2, 2), vec!["there"]);
}

#[test]
fn unicode_whitespace_separates_words_when_drawing() {
    // A form feed ends a word exactly as a space does, so the writes
    // match those of "hi there": "hi" on the first content line and
    // "there" wrapped under it, neither carrying the separator.
    let w = Window::new(0, 0, 10, 5, "", "hi\u{000C}there");
    let cmds = render_window_tree(&w).unwrap();
    assert_eq!(find_at(&cmds, 2, 1), vec!["hi"]);
    assert_eq!(find_at(&cmds, 2, 2), vec!["there"]);
}

#[test]
fn exact_boundary_wrap_positions() {
    // Text width 14 - 2 - 2 = 10: "aaaaa" at line 0; "bbbbb" would end
    // the cursor at 6 + 5 = 11 > 10, so it wraps, and "ccccc" wraps
    // again — one word per line, all at column 0 of the text origin.
    let w = Window::new(0, 0, 14, 6, "", "aaaaa bbbbb ccccc");
    let cmds = render_window_tree(&w).unwrap();
    assert_eq!(find_at(&cmds, 2, 1), vec!["aaaaa"]);
    assert_eq!(find_at(&cmds, 2, 2), vec!["bbbbb"]);
    assert_eq!(find_at(&cmds, 2, 3), vec!["ccccc"]);
}

#[test]
fn nested_child_origin_propagates() {
    // The parent sits at (1, 1); children are resolved against the
    // parent's interior origin (2, 2). An unaligned child with relative
    // coordinates (5, 5) must land at the absolute cell (7, 7).
    let mut parent = Window::new(1, 1, 30, 20, "", "");
    let mut child = Window::new(5, 5, 10, 5, "", "");
    child.options.render_content = false;
    parent.options.render_content = false;
    parent.add_child(child);
    let cmds = render_window_tree(&parent).unwrap();
    assert_eq!(find_at(&cmds, 7, 7), vec!["╔"]);
    assert_eq!(find_at(&cmds, 16, 11), vec!["╝"]);
}

#[test]
fn centered_child_uses_center_formula() {
    // Child of width 10 under a parent of width 20: the horizontal
    // center resolves to origin + 20/2 - 10/2 - 1 = origin + 4, with
    // the child origin at parent x + 1 = 1 this is column 5.
    let mut parent = Window::new(0, 0, 20, 12, "", "");
    parent.options.render_content = false;
    let mut child = Window::new(0, 0, 10, 5, "", "");
    child.options.horizontal_align = Alignment::Center(0);
    child.options.vertical_align = Alignment::Min(0);
    child.options.render_content = false;
    parent.add_child(child);
    let cmds = render_window_tree(&parent).unwrap();
    assert_eq!(find_at(&cmds, 5, 1), vec!["╔"]);
}

#[test]
fn max_aligned_child_hugs_the_trailing_edge() {
    // origin 1 + parent 20 - child 10 - 2 = 9 on both axes for a
    // 20 x 20 parent at (0, 0) with a 10 x 5 child.
    let mut parent = Window::new(0, 0, 20, 20, "", "");
    parent.options.render_content = false;
    let mut child = Window::new(0, 0, 10, 5, "", "");
    child.options.horizontal_align = Alignment::Max(0);
    child.options.vertical_align = Alignment::Min(0);
    child.options.render_content = false;
    parent.add_child(child);
    let cmds = render_window_tree(&parent).unwrap();
    assert_eq!(find_at(&cmds, 9, 1), vec!["╔"]);
}

#[test]
fn borderless_window_writes_only_words() {
    // Text width 14 - 2 - 2 = 10: "just"(4) at cursor 0, cursor 5;
    // "words"(5) still fits (5 + 5 = 10), one space after "just".
    let mut w = Window::new(0, 0, 14, 4, "ignored", "just words");
    w.options.render_border = false;
    let cmds = render_window_tree(&w).unwrap();
    assert_eq!(cmds.len(), 2);
    assert_eq!(find_at(&cmds, 2, 1), vec!["just"]);
    assert_eq!(find_at(&cmds, 7, 1), vec!["words"]);
}

#[test]
fn children_paint_after_their_parent() {
    let mut parent = Window::new(0, 0, 30, 15, "", "");
    parent.options.render_content = false;
    let mut child = Window::new(2, 2, 8, 4, "", "");
    child.options.render_content = false;
    parent.add_child(child);
    let cmds = render_window_tree(&parent).unwrap();
    let parent_cells = (30 - 2) * 2 + 2 * (15 - 2) + 4;
    assert_eq!(find_at(&cmds[..parent_cells as usize], 0, 0), vec!["╔"]);
    assert_eq!(cmds.len() as u16, parent_cells + (8 - 2) * 2 + 2 * (4 - 2) + 4);
}

#[test]
fn border_below_minimum_size_is_a_geometry_error() {
    let too_narrow = Window::new(0, 0, 3, 5, "", "");
    let err = render_window_tree(&too_narrow).unwrap_err();
    assert!(!err.message().is_empty());
    let too_short = Window::new(0, 0, 10, 2, "", "");
    assert!(render_window_tree(&too_short).is_err());
}

#[test]
fn zero_wrapping_width_with_text_is_a_geometry_error() {
    // Borderless 4-wide window with padding 1: text width 4 - 2 - 2 = 0
    // cannot wrap non-empty text.
    let mut w = Window::new(0, 0, 4, 4, "", "x");
    w.options.render_border = false;
    assert!(render_window_tree(&w).is_err());
    // With empty text the same geometry renders (to nothing at all).
    let mut empty = Window::new(0, 0, 4, 4, "", "");
    empty.options.render_border = false;
    assert_eq!(render_window_tree(&empty).unwrap().len(), 0);
}

#[test]
fn failing_child_aborts_the_whole_frame() {
    let mut parent = Window::new(0, 0, 30, 15, "", "");
    parent.options.render_content = false;
    parent.add_child(Window::new(0, 0, 2, 2, "", ""));
    assert!(render_window_tree(&parent).is_err());
}

#[test]
fn text_vertical_center_alignment() {
    // Content rectangle origin row 1, height 6 - 2 = 4; one line of
    // text: row = 1 + 4/2 - 1/2 + 0 = 3.
    let mut w = Window::new(0, 0, 12, 6, "", "hi");
    w.options.vertical_text_align = Alignment::Center(0);
    let cmds = render_window_tree(&w).unwrap();
    assert_eq!(find_at(&cmds, 2, 3), vec!["hi"]);
}

#[test]
fn text_vertical_max_alignment() {
    // Content rectangle origin row 1, height 4: row = 1 + 4 - 1 + 0 = 4.
    let mut w = Window::new(0, 0, 12, 6, "", "hi");
    w.options.vertical_text_align = Alignment::Max(0);
    let cmds = render_window_tree(&w).unwrap();
    assert_eq!(find_at(&cmds, 2, 4), vec!["hi"]);
}
