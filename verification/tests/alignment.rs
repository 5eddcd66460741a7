use term_gui::align::resolve_axis;
use term_gui::Alignment;

#[test]
fn unaligned_adds_relative_to_origin() {
    assert_eq!(resolve_axis(&Alignment::Unaligned, 2, 30, 10, 5), 7);
    assert_eq!(resolve_axis(&Alignment::Unaligned, 0, 30, 10, 0), 0);
}

#[test]
fn resolution_is_idempotent() {
    let first = resolve_axis(&Alignment::Center(3), 4, 40, 12, 9);
    let second = resolve_axis(&Alignment::Center(3), 4, 40, 12, 9);
    assert_eq!(first, second);
    let first = resolve_axis(&Alignment::Max(-2), 1, 25, 8, 3);
    let second = resolve_axis(&Alignment::Max(-2), 1, 25, 8, 3);
    assert_eq!(first, second);
}

#[test]
fn min_anchor_with_positive_offset_displaces_inward() {
    assert_eq!(resolve_axis(&Alignment::Min(4), 10, 30, 5, 2), 14);
    assert_eq!(resolve_axis(&Alignment::Min(0), 10, 30, 5, 2), 10);
}

#[test]
fn min_anchor_discards_negative_offset() {
    // Min with a negative offset behaves exactly like Min(0).
    assert_eq!(
        resolve_axis(&Alignment::Min(-7), 10, 30, 5, 2),
        resolve_axis(&Alignment::Min(0), 10, 30, 5, 2),
    );
    assert_eq!(resolve_axis(&Alignment::Min(-1), 10, 30, 5, 2), 10);
}

#[test]
fn center_anchor_formula() {
    // origin + parent/2 - child/2 - 1 + offset = 0 + 10 - 5 - 1 + 0 = 4;
    // the stored relative coordinate is ignored when the candidate is
    // accepted.
    assert_eq!(resolve_axis(&Alignment::Center(0), 0, 20, 10, 99), 4);
    assert_eq!(resolve_axis(&Alignment::Center(0), 3, 20, 10, 99), 7);
    assert_eq!(resolve_axis(&Alignment::Center(2), 0, 20, 10, 99), 6);
}

#[test]
fn center_anchor_falls_back_when_candidate_is_negative() {
    // 0 + 2 - 5 - 1 + 0 = -4 < 0: the relative coordinate is used.
    assert_eq!(resolve_axis(&Alignment::Center(0), 0, 4, 10, 3), 3);
}

#[test]
fn max_anchor_formula() {
    // origin + parent - child - 2 + offset = 0 + 20 - 10 - 2 + 0 = 8.
    assert_eq!(resolve_axis(&Alignment::Max(0), 0, 20, 10, 99), 8);
    assert_eq!(resolve_axis(&Alignment::Max(-3), 0, 20, 10, 99), 5);
}

#[test]
fn max_anchor_with_positive_offset_falls_back_to_relative() {
    // A positive offset is rejected outright: the result is the
    // unresolved relative coordinate, not Max(0).
    assert_eq!(resolve_axis(&Alignment::Max(1), 0, 20, 10, 7), 7);
    assert_ne!(
        resolve_axis(&Alignment::Max(1), 0, 20, 10, 7),
        resolve_axis(&Alignment::Max(0), 0, 20, 10, 7),
    );
}

#[test]
fn max_anchor_falls_back_when_candidate_is_negative() {
    // 0 + 5 - 10 - 2 + 0 = -7 < 0: the relative coordinate is used.
    assert_eq!(resolve_axis(&Alignment::Max(0), 0, 5, 10, 6), 6);
}
