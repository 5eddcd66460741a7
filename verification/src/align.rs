//! Per-axis alignment policy and its resolver.
//!
//! An [`Alignment`] pins one axis of a child rectangle to its parent:
//! to the leading edge, the midpoint, or the trailing edge, each with a
//! signed cell offset, or not at all (the child's stored relative
//! coordinate is used). Resolution maps the policy plus the parent's
//! origin and extent and the child's extent to an absolute coordinate.

use vstd::prelude::*;

verus! {

/// Alignment policy for one axis of a window relative to its parent.
#[derive(Clone, Copy, PartialEq, Eq, Structural)]
pub enum Alignment {
    /// Anchor to the parent's leading edge, displaced inward by the
    /// offset; a negative offset is discarded.
    Min(i16),
    /// Anchor to the parent's midpoint minus half the child's extent,
    /// displaced by the offset; a candidate before the leading edge
    /// falls back to the child's relative coordinate.
    Center(i16),
    /// Anchor to the parent's trailing edge minus the child's extent,
    /// displaced by the offset; a positive offset or a candidate before
    /// the leading edge falls back to the child's relative coordinate.
    Max(i16),
    /// No anchor: the child's stored relative coordinate, shifted by the
    /// parent's origin, is used directly.
    Unaligned,
}

/// The absolute coordinate that an alignment policy resolves to on one
/// axis, given the parent's absolute origin and extent on that axis, the
/// child's extent, and the child's stored relative coordinate.
pub open spec fn resolve_axis_spec(
    align: Alignment,
    origin: int,
    parent_extent: int,
    child_extent: int,
    relative: int,
) -> int {
    match align {
        Alignment::Min(offset) => if offset >= 0 {
            origin + offset
        } else {
            origin
        },
        Alignment::Center(offset) => {
            let candidate = origin + parent_extent / 2 - child_extent / 2 - 1 + offset;
            if candidate >= 0 {
                candidate
            } else {
                origin + relative
            }
        },
        Alignment::Max(offset) => {
            let candidate = origin + parent_extent - child_extent - 2 + offset;
            if offset <= 0 && candidate >= 0 {
                candidate
            } else {
                origin + relative
            }
        },
        Alignment::Unaligned => origin + relative,
    }
}

/// Resolved coordinates never lie before the screen's leading edge.
pub proof fn lemma_resolve_axis_nonneg(
    align: Alignment,
    origin: int,
    parent_extent: int,
    child_extent: int,
    relative: int,
)
    requires
        origin >= 0,
        relative >= 0,
    ensures
        resolve_axis_spec(align, origin, parent_extent, child_extent, relative) >= 0,
{
}

/// The vertical coordinate that a text block resolves to inside a
/// window's content rectangle: `base` is the content rectangle's top
/// row, `area_extent` its height, and `text_extent` the wrapped text's
/// height in lines. Unlike window alignment, the content rectangle has
/// no frame of its own, so no border-correction constants appear, and
/// every fallback is the content rectangle's top row itself.
pub open spec fn resolve_text_axis_spec(
    align: Alignment,
    base: int,
    area_extent: int,
    text_extent: int,
) -> int {
    match align {
        Alignment::Min(offset) => if offset >= 0 {
            base + offset
        } else {
            base
        },
        Alignment::Center(offset) => {
            let candidate = base + area_extent / 2 - text_extent / 2 + offset;
            if candidate >= 0 {
                candidate
            } else {
                base
            }
        },
        Alignment::Max(offset) => {
            let candidate = base + area_extent - text_extent + offset;
            if offset <= 0 && candidate >= 0 {
                candidate
            } else {
                base
            }
        },
        Alignment::Unaligned => base,
    }
}

/// Resolve one axis of a child rectangle against its parent.
pub fn resolve_axis(
    align: &Alignment,
    origin: u16,
    parent_extent: u16,
    child_extent: u16,
    relative: u16,
) -> (coord: u16)
    requires
        resolve_axis_spec(
            *align,
            origin as int,
            parent_extent as int,
            child_extent as int,
            relative as int,
        ) <= u16::MAX,
    ensures
        coord == resolve_axis_spec(
            *align,
            origin as int,
            parent_extent as int,
            child_extent as int,
            relative as int,
        ),
{
    match align {
        Alignment::Min(offset) => {
            if *offset >= 0 {
                origin + (*offset as u16)
            } else {
                origin
            }
        },
        Alignment::Center(offset) => {
            let candidate: i32 = origin as i32 + (parent_extent / 2) as i32
                - (child_extent / 2) as i32 - 1 + *offset as i32;
            if candidate >= 0 {
                candidate as u16
            } else {
                origin + relative
            }
        },
        Alignment::Max(offset) => {
            let candidate: i32 = origin as i32 + parent_extent as i32 - child_extent as i32 - 2
                + *offset as i32;
            if *offset <= 0 && candidate >= 0 {
                candidate as u16
            } else {
                origin + relative
            }
        },
        Alignment::Unaligned => origin + relative,
    }
}

/// Resolve one axis of a child rectangle against its parent, reporting
/// a coordinate that does not fit on the addressable cell grid as
/// `Option::None` instead of demanding it of the caller.
pub fn resolve_axis_checked(
    align: &Alignment,
    origin: u16,
    parent_extent: u16,
    child_extent: u16,
    relative: u16,
) -> (coord: Option<u16>)
    ensures
        ({
            let resolved = resolve_axis_spec(
                *align,
                origin as int,
                parent_extent as int,
                child_extent as int,
                relative as int,
            );
            match coord {
                Some(c) => resolved <= u16::MAX && c == resolved,
                None => resolved > u16::MAX,
            }
        }),
{
    let candidate: i32 = match align {
        Alignment::Min(offset) => {
            if *offset >= 0 {
                origin as i32 + *offset as i32
            } else {
                origin as i32
            }
        },
        Alignment::Center(offset) => {
            let spot: i32 = origin as i32 + (parent_extent / 2) as i32 - (child_extent / 2) as i32
                - 1 + *offset as i32;
            if spot >= 0 {
                spot
            } else {
                origin as i32 + relative as i32
            }
        },
        Alignment::Max(offset) => {
            let spot: i32 = origin as i32 + parent_extent as i32 - child_extent as i32 - 2
                + *offset as i32;
            if *offset <= 0 && spot >= 0 {
                spot
            } else {
                origin as i32 + relative as i32
            }
        },
        Alignment::Unaligned => origin as i32 + relative as i32,
    };
    if candidate <= u16::MAX as i32 {
        Some(candidate as u16)
    } else {
        None
    }
}

/// Resolve the top row of a text block inside a content rectangle,
/// reporting a row beyond the addressable cell grid as `Option::None`.
pub fn resolve_text_axis_checked(
    align: &Alignment,
    base: u16,
    area_extent: u16,
    text_extent: u16,
) -> (row: Option<u16>)
    ensures
        ({
            let resolved = resolve_text_axis_spec(
                *align,
                base as int,
                area_extent as int,
                text_extent as int,
            );
            match row {
                Some(r) => resolved <= u16::MAX && r == resolved,
                None => resolved > u16::MAX,
            }
        }),
{
    let candidate: i32 = match align {
        Alignment::Min(offset) => {
            if *offset >= 0 {
                base as i32 + *offset as i32
            } else {
                base as i32
            }
        },
        Alignment::Center(offset) => {
            let spot: i32 = base as i32 + (area_extent / 2) as i32 - (text_extent / 2) as i32
                + *offset as i32;
            if spot >= 0 {
                spot
            } else {
                base as i32
            }
        },
        Alignment::Max(offset) => {
            let spot: i32 = base as i32 + area_extent as i32 - text_extent as i32 + *offset as i32;
            if *offset <= 0 && spot >= 0 {
                spot
            } else {
                base as i32
            }
        },
        Alignment::Unaligned => base as i32,
    };
    if candidate <= u16::MAX as i32 {
        Some(candidate as u16)
    } else {
        None
    }
}

/// Alignment resolution is a pure function of its arguments: two
/// resolutions of the same policy against the same origin and extents
/// yield the same coordinate.
pub proof fn lemma_resolve_axis_idempotent(
    align1: Alignment,
    origin1: int,
    parent_extent1: int,
    child_extent1: int,
    relative1: int,
    align2: Alignment,
    origin2: int,
    parent_extent2: int,
    child_extent2: int,
    relative2: int,
)
    requires
        align1 == align2,
        origin1 == origin2,
        parent_extent1 == parent_extent2,
        child_extent1 == child_extent2,
        relative1 == relative2,
    ensures
        resolve_axis_spec(align1, origin1, parent_extent1, child_extent1, relative1)
            == resolve_axis_spec(align2, origin2, parent_extent2, child_extent2, relative2),
{
}

/// A leading-edge anchor discards a negative offset: `Min` with an
/// offset below zero resolves exactly as `Min(0)` does.
pub proof fn lemma_min_negative_offset(
    offset: i16,
    origin: int,
    parent_extent: int,
    child_extent: int,
    relative: int,
)
    requires
        offset < 0,
    ensures
        resolve_axis_spec(Alignment::Min(offset), origin, parent_extent, child_extent, relative)
            == resolve_axis_spec(Alignment::Min(0), origin, parent_extent, child_extent, relative),
{
}

/// A trailing-edge anchor rejects a positive offset entirely: `Max`
/// with an offset above zero falls back to the child's unresolved
/// relative coordinate, not to `Max(0)`.
pub proof fn lemma_max_positive_offset(
    offset: i16,
    origin: int,
    parent_extent: int,
    child_extent: int,
    relative: int,
)
    requires
        offset > 0,
    ensures
        resolve_axis_spec(Alignment::Max(offset), origin, parent_extent, child_extent, relative)
            == origin + relative,
{
}

} // verus!
