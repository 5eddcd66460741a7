//! The recursive renderer: resolving each window of a tree to an
//! absolute rectangle and emitting the terminal writes that draw its
//! border, title and word-wrapped content, depth-first, parents before
//! children so that children paint above their parent's frame.
//!
//! Rendering is pure: it produces a sequence of [`DrawCmd`] values, each
//! one cursor move plus one write. Sending them to a real terminal — and
//! flushing once the frame is complete — is the caller's concern, so a
//! failed frame is simply a discarded command list.

use vstd::prelude::*;
use vstd::string::{StrSliceExecFns, StringExecFns};

use crate::align::{
    resolve_axis_checked, resolve_axis_spec, resolve_text_axis_checked, resolve_text_axis_spec,
};
use crate::text::{
    compute_text_height, lemma_word_line_le_final, lemma_word_position_bounds,
    lemma_wrap_cursor_bounds, lemma_words_lens, split_words, text_height_spec, word_lens,
    word_position, words_of, wrap_cursor,
};
use crate::window::{Options, Window};

verus! {

broadcast use vstd::seq::group_seq_axioms, vstd::std_specs::vec::axiom_vec_decreases_to_view;

/// One write to the terminal surface: move the cursor to cell
/// `(col, row)` — column first, row second — and write `text` there.
#[derive(Debug, Clone)]
pub struct DrawCmd {
    pub col: u16,
    pub row: u16,
    pub text: String,
}

/// The mathematical image of a draw command.
pub ghost struct CmdView {
    pub col: int,
    pub row: int,
    pub text: Seq<char>,
}

impl View for DrawCmd {
    type V = CmdView;

    open spec fn view(&self) -> CmdView {
        CmdView { col: self.col as int, row: self.row as int, text: self.text@ }
    }
}

/// Shorthand for a command image.
pub open spec fn cmd(col: int, row: int, text: Seq<char>) -> CmdView {
    CmdView { col, row, text }
}

/// The images of a sequence of draw commands.
pub open spec fn cmd_views(cmds: Seq<DrawCmd>) -> Seq<CmdView> {
    cmds.map_values(|c: DrawCmd| c@)
}

/// A full horizontal border row at row `y`: the left corner glyph, a
/// run of horizontal-edge glyphs, the right corner glyph, one write per
/// cell in column order.
pub open spec fn border_row_cmds(
    x: int,
    y: int,
    width: int,
    left: Seq<char>,
    right: Seq<char>,
) -> Seq<CmdView> {
    Seq::new(
        width as nat,
        |i: int|
            cmd(
                x + i,
                y,
                if i == 0 {
                    left
                } else if i == width - 1 {
                    right
                } else {
                    "═"@
                },
            ),
    )
}

/// The vertical-edge glyphs of the border's interior rows, in row-major
/// order, the left edge before the right edge within each row.
pub open spec fn border_side_cmds(x: int, y: int, width: int, height: int) -> Seq<CmdView> {
    Seq::new(
        (2 * (height - 2)) as nat,
        |i: int|
            cmd(
                if i % 2 == 0 {
                    x
                } else {
                    x + width - 1
                },
                y + 1 + i / 2,
                "║"@,
            ),
    )
}

/// Every glyph write of a window frame with top-left corner `(x, y)`,
/// in emission order: the top row, the interior rows' side glyphs, the
/// bottom row.
pub open spec fn border_cmds(x: int, y: int, width: int, height: int) -> Seq<CmdView> {
    border_row_cmds(x, y, width, "╔"@, "╗"@) + border_side_cmds(x, y, width, height)
        + border_row_cmds(x, y + height - 1, width, "╚"@, "╝"@)
}

/// The title write of a bordered window: the title, space-padded on
/// both sides, overwriting the top edge from column `x + 2`; an empty
/// title writes nothing.
pub open spec fn title_cmds(x: int, y: int, title: Seq<char>) -> Seq<CmdView> {
    if title.len() == 0 {
        Seq::empty()
    } else {
        seq![cmd(x + 2, y, " "@ + title + " "@)]
    }
}

/// The word writes of a text block with origin `(x, y)`, wrapped at the
/// given width: word `i` lands at the cell the cursor-advance rule
/// assigns it, relative to the origin.
pub open spec fn text_cmds(words: Seq<Seq<char>>, x: int, y: int, width: int) -> Seq<CmdView> {
    Seq::new(
        words.len(),
        |i: int|
            {
                let pos = word_position(word_lens(words), width, i);
                cmd(x + pos.0, y + pos.1, words[i])
            },
    )
}

fn emit_border(out: &mut Vec<DrawCmd>, x: u16, y: u16, width: u16, height: u16)
    requires
        width >= 4,
        height >= 3,
        x + width <= 65536,
        y + height <= 65536,
    ensures
        cmd_views(final(out)@) == cmd_views(old(out)@) + border_cmds(
            x as int,
            y as int,
            width as int,
            height as int,
        ),
{
    let ghost base = cmd_views(out@);
    let ghost top = border_row_cmds(x as int, y as int, width as int, "╔"@, "╗"@);
    let ghost sides = border_side_cmds(x as int, y as int, width as int, height as int);
    let ghost bottom = border_row_cmds(
        x as int,
        (y + height - 1) as int,
        width as int,
        "╚"@,
        "╝"@,
    );
    let mut dx: u16 = 0;
    proof {
        assert(cmd_views(out@) =~= base + top.take(0));
    }
    while dx < width
        invariant
            width >= 4,
            x + width <= 65536,
            dx <= width,
            top == border_row_cmds(x as int, y as int, width as int, "╔"@, "╗"@),
            cmd_views(out@) == base + top.take(dx as int),
        decreases width - dx,
    {
        let glyph = if dx == 0 {
            "╔"
        } else if dx == width - 1 {
            "╗"
        } else {
            "═"
        };
        let text = String::from_str(glyph);
        let ghost prev = cmd_views(out@);
        out.push(DrawCmd { col: x + dx, row: y, text });
        proof {
            assert(cmd_views(out@) =~= prev.push(cmd((x + dx) as int, y as int, text@)));
            assert(top.take(dx + 1) =~= top.take(dx as int).push(top[dx as int]));
            assert(cmd_views(out@) =~= base + top.take(dx + 1));
        }
        dx = dx + 1;
    }
    proof {
        assert(top.take(width as int) =~= top);
    }
    let mut dy: u16 = 1;
    proof {
        assert(sides.take(0) =~= Seq::<CmdView>::empty());
        assert(cmd_views(out@) =~= base + top + sides.take(2 * (1 - 1)));
    }
    while dy < height - 1
        invariant
            width >= 4,
            height >= 3,
            x + width <= 65536,
            y + height <= 65536,
            1 <= dy <= height - 1,
            top == border_row_cmds(x as int, y as int, width as int, "╔"@, "╗"@),
            sides == border_side_cmds(x as int, y as int, width as int, height as int),
            cmd_views(out@) == base + top + sides.take(2 * (dy - 1)),
        decreases height - 1 - dy,
    {
        let left = String::from_str("║");
        let ghost prev0 = cmd_views(out@);
        out.push(DrawCmd { col: x, row: y + dy, text: left });
        proof {
            assert(cmd_views(out@) =~= prev0.push(sides[2 * (dy - 1)]));
            assert(sides.take(2 * (dy - 1) + 1) =~= sides.take(2 * (dy - 1)).push(
                sides[2 * (dy - 1)],
            ));
        }
        let right = String::from_str("║");
        let ghost prev1 = cmd_views(out@);
        out.push(DrawCmd { col: x + (width - 1), row: y + dy, text: right });
        proof {
            assert((2 * (dy - 1) + 1) / 2 == dy - 1) by (nonlinear_arith);
            assert((2 * (dy - 1) + 1) % 2 == 1) by (nonlinear_arith);
            assert(cmd_views(out@) =~= prev1.push(sides[2 * (dy - 1) + 1]));
            assert(sides.take(2 * (dy - 1) + 2) =~= sides.take(2 * (dy - 1) + 1).push(
                sides[2 * (dy - 1) + 1],
            ));
            assert(cmd_views(out@) =~= base + top + sides.take(2 * ((dy + 1) - 1)));
        }
        dy = dy + 1;
    }
    proof {
        assert(sides.take(2 * ((height - 1) - 1)) =~= sides);
    }
    let mut dx2: u16 = 0;
    proof {
        assert(cmd_views(out@) =~= base + top + sides + bottom.take(0));
    }
    while dx2 < width
        invariant
            width >= 4,
            height >= 3,
            x + width <= 65536,
            y + height <= 65536,
            dx2 <= width,
            top == border_row_cmds(x as int, y as int, width as int, "╔"@, "╗"@),
            sides == border_side_cmds(x as int, y as int, width as int, height as int),
            bottom == border_row_cmds(x as int, (y + height - 1) as int, width as int, "╚"@, "╝"@),
            cmd_views(out@) == base + top + sides + bottom.take(dx2 as int),
        decreases width - dx2,
    {
        let glyph = if dx2 == 0 {
            "╚"
        } else if dx2 == width - 1 {
            "╝"
        } else {
            "═"
        };
        let text = String::from_str(glyph);
        let ghost prev = cmd_views(out@);
        out.push(DrawCmd { col: x + dx2, row: y + (height - 1), text });
        proof {
            assert(cmd_views(out@) =~= prev.push(
                cmd((x + dx2) as int, (y + height - 1) as int, text@),
            ));
            assert(bottom.take(dx2 + 1) =~= bottom.take(dx2 as int).push(bottom[dx2 as int]));
            assert(cmd_views(out@) =~= base + top + sides + bottom.take(dx2 + 1));
        }
        dx2 = dx2 + 1;
    }
    proof {
        assert(bottom.take(width as int) =~= bottom);
        assert(base + top + sides + bottom =~= base + (top + sides + bottom));
    }
}

fn emit_title(out: &mut Vec<DrawCmd>, title: &String, x: u16, y: u16)
    requires
        x + 2 <= u16::MAX,
    ensures
        cmd_views(final(out)@) == cmd_views(old(out)@) + title_cmds(x as int, y as int, title@),
{
    if title.as_str().is_empty() {
        proof {
            assert(cmd_views(out@) =~= cmd_views(out@) + title_cmds(x as int, y as int, title@));
        }
        return ;
    }
    let mut padded = String::from_str(" ");
    padded.append(title.as_str());
    padded.append(" ");
    let ghost prev = cmd_views(out@);
    out.push(DrawCmd { col: x + 2, row: y, text: padded });
    proof {
        assert(cmd_views(out@) =~= prev.push(cmd(x + 2, y as int, " "@ + title@ + " "@)));
        assert(cmd_views(out@) =~= prev + title_cmds(x as int, y as int, title@));
    }
}

fn emit_text(out: &mut Vec<DrawCmd>, words: &Vec<String>, x: u16, y: u16, width: u16)
    requires
        forall|i: int|
            0 <= i < words.deep_view().len() ==> 1 <= (#[trigger] words.deep_view()[i]).len()
                < 65535,
        words.deep_view().len() > 0 ==> width >= 1,
        x + width <= 65536,
        y + wrap_cursor(word_lens(words.deep_view()), width as int).1 <= u16::MAX,
    ensures
        cmd_views(final(out)@) == cmd_views(old(out)@) + text_cmds(
            words.deep_view(),
            x as int,
            y as int,
            width as int,
        ),
{
    let ghost base = cmd_views(out@);
    let ghost ws = words.deep_view();
    let ghost lens = word_lens(ws);
    let ghost all = text_cmds(ws, x as int, y as int, width as int);
    proof {
        assert(forall|i: int| 0 <= i < lens.len() ==> 1 <= #[trigger] lens[i] < 65535);
        lemma_wrap_cursor_bounds(lens, width as int);
        assert(cmd_views(out@) =~= base + all.take(0));
    }
    let mut dx: usize = 0;
    let mut dy: usize = 0;
    let mut i: usize = 0;
    while i < words.len()
        invariant
            ws == words.deep_view(),
            lens == word_lens(ws),
            all == text_cmds(ws, x as int, y as int, width as int),
            forall|k: int| 0 <= k < lens.len() ==> 1 <= #[trigger] lens[k] < 65535,
            ws.len() > 0 ==> width >= 1,
            x + width <= 65536,
            y + wrap_cursor(lens, width as int).1 <= u16::MAX,
            i <= words.len(),
            lens.len() == words.len(),
            (dx as int, dy as int) == wrap_cursor(lens.take(i as int), width as int),
            dx <= width + 65536,
            cmd_views(out@) == base + all.take(i as int),
        decreases words.len() - i,
    {
        let word_len = words[i].as_str().unicode_len();
        proof {
            assert(ws[i as int] == words@[i as int]@);
            assert(lens[i as int] == word_len);
            assert(lens.take(i + 1).drop_last() =~= lens.take(i as int));
            assert(lens.take(i + 1).last() == lens[i as int]);
            lemma_word_position_bounds(lens, width as int, i as int);
            lemma_word_line_le_final(lens, width as int, i as int);
        }
        if dx + word_len > width as usize {
            dy = dy + 1;
            dx = 0;
        }
        let ghost pos = word_position(lens, width as int, i as int);
        proof {
            assert(pos == (dx as int, dy as int));
        }
        let word = words[i].clone();
        let ghost prev = cmd_views(out@);
        out.push(DrawCmd { col: x + (dx as u16), row: y + (dy as u16), text: word });
        proof {
            assert(cmd_views(out@) =~= prev.push(all[i as int]));
            assert(all.take(i + 1) =~= all.take(i as int).push(all[i as int]));
        }
        dx = dx + word_len + 1;
        i = i + 1;
    }
    proof {
        assert(all.take(words.len() as int) =~= all);
    }
}

/// The content writes of a window whose outer rectangle has top-left
/// corner `(ax, ay)` and the given extents: the words of its text,
/// wrapped at the content width less the horizontal padding on each
/// side, placed from the resolved text origin.
pub open spec fn content_cmds(
    text: Seq<char>,
    options: Options,
    ax: int,
    ay: int,
    width: int,
    height: int,
) -> Seq<CmdView> {
    let padding = options.horizontal_text_padding as int;
    let text_width = width - 2 - 2 * padding;
    let text_height = text_height_spec(text, text_width);
    let text_y = resolve_text_axis_spec(
        options.vertical_text_align,
        ay + 1,
        height - 2,
        text_height,
    );
    text_cmds(words_of(text), ax + 1 + padding, text_y, text_width)
}

/// The geometric preconditions of drawing a window's content at
/// absolute position `(ax, ay)`: extents that leave room for the border
/// cells and the padding, text short enough for cell bookkeeping, a
/// positive wrapping width when there is text to wrap, and word cells
/// that stay on the addressable grid.
pub open spec fn content_ok(
    text: Seq<char>,
    options: Options,
    ax: int,
    ay: int,
    width: int,
    height: int,
) -> bool {
    let padding = options.horizontal_text_padding as int;
    let text_width = width - 2 - 2 * padding;
    let text_height = text_height_spec(text, text_width);
    let text_y = resolve_text_axis_spec(
        options.vertical_text_align,
        ay + 1,
        height - 2,
        text_height,
    );
    &&& width >= 2
    &&& height >= 2
    &&& 2 * padding <= width - 2
    &&& text.len() < 65535
    &&& text.len() > 0 ==> text_width >= 1
    &&& words_of(text).len() > 0 ==> {
        &&& ax + 1 + padding + text_width <= 65536
        &&& ay + 1 <= u16::MAX
        &&& text_y <= u16::MAX
        &&& text_y + text_height - 1 <= u16::MAX
    }
}

/// A window tree whose border or content is switched on with extents
/// below their minimum sizes, or that resolves to cells outside the
/// addressable grid, cannot be rendered.
#[derive(Clone, Copy, Debug, PartialEq, Eq, Structural)]
pub struct GeometryError;

impl GeometryError {
    /// A description of the failure, for the caller's diagnostics.
    pub fn message(&self) -> &'static str {
        "window geometry violates a minimum-size invariant or leaves the cell grid"
    }
}

fn emit_content(
    out: &mut Vec<DrawCmd>,
    text: &String,
    options: &Options,
    ax: u16,
    ay: u16,
    width: u16,
    height: u16,
) -> (r: Result<(), GeometryError>)
    ensures
        r is Ok <==> content_ok(text@, *options, ax as int, ay as int, width as int, height as int),
        r is Ok ==> cmd_views(final(out)@) == cmd_views(old(out)@) + content_cmds(
            text@,
            *options,
            ax as int,
            ay as int,
            width as int,
            height as int,
        ),
        r is Err ==> *final(out) == *old(out),
{
    let padding = options.horizontal_text_padding;
    if width < 2 || height < 2 {
        return Err(GeometryError);
    }
    let content_width = width - 2;
    if 2 * (padding as u32) > content_width as u32 {
        return Err(GeometryError);
    }
    let text_width = content_width - 2 * padding;
    let text_len = text.as_str().unicode_len();
    if text_len >= 65535 {
        return Err(GeometryError);
    }
    if text_len > 0 && text_width == 0 {
        return Err(GeometryError);
    }
    let words = split_words(text.as_str());
    if words.len() == 0 {
        proof {
            assert(text_cmds(
                words_of(text@),
                ax + 1 + padding as int,
                resolve_text_axis_spec(
                    options.vertical_text_align,
                    ay + 1,
                    height - 2,
                    text_height_spec(text@, text_width as int),
                ),
                text_width as int,
            ) =~= Seq::<CmdView>::empty());
            assert(cmd_views(out@) =~= cmd_views(out@) + Seq::<CmdView>::empty());
        }
        return Ok(());
    }
    if !(ax as u32 + 1 + padding as u32 + text_width as u32 <= 65536) {
        return Err(GeometryError);
    }
    if ay as u32 + 1 > u16::MAX as u32 {
        return Err(GeometryError);
    }
    proof {
        if text@.len() == 0 {
            assert(words_of(text@).len() == 0);
        }
    }
    let text_height = compute_text_height(text.as_str(), text_width);
    let text_y = match resolve_text_axis_checked(
        &options.vertical_text_align,
        ay + 1,
        height - 2,
        text_height,
    ) {
        Some(v) => v,
        Option::None => {
            return Err(GeometryError);
        },
    };
    if text_y as u32 + text_height as u32 > u16::MAX as u32 + 1 {
        return Err(GeometryError);
    }
    proof {
        lemma_words_lens(text@);
        assert(text_height_spec(text@, text_width as int) == 1 + wrap_cursor(
            word_lens(words_of(text@)),
            text_width as int,
        ).1);
    }
    emit_text(out, &words, ax + 1 + padding, text_y, text_width);
    Ok(())
}

/// The writes of one window placed at absolute position `(ax, ay)`, in
/// emission order: its border, then its title (both only when the
/// border is rendered), then its content (only when content is
/// rendered).
pub open spec fn node_cmds(w: Window, ax: int, ay: int) -> Seq<CmdView> {
    (if w.options.render_border {
        border_cmds(ax, ay, w.width as int, w.height as int) + title_cmds(ax, ay, w.title@)
    } else {
        Seq::empty()
    }) + (if w.options.render_content {
        content_cmds(w.text_content@, w.options, ax, ay, w.width as int, w.height as int)
    } else {
        Seq::empty()
    })
}

/// The absolute position a window resolves to on the horizontal axis,
/// against the given running origin and parent extent.
pub open spec fn resolved_x(w: Window, origin_x: int, parent_w: int) -> int {
    resolve_axis_spec(w.options.horizontal_align, origin_x, parent_w, w.width as int, w.x as int)
}

/// The absolute position a window resolves to on the vertical axis,
/// against the given running origin and parent extent.
pub open spec fn resolved_y(w: Window, origin_y: int, parent_h: int) -> int {
    resolve_axis_spec(w.options.vertical_align, origin_y, parent_h, w.height as int, w.y as int)
}

/// The full command sequence of a window subtree drawn against the
/// given running origin and parent extents: the node's own writes, then
/// each child subtree's, in paint order, with the node's interior
/// corner as the children's origin and the node's extents as their
/// parent extents.
pub open spec fn draw_cmds(
    w: Window,
    origin_x: int,
    origin_y: int,
    parent_w: int,
    parent_h: int,
) -> Seq<CmdView>
    decreases w, 1int,
{
    let ax = resolved_x(w, origin_x, parent_w);
    let ay = resolved_y(w, origin_y, parent_h);
    node_cmds(w, ax, ay) + children_draw_cmds(
        w.children@,
        ax + 1,
        ay + 1,
        w.width as int,
        w.height as int,
    )
}

/// The command sequences of a sequence of sibling subtrees, in paint
/// order.
pub open spec fn children_draw_cmds(
    children: Seq<Window>,
    origin_x: int,
    origin_y: int,
    parent_w: int,
    parent_h: int,
) -> Seq<CmdView>
    decreases children, 0int,
{
    if children.len() == 0 {
        Seq::empty()
    } else {
        children_draw_cmds(children.drop_last(), origin_x, origin_y, parent_w, parent_h)
            + draw_cmds(children.last(), origin_x, origin_y, parent_w, parent_h)
    }
}

/// Whether a window subtree can be rendered against the given running
/// origin and parent extents: both axes resolve to cells on the
/// addressable grid, a rendered border has its minimum extents and lies
/// on the grid, rendered content meets [`content_ok`], the interior
/// corner handed to children lies on the grid, and every child subtree
/// is renderable against that interior.
pub open spec fn renderable(
    w: Window,
    origin_x: int,
    origin_y: int,
    parent_w: int,
    parent_h: int,
) -> bool
    decreases w,
{
    let ax = resolved_x(w, origin_x, parent_w);
    let ay = resolved_y(w, origin_y, parent_h);
    &&& ax <= u16::MAX
    &&& ay <= u16::MAX
    &&& w.options.render_border ==> {
        &&& w.width >= 4
        &&& w.height >= 3
        &&& ax + w.width <= 65536
        &&& ay + w.height <= 65536
    }
    &&& w.options.render_content ==> content_ok(
        w.text_content@,
        w.options,
        ax,
        ay,
        w.width as int,
        w.height as int,
    )
    &&& w.children@.len() > 0 ==> ax + 1 <= u16::MAX && ay + 1 <= u16::MAX
    &&& forall|i: int|
        0 <= i < w.children@.len() ==> renderable(
            #[trigger] w.children@[i],
            ax + 1,
            ay + 1,
            w.width as int,
            w.height as int,
        )
}

fn draw_node(
    out: &mut Vec<DrawCmd>,
    w: &Window,
    origin_x: u16,
    origin_y: u16,
    parent_w: u16,
    parent_h: u16,
) -> (r: Result<(), GeometryError>)
    ensures
        r is Ok <==> renderable(
            *w,
            origin_x as int,
            origin_y as int,
            parent_w as int,
            parent_h as int,
        ),
        r is Ok ==> cmd_views(final(out)@) == cmd_views(old(out)@) + draw_cmds(
            *w,
            origin_x as int,
            origin_y as int,
            parent_w as int,
            parent_h as int,
        ),
    decreases *w,
{
    let ax = match resolve_axis_checked(
        &w.options.horizontal_align,
        origin_x,
        parent_w,
        w.width,
        w.x,
    ) {
        Some(v) => v,
        Option::None => {
            return Err(GeometryError);
        },
    };
    let ay = match resolve_axis_checked(
        &w.options.vertical_align,
        origin_y,
        parent_h,
        w.height,
        w.y,
    ) {
        Some(v) => v,
        Option::None => {
            return Err(GeometryError);
        },
    };
    let ghost base = cmd_views(out@);
    let ghost border_part = if w.options.render_border {
        border_cmds(ax as int, ay as int, w.width as int, w.height as int) + title_cmds(
            ax as int,
            ay as int,
            w.title@,
        )
    } else {
        Seq::<CmdView>::empty()
    };
    if w.options.render_border {
        if w.width < 4 || w.height < 3 {
            return Err(GeometryError);
        }
        if !(ax as u32 + w.width as u32 <= 65536) {
            return Err(GeometryError);
        }
        if !(ay as u32 + w.height as u32 <= 65536) {
            return Err(GeometryError);
        }
        emit_border(out, ax, ay, w.width, w.height);
        emit_title(out, &w.title, ax, ay);
        proof {
            assert(cmd_views(out@) =~= base + border_part);
        }
    } else {
        proof {
            assert(cmd_views(out@) =~= base + border_part);
        }
    }
    let ghost content_part = if w.options.render_content {
        content_cmds(
            w.text_content@,
            w.options,
            ax as int,
            ay as int,
            w.width as int,
            w.height as int,
        )
    } else {
        Seq::<CmdView>::empty()
    };
    if w.options.render_content {
        match emit_content(out, &w.text_content, &w.options, ax, ay, w.width, w.height) {
            Ok(()) => {},
            Err(e) => {
                return Err(e);
            },
        }
    }
    let ghost own = node_cmds(*w, ax as int, ay as int);
    proof {
        assert(cmd_views(out@) =~= base + border_part + content_part);
        assert(base + border_part + content_part =~= base + own);
    }
    let child_count = w.children.len();
    if child_count > 0 {
        if ax == u16::MAX || ay == u16::MAX {
            return Err(GeometryError);
        }
        let child_origin_x = ax + 1;
        let child_origin_y = ay + 1;
        let ghost kids = w.children@;
        let mut i: usize = 0;
        proof {
            assert(children_draw_cmds(
                kids.take(0),
                child_origin_x as int,
                child_origin_y as int,
                w.width as int,
                w.height as int,
            ) =~= Seq::<CmdView>::empty());
            assert(cmd_views(out@) =~= base + own + children_draw_cmds(
                kids.take(0),
                child_origin_x as int,
                child_origin_y as int,
                w.width as int,
                w.height as int,
            ));
        }
        while i < child_count
            invariant
                child_count == w.children.len(),
                kids == w.children@,
                own == node_cmds(*w, ax as int, ay as int),
                ax as int == resolved_x(*w, origin_x as int, parent_w as int),
                ay as int == resolved_y(*w, origin_y as int, parent_h as int),
                i <= child_count,
                child_origin_x == ax + 1,
                child_origin_y == ay + 1,
                forall|k: int|
                    0 <= k < i ==> renderable(
                        #[trigger] kids[k],
                        child_origin_x as int,
                        child_origin_y as int,
                        w.width as int,
                        w.height as int,
                    ),
                cmd_views(out@) == base + own + children_draw_cmds(
                    kids.take(i as int),
                    child_origin_x as int,
                    child_origin_y as int,
                    w.width as int,
                    w.height as int,
                ),
            decreases child_count - i,
        {
            match draw_node(out, &w.children[i], child_origin_x, child_origin_y, w.width, w.height)
            {
                Ok(()) => {},
                Err(e) => {
                    proof {
                        assert(!renderable(
                            kids[i as int],
                            ax + 1,
                            ay + 1,
                            w.width as int,
                            w.height as int,
                        ));
                    }
                    return Err(e);
                },
            }
            proof {
                assert(kids.take(i + 1).drop_last() =~= kids.take(i as int));
                assert(kids.take(i + 1).last() == kids[i as int]);
                assert(cmd_views(out@) =~= base + own + children_draw_cmds(
                    kids.take(i + 1),
                    child_origin_x as int,
                    child_origin_y as int,
                    w.width as int,
                    w.height as int,
                ));
            }
            i = i + 1;
        }
        proof {
            assert(kids.take(child_count as int) =~= kids);
        }
    } else {
        proof {
            assert(children_draw_cmds(
                w.children@,
                ax + 1,
                ay + 1,
                w.width as int,
                w.height as int,
            ) =~= Seq::<CmdView>::empty());
            assert(cmd_views(out@) =~= base + own + children_draw_cmds(
                w.children@,
                ax + 1,
                ay + 1,
                w.width as int,
                w.height as int,
            ));
        }
    }
    Ok(())
}

/// Render a window tree to the sequence of terminal writes that draws
/// it: the root resolves against origin `(0, 0)` with its own extents
/// as the parent extents, and every node's writes precede its
/// children's. A tree whose geometry violates a minimum-size invariant
/// or leaves the addressable cell grid yields a [`GeometryError`]
/// instead, and nothing is drawn of a failed frame.
pub fn render_window_tree(window: &Window) -> (r: Result<Vec<DrawCmd>, GeometryError>)
    ensures
        r is Ok <==> renderable(*window, 0, 0, window.width as int, window.height as int),
        r is Ok ==> cmd_views((r->Ok_0)@) == draw_cmds(
            *window,
            0,
            0,
            window.width as int,
            window.height as int,
        ),
{
    let mut out: Vec<DrawCmd> = Vec::new();
    proof {
        assert(cmd_views(out@) =~= Seq::<CmdView>::empty());
    }
    match draw_node(&mut out, window, 0, 0, window.width, window.height) {
        Ok(()) => {
            proof {
                assert(Seq::<CmdView>::empty() + draw_cmds(
                    *window,
                    0,
                    0,
                    window.width as int,
                    window.height as int,
                ) =~= draw_cmds(*window, 0, 0, window.width as int, window.height as int));
            }
            Ok(out)
        },
        Err(e) => Err(e),
    }
}

} // verus!
