//! The window tree: the data model of the layout engine.
//!
//! A [`Window`] owns its geometry, an optional title, wrapped text
//! content, rendering options and an ordered sequence of child windows.
//! Ownership is strictly tree-shaped: every node is owned by its parent
//! (or by the caller, for the root), child order is paint order, and
//! mutation is caller-driven between render passes.

use vstd::prelude::*;
use vstd::string::{StrSliceExecFns, StringExecFns};

use crate::align::Alignment;
use crate::text::compute_text_height;
use crate::text::{
    lemma_wrap_cursor_bounds, lemma_words_count_le_len, lemma_words_lens, text_height_spec,
    word_lens, words_of,
};

verus! {

/// Per-window rendering configuration: how each axis aligns against the
/// parent, how the text block aligns inside the content rectangle, how
/// far text is inset from the content edges, and whether the border and
/// the content are painted at all.
#[derive(Clone, Copy, PartialEq, Eq, Structural)]
pub struct Options {
    pub vertical_align: Alignment,
    pub horizontal_align: Alignment,
    pub vertical_text_align: Alignment,
    pub horizontal_text_padding: u16,
    pub render_border: bool,
    pub render_content: bool,
}

/// The options a freshly constructed window carries: no alignment
/// override on either axis, text pinned to the top of the content
/// rectangle, one cell of text padding, border and content rendered.
pub open spec fn default_options() -> Options {
    Options {
        vertical_align: Alignment::Unaligned,
        horizontal_align: Alignment::Unaligned,
        vertical_text_align: Alignment::Min(0),
        horizontal_text_padding: 1,
        render_border: true,
        render_content: true,
    }
}

/// One rectangular window: cell coordinates relative to the parent's
/// content origin (used when the axis is unaligned), cell extents
/// inclusive of the border when one is rendered, a title (empty string
/// means no title), body text reflowed at draw time, the ordered child
/// windows (insertion order is paint order), and rendering options.
pub struct Window {
    pub x: u16,
    pub y: u16,
    pub width: u16,
    pub height: u16,
    pub title: String,
    pub text_content: String,
    pub children: Vec<Window>,
    pub options: Options,
}

impl Window {
    /// Construct a window with explicit geometry, title and text;
    /// options start at their defaults and the window has no children.
    pub fn new(x: u16, y: u16, width: u16, height: u16, title: &str, text_content: &str) -> (w:
        Window)
        ensures
            w.x == x,
            w.y == y,
            w.width == width,
            w.height == height,
            w.title@ == title@,
            w.text_content@ == text_content@,
            w.children@ == Seq::<Window>::empty(),
            w.options == default_options(),
    {
        Window {
            x,
            y,
            width,
            height,
            title: String::from_str(title),
            text_content: String::from_str(text_content),
            children: Vec::new(),
            options: Options {
                vertical_align: Alignment::Unaligned,
                horizontal_align: Alignment::Unaligned,
                vertical_text_align: Alignment::Min(0),
                horizontal_text_padding: 1,
                render_border: true,
                render_content: true,
            },
        }
    }

    /// Replace the window's body text; everything else is untouched.
    pub fn set_text_content(&mut self, text: &str)
        ensures
            final(self).text_content@ == text@,
            final(self).x == old(self).x,
            final(self).y == old(self).y,
            final(self).width == old(self).width,
            final(self).height == old(self).height,
            final(self).title == old(self).title,
            final(self).children == old(self).children,
            final(self).options == old(self).options,
    {
        self.text_content = String::from_str(text);
    }

    /// Shrink the window to its text, within the current width acting
    /// as a maximum: the height becomes the wrapped text height plus the
    /// two border rows, and when the text fits on a single line the
    /// width also shrinks to the text length plus four cells (border and
    /// one space on each side).
    pub fn fit_text(&mut self)
        requires
            old(self).width as int >= 2 * (old(self).options.horizontal_text_padding as int + 1),
            old(self).text_content@.len() + 4 <= u16::MAX,
            old(self).text_content@.len() > 0 ==> old(self).width as int > 2 * (
            old(self).options.horizontal_text_padding as int + 1),
        ensures
            ({
                let max_text_width = old(self).width as int - 2 * (
                old(self).options.horizontal_text_padding as int + 1);
                let th = text_height_spec(old(self).text_content@, max_text_width);
                &&& final(self).height == th + 2
                &&& final(self).width as int == if th == 1 {
                    old(self).text_content@.len() + 4int
                } else {
                    old(self).width as int
                }
            }),
            final(self).x == old(self).x,
            final(self).y == old(self).y,
            final(self).title == old(self).title,
            final(self).text_content == old(self).text_content,
            final(self).children == old(self).children,
            final(self).options == old(self).options,
    {
        // The padding + 1 accounts for the border cell taking away from
        // the usable text width on each side.
        let max_text_width = self.width - 2 * (self.options.horizontal_text_padding + 1);
        proof {
            lemma_words_lens(self.text_content@);
            lemma_words_count_le_len(self.text_content@);
            lemma_wrap_cursor_bounds(
                word_lens(words_of(self.text_content@)),
                max_text_width as int,
            );
        }
        let text_height = compute_text_height(self.text_content.as_str(), max_text_width);
        self.height = text_height + 2;

        if text_height == 1 {
            let text_len = self.text_content.as_str().unicode_len();
            self.width = text_len as u16 + 4;
        }
    }

    /// Append a child window, transferring ownership; the child paints
    /// after (and so above) all its earlier siblings.
    pub fn add_child(&mut self, window: Window)
        ensures
            final(self).children@ == old(self).children@.push(window),
            final(self).x == old(self).x,
            final(self).y == old(self).y,
            final(self).width == old(self).width,
            final(self).height == old(self).height,
            final(self).title == old(self).title,
            final(self).text_content == old(self).text_content,
            final(self).options == old(self).options,
    {
        self.children.push(window);
    }

    /// The child windows, in paint order.
    pub fn get_children(&self) -> (children: &Vec<Window>)
        ensures
            children@ == self.children@,
    {
        &self.children
    }

    /// Mutable access to the child windows, for caller-driven mutation
    /// (animation) between render passes.
    pub fn get_children_as_mut(&mut self) -> (children: &mut Vec<Window>)
        ensures
            children@ == old(self).children@,
            final(self).children == *final(children),
            final(self).x == old(self).x,
            final(self).y == old(self).y,
            final(self).width == old(self).width,
            final(self).height == old(self).height,
            final(self).title == old(self).title,
            final(self).text_content == old(self).text_content,
            final(self).options == old(self).options,
    {
        &mut self.children
    }
}

} // verus!
