//! A terminal-cell layout and rendering engine.
//!
//! A tree of rectangular windows — each with geometry, an optional border,
//! an optional title, word-wrapped text content, and per-axis alignment
//! rules relative to its parent — is resolved into absolute screen
//! coordinates and rendered as a sequence of cursor-positioned writes.

pub mod align;
pub mod text;
pub mod render;
pub mod window;

pub use align::Alignment;
pub use text::compute_text_height;
pub use render::{render_window_tree, DrawCmd, GeometryError};
pub use window::{Options, Window};
