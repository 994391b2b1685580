//! Fixed pixel dimensions of the rendering model: the window, its paddings
//! and bars, the content area that remains, and the monospace glyph cell.

use vstd::prelude::*;

verus! {

/// Width of the whole window in pixels.
pub const WINDOW_WIDTH: i64 = 600;

/// Height of the whole window in pixels.
pub const WINDOW_HEIGHT: i64 = 400;

/// Inner padding of the window, applied on every side.
pub const WINDOW_PADDING: i64 = 5;

/// Height of the title bar drawn by the shell.
pub const TITLE_BAR_HEIGHT: i64 = 24;

/// Height of the toolbar drawn by the shell.
pub const TOOLBAR_HEIGHT: i64 = 26;

/// Width of the area in which content is laid out.
pub const CONTENT_AREA_WIDTH: i64 = WINDOW_WIDTH - WINDOW_PADDING * 2;

/// Height of the area in which content is laid out.
pub const CONTENT_AREA_HEIGHT: i64 = WINDOW_HEIGHT - TITLE_BAR_HEIGHT - TOOLBAR_HEIGHT
    - WINDOW_PADDING * 2;

/// Width of one monospace character cell in pixels.
pub const CHAR_WIDTH: i64 = 8;

/// Height of one monospace character in pixels.
pub const CHAR_HEIGHT: i64 = 16;

/// Line advance: the character height plus a little leading.
pub const CHAR_HEIGHT_WITH_PADDING: i64 = CHAR_HEIGHT + 4;

} // verus!
