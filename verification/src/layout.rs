//! Layout: computed style, the layout tree, and its sizing and positioning.

pub mod computed_style;
pub mod layout_object;
pub mod layout_view;
