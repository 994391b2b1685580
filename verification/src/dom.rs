//! The DOM: nodes kept in an arena addressed by integer handles, and a few
//! helpers that search the tree.

pub mod api;
pub mod node;
