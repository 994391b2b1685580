//! A small, verified web-rendering core: it parses HTML into a DOM,
//! extracts and parses CSS, runs a tiny script interpreter against the DOM,
//! lays the document out, and emits a flat display list for a shell to draw.

pub mod browser;
pub mod constants;
pub mod css;
pub mod display_item;
pub mod dom;
pub mod error;
pub mod html;
pub mod http;
pub mod js;
pub mod layout;
pub mod page;
mod strutil;
pub mod url;
pub mod utils;

