//! CSS processing: the tokenizer and the CSSOM parser.

pub mod cssom;
pub mod token;
