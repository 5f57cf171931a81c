//! Converts a small Markdown dialect (ATX headings, `-` list items and plain
//! paragraph lines) into an HTML fragment.
//!
//! The tokenizer classifies each non-blank line of the input into one token;
//! the renderer maps the token stream to HTML, wrapping every maximal run of
//! list items in a single `<ul>` element.

pub mod text;
pub mod token;
pub mod tokenizer;
pub mod render;
pub mod laws;
