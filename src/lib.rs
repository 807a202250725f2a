//! Rewrites Markdown text (with Obsidian's wiki links) into Neorg markup.
pub mod convert;
pub mod laws;
pub mod lines;
pub mod rules;
pub mod text;

pub use convert::convert_markdown_to_neorg;
