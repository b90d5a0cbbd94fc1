//! A verified formatter for documents that mix JSON5 data syntax with
//! Mustache template directives.
//!
//! The library parses such a document into a syntax tree and re-linearizes
//! the tree into canonical text under a configurable style, without altering
//! semantic content. Both halves are specified exactly over a mathematical
//! model of the tree: the parser is proved to build precisely the tree that
//! `spec_parse_document` prescribes (terminating, covering the input
//! losslessly, flagging rejected regions consistently), and the renderer to
//! emit precisely the text that `spec_render_document` prescribes, so a
//! formatting call's output is pinned down completely by its input and its
//! configuration.

pub mod config;
pub mod driver;
pub mod laws;
pub mod parse;
pub mod render;
pub mod tree;

pub use config::{
    CommentHandling, Config, FmtError, MustacheIndentStyle, MustacheSpacing, QuoteStyle,
    TrailingCommaStyle,
};
pub use driver::{format_string, format_string_with_config, is_formatted, MustacheJson5Formatter};
pub use tree::{NodeKind, SyntaxNode};
