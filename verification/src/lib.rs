//! A small line-oriented markup to HTML converter.
//!
//! The pipeline splits raw text into lines, classifies each line with a
//! block state (paragraph, ordered list, unordered list, code), rewrites
//! headings, list markers and inline spans into HTML fragments, renders the
//! block structure, and wraps the result in a standalone HTML document.
//! A small reload-signal model backs the live-serving mode.

pub mod classify;
pub mod inline;
pub mod lines;
pub mod pipeline;
pub mod reload;
pub mod render;
pub mod text;
pub mod wrap;
