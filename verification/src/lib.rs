//! Convert a parsed word-processing document into Markdown and JSON text.
//!
//! The library owns the normalization and rendering logic: resolving cascaded
//! paragraph and run formatting, turning list metadata into numbered or
//! bulleted prefixes with per-list counters, coalescing adjacent text runs,
//! laying out tables with aligned columns, and emitting the final Markdown
//! and JSON strings. Reading a document container from disk and extracting
//! its raw tables is left to a thin unverified front end that hands this
//! library plain values.

pub mod block;
pub mod document;
pub mod json;
pub mod laws;
pub mod numbering;
pub mod paragraph;
pub mod raw;
pub mod style;
pub mod table;
pub mod text;
