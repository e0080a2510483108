//! Cross-language module-graph analysis: per-file extraction of imports,
//! re-exports, exports and command references, re-export resolution, and the
//! project-wide findings built from them.
//!
//! Extraction is pattern based, not a parser: each language family has a
//! fixed set of regular expressions (`patterns`), and each extractor turns
//! what they match into a `FileAnalysis`. The findings over a root are then
//! computed from those records alone.

// Text and data model.
pub mod text;
pub mod order;
pub mod types;

// Extraction.
pub mod patterns;
pub mod names;
pub mod extract;
pub mod js;
pub mod css;
pub mod py;
pub mod rust_lang;

// Resolution and findings.
pub mod resolve;
pub mod aggregate;
pub mod commands;
pub mod analyzer;

// Surfaces.
pub mod html;
pub mod open;
pub mod args;
