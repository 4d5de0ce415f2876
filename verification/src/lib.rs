//! Core of a single-traversal lint analysis engine.
//!
//! The library walks a parsed syntax tree once per phase, builds a shared
//! semantic model during the syntax phase, dispatches typed rule queries
//! during the semantic phase, and decodes untyped rule configuration into
//! typed option records while accumulating diagnostics.

pub mod analyzer;
pub mod case;
pub mod diagnostics;
pub mod options;
pub mod rule;
pub mod semantics;
pub mod services;
pub mod text;
pub mod value;
