//! Syntax-aware, anchor-based source editing.
//!
//! A [`selector::Selector`] names an edit by literal anchor text. The
//! resolver turns it into ordered byte-range candidates, each candidate is
//! spliced into the source and judged by a two-layer validator, and the
//! first acceptable result is explained with a cleaned diff.
pub mod selector;
pub mod state;
pub mod text;
pub mod tools;
pub mod editor;
pub mod error;
pub mod filesystem;
pub mod languages;
pub mod syntax;
pub mod validation;
