//! Semantic validation by structural queries.
pub mod context_validator;
pub use context_validator::ContextValidator;
