//! Error kinds of the library. Editing outcomes that the caller is expected
//! to act on (an anchor not found, every candidate rejected) are messages,
//! not errors; these are the failures of a request or of the tool itself.
use crate::text::{decimal, decimal_text};
use vstd::prelude::*;

verus! {

#[derive(Debug, Clone, PartialEq, Eq)]
pub enum SemanticEditError {
    UnsupportedLanguage { language: String },
    ParserUnavailable { language: String },
    FileNotFound { path: String },
    InvalidEncoding { path: String },
    /// An I/O failure, carried as its message.
    Io(String),
    NoValidEditLocations,
    SyntaxValidationFailed { details: String },
    InvalidSyntaxResult { line: usize },
    EditIteratorInvalidState,
    TreeSitterParseError,
    InvalidTreeSitterQuery { query: String },
    FileCachePoisoned,
    CacheMutexPoisoned,
    InvalidSessionState,
    OperationNotStaged,
    OperationNotAcknowledged,
    ContextNotFound { session_id: String },
    InvalidUtf8Boundary { position: usize },
    TextRangeOutOfBounds { start: usize, end: usize, max: usize },
}

/// The text shown for an error.
pub open spec fn error_text(e: SemanticEditError) -> Seq<char> {
    match e {
        SemanticEditError::UnsupportedLanguage { language } => "unsupported language: "@ + language@,
        SemanticEditError::ParserUnavailable { language } => "language parser not available for "@
            + language@,
        SemanticEditError::FileNotFound { path } => "file not found: "@ + path@,
        SemanticEditError::InvalidEncoding { path } => "invalid file encoding: "@ + path@,
        SemanticEditError::Io(message) => message@,
        SemanticEditError::NoValidEditLocations => "no valid edit locations found for selector"@,
        SemanticEditError::SyntaxValidationFailed { details } => "syntax validation failed: "@
            + details@,
        SemanticEditError::InvalidSyntaxResult { line } => "edit would create invalid syntax at line "@
            + decimal(line as nat),
        SemanticEditError::EditIteratorInvalidState => "edit iterator in invalid state"@,
        SemanticEditError::TreeSitterParseError => "failed to parse syntax tree"@,
        SemanticEditError::InvalidTreeSitterQuery { query } => "invalid tree-sitter query: "@
            + query@,
        SemanticEditError::FileCachePoisoned => "file cache is poisoned"@,
        SemanticEditError::CacheMutexPoisoned => "cache mutex is poisoned"@,
        SemanticEditError::InvalidSessionState => "session state is invalid"@,
        SemanticEditError::OperationNotStaged => "no operation is currently staged"@,
        SemanticEditError::OperationNotAcknowledged => "operation not acknowledged"@,
        SemanticEditError::ContextNotFound { session_id } => "no context found for session `"@
            + session_id@ + "`. Use set_context first or provide an absolute path"@,
        SemanticEditError::InvalidUtf8Boundary { position } =>
            "invalid UTF-8 boundary at byte position "@ + decimal(position as nat),
        SemanticEditError::TextRangeOutOfBounds { start, end, max } => "text range is out of bounds: "@
            + decimal(start as nat) + ".."@ + decimal(end as nat) + " (max: "@ + decimal(max as nat)
            + ")"@,
    }
}

fn joined(a: &str, b: &str) -> (r: String)
    ensures
        r@ == a@ + b@,
{
    let mut s = String::from_str(a);
    s.append(b);
    s
}

impl SemanticEditError {
    /// The human-readable text of the error.
    pub fn message(&self) -> (r: String)
        ensures
            r@ == error_text(*self),
    {
        match self {
            SemanticEditError::UnsupportedLanguage { language } => joined(
                "unsupported language: ",
                language.as_str(),
            ),
            SemanticEditError::ParserUnavailable { language } => joined(
                "language parser not available for ",
                language.as_str(),
            ),
            SemanticEditError::FileNotFound { path } => joined("file not found: ", path.as_str()),
            SemanticEditError::InvalidEncoding { path } => joined(
                "invalid file encoding: ",
                path.as_str(),
            ),
            SemanticEditError::Io(message) => message.clone(),
            SemanticEditError::NoValidEditLocations => String::from_str(
                "no valid edit locations found for selector",
            ),
            SemanticEditError::SyntaxValidationFailed { details } => joined(
                "syntax validation failed: ",
                details.as_str(),
            ),
            SemanticEditError::InvalidSyntaxResult { line } => joined(
                "edit would create invalid syntax at line ",
                decimal_text(*line).as_str(),
            ),
            SemanticEditError::EditIteratorInvalidState => String::from_str(
                "edit iterator in invalid state",
            ),
            SemanticEditError::TreeSitterParseError => String::from_str(
                "failed to parse syntax tree",
            ),
            SemanticEditError::InvalidTreeSitterQuery { query } => joined(
                "invalid tree-sitter query: ",
                query.as_str(),
            ),
            SemanticEditError::FileCachePoisoned => String::from_str("file cache is poisoned"),
            SemanticEditError::CacheMutexPoisoned => String::from_str("cache mutex is poisoned"),
            SemanticEditError::InvalidSessionState => String::from_str("session state is invalid"),
            SemanticEditError::OperationNotStaged => String::from_str(
                "no operation is currently staged",
            ),
            SemanticEditError::OperationNotAcknowledged => String::from_str(
                "operation not acknowledged",
            ),
            SemanticEditError::ContextNotFound { session_id } => {
                let mut s = joined("no context found for session `", session_id.as_str());
                s.append("`. Use set_context first or provide an absolute path");
                s
            },
            SemanticEditError::InvalidUtf8Boundary { position } => joined(
                "invalid UTF-8 boundary at byte position ",
                decimal_text(*position).as_str(),
            ),
            SemanticEditError::TextRangeOutOfBounds { start, end, max } => {
                let mut s = joined("text range is out of bounds: ", decimal_text(*start).as_str());
                s.append("..");
                s.append(decimal_text(*end).as_str());
                s.append(" (max: ");
                s.append(decimal_text(*max).as_str());
                s.append(")");
                s
            },
        }
    }
}

} // verus!
