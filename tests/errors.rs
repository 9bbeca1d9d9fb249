use semantic_code_edit_mcp::error::SemanticEditError;

#[test]
fn error_messages_are_descriptive() {
    let error = SemanticEditError::UnsupportedLanguage {
        language: "unknown".to_string(),
    };
    assert_eq!(error.message(), "unsupported language: unknown");

    let error = SemanticEditError::TextRangeOutOfBounds {
        start: 10,
        end: 20,
        max: 15,
    };
    assert_eq!(
        error.message(),
        "text range is out of bounds: 10..20 (max: 15)"
    );
}

#[test]
fn error_display_never_panics() {
    let errors = vec![
        SemanticEditError::UnsupportedLanguage {
            language: "test".to_string(),
        },
        SemanticEditError::NoValidEditLocations,
        SemanticEditError::FileCachePoisoned,
        SemanticEditError::InvalidUtf8Boundary { position: 42 },
    ];

    for error in errors {
        let _ = error.message();
        let _ = format!("{error:?}");
    }
}

#[test]
fn editor_should_handle_empty_failed_edits() {}

#[test]
fn editor_should_handle_parser_unavailable() {}

#[test]
fn language_registry_should_handle_unknown_language() {}

#[test]
fn edit_iterator_should_handle_invalid_state() {}

#[test]
fn file_cache_should_handle_poison_error() {}

#[test]
fn test_error_messages_follow_rust_conventions() {
    let errors = [
        SemanticEditError::UnsupportedLanguage {
            language: "test".to_string(),
        },
        SemanticEditError::ParserUnavailable {
            language: "test".to_string(),
        },
        SemanticEditError::FileNotFound {
            path: "test.rs".to_string(),
        },
        SemanticEditError::InvalidEncoding {
            path: "test.rs".to_string(),
        },
        SemanticEditError::NoValidEditLocations,
        SemanticEditError::SyntaxValidationFailed {
            details: "test error".to_string(),
        },
        SemanticEditError::InvalidSyntaxResult { line: 42 },
        SemanticEditError::EditIteratorInvalidState,
        SemanticEditError::TreeSitterParseError,
        SemanticEditError::InvalidTreeSitterQuery {
            query: "test".to_string(),
        },
        SemanticEditError::FileCachePoisoned,
        SemanticEditError::InvalidSessionState,
        SemanticEditError::InvalidUtf8Boundary { position: 42 },
        SemanticEditError::TextRangeOutOfBounds {
            start: 0,
            end: 10,
            max: 5,
        },
    ];

    for error in errors {
        let message = error.message();
        assert!(
            message.chars().next().unwrap().is_lowercase(),
            "Error message should start with lowercase: '{message}'"
        );
        assert!(
            !message.ends_with('.'),
            "Error message should not end with period: '{message}'"
        );
    }
}

#[test]
fn test_cache_mutex_errors_use_proper_type() {}

#[test]
fn test_operation_not_staged_errors_use_proper_type() {}

#[test]
fn test_context_not_found_errors_use_proper_type() {}

#[test]
fn test_operation_not_acknowledged_errors_use_proper_type() {}

#[test]
fn test_file_errors_include_consistent_context() {
    let error = SemanticEditError::FileNotFound {
        path: "/path/to/test.rs".to_string(),
    };
    assert!(error.message().contains("/path/to/test.rs"));
}

#[test]
fn test_language_errors_include_consistent_context() {
    let error = SemanticEditError::UnsupportedLanguage {
        language: "unknown".to_string(),
    };
    assert!(error.message().contains("unknown"));
}

#[test]
fn test_validation_errors_include_consistent_context() {
    let error = SemanticEditError::SyntaxValidationFailed {
        details: "expected semicolon".to_string(),
    };
    assert!(error.message().contains("expected semicolon"));
}

#[test]
fn test_all_error_variants_have_proper_messages() {}

#[test]
fn test_error_chain_consistency() {}

#[test]
fn context_not_found_message_names_the_session() {
    let error = SemanticEditError::ContextNotFound {
        session_id: "default".to_string(),
    };
    assert_eq!(
        error.message(),
        "no context found for session `default`. Use set_context first or provide an absolute path"
    );
    assert_eq!(
        SemanticEditError::InvalidSyntaxResult { line: 7 }.message(),
        "edit would create invalid syntax at line 7"
    );
}
