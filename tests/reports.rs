use semantic_code_edit_mcp::editor::diff_generator::DiffGenerator;
use semantic_code_edit_mcp::editor::validator::Validator;
use semantic_code_edit_mcp::languages::json::JsonEditor;
use semantic_code_edit_mcp::languages::python::PythonEditor;
use semantic_code_edit_mcp::languages::toml::TomlEditor;
use semantic_code_edit_mcp::languages::{LanguageName, LanguageRegistry};
use semantic_code_edit_mcp::selector::{Operation, Selector};
use semantic_code_edit_mcp::validation::context_validator::{
    ContextValidator, ContextViolation, ValidationResult,
};

#[test]
fn blank_anchor_always_fails_validation() {
    for op in [
        Operation::InsertBefore,
        Operation::InsertAfter,
        Operation::InsertAfterNode,
        Operation::ReplaceRange,
        Operation::ReplaceExact,
        Operation::ReplaceNode,
    ] {
        for anchor in ["", "   ", "\t\n", "\u{3000}"] {
            let s = Selector {
                operation: op,
                anchor: anchor.to_string(),
                end: Some("x".to_string()),
            };
            assert!(s.validate().is_err());
        }
    }
}

#[test]
fn end_is_required_only_for_range_replacement() {
    let with_end = |op| Selector {
        operation: op,
        anchor: "a".to_string(),
        end: Some("b".to_string()),
    };
    let without_end = |op| Selector {
        operation: op,
        anchor: "a".to_string(),
        end: None,
    };
    assert!(with_end(Operation::ReplaceRange).validate().is_ok());
    assert_eq!(
        without_end(Operation::ReplaceRange).validate().unwrap_err(),
        "- End is required for range replacement"
    );
    assert_eq!(
        with_end(Operation::ReplaceExact).validate().unwrap_err(),
        "- `end` is not relevant for `replace_exact` operations. Did you intend to `replace_range`?"
    );
    assert!(without_end(Operation::InsertAfterNode).validate().is_ok());
    assert_eq!(with_end(Operation::InsertBefore).operation_name(), "insert before");
}

#[test]
fn syntax_report_shows_context_window() {
    let content = "l1\nl2\nl3\nl4\nl5\nl6\nl7\nl8\nl9";
    let report = Validator::syntax_report(content, &vec![4]);
    assert_eq!(
        report,
        "===SYNTAX ERRORS===\n   2   ⎸l2\n   3   ⎸l3\n   4   ⎸l4\n   5 ->⎸l5\n   6   ⎸l6\n   7   ⎸l7\n   8   ⎸l8\n"
    );
}

#[test]
fn efficiency_header_for_twenty_lines_two_touched() {
    assert_eq!(
        DiffGenerator::efficiency_header(20, 2),
        "Edit efficiency: 10%\n💡 TIP: For focused changes like this, you might try targeted insert/replace operations for easier review and iteration\n\n"
    );
    assert_eq!(DiffGenerator::efficiency_header(10, 2), "");
    assert_eq!(DiffGenerator::efficiency_header(20, 10), "Edit efficiency: 50%\n\n");
}

#[test]
fn changed_lines_are_distinct_and_clipped() {
    assert_eq!(DiffGenerator::calculate_changed_lines(&vec![(1, 3), (2, 5), (8, 12)], 10), 6);
}

#[test]
fn diff_strips_headers_and_trailing_newline() {
    let diff = DiffGenerator::generate_diff("a\nb\nc\n", "a\nB\nc\n", "B");
    assert_eq!(diff, "===DIFF===\n a\n-b\n+B\n c");
}

#[test]
fn long_content_with_small_change_gets_tip() {
    let source: String = (0..20).map(|i| format!("line{i}\n")).collect();
    let mut output = source.clone();
    output = output.replace("line3\n", "LINE3\n");
    let content: String = (0..20).map(|i| format!("c{i}\n")).collect();
    let diff = DiffGenerator::generate_diff(&source, &output, &content);
    assert!(diff.starts_with("Edit efficiency: 35%\n\n===DIFF===\n"));
    assert!(!diff.contains("💡 TIP"));
}

#[test]
fn violation_messages_and_suggestions() {
    assert_eq!(
        ContextValidator::get_violation_message("invalid.impl.nested"),
        "Impl blocks can only be defined at module level"
    );
    assert_eq!(
        ContextValidator::get_violation_message("invalid.foo.bar"),
        "Invalid placement: foo.bar"
    );
    assert_eq!(
        ContextValidator::get_violation_suggestion("invalid.use.in.item.body"),
        "Move use declarations to the top of the file"
    );
    assert_eq!(
        ContextValidator::get_violation_suggestion("invalid.other"),
        "Consider placing this construct in an appropriate context"
    );
}

#[test]
fn snippets_widen_to_character_boundaries() {
    let source = "ab测试cd";
    let result = ValidationResult {
        is_valid: false,
        violations: vec![ContextViolation {
            start_byte: 3,
            end_byte: 6,
            message: "m".to_string(),
            suggestion: "s",
        }],
        source_code: source,
    };
    assert_eq!(
        result.format_errors(),
        "❌ Invalid placement detected:\n\n• m:\n测试\n\n  💡 Suggestion: s\n"
    );
    let out_of_bounds = ValidationResult {
        is_valid: false,
        violations: vec![ContextViolation {
            start_byte: 0,
            end_byte: 99,
            message: "m".to_string(),
            suggestion: "s",
        }],
        source_code: source,
    };
    assert!(out_of_bounds.format_errors().contains("<range out of bounds>"));
}

#[test]
fn test_utf8_boundary_panic_reproduction() {
    let source_code = "fn test() {\n    let 变量 = 42; // 中文注释\n}";
    let mut parser = tree_sitter::Parser::new();
    parser.set_language(&tree_sitter_rust::LANGUAGE.into()).unwrap();
    let tree = parser.parse(source_code, None).unwrap();
    let query = tree_sitter::Query::new(
        &tree_sitter_rust::LANGUAGE.into(),
        "(function_item) @invalid.function",
    )
    .unwrap();
    let result = ContextValidator::validate_tree(&tree, &query, source_code);
    assert!(!result.is_valid);
    let error_message = result.format_errors();
    assert!(error_message.contains("Invalid placement: function"));
}

#[test]
fn test_edge_case_utf8_boundaries() {
    let test_cases = vec![
        "fn 测试() {}",
        "// 这是一个测试\nfn test() {}",
        "fn test() { /* 中文 */ }",
        "fn 名前() { let 変数 = \"文字列\"; }",
    ];
    let mut parser = tree_sitter::Parser::new();
    parser.set_language(&tree_sitter_rust::LANGUAGE.into()).unwrap();
    for source_code in test_cases {
        let tree = parser.parse(source_code, None).unwrap();
        let query = tree_sitter::Query::new(
            &tree_sitter_rust::LANGUAGE.into(),
            "(function_item) @function",
        )
        .unwrap();
        let result = ContextValidator::validate_tree(&tree, &query, source_code);
        assert!(result.is_valid);
        let _formatted = result.format_errors();
    }
}

#[test]
fn json_indentation_is_detected() {
    assert_eq!(JsonEditor::indent_unit("{\n    \"a\": 1\n}"), "    ");
    assert_eq!(JsonEditor::indent_unit("{\n  \"a\": {\n    \"b\": 1\n  }\n}"), "  ");
    assert_eq!(JsonEditor::indent_unit("{\n\t\"a\": 1,\n\t\"b\": 2\n}"), "\t");
    assert_eq!(JsonEditor::indent_unit("{\n\t\"a\": 1\n}"), "");
    assert_eq!(JsonEditor::indent_unit(""), "\t");
}

#[test]
fn json_format_and_errors() {
    let editor = JsonEditor::new();
    let formatted = editor.format_code("{\n    \"a\": 1, \"b\": 2\n}").unwrap();
    assert_eq!(formatted, "{\n    \"a\": 1,\n    \"b\": 2\n}\n");
    assert_eq!(editor.collect_errors("{\"a\": 1}"), Vec::<usize>::new());
    assert_eq!(editor.collect_errors("{\n\"a\": ,\n}"), vec![1]);
}

#[test]
fn python_and_toml_errors_map_to_lines() {
    let py = PythonEditor::new();
    assert!(py.collect_errors("x = 1\n").is_empty());
    assert_eq!(py.collect_errors("x = 1\ndef (:\n"), vec![1]);
    let toml = TomlEditor::new();
    assert!(toml.collect_errors("a = 1\n").is_empty());
    assert_eq!(toml.format_code("a=1\n").unwrap(), "a = 1\n");
}

#[test]
fn registry_detects_languages_by_extension() {
    let registry = LanguageRegistry::new().unwrap();
    assert_eq!(registry.detect_language_from_path("src/main.rs"), Some(LanguageName::Rust));
    assert_eq!(registry.detect_language_from_path("a/b.hpp"), Some(LanguageName::Cpp));
    assert_eq!(registry.detect_language_from_path("README"), None);
    let plain = registry.get_language_with_hint("notes.xyz", None).unwrap();
    assert_eq!(plain.name(), LanguageName::Other);
    let hinted = registry.get_language_with_hint("notes.xyz", Some(LanguageName::Json)).unwrap();
    assert_eq!(hinted.name(), LanguageName::Json);
    assert_eq!(LanguageName::CSharp.as_str(), "csharp");
    let rust = registry.get_language(LanguageName::Rust).unwrap();
    assert_eq!(
        rust.docs(),
        "Language: rust\nFile extensions: rs\nTree-sitter language available for AST-aware operations"
    );
}

#[test]
fn toml_errors_spanning_lines_are_reported() {
    let toml = TomlEditor::new();
    let rows = toml.collect_errors("a = \"\"\"x\ny\nz\n");
    assert!(!rows.is_empty());
}

#[test]
fn syntax_window_reaches_three_lines_after() {
    let report = Validator::syntax_report("a\nb\nc\nd", &vec![0]);
    assert_eq!(
        report,
        "===SYNTAX ERRORS===\n   1 ->⎸a\n   2   ⎸b\n   3   ⎸c\n   4   ⎸d\n"
    );
}
