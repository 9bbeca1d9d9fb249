use semantic_code_edit_mcp::editor::Editor;
use semantic_code_edit_mcp::languages::traits::DefaultEditor;
use semantic_code_edit_mcp::languages::{
    simple_language, LanguageBuilder, LanguageEditor, LanguageName, LanguageRegistry,
};
use semantic_code_edit_mcp::selector::{Operation, Selector};
use semantic_code_edit_mcp::state::StagedOperation;
use semantic_code_edit_mcp::validation::ContextValidator;

fn sel(operation: Operation, anchor: &str, end: Option<&str>) -> Selector {
    Selector {
        operation,
        anchor: anchor.to_string(),
        end: end.map(|e| e.to_string()),
    }
}

#[test]
fn test_editor_workflow_replace_range() {
    let content = r#"fn process_data() {
    // START_REPLACE
    let data = vec![1, 2, 3];
    for item in data {
        println!("{}", item);
    }
    // END_REPLACE
}
"#;
    let registry = LanguageRegistry::new().unwrap();
    let language = registry.get_language_with_hint("process.rs", None).unwrap();
    let new_content = r#"// START_REPLACE
    let data = vec![10, 20, 30, 40];
    let sum: i32 = data.iter().sum();
    println!("Sum: {}", sum);
    // END_REPLACE"#;
    let editor = Editor::new(
        new_content.to_string(),
        sel(Operation::ReplaceRange, "// START_REPLACE", Some("// END_REPLACE")),
        language,
        "process.rs".to_string(),
        content.to_string(),
        None,
    )
    .unwrap();
    let (_msg, output, _path) = editor.commit().unwrap();
    assert!(output.as_ref().unwrap().contains("Sum: {}"));
    assert!(output.as_ref().unwrap().contains("data.iter().sum()"));
    assert!(!output.as_ref().unwrap().contains("for item in data"));
}

#[test]
fn test_all_operation_types() {
    let content = r#"fn first() {
    println!("first");
}

fn second() {
    println!("second");
}"#;
    let registry = LanguageRegistry::new().unwrap();
    let language = registry.get_language_with_hint("ops_test.rs", None).unwrap();
    let editor = Editor::new(
        "\nfn between() {\n    println!(\"between\");\n}".to_string(),
        sel(Operation::InsertAfterNode, "fn first()", None),
        language,
        "ops_test.rs".to_string(),
        content.to_string(),
        None,
    )
    .unwrap();
    let (_msg, output, _path) = editor.commit().unwrap();
    assert!(
        output.as_ref().unwrap().contains("between"),
        "InsertAfterNode didn't add 'between' function"
    );
    let editor = Editor::new(
        "middle".to_string(),
        sel(Operation::ReplaceExact, "between", None),
        language,
        "ops_test.rs".to_string(),
        output.unwrap(),
        None,
    )
    .unwrap();
    let (_msg, output, _path) = editor.commit().unwrap();
    assert!(output.as_ref().unwrap().contains("middle"));
    assert!(output.as_ref().unwrap().contains("println!(\"between\")"));
}

#[test]
fn test_multi_language_support() {
    let languages = vec![
        ("test.rs", "fn main() {}", "// Rust comment"),
        ("test.py", "def main():\n    pass", "# Python comment"),
        ("test.js", "function main() {}", "// JS comment"),
        ("test.go", "func main() {}", "// Go comment"),
        ("test.java", "class Test {}", "// Java comment"),
    ];
    let registry = LanguageRegistry::new().unwrap();
    for (filename, content, comment) in languages {
        let language = registry.get_language_with_hint(filename, None).unwrap();
        let editor = Editor::new(
            format!("\n{}", comment),
            sel(Operation::InsertAfter, content.lines().next().unwrap(), None),
            language,
            filename.to_string(),
            content.to_string(),
            None,
        );
        assert!(editor.is_ok(), "Failed for {}", filename);
        let result = editor.unwrap().commit();
        assert!(result.is_ok(), "Failed to commit for {}", filename);
    }
}

#[test]
fn create_editor_from_operation_creates_editor_successfully() {
    let registry = LanguageRegistry::new().unwrap();
    let language = registry.get_language_with_hint("test.rs", None).unwrap();
    let staged_op = StagedOperation {
        selector: sel(Operation::InsertAfter, "fn test", None),
        content: "\n    println!(\"Added!\");".to_string(),
        file_path: "test.rs".to_string(),
        language_name: language.name(),
        edit_position: None,
    };
    let editor =
        Editor::from_staged_operation(staged_op, &registry, "fn test() {}\n".to_string()).unwrap();
    assert!(editor.preview().is_ok());
}

#[test]
fn editor_format_code_delegates_to_language() {
    let registry = LanguageRegistry::new().unwrap();
    let rust_lang = registry.get_language(LanguageName::Rust).unwrap();
    let editor = Editor::new(
        "// comment".to_string(),
        sel(Operation::InsertAfter, "main", None),
        rust_lang,
        "main.rs".to_string(),
        "fn main(){println!(\"test\");}".to_string(),
        None,
    )
    .unwrap();
    match editor.format_code("fn main(){println!(\"test\");}") {
        None => {}
        Some(Ok(_formatted)) => {}
        Some(Err(error_msg)) => {
            assert!(error_msg.contains("formatter") || error_msg.contains("format"));
        }
    }
}

#[test]
fn editor_diff_generation_includes_efficiency_metrics() {
    let registry = LanguageRegistry::new().unwrap();
    let rust_lang = registry.get_language(LanguageName::Rust).unwrap();
    let editor = Editor::new(
        "\n    let w = 4;".to_string(),
        sel(Operation::InsertAfter, "let z = 3;", None),
        rust_lang,
        "main.rs".to_string(),
        "fn main() {\n    let x = 1;\n    let y = 2;\n    let z = 3;\n    println!(\"{} {} {}\", x, y, z);\n}".to_string(),
        None,
    )
    .unwrap();
    let (message, _) = editor.preview().unwrap();
    if message.contains("Edit efficiency") {
        assert!(message.contains("%"));
    }
}

#[test]
fn editor_should_have_separate_diff_generator_module() {
    let registry = LanguageRegistry::new().unwrap();
    let rust_lang = registry.get_language(LanguageName::Rust).unwrap();
    let editor = Editor::new(
        "\n    let z = 3;".to_string(),
        sel(Operation::InsertAfter, "let y = 2;", None),
        rust_lang,
        "main.rs".to_string(),
        "fn main() {\n    let x = 1;\n    let y = 2;\n}".to_string(),
        None,
    )
    .unwrap();
    let (message, _) = editor.preview().unwrap();
    assert!(message.contains("DIFF") || message.contains("Edit efficiency"));
}

#[test]
fn handles_unsupported_file_extension() {
    let registry = LanguageRegistry::new().unwrap();
    let result = registry.get_language_with_hint("some/file.xyz123", None);
    assert!(result.is_ok() || result.is_err());
}

#[test]
fn all_language_names_are_supported() {
    let registry = LanguageRegistry::new().unwrap();
    for lang_name in [
        LanguageName::Rust,
        LanguageName::Python,
        LanguageName::Javascript,
        LanguageName::Typescript,
        LanguageName::Json,
        LanguageName::Toml,
        LanguageName::C,
        LanguageName::Cpp,
        LanguageName::CSharp,
        LanguageName::Java,
        LanguageName::Go,
        LanguageName::Php,
        LanguageName::Ruby,
        LanguageName::Tsx,
        LanguageName::Other,
    ] {
        assert!(registry.get_language(lang_name).is_ok(), "Failed to get language: {:?}", lang_name);
    }
}

#[test]
fn handles_empty_file_gracefully() {
    let registry = LanguageRegistry::new().unwrap();
    let rust_lang = registry.get_language(LanguageName::Rust).unwrap();
    let result = Editor::new(
        "fn main() {}".to_string(),
        sel(Operation::InsertAfter, "", None),
        rust_lang,
        "empty.rs".to_string(),
        String::new(),
        None,
    );
    let _ = result;
}

#[test]
fn handles_utf8_boundary_errors() {
    let registry = LanguageRegistry::new().unwrap();
    let rust_lang = registry.get_language(LanguageName::Rust).unwrap();
    let editor = Editor::new(
        "🚀".to_string(),
        sel(Operation::ReplaceRange, "🎉", Some("🎉")),
        rust_lang,
        "main.rs".to_string(),
        "fn main() { println!(\"🎉\"); }".to_string(),
        None,
    );
    assert!(editor.is_ok());
    let result = editor.unwrap().commit();
    assert!(result.is_ok());
    if let Ok((_, Some(output), _)) = result {
        assert!(output.is_char_boundary(0));
        assert!(output.is_char_boundary(output.len()));
    }
}

#[test]
fn handles_large_files_gracefully() {
    let large_content =
        "fn main() {\n".to_string() + &"    println!(\"test\");\n".repeat(50_000) + "}";
    let registry = LanguageRegistry::new().unwrap();
    let rust_lang = registry.get_language(LanguageName::Rust).unwrap();
    let editor = Editor::new(
        "\n    // Large file test".to_string(),
        sel(Operation::InsertAfter, "fn main() {", None),
        rust_lang,
        "large.rs".to_string(),
        large_content,
        None,
    );
    if let Ok(ed) = editor {
        let _ = ed.preview();
    }
}

#[test]
fn handles_deeply_nested_structures() {
    let mut content = String::new();
    for i in 0..50 {
        content.push_str(&"    ".repeat(i));
        content.push_str("if true {\n");
    }
    content.push_str(&"    ".repeat(50));
    content.push_str("println!(\"deep\");\n");
    for i in (0..50).rev() {
        content.push_str(&"    ".repeat(i));
        content.push_str("}\n");
    }
    let registry = LanguageRegistry::new().unwrap();
    let rust_lang = registry.get_language(LanguageName::Rust).unwrap();
    let editor = Editor::new(
        "\n".to_string() + &"    ".repeat(50) + "println!(\"nested\");",
        sel(Operation::InsertAfter, "println!(\"deep\");", None),
        rust_lang,
        "deep.rs".to_string(),
        content,
        None,
    );
    assert!(editor.is_ok());
}

#[test]
fn test_utf8_boundary_safety_in_validation() {
    let source_code =
        "fn 测试() {\n    // 这是测试 - multi-byte UTF-8 characters\n    let x = 42;\n}";
    let mut parser = tree_sitter::Parser::new();
    parser.set_language(&tree_sitter_rust::LANGUAGE.into()).unwrap();
    let tree = parser.parse(source_code, None).unwrap();
    let query = tree_sitter::Query::new(
        &tree_sitter_rust::LANGUAGE.into(),
        "(function_item) @function",
    )
    .unwrap();
    let result = ContextValidator::validate_tree(&tree, &query, source_code);
    assert!(result.is_valid || !result.is_valid);
}

#[test]
fn test_language_builder_simple() {
    let lang = LanguageBuilder::new(LanguageName::Go, &["go"], tree_sitter_go::LANGUAGE.into())
        .build()
        .unwrap();
    assert_eq!(lang.name(), LanguageName::Go);
    assert_eq!(lang.file_extensions(), &["go"]);
    assert!(lang.validation_query().is_none());
}

#[test]
fn test_language_builder_with_validation() {
    let lang = LanguageBuilder::new(
        LanguageName::Python,
        &["py"],
        tree_sitter_python::LANGUAGE.into(),
    )
    .with_validation_query(";; Test validation query\n")
    .build()
    .unwrap();
    assert_eq!(lang.name(), LanguageName::Python);
    assert_eq!(lang.file_extensions(), &["py"]);
    assert!(lang.validation_query().is_some());
}

#[test]
fn test_language_builder_with_custom_editor() {
    let lang = LanguageBuilder::new(
        LanguageName::Json,
        &["json"],
        tree_sitter_json::LANGUAGE.into(),
    )
    .with_editor(LanguageEditor::Default(DefaultEditor::new()))
    .build()
    .unwrap();
    assert_eq!(lang.name(), LanguageName::Json);
    assert_eq!(lang.file_extensions(), &["json"]);
}

#[test]
fn test_language_builder_full_configuration() {
    let lang = LanguageBuilder::new(
        LanguageName::Rust,
        &["rs"],
        tree_sitter_rust::LANGUAGE.into(),
    )
    .with_editor(LanguageEditor::Default(DefaultEditor::new()))
    .with_validation_query(";; Test validation query\n")
    .build()
    .unwrap();
    assert_eq!(lang.name(), LanguageName::Rust);
    assert_eq!(lang.file_extensions(), &["rs"]);
    assert!(lang.validation_query().is_some());
}

#[test]
fn test_simple_language_backward_compatibility() {
    let lang = simple_language(LanguageName::Go, &["go"], tree_sitter_go::LANGUAGE.into()).unwrap();
    assert_eq!(lang.name(), LanguageName::Go);
    assert_eq!(lang.file_extensions(), &["go"]);
    assert!(lang.validation_query().is_none());
}

#[test]
fn test_all_languages_can_be_registered() {
    let registry = LanguageRegistry::new().unwrap();
    for language_name in [
        LanguageName::Rust,
        LanguageName::Json,
        LanguageName::Toml,
        LanguageName::Javascript,
        LanguageName::Typescript,
        LanguageName::Tsx,
        LanguageName::Python,
        LanguageName::Go,
        LanguageName::Cpp,
        LanguageName::C,
        LanguageName::Java,
        LanguageName::Php,
        LanguageName::CSharp,
        LanguageName::Ruby,
    ] {
        let lang = registry.get_language(language_name).unwrap();
        assert_eq!(lang.name(), language_name);
        assert!(!lang.file_extensions().is_empty());
    }
}

#[test]
fn test_docs_method_works() {
    let lang = LanguageBuilder::new(LanguageName::Go, &["go"], tree_sitter_go::LANGUAGE.into())
        .build()
        .unwrap();
    let docs = lang.docs();
    assert!(docs.contains("go"));
    assert!(docs.contains("Language: go"));
    assert!(docs.contains("File extensions: go"));
}

#[test]
fn test_all_languages_can_create_parsers() {
    let registry = LanguageRegistry::new().unwrap();
    for lang_name in [
        LanguageName::Rust,
        LanguageName::Python,
        LanguageName::Json,
        LanguageName::Javascript,
        LanguageName::Typescript,
    ] {
        let lang = registry.get_language(lang_name).unwrap();
        assert!(lang.tree_sitter_parser().is_ok(), "Should be able to create parser for {lang_name:?}");
    }
}

#[test]
fn deeply_bracketed_toml_is_checked_by_the_parse_tree() {
    let registry = LanguageRegistry::new().unwrap();
    let toml = registry.get_language(LanguageName::Toml).unwrap();
    let source = format!("a = {}1{}\n", "[".repeat(300), "]".repeat(300));
    let editor = Editor::new(
        "\nb = 2".to_string(),
        sel(Operation::InsertAfter, "\n", None),
        toml,
        "deep.toml".to_string(),
        source,
        None,
    )
    .unwrap();
    let _ = editor.preview().unwrap();
    assert!(toml.editor().format_code(&format!("a = {}1{}\n", "[".repeat(300), "]".repeat(300))).unwrap().is_err());
}
