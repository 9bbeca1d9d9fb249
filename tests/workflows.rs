use semantic_code_edit_mcp::editor::Editor;
use semantic_code_edit_mcp::languages::LanguageRegistry;
use semantic_code_edit_mcp::selector::{Operation, Selector};

fn commit(path: &str, source: &str, selector: Selector, content: &str) -> Option<String> {
    let registry = LanguageRegistry::new().unwrap();
    let language = registry.get_language_with_hint(path, None).unwrap();
    let editor = Editor::new(
        content.to_string(),
        selector,
        language,
        path.to_string(),
        source.to_string(),
        None,
    )
    .unwrap();
    let (_msg, output, out_path) = editor.commit().unwrap();
    assert_eq!(out_path, path);
    output
}

#[test]
fn test_editor_workflow_rust_insert_after() {
    let content = r#"fn main() {
    println!("Hello, world!");
}"#;
    let output = commit(
        "main.rs",
        content,
        Selector {
            operation: Operation::InsertAfter,
            anchor: r#"println!("Hello, world!");"#.to_string(),
            end: None,
        },
        r#"
    println!("This is a new line!");"#,
    );
    let output_str = output.as_ref().unwrap();
    assert!(output_str.contains("This is a new line!"));
    assert!(output_str.contains("Hello, world!"));
}

#[test]
fn test_editor_workflow_python_replace_node() {
    let content = r#"def greet(name):
    print(f"Hello, {name}!")

def main():
    greet("World")
"#;
    let output = commit(
        "greet.py",
        content,
        Selector {
            operation: Operation::ReplaceNode,
            anchor: "def greet(name):".to_string(),
            end: None,
        },
        r#"def greet(name, greeting="Hello"):
    print(f"{greeting}, {name}!")"#,
    );
    assert!(output.as_ref().unwrap().contains(r#"greeting="Hello""#));
    assert!(!output.as_ref().unwrap().contains(r#"print(f"Hello, {name}!")"#));
}

#[test]
fn test_editor_workflow_javascript_insert_before() {
    let content = r#"function calculate(a, b) {
    return a + b;
}

console.log(calculate(5, 3));
"#;
    let output = commit(
        "calc.js",
        content,
        Selector {
            operation: Operation::InsertBefore,
            anchor: "console.log".to_string(),
            end: None,
        },
        "// Test the calculate function\n",
    );
    assert!(output.is_some(), "Expected output from commit");
    let output_str = output.as_ref().unwrap();
    let lines: Vec<&str> = output_str.lines().collect();
    let comment_idx = lines.iter().position(|&l| l.contains("// Test")).unwrap();
    let console_idx = lines.iter().position(|&l| l.contains("console.log")).unwrap();
    assert!(comment_idx < console_idx);
}

#[test]
fn test_json_formatting_preservation() {
    let content = r#"{
  "name": "test",
  "version": "1.0.0",
  "dependencies": {
    "lodash": "4.17.21"
  }
}"#;
    let output = commit(
        "package.json",
        content,
        Selector {
            operation: Operation::InsertAfter,
            anchor: r#""lodash": "4.17.21""#.to_string(),
            end: None,
        },
        r#",
    "axios": "1.0.0""#,
    );
    assert!(output.as_ref().unwrap().contains(r#""axios": "1.0.0""#));
    assert!(output.as_ref().unwrap().contains("  "));
}

#[test]
fn test_toml_editing() {
    let content = r#"[package]
name = "test"
version = "0.1.0"

[dependencies]
serde = "1.0"
"#;
    let output = commit(
        "Cargo.toml",
        content,
        Selector {
            operation: Operation::InsertAfter,
            anchor: r#"serde = "1.0""#.to_string(),
            end: None,
        },
        "\ntokio = \"1.0\"",
    );
    assert!(output.as_ref().unwrap().contains("tokio = \"1.0\""));
}

#[test]
fn test_delete_via_empty_replace() {
    let content = r#"fn keep() {}
fn delete() {}
fn also_keep() {}"#;
    let output = commit(
        "delete.rs",
        content,
        Selector {
            operation: Operation::ReplaceNode,
            anchor: "fn delete()".to_string(),
            end: None,
        },
        "",
    );
    assert!(output.as_ref().unwrap().contains("fn keep()"));
    assert!(output.as_ref().unwrap().contains("fn also_keep()"));
    assert!(!output.as_ref().unwrap().contains("fn delete()"));
}

#[test]
fn broken_json_is_refused_whatever_the_selector() {
    let registry = LanguageRegistry::new().unwrap();
    let json = registry.get_language_with_hint("a.json", None).unwrap();
    for selector in [
        Selector {
            operation: Operation::InsertAfter,
            anchor: "\"a\"".to_string(),
            end: None,
        },
        Selector {
            operation: Operation::ReplaceExact,
            anchor: "   ".to_string(),
            end: Some("x".to_string()),
        },
    ] {
        let editor = Editor::new(
            "1".to_string(),
            selector,
            json,
            "a.json".to_string(),
            "{\n\"a\": ,\n}".to_string(),
            None,
        )
        .unwrap();
        let (message, staged) = editor.preview().unwrap();
        assert!(message.starts_with(
            "Syntax error found prior to edit, not attempting.\nSuggestion: Pause and show your human collaborator this context:\n\n===SYNTAX ERRORS===\n"
        ));
        assert!(message.contains("   2 ->⎸\"a\": ,"));
        assert!(staged.is_none());
    }
}

#[test]
fn json_edit_picks_first_candidate_that_parses() {
    let registry = LanguageRegistry::new().unwrap();
    let json = registry.get_language_with_hint("a.json", None).unwrap();
    let editor = Editor::new(
        ", \"b\": 2".to_string(),
        Selector {
            operation: Operation::InsertAfter,
            anchor: "1".to_string(),
            end: None,
        },
        json,
        "a.json".to_string(),
        "{\"a\": 1}".to_string(),
        None,
    )
    .unwrap();
    let (message, output, _) = editor.commit().unwrap();
    assert_eq!(output.unwrap(), "{\"a\": 1, \"b\": 2}");
    assert!(message.starts_with(
        "insert after operation result:\nThe edit passed syntax and placement validation.\n\n===DIFF===\n"
    ));
}
