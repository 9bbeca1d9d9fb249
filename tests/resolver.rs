use semantic_code_edit_mcp::editor::edit_iterator::{find_edits, match_offsets, node_key_text};
use semantic_code_edit_mcp::editor::edit_position::EditPosition;
use semantic_code_edit_mcp::selector::{Operation, Selector};

fn sel(operation: Operation, anchor: &str, end: Option<&str>) -> Selector {
    Selector {
        operation,
        anchor: anchor.to_string(),
        end: end.map(|e| e.to_string()),
    }
}

fn point(p: usize) -> EditPosition {
    EditPosition {
        start_byte: p,
        end_byte: None,
    }
}

fn span(s: usize, e: usize) -> EditPosition {
    EditPosition {
        start_byte: s,
        end_byte: Some(e),
    }
}

#[test]
fn insert_after_lists_literal_then_space_then_newline() {
    let edits = find_edits(&sel(Operation::InsertAfter, "main", None), "fn main() {}", "// c", &vec![]).unwrap();
    let got: Vec<(EditPosition, String)> = edits.into_iter().map(|e| (e.position, e.content)).collect();
    assert_eq!(
        got,
        vec![
            (point(7), "// c".to_string()),
            (point(7), " // c".to_string()),
            (point(7), "\n// c".to_string()),
        ]
    );
}

#[test]
fn insert_before_pads_after_the_content_in_source_order() {
    let edits = find_edits(&sel(Operation::InsertBefore, "a", None), "a;a", "x", &vec![]).unwrap();
    let got: Vec<(EditPosition, String)> = edits.into_iter().map(|e| (e.position, e.content)).collect();
    assert_eq!(
        got,
        vec![
            (point(0), "x".to_string()),
            (point(2), "x".to_string()),
            (point(0), "x ".to_string()),
            (point(2), "x ".to_string()),
            (point(0), "x\n".to_string()),
            (point(2), "x\n".to_string()),
        ]
    );
}

#[test]
fn replace_range_pairs_each_anchor_with_later_ends() {
    let edits = find_edits(&sel(Operation::ReplaceRange, "A", Some("B")), "A1B2A3B", "z", &vec![]).unwrap();
    let got: Vec<EditPosition> = edits.into_iter().map(|e| e.position).collect();
    assert_eq!(got, vec![span(0, 3), span(0, 7), span(4, 7)]);
}

#[test]
fn replace_range_with_end_only_before_anchor_fails() {
    let err = find_edits(&sel(Operation::ReplaceRange, "A", Some("B")), "B B A A", "z", &vec![]).unwrap_err();
    assert_eq!(err, "No valid range found from \"A\" to \"B\"");
}

#[test]
fn replace_range_missing_texts() {
    let err = find_edits(&sel(Operation::ReplaceRange, "Q", Some("B")), "A B", "z", &vec![]).unwrap_err();
    assert_eq!(err, "From text \"Q\" not found in source");
    let err = find_edits(&sel(Operation::ReplaceRange, "A", Some("Q")), "A B", "z", &vec![]).unwrap_err();
    assert_eq!(err, "To text \"Q\" not found in source");
}

#[test]
fn replace_exact_spans_each_match() {
    let edits = find_edits(&sel(Operation::ReplaceExact, "ab", None), "abab ab", "z", &vec![]).unwrap();
    let got: Vec<EditPosition> = edits.into_iter().map(|e| e.position).collect();
    assert_eq!(got, vec![span(0, 2), span(2, 4), span(5, 7)]);
    let err = find_edits(&sel(Operation::ReplaceExact, "zz", None), "abab", "z", &vec![]).unwrap_err();
    assert_eq!(err, "Exact text \"zz\" not found in source");
}

#[test]
fn invalid_selector_is_reported_before_search() {
    let err = find_edits(&sel(Operation::InsertAfter, "  ", Some("x")), "abc", "z", &vec![]).unwrap_err();
    assert_eq!(
        err,
        "- `anchor` cannot be empty\n- End is not relevant for insert operations. Did you mean to `replace`?"
    );
}

#[test]
fn node_operations_use_the_given_nodes() {
    let nodes = vec![Some((0usize, 9usize)), None];
    let edits = find_edits(&sel(Operation::ReplaceNode, "f", None), "f(); f();", "g();", &nodes).unwrap();
    let got: Vec<EditPosition> = edits.into_iter().map(|e| e.position).collect();
    assert_eq!(got, vec![span(0, 9)]);
    let edits = find_edits(&sel(Operation::InsertAfterNode, "f", None), "f(); f();", "g();", &nodes).unwrap();
    let got: Vec<(EditPosition, String)> = edits.into_iter().map(|e| (e.position, e.content)).collect();
    assert_eq!(
        got,
        vec![
            (point(9), "g();".to_string()),
            (point(9), " g();".to_string()),
            (point(9), "\ng();".to_string()),
        ]
    );
}

#[test]
fn node_key_is_first_trimmed_line() {
    assert_eq!(node_key_text("  fn main() {\n  body\n"), "fn main() {");
    assert_eq!(node_key_text("\t x \r\ny"), "x");
}

#[test]
fn occurrences_do_not_overlap() {
    assert_eq!(match_offsets("aaaa", "aa"), vec![0, 2]);
    assert_eq!(match_offsets("é", ""), vec![0, 2]);
    assert_eq!(match_offsets("xéx", "x"), vec![0, 3]);
}
