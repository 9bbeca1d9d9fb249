use semantic_code_edit_mcp::languages::utils::LineConverter;

#[test]
fn empty_string() {
    let converter = LineConverter::new("");
    assert_eq!(converter.offset_to_line(0), 0);
}

#[test]
fn single_line() {
    let converter = LineConverter::new("hello");
    assert_eq!(converter.offset_to_line(0), 0);
    assert_eq!(converter.offset_to_line(2), 0);
    assert_eq!(converter.offset_to_line(5), 0);
}

#[test]
fn utils_multiple_lines() {
    let text = "first\nsecond\nthird";
    let converter = LineConverter::new(text);

    assert_eq!(converter.offset_to_line(0), 0);
    assert_eq!(converter.offset_to_line(5), 0);
    assert_eq!(converter.offset_to_line(6), 1);
    assert_eq!(converter.offset_to_line(12), 1);
    assert_eq!(converter.offset_to_line(13), 2);
}

#[test]
fn windows_line_endings() {
    let text = "first\r\nsecond\r\nthird";
    let converter = LineConverter::new(text);

    assert_eq!(converter.offset_to_line(0), 0);
    assert_eq!(converter.offset_to_line(7), 1);
    assert_eq!(converter.offset_to_line(15), 2);
}

#[test]
fn empty_string_has_no_lines() {
    let converter = LineConverter::new("");
    assert_eq!(converter.offset_to_line(0), 0);
}

#[test]
fn single_line_without_newline() {
    let converter = LineConverter::new("hello world");
    assert_eq!(converter.offset_to_line(0), 0);
    assert_eq!(converter.offset_to_line(5), 0);
    assert_eq!(converter.offset_to_line(11), 0);
}

#[test]
fn single_line_with_newline() {
    let converter = LineConverter::new("hello world\n");
    assert_eq!(converter.offset_to_line(0), 0);
    assert_eq!(converter.offset_to_line(11), 0);
    assert_eq!(converter.offset_to_line(12), 1);
}

#[test]
fn line_converter_tests_multiple_lines() {
    let text = "line one\nline two\nline three";
    let converter = LineConverter::new(text);

    assert_eq!(converter.offset_to_line(0), 0);
    assert_eq!(converter.offset_to_line(7), 0);
    assert_eq!(converter.offset_to_line(9), 1);
    assert_eq!(converter.offset_to_line(16), 1);
    assert_eq!(converter.offset_to_line(18), 2);
    assert_eq!(converter.offset_to_line(28), 2);
}

#[test]
fn empty_lines() {
    let text = "line one\n\n\nline four";
    let converter = LineConverter::new(text);

    assert_eq!(converter.offset_to_line(0), 0);
    assert_eq!(converter.offset_to_line(9), 1);
    assert_eq!(converter.offset_to_line(10), 2);
    assert_eq!(converter.offset_to_line(11), 3);
}

#[test]
fn offset_beyond_text_returns_last_line() {
    let text = "line one\nline two";
    let converter = LineConverter::new(text);

    assert_eq!(converter.offset_to_line(1000), 1);
}

#[test]
fn carriage_return_line_endings() {
    let text = "line one\r\nline two\r\nline three";
    let converter = LineConverter::new(text);

    assert_eq!(converter.offset_to_line(0), 0);
    assert_eq!(converter.offset_to_line(10), 1);
    assert_eq!(converter.offset_to_line(20), 2);
}

#[test]
fn mixed_line_endings() {
    let text = "line one\nline two\r\nline three\rline four";
    let converter = LineConverter::new(text);

    assert_eq!(converter.offset_to_line(0), 0);
    assert_eq!(converter.offset_to_line(9), 1);
    assert_eq!(converter.offset_to_line(19), 2);
    assert_eq!(converter.offset_to_line(30), 3);
}

#[test]
fn unicode_text() {
    let text = "첫째 줄\n둘째 줄\n세째 줄";
    let converter = LineConverter::new(text);

    assert_eq!(converter.offset_to_line(0), 0);
    assert_eq!(converter.offset_to_line(11), 1);
    assert_eq!(converter.offset_to_line(23), 2);
}

#[test]
fn trailing_newlines() {
    let text = "line one\n\n\n";
    let converter = LineConverter::new(text);

    assert_eq!(converter.offset_to_line(0), 0);
    assert_eq!(converter.offset_to_line(9), 1);
    assert_eq!(converter.offset_to_line(10), 2);
    assert_eq!(converter.offset_to_line(11), 3);
}

#[test]
fn range_to_lines_spans_both_ends() {
    let converter = LineConverter::new("a\nb\nc");
    let r = converter.range_to_lines(0, 4);
    assert_eq!(r.start, 0);
    assert_eq!(r.end, 2);
}
