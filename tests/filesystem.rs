use semantic_code_edit_mcp::filesystem::{FileOperations, TestFileOperations};

#[test]
fn test_file_operations_captures_writes() {
    let mut ops = TestFileOperations::new();
    let path = "test.txt".to_string();
    let content = "hello world".to_string();

    ops.write_file(path.clone(), content.clone()).unwrap();

    let captures = ops.get_captured_writes();
    assert_eq!(captures.len(), 1);
    assert_eq!(captures[0].0, path);
    assert_eq!(captures[0].1, content);
}

#[test]
fn test_file_operations_multiple_writes() {
    let mut ops = TestFileOperations::new();

    ops.write_file("file1.txt".to_string(), "content1".to_string())
        .unwrap();
    ops.write_file("file2.txt".to_string(), "content2".to_string())
        .unwrap();

    assert_eq!(ops.write_count(), 2);
    assert_eq!(ops.get_last_write_content(), Some("content2".to_string()));
}

#[test]
fn test_file_operations_clear_captures() {
    let mut ops = TestFileOperations::new();
    ops.write_file("test.txt".to_string(), "content".to_string())
        .unwrap();

    assert_eq!(ops.write_count(), 1);
    ops.clear_captures();
    assert_eq!(ops.write_count(), 0);
}

#[test]
fn test_consistent_error_handling_api() {
    let mut ops = TestFileOperations::new();
    ops.write_file("test.txt".to_string(), "content".to_string())
        .unwrap();

    let _count = ops.write_count();
    let _captures = ops.get_captured_writes();
    let _last = ops.get_last_write_content();

    let _safe_count = ops.write_count_safe().unwrap();
    let _safe_captures = ops.get_captured_writes_safe().unwrap();
    let _safe_last = ops.get_last_write_content_safe().unwrap();

    assert_eq!(ops.write_count(), ops.write_count_safe().unwrap());
    assert_eq!(
        ops.get_captured_writes().len(),
        ops.get_captured_writes_safe().unwrap().len()
    );
    assert_eq!(
        ops.get_last_write_content(),
        ops.get_last_write_content_safe().unwrap()
    );
    let _safe_clear = ops.clear_captures_safe();
    assert_eq!(ops.write_count(), 0);
}

#[test]
fn test_legacy_methods_eventually_deprecated() {
    let mut ops = TestFileOperations::new();
    assert!(ops.write_count_safe().is_ok());
    assert!(ops.get_captured_writes_safe().is_ok());
    assert!(ops.get_last_write_content_safe().is_ok());
    assert!(ops.clear_captures_safe().is_ok());
}

#[test]
fn test_get_last_write_content_handles_poison() {
    let mut ops = TestFileOperations::new();
    ops.write_file("test.txt".to_string(), "content".to_string())
        .unwrap();
    match ops.get_last_write_content_safe() {
        Ok(Some(content)) => assert_eq!(content, "content"),
        Ok(None) => panic!("Expected content to exist"),
        Err(_poison_error) => {}
    }
}

#[test]
fn test_write_count_handles_poison() {
    let ops = TestFileOperations::new();
    match ops.write_count_safe() {
        Ok(count) => assert_eq!(count, 0),
        Err(_poison_error) => {}
    }
}

#[test]
fn empty_log_has_no_last_write() {
    let ops = TestFileOperations::new();
    assert_eq!(ops.get_last_write_content(), None);
    assert!(ops.get_captured_writes().is_empty());
}

#[test]
fn test_get_captured_writes_handles_poison() {
    let ops = TestFileOperations::new();
    match ops.get_captured_writes_safe() {
        Ok(_) => {}
        Err(_) => {}
    }
}

#[test]
fn test_clear_captures_handles_poison() {
    let mut ops = TestFileOperations::new();
    match ops.clear_captures_safe() {
        Ok(()) => {}
        Err(_poison_error) => {}
    }
}

#[test]
fn test_write_file_handles_poison() {
    let mut ops = TestFileOperations::new();
    let result = ops.write_file("test.txt".to_string(), "content".to_string());
    match result {
        Ok(()) => {}
        Err(_) => {}
    }
}

#[test]
fn test_standardized_error_type() {
    let mut ops = TestFileOperations::new();
    let write_count_result = ops.write_count_safe();
    let captures_result = ops.get_captured_writes_safe();
    let last_content_result = ops.get_last_write_content_safe();
    let clear_result = ops.clear_captures_safe();
    match (
        write_count_result,
        captures_result,
        last_content_result,
        clear_result,
    ) {
        (Err(_), Err(_), Err(_), Err(_)) => {}
        _ => {}
    }
}
