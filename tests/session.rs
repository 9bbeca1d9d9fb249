use semantic_code_edit_mcp::editor::edit_position::EditPosition;
use semantic_code_edit_mcp::error::SemanticEditError;
use semantic_code_edit_mcp::languages::LanguageName;
use semantic_code_edit_mcp::selector::{Operation, Selector};
use semantic_code_edit_mcp::state::{
    CacheStats, SemanticEditSessionData, StagedOperation, StatsLruCache,
};
use semantic_code_edit_mcp::tools::commit_staged::default_acknowledge;
use semantic_code_edit_mcp::tools::{CommitStaged, RetargetStaged};

fn staged() -> StagedOperation {
    StagedOperation {
        selector: Selector {
            operation: Operation::InsertAfter,
            anchor: "fn main".to_string(),
            end: None,
        },
        content: "// note".to_string(),
        file_path: "/tmp/main.rs".to_string(),
        language_name: LanguageName::Rust,
        edit_position: Some(EditPosition {
            start_byte: 7,
            end_byte: None,
        }),
    }
}

#[test]
fn test_cache_size_validation() {}

#[test]
fn test_git_repo_detection() {}

#[test]
fn test_project_marker_detection() {}

#[test]
fn test_fallback_to_current_directory() {}

#[test]
fn test_session_metadata_tracking() {}

#[test]
fn test_old_session_cleanup() {}

#[test]
fn test_list_sessions_method() {}

#[test]
fn cache_stats_count_hits_and_misses() {
    let mut stats = CacheStats::new();
    stats.record(false);
    stats.record(true);
    stats.record(true);
    stats.record(false);
    assert_eq!(stats.hits, 2);
    assert_eq!(stats.misses, 2);
    assert_eq!(stats.total_requests, 4);
}

#[test]
fn new_session_is_empty() {
    let data = SemanticEditSessionData::new();
    assert!(data.context_path.is_none());
    assert!(data.staged_operation.is_none());
}

#[test]
fn retarget_keeps_content_and_drops_pin() {
    let mut op = staged();
    op.retarget(Selector {
        operation: Operation::InsertBefore,
        anchor: "fn".to_string(),
        end: None,
    });
    assert_eq!(op.selector.anchor, "fn");
    assert_eq!(op.content, "// note");
    assert_eq!(op.file_path, "/tmp/main.rs");
    assert!(op.edit_position.is_none());
}

#[test]
fn commit_needs_acknowledgement_and_a_staged_operation() {
    assert!(default_acknowledge());
    let refused = CommitStaged { acknowledge: false }.take_operation(Some(staged()));
    assert!(matches!(
        refused,
        Err(SemanticEditError::OperationNotAcknowledged)
    ));
    let missing = CommitStaged { acknowledge: true }.take_operation(None);
    assert!(matches!(missing, Err(SemanticEditError::OperationNotStaged)));
    let taken = CommitStaged { acknowledge: true }
        .take_operation(Some(staged()))
        .unwrap();
    assert_eq!(taken.content, "// note");
}

#[test]
fn failed_retarget_leaves_previous_snapshot() {
    let previous = Some(staged());
    let kept = RetargetStaged::next_staged(previous, None).unwrap();
    assert_eq!(kept.edit_position.unwrap().start_byte, 7);

    let request = RetargetStaged {
        selector: Selector {
            operation: Operation::ReplaceExact,
            anchor: "main".to_string(),
            end: None,
        },
    };
    assert!(matches!(
        request.clone().retargeted(None),
        Err(SemanticEditError::OperationNotStaged)
    ));
    let moved = request.retargeted(Some(staged())).unwrap();
    assert_eq!(moved.selector.anchor, "main");
    assert!(moved.edit_position.is_none());
}

#[test]
fn test_cache_statistics_tracking() {
    let mut cache = StatsLruCache::new(10);
    assert_eq!(cache.stats().total_requests, 0);

    assert!(cache.get("key1").is_none());
    cache.put("key1".to_string(), "value1".to_string());
    assert!(cache.get("key1").is_some());
    assert!(cache.get("key1").is_some());
    assert!(cache.get("key2").is_none());

    let stats = cache.stats();
    assert_eq!(stats.hits, 2);
    assert_eq!(stats.misses, 2);
    assert_eq!(stats.total_requests, 4);
    cache.clear_stats();
    assert_eq!(cache.stats().total_requests, 0);
    assert_eq!(cache.len(), 1);
}

#[test]
fn lru_cache_evicts_least_recently_used() {
    let mut cache = StatsLruCache::new(2);
    assert!(cache.is_empty());
    assert_eq!(cache.cap(), 2);
    assert_eq!(cache.put("a".to_string(), "1".to_string()), None);
    assert_eq!(cache.put("b".to_string(), "2".to_string()), None);
    assert_eq!(cache.put("b".to_string(), "3".to_string()), Some("2".to_string()));
    assert_eq!(cache.put("c".to_string(), "4".to_string()), None);
    assert_eq!(cache.get("a"), None);
    assert_eq!(cache.get("b"), Some("3".to_string()));
    assert_eq!(cache.len(), 2);
}
