use gitlens::render::{clip, debug_opt_count_string, debug_string_list};
use gitlens::text::{i64_to_string, join_path, trim_str, u64_to_string};
use gitlens::tour::{
    cache_path, combine_linked_documents, diff_excerpt_lines, narration_cache_key,
    narration_failure_message, narration_retry_delay_ms, trigger_kind_name, truncate_excerpt, TriggerKind,
};
use gitlens::mining_types::FileChange;

#[test]
fn numbers_and_paths() {
    assert_eq!(u64_to_string(0), "0");
    assert_eq!(u64_to_string(18446744073709551615), "18446744073709551615");
    assert_eq!(i64_to_string(-42), "-42");
    assert_eq!(i64_to_string(i64::MIN), "-9223372036854775808");
    assert_eq!(join_path("/a/", "b"), "/a/b");
    assert_eq!(join_path("/a", "b"), "/a/b");
    assert_eq!(join_path("", "b"), "b");
    assert_eq!(join_path("/a", "/abs"), "/abs");
    assert_eq!(trim_str("\u{3000} x \n"), "x");
}

#[test]
fn debug_renderings() {
    assert_eq!(debug_string_list(&vec!["a\"b".to_string(), "c".to_string()]), "[\"a\\\"b\", \"c\"]");
    assert_eq!(debug_string_list(&vec![]), "[]");
    assert_eq!(debug_opt_count_string(Some(12)), "Some(12)");
    assert_eq!(debug_opt_count_string(None), "None");
    assert_eq!(clip("abcdef", 3), "abc…");
    assert_eq!(clip("abc", 3), "abc");
}

#[test]
fn narration_helpers() {
    assert_eq!(cache_path("/c", "narrations", "h-v1"), "/c/narrations/h-v1.json");
    assert_eq!(narration_cache_key("h", "v1"), "h-v1");
    assert_eq!(narration_retry_delay_ms(0), Some(0));
    assert_eq!(narration_retry_delay_ms(1), Some(1000));
    assert_eq!(narration_retry_delay_ms(2), Some(2000));
    assert_eq!(narration_retry_delay_ms(3), None);
    assert_eq!(
        narration_failure_message(3, "abc", "boom"),
        "narrate_stop failed after 3 attempts for commit abc: boom"
    );
    assert_eq!(trigger_kind_name(&TriggerKind::WasReverted), "was_reverted");
    assert_eq!(
        combine_linked_documents(&vec![Some("a".into()), None, Some("b".into())]),
        Some("a\n\n---\n\nb".to_string())
    );
    assert_eq!(combine_linked_documents(&vec![None]), None);
}

#[test]
fn diff_excerpt_text_and_truncation() {
    let files = vec![FileChange { path: "src/a.rs".into(), additions: 10, deletions: 3, status: "M".into() }];
    assert_eq!(diff_excerpt_lines(&files), "M src/a.rs (+10 -3)\n");
    let long = "x".repeat(6100);
    let t = truncate_excerpt(long);
    assert_eq!(t.len(), 6000 + "\n... (truncated)".len());
    assert!(t.ends_with("\n... (truncated)"));
    assert_eq!(truncate_excerpt("short".to_string()), "short");
}
