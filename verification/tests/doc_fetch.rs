use gitlens::doc_fetch::{
    app_cache_root, classify_ref, encode_ref_for_filename, github_doc_from_reply, github_doc_text, github_issue_url,
    is_github_ref, is_jira_ref, jira_doc_from_reply, jira_doc_text, jira_issue_url, linked_doc_cache_path, plan_doc_request,
    unix_cache_dir, DocSource, LinkedRef,
};
use gitlens::tour::TourConfig;

#[test]
fn test_dispatch_github_ref() {
    assert!(is_github_ref("#123"));
    assert!(is_github_ref("#1"));
    assert!(!is_github_ref("#"));
    assert!(!is_github_ref("#abc"));
    assert!(!is_github_ref("123"));
    assert!(!is_github_ref("INC-123"));
}

#[test]
fn test_dispatch_jira_ref() {
    assert!(is_jira_ref("ABC-123"));
    assert!(is_jira_ref("INC-4821"));
    assert!(is_jira_ref("PROJ-1"));
    assert!(is_jira_ref("ABCDEFGHIJ-99"));
    assert!(!is_jira_ref("A-1"));
    assert!(!is_jira_ref("ABCDEFGHIJK-1"));
    assert!(!is_jira_ref("ABC-"));
    assert!(!is_jira_ref("ABC-abc"));
    assert!(!is_jira_ref("#123"));
}

#[test]
fn test_dispatch_unknown_ref() {
    assert!(!is_github_ref("BUG_123"));
    assert!(!is_jira_ref("BUG_123"));
}

#[test]
fn test_encode_ref_for_filename() {
    assert_eq!(encode_ref_for_filename("#123"), "hash_123");
    assert_eq!(encode_ref_for_filename("INC-4821"), "INC-4821");
    assert_eq!(encode_ref_for_filename("GH/foo"), "GH_sl_foo");
    assert_eq!(encode_ref_for_filename("A:B"), "A_co_B");
    assert_eq!(encode_ref_for_filename("A B"), "A_B");
}

#[test]
fn test_github_returns_none_without_token() {
    let cfg = TourConfig {
        github_token: None,
        repo_slug: Some("owner/repo".into()),
        ..TourConfig::default()
    };
    assert!(cfg.github_token.is_none());
    assert!(plan_doc_request("#12", &cfg).is_none());
}

#[test]
fn test_github_returns_none_without_repo_slug() {
    let cfg = TourConfig {
        github_token: Some("tok".into()),
        repo_slug: None,
        ..TourConfig::default()
    };
    assert!(cfg.repo_slug.is_none());
    assert!(plan_doc_request("#12", &cfg).is_none());
}

#[test]
fn test_jira_returns_none_without_token() {
    let cfg = TourConfig {
        jira_token: None,
        jira_base_url: Some("https://example.atlassian.net".into()),
        ..TourConfig::default()
    };
    assert!(cfg.jira_token.is_none());
    assert!(plan_doc_request("INC-1", &cfg).is_none());
}

#[test]
fn github_request_is_planned_with_token_and_slug() {
    let cfg = TourConfig {
        github_token: Some("tok".into()),
        repo_slug: Some("owner/repo".into()),
        ..TourConfig::default()
    };
    let r = plan_doc_request("#987", &cfg).unwrap();
    assert_eq!(r.source, DocSource::GitHub);
    assert_eq!(r.id, "987");
    assert_eq!(r.url, "https://api.github.com/repos/owner/repo/issues/987");
    assert_eq!(r.authorization, "token tok");
}

#[test]
fn jira_request_is_planned_with_token_and_base() {
    let cfg = TourConfig {
        jira_token: Some("jt".into()),
        jira_base_url: Some("https://example.atlassian.net//".into()),
        ..TourConfig::default()
    };
    let r = plan_doc_request("INC-4821", &cfg).unwrap();
    assert_eq!(r.source, DocSource::Jira);
    assert_eq!(r.url, "https://example.atlassian.net/rest/api/3/issue/INC-4821");
    assert_eq!(r.authorization, "Bearer jt");
    assert!(plan_doc_request("BUG_1", &cfg).is_none());
}

#[test]
fn classify_prefers_github() {
    assert_eq!(classify_ref("#5"), LinkedRef::GitHub("5".to_string()));
    assert_eq!(classify_ref("AB-5"), LinkedRef::Jira("AB-5".to_string()));
    assert_eq!(classify_ref("nope"), LinkedRef::Unrecognised);
}

#[test]
fn urls_and_document_texts() {
    assert_eq!(github_issue_url("o/r", "1"), "https://api.github.com/repos/o/r/issues/1");
    assert_eq!(jira_issue_url("https://j.example/", "K-1"), "https://j.example/rest/api/3/issue/K-1");
    assert_eq!(github_doc_text("7", "Title", "Body"), "[GitHub #7] Title\n\nBody");
    let long: String = std::iter::repeat('x').take(3005).collect();
    let doc = jira_doc_text("K-1", "Sum", &long);
    assert_eq!(doc.chars().count(), "[Jira K-1] Sum\n\n".chars().count() + 3000);
}

#[test]
fn cache_locations() {
    assert_eq!(linked_doc_cache_path("/c", "#9"), "/c/linked_docs/hash_9.json");
    assert_eq!(unix_cache_dir(None, Some("/home/u".to_string())), Some("/home/u/.cache".to_string()));
    assert_eq!(unix_cache_dir(Some("/x".to_string()), Some("/home/u".to_string())), Some("/x".to_string()));
    assert_eq!(unix_cache_dir(None, None), None);
    assert_eq!(app_cache_root(Some("/o".to_string()), Some("/p".to_string()), "/tmp"), "/o/onboarding-ghost");
    assert_eq!(app_cache_root(None, None, "/tmp"), "/tmp/onboarding-ghost");
}

#[test]
fn github_reply_members_are_read() {
    assert_eq!(
        github_doc_from_reply("12", r#"{"title":"Crash on save","body":"Steps"}"#).unwrap(),
        "[GitHub #12] Crash on save\n\nSteps"
    );
    assert_eq!(
        github_doc_from_reply("12", r#"{"title":"T","body":null}"#).unwrap(),
        "[GitHub #12] T\n\n"
    );
    let long = format!(r#"{{"title":"T","body":"{}"}}"#, "b".repeat(3100));
    assert_eq!(github_doc_from_reply("1", &long).unwrap(), format!("[GitHub #1] T\n\n{}", "b".repeat(3000)));
    assert_eq!(github_doc_from_reply("12", "<html>"), None);
}

#[test]
fn jira_reply_members_are_read() {
    assert_eq!(
        jira_doc_from_reply("INC-1", r#"{"fields":{"summary":"Outage","description":"Root cause"}}"#).unwrap(),
        "[Jira INC-1] Outage\n\nRoot cause"
    );
    assert_eq!(
        jira_doc_from_reply("INC-1", r#"{"fields":{"summary":"S","description":{"type":"doc"}}}"#).unwrap(),
        "[Jira INC-1] S\n\n{\"type\":\"doc\"}"
    );
    assert_eq!(
        jira_doc_from_reply("INC-1", r#"{"fields":{"description":null}}"#).unwrap(),
        "[Jira INC-1] \n\nnull"
    );
    assert_eq!(jira_doc_from_reply("INC-1", r#"{"fields":{}}"#).unwrap(), "[Jira INC-1] \n\n");
    assert_eq!(jira_doc_from_reply("INC-1", r#"{"key":"INC-1"}"#), None);
    assert_eq!(jira_doc_from_reply("INC-1", "not json"), None);
}
