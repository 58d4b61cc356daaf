use gitlens::heuristics::{extract_incident_refs, extract_reverted_hash, is_fix_message, is_revert_message};
use gitlens::mining_types::{FileChange, HeuristicFlags, MiningWindow, SubsystemDef};
use gitlens::worker::{
    before_cutoff, cap_reached, file_change_from_delta, filter_to_candidates, path_matches_subsystem,
    touches_subsystem, DeltaKind, RawCommit,
};

#[test]
fn detects_revert_subject() {
    assert!(is_revert_message(r#"Revert "Add flaky retry logic""#));
    assert!(!is_revert_message("Add retry logic"));
}

#[test]
fn extracts_reverted_hash() {
    let body = "Revert \"Add flaky retry logic\"\n\nThis reverts commit abc1234def5678900000000000000000000000.\n";
    assert_eq!(
        extract_reverted_hash(body).as_deref(),
        Some("abc1234def5678900000000000000000000000")
    );
}

#[test]
fn detects_fix_message() {
    assert!(is_fix_message("Fix null pointer in parser"));
    assert!(is_fix_message("hotfix: race condition"));
    assert!(!is_fix_message("Add new feature"));
}

#[test]
fn extracts_incident_refs() {
    let refs = extract_incident_refs("Fix crash (INC-4821), see also #987 and JIRA-12");
    assert_eq!(refs, vec!["INC-4821", "#987", "JIRA-12"]);
}

#[test]
fn dedupes_incident_refs() {
    let refs = extract_incident_refs("relates to #1 and also #1 again");
    assert_eq!(refs, vec!["#1"]);
}

#[test]
fn incident_refs_are_uppercased_and_distinct() {
    let refs = extract_incident_refs("see inc-7 and INC-7 and #3");
    assert_eq!(refs, vec!["INC-7", "#3"]);
}

#[test]
fn revert_subject_is_trimmed_before_matching() {
    assert!(is_revert_message("   Revert \"x\"   "));
}

#[test]
fn no_reverted_hash_without_marker() {
    assert_eq!(extract_reverted_hash("Add feature"), None);
}

fn file(path: &str) -> FileChange {
    FileChange { path: path.to_string(), additions: 1, deletions: 0, status: "M".to_string() }
}

fn raw(hash: &str, subject: &str, body: &str, files: &[&str]) -> RawCommit {
    RawCommit::from_history(
        hash.to_string(),
        vec![],
        "a".to_string(),
        "a@b".to_string(),
        "2024-01-01T00:00:00Z".to_string(),
        subject.to_string(),
        body.to_string(),
        files.iter().map(|p| file(p)).collect(),
    )
}

#[test]
fn raw_commit_applies_message_heuristics() {
    let r = raw(
        "h1",
        "Revert \"Add cache\"",
        "Revert \"Add cache\"\n\nThis reverts commit abcdef1.\nSee INC-12",
        &["src/a.rs"],
    );
    assert!(r.is_revert);
    assert_eq!(r.reverts_hash.as_deref(), Some("abcdef1"));
    assert!(!r.is_fix);
    assert_eq!(r.incident_refs, vec!["INC-12"]);
}

#[test]
fn filter_keeps_repeated_fix_and_reverted_commits() {
    let commits = vec![
        raw("aaaa111", "Fix parser crash", "Fix parser crash", &["src/parser.rs"]),
        raw("bbbb222", "Fix parser again", "Fix parser again", &["src/parser.rs"]),
        raw("cccc333", "Add feature", "Add feature", &["src/feature.rs"]),
        raw("dddd444", "Revert \"Add feature\"", "This reverts commit cccc333.", &["src/feature.rs"]),
    ];
    let out = filter_to_candidates(commits, "backend");
    let hashes: Vec<&str> = out.iter().map(|c| c.hash.as_str()).collect();
    assert_eq!(hashes, vec!["aaaa111", "bbbb222", "cccc333", "dddd444"]);
    assert!(out[0].heuristics.touches_repeated_fix_file);
    assert_eq!(out[0].heuristics.repeated_fix_file_paths, vec!["src/parser.rs"]);
    assert!(out[2].heuristics.was_reverted);
    assert!(out[3].heuristics.is_revert);
    assert_eq!(out[0].subsystems, vec!["backend"]);
}

#[test]
fn filter_drops_commits_without_signals() {
    let commits = vec![
        raw("aaaa111", "Fix parser crash", "Fix parser crash", &["src/parser.rs"]),
        raw("cccc333", "Add feature", "Add feature", &["src/feature.rs"]),
    ];
    let out = filter_to_candidates(commits, "backend");
    assert!(out.is_empty());
}

#[test]
fn subsystem_prefix_matching() {
    let s = SubsystemDef { name: "backend".to_string(), path_prefixes: vec!["backend/".to_string()] };
    assert!(path_matches_subsystem("backend/server.rs", &s));
    assert!(!path_matches_subsystem("frontend/app.js", &s));
    assert!(touches_subsystem(&vec![file("docs/x.md"), file("backend/y.rs")], &s));
    assert!(!touches_subsystem(&vec![file("docs/x.md")], &s));
}

#[test]
fn walk_limits() {
    let w = MiningWindow { max_age_days: None, max_commits_per_subsystem: Some(2) };
    assert!(!cap_reached(&w, 1));
    assert!(cap_reached(&w, 2));
    let open = MiningWindow { max_age_days: None, max_commits_per_subsystem: None };
    assert!(!cap_reached(&open, 1000));
    assert!(before_cutoff(Some(100), 99));
    assert!(!before_cutoff(Some(100), 100));
    assert!(!before_cutoff(None, -5));
}

#[test]
fn delta_entries_become_file_changes() {
    let f = file_change_from_delta(None, Some("old.rs".to_string()), DeltaKind::Deleted, Some((0, 7))).unwrap();
    assert_eq!(f.path, "old.rs");
    assert_eq!(f.status, "D");
    assert_eq!((f.additions, f.deletions), (0, 7));
    let g = file_change_from_delta(Some("new.rs".to_string()), None, DeltaKind::Typechange, None).unwrap();
    assert_eq!(g.status, "T");
    assert_eq!((g.additions, g.deletions), (0, 0));
    assert!(file_change_from_delta(None, None, DeltaKind::Added, None).is_none());
    let h = file_change_from_delta(Some("x".to_string()), None, DeltaKind::Other, None).unwrap();
    assert_eq!(h.status, "?");
}

#[test]
fn merge_unions_flags() {
    let a = HeuristicFlags {
        is_revert: true,
        incident_refs: vec!["#1".to_string()],
        ..HeuristicFlags::default()
    };
    let b = HeuristicFlags {
        was_reverted: true,
        incident_refs: vec!["#1".to_string(), "#2".to_string()],
        ..HeuristicFlags::default()
    };
    let m = a.merge(b);
    assert!(m.is_revert && m.was_reverted);
    assert_eq!(m.incident_refs, vec!["#1", "#2"]);
    assert!(m.is_candidate());
    assert!(!HeuristicFlags::default().is_candidate());
}
