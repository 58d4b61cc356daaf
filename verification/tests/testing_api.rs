use gitlens::mining_types::{CommitRecord, FileChange, HeuristicFlags};
use gitlens::ranking_prompt::build_ranking_prompt;
use gitlens::ranking_types::{CandidateInput, PrEnrichment};
use gitlens::stages::CommitSummary;
use gitlens::testing_api::{
    dummy_response, extract_hashes_from_prompt, mock_prose_text, mock_ranking_entries, mock_stage,
    MockReply, MockStage,
};

fn fields(v: &[&str]) -> Vec<String> {
    v.iter().map(|s| s.to_string()).collect()
}

#[test]
fn extract_hashes_empty_when_no_candidates() {
    let hashes = extract_hashes_from_prompt("no candidate lines here");
    assert!(hashes.is_empty());
}

#[test]
fn extract_hashes_ignores_non_hash_lines() {
    let prompt = "- hash: abc123\n  subject: fix something\n- hash: def456\n";
    let hashes = extract_hashes_from_prompt(prompt);
    assert_eq!(hashes, vec!["abc123", "def456"]);
}

#[test]
fn extract_hashes_trims_and_handles_crlf() {
    let prompt = "  - hash:   h1  \r\n- hash: h2";
    assert_eq!(extract_hashes_from_prompt(prompt), vec!["h1", "h2"]);
}

#[test]
fn file_summary_returns_all_required_fields() {
    let required = fields(&["provides", "externals", "purpose", "functionalities", "notes"]);
    match dummy_response(&required, "File: foo.rs\n") {
        MockReply::FileSummary(f) => {
            assert!(!f.provides.is_empty());
            assert!(!f.purpose.is_empty());
            assert!(f.externals.is_empty());
            assert!(f.functionalities.is_empty());
            assert!(!f.notes.is_empty());
        }
        other => panic!("unexpected reply {:?}", other),
    }
}

#[test]
fn commit_summary_returns_all_required_fields() {
    let required = fields(&["what_changed", "why", "takeaway"]);
    match dummy_response(&required, "Commit: abc123\n") {
        MockReply::CommitSummary(what, why, takeaway) => {
            assert_eq!(what, "[mock what_changed]");
            assert_eq!(why, "[mock why]");
            assert_eq!(takeaway, "[mock takeaway]");
        }
        other => panic!("unexpected reply {:?}", other),
    }
}

#[test]
fn ranking_response_echoes_hashes_from_prompt() {
    let prompt = "CANDIDATES:\n- hash: abc\n  subject: fix\n- hash: def\n  subject: feat\n";
    match dummy_response(&fields(&["candidates"]), prompt) {
        MockReply::Ranking(entries) => {
            assert_eq!(entries.len(), 2);
            assert_eq!(entries[0].commit_hash, "abc");
            assert_eq!(entries[1].commit_hash, "def");
            assert_eq!(entries[0].rationale, "[mock rationale for abc]");
            assert_eq!(entries[1].evidence_summary, "[mock evidence for def]");
        }
        other => panic!("unexpected reply {:?}", other),
    }
}

#[test]
fn prose_response_has_text_and_no_parsed_value() {
    match dummy_response(&vec![], "Subsystem: auth\n") {
        MockReply::Prose(text) => {
            assert!(text.contains("[mock prose"), "text should contain mock prose");
            assert_eq!(text, "[mock prose for Subsystem: auth]");
        }
        other => panic!("unexpected reply {:?}", other),
    }
}

#[test]
fn stage_dispatch_priority() {
    assert_eq!(mock_stage(&fields(&["what_changed", "candidates"])), MockStage::Ranking);
    assert_eq!(mock_stage(&fields(&["what_changed", "provides"])), MockStage::FileSummary);
    assert_eq!(mock_stage(&fields(&["what_changed"])), MockStage::CommitSummary);
    assert_eq!(mock_stage(&fields(&["answer"])), MockStage::Prose);
}

#[test]
fn prose_first_line_rules() {
    assert_eq!(mock_prose_text(""), "[mock prose for unknown]");
    assert_eq!(mock_prose_text("a\r\nb"), "[mock prose for a]");
    assert_eq!(mock_prose_text("a\r"), "[mock prose for a\r]");
    assert_eq!(mock_prose_text("\nb"), "[mock prose for ]");
}

#[test]
fn mock_entries_follow_prompt_order() {
    let e = mock_ranking_entries("- hash: z\n- hash: y\n");
    let hashes: Vec<&str> = e.iter().map(|x| x.commit_hash.as_str()).collect();
    assert_eq!(hashes, vec!["z", "y"]);
}

fn candidate(hash: &str) -> CandidateInput {
    CandidateInput {
        commit: CommitRecord {
            hash: hash.into(),
            parent_hashes: vec![],
            author_name: "a".into(),
            author_email: "a@b".into(),
            timestamp_utc: "2024-01-01T00:00:00Z".into(),
            message_summary: "Fix the - hash: handling".into(),
            subsystems: vec!["backend".into()],
            files_changed: vec![FileChange { path: "src/a.rs".into(), additions: 1, deletions: 0, status: "M".into() }],
            heuristics: HeuristicFlags::default(),
        },
        pr: PrEnrichment::default(),
    }
}

#[test]
fn mock_ranking_echoes_hashes_of_a_built_ranking_prompt() {
    let cands = vec![candidate("aaa111"), candidate("bbb222"), candidate("ccc333")];
    let summaries = vec![(
        "bbb222".to_string(),
        CommitSummary { what_changed: "w".into(), why: "y".into(), takeaway: "t".into(), expanded: false },
    )];
    let prompt = build_ranking_prompt(&cands, &summaries, "A project.\nSecond line.", 15);
    assert_eq!(extract_hashes_from_prompt(&prompt), vec!["aaa111", "bbb222", "ccc333"]);
    match dummy_response(&vec!["candidates".to_string()], &prompt) {
        MockReply::Ranking(entries) => assert_eq!(entries.len(), 3),
        other => panic!("unexpected reply {:?}", other),
    }
}
