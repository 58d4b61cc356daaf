use gitlens::mining_types::{CommitRecord, FileChange, HeuristicFlags, MiningOutput, MiningWindow};
use gitlens::ranking_types::{RankedCandidate, RankingMeta, RankingOutput, SignalSummary};
use gitlens::tour::{
    build_narration_prompt, build_tour_stop, plan_stop_stubs, derive_triggers, parse_narration_response, tour_cache_key,
    validate_tour_config, StopStub, TourConfig, TriggerKind,
};

fn make_stub(hash: &str) -> StopStub {
    StopStub {
        sequence: 1,
        commit_hash: hash.to_string(),
        timestamp_utc: "2024-01-01T00:00:00Z".to_string(),
        message_summary: "Fix timeout handling (INC-4821)".to_string(),
        subsystem: "backend".to_string(),
        subsystems: vec!["backend".to_string()],
        files_changed: vec!["src/server.rs".to_string()],
        triggered_by: vec![TriggerKind::IncidentLinked],
        selection_rationale: "Incident-linked fix that changed retry semantics".to_string(),
        evidence_summary: "Timeout patch linked to INC-4821 outage".to_string(),
        linked_document: None,
    }
}

#[test]
fn test_tour_cache_key_stability() {
    let window = MiningWindow { max_age_days: Some(365), max_commits_per_subsystem: Some(100) };
    let k1 = tour_cache_key("/repo/path", "abcdef123", &window, "v1");
    let k2 = tour_cache_key("/repo/path", "abcdef123", &window, "v1");
    assert_eq!(k1, k2, "tour_cache_key must be deterministic");
    assert_eq!(k1.len(), 64, "expected 64-char hex SHA-256");
}

#[test]
fn test_tour_cache_key_changes_on_different_input() {
    let window = MiningWindow { max_age_days: Some(365), max_commits_per_subsystem: Some(100) };
    let k1 = tour_cache_key("/repo/path", "abcdef123", &window, "v1");
    let k2 = tour_cache_key("/repo/path", "abcdef123", &window, "v2");
    assert_ne!(k1, k2, "different prompt version must yield different cache key");
    let k3 = tour_cache_key("/repo/path", "different_head", &window, "v1");
    assert_ne!(k1, k3, "different head hash must yield different cache key");
}

#[test]
fn test_fail_fast_when_fetch_enabled_but_no_tokens() {
    let cfg = TourConfig {
        fetch_linked_documents: true,
        github_token: None,
        jira_token: None,
        ..TourConfig::default()
    };
    let err = validate_tour_config(&cfg).err();
    assert!(err.is_some(), "expected fail-fast error when fetch enabled but no tokens");
    assert!(
        err.unwrap().contains("neither github_token nor jira_token"),
        "error message should name both missing tokens"
    );
}

#[test]
fn test_fail_fast_passes_when_github_token_present() {
    let cfg = TourConfig {
        fetch_linked_documents: true,
        github_token: Some("ghp_test_token".to_string()),
        jira_token: None,
        ..TourConfig::default()
    };
    assert!(validate_tour_config(&cfg).is_ok(), "should not fail-fast when github_token is set");
}

#[test]
fn test_derive_triggers_from_flags() {
    let flags = HeuristicFlags {
        is_revert: true,
        was_reverted: false,
        touches_repeated_fix_file: true,
        incident_refs: vec!["INC-1234".to_string()],
        ..HeuristicFlags::default()
    };
    let triggers = derive_triggers(&flags, false);
    assert!(triggers.contains(&TriggerKind::Revert));
    assert!(triggers.contains(&TriggerKind::RepeatedFix));
    assert!(triggers.contains(&TriggerKind::IncidentLinked));
    assert!(!triggers.contains(&TriggerKind::ArchitectureShaping));
}

#[test]
fn test_derive_triggers_architecture_shaping() {
    let flags = HeuristicFlags::default();
    let triggers = derive_triggers(&flags, true);
    assert!(triggers.contains(&TriggerKind::ArchitectureShaping));
    assert!(!triggers.is_empty());
}

#[test]
fn test_build_narration_prompt_contains_mock_trigger() {
    let stub = make_stub("deadbeef");
    let prompt = build_narration_prompt(&stub, "M src/server.rs (+10 -3)", &[]);
    assert!(prompt.contains("MOCK_TRIGGER:"), "prompt must contain MOCK_TRIGGER hint line");
    assert!(prompt.contains("incident_linked"), "MOCK_TRIGGER should reflect the primary trigger kind");
}

#[test]
fn test_build_narration_prompt_contains_commit_hash_for_mock() {
    let stub = make_stub("deadbeef");
    let prompt = build_narration_prompt(&stub, "", &[]);
    assert!(
        prompt.contains("COMMIT_HASH_FOR_MOCK: deadbeef"),
        "prompt must embed hash for MockProvider fail detection"
    );
}

#[test]
fn test_build_narration_prompt_cross_stop_context() {
    let stub = make_stub("abc");
    let others = vec![
        "The rollback that changed the retry pattern".to_string(),
        "Timeout patch linked to INC-4821 outage".to_string(),
    ];
    let prompt = build_narration_prompt(&stub, "", &others);
    assert!(prompt.contains("OTHER STOPS IN THIS TOUR"), "prompt should include cross-stop context section");
    assert!(prompt.contains("The rollback that changed the retry pattern"));
}

#[test]
fn test_parse_narration_response_valid() {
    let reply = Some((
        Some("The outage that hardened the retry path".to_string()),
        Some("First paragraph.\n\nSecond paragraph.".to_string()),
    ));
    let (title, narration) = parse_narration_response(reply, "").unwrap();
    assert_eq!(title, "The outage that hardened the retry path");
    assert!(narration.contains("First paragraph."));
}

#[test]
fn test_parse_narration_response_missing_title_is_err() {
    let reply = Some((None, Some("some narration".to_string())));
    let result = parse_narration_response(reply, "");
    assert!(result.is_err(), "missing title should be an error");
}

#[test]
fn test_parse_narration_response_fallback_from_text() {
    let text = r#"{"title":"Fallback title","narration":"Fallback narration."}"#;
    let (title, _) = parse_narration_response(None, text).unwrap();
    assert_eq!(title, "Fallback title");
}

#[test]
fn parse_narration_response_error_texts() {
    assert_eq!(
        parse_narration_response(None, "not json").unwrap_err(),
        "narration response was not parseable JSON"
    );
    assert_eq!(
        parse_narration_response(Some((Some(String::new()), Some("n".into()))), "").unwrap_err(),
        "narration response missing 'title' field"
    );
    assert_eq!(
        parse_narration_response(Some((Some("t".into()), Some(String::new()))), "").unwrap_err(),
        "narration response missing 'narration' field"
    );
    assert_eq!(
        parse_narration_response(None, r#"{"title":"t","narration":3}"#).unwrap_err(),
        "narration response missing 'narration' field"
    );
    assert_eq!(
        parse_narration_response(None, r#"["title"]"#).unwrap_err(),
        "narration response missing 'title' field"
    );
    // The structured output wins over the text.
    let (t, _) = parse_narration_response(
        Some((Some("from parsed".into()), Some("n".into()))),
        r#"{"title":"from text","narration":"n"}"#,
    )
    .unwrap();
    assert_eq!(t, "from parsed");
}

#[test]
fn narration_prompt_exact_layout() {
    let mut stub = make_stub("h1");
    stub.linked_document = Some("[Jira INC-4821] Outage".to_string());
    let prompt = build_narration_prompt(&stub, "M src/server.rs (+1 -1)\n", &["other".to_string()]);
    assert_eq!(
        prompt,
        "COMMIT: h1\nSUBJECT: Fix timeout handling (INC-4821)\nSUBSYSTEMS: backend\nFILES CHANGED: src/server.rs\nSELECTION TRIGGERS: incident_linked\nSELECTION RATIONALE: Incident-linked fix that changed retry semantics\n\nLINKED DOCUMENT:\n[Jira INC-4821] Outage\n\nOTHER STOPS IN THIS TOUR (for cross-reference):\n- other\n\nDIFF EXCERPT (truncated):\nM src/server.rs (+1 -1)\n\n\nMOCK_TRIGGER: incident_linked\nCOMMIT_HASH_FOR_MOCK: h1"
    );
}

#[test]
fn stop_stubs_join_ranking_with_mining() {
    let flags = HeuristicFlags { incident_refs: vec!["INC-1".into(), "#4".into()], ..HeuristicFlags::default() };
    let mining = MiningOutput {
        repo_path: "/r".into(),
        generated_at_utc: "t".into(),
        window: MiningWindow { max_age_days: None, max_commits_per_subsystem: None },
        subsystems_scanned: vec!["backend".into()],
        total_commits_scanned: 1,
        candidate_count: 1,
        commits: vec![CommitRecord {
            hash: "c1".into(),
            parent_hashes: vec![],
            author_name: "a".into(),
            author_email: "a@b".into(),
            timestamp_utc: "2024-02-02T00:00:00Z".into(),
            message_summary: "Fix it (INC-1)".into(),
            subsystems: vec!["backend".into()],
            files_changed: vec![FileChange { path: "src/a.rs".into(), additions: 1, deletions: 0, status: "M".into() }],
            heuristics: flags,
        }],
    };
    let ranked = |hash: &str, rank: usize| RankedCandidate {
        rank,
        commit_hash: hash.into(),
        subsystem: "backend".into(),
        subsystems: vec!["backend".into()],
        timestamp_utc: "x".into(),
        score: 0,
        signals: SignalSummary {
            architecture_shaping: false,
            revert: false,
            incident_linked: true,
            discussion_rich: false,
            repeated_fix: false,
        },
        rationale: "r".into(),
        evidence_summary: "e".into(),
        source_pr: None,
    };
    let ranking = RankingOutput {
        tour_candidates: vec![ranked("ghost", 1), ranked("c1", 2)],
        meta: RankingMeta {
            prompt_version: "v1".into(),
            model_id: "m".into(),
            generated_at_utc: "t".into(),
            candidate_count: 2,
            below_target_min: true,
        },
    };
    let cfg = TourConfig { fetch_linked_documents: true, github_token: Some("t".into()), ..TourConfig::default() };
    let planned = plan_stop_stubs(&ranking, &mining, &cfg);
    assert_eq!(planned.len(), 1);
    let p = &planned[0];
    assert_eq!(p.stub.sequence, 2);
    assert_eq!(p.stub.message_summary, "Fix it (INC-1)");
    assert_eq!(p.stub.files_changed, vec!["src/a.rs"]);
    assert_eq!(p.stub.triggered_by, vec![TriggerKind::IncidentLinked]);
    assert_eq!(p.refs_to_fetch, vec!["INC-1", "#4"]);
    let no_fetch = plan_stop_stubs(&ranking, &mining, &TourConfig::default());
    assert!(no_fetch[0].refs_to_fetch.is_empty());
    let stop = build_tour_stop(&p.stub, "T".into(), "N".into());
    assert_eq!(stop.title, "T");
    assert_eq!(stop.sequence, 2);
    assert_eq!(stop.selection_rationale, "r");
}
