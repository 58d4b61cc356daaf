use gitlens::mining_types::{CommitRecord, FileChange, HeuristicFlags};
use gitlens::ranking::{is_noise_commit, post_process};
use gitlens::prompt_laws::ranking_prompt_checked;
use gitlens::ranking_prompt::build_ranking_prompt;
use gitlens::testing_api::extract_hashes_from_prompt;
use gitlens::ranking_run::{
    finish_ranking, parse_ranking_reply, parse_ranking_response, plan_ranking, wants_project_summary, RankingPlan,
    RankingReplyItem, UNPARSEABLE_RANKING_MESSAGE,
};
use gitlens::ranking_types::{
    score_key, CandidateInput, ModelScoredCandidate, PrEnrichment, RankingConfig,
    SignalSummary,
};
use gitlens::stages::CommitSummary;

fn mk(hash: &str, subject: &str, subsystems: &[&str], files: &[&str]) -> CandidateInput {
    CandidateInput {
        commit: CommitRecord {
            hash: hash.into(),
            parent_hashes: vec![],
            author_name: "a".into(),
            author_email: "a@b".into(),
            timestamp_utc: "2024-01-01T00:00:00Z".into(),
            message_summary: subject.into(),
            subsystems: subsystems.iter().map(|s| s.to_string()).collect(),
            files_changed: files
                .iter()
                .map(|p| FileChange { path: p.to_string(), additions: 1, deletions: 0, status: "M".into() })
                .collect(),
            heuristics: HeuristicFlags::default(),
        },
        pr: PrEnrichment::default(),
    }
}

fn scored(hash: &str, score: f32) -> ModelScoredCandidate {
    ModelScoredCandidate {
        commit_hash: hash.into(),
        score: score.to_bits(),
        architecture_shaping: false,
        rationale: String::new(),
        evidence_summary: String::new(),
    }
}

#[test]
fn noise_filter_drops_lockfile_only_commits() {
    let c = mk("h1", "update deps", &["backend"], &["Cargo.lock"]);
    assert!(is_noise_commit(&c));
}

#[test]
fn noise_filter_drops_chore_prefix() {
    let c = mk("h1", "chore: tidy up", &["backend"], &["src/lib.rs"]);
    assert!(is_noise_commit(&c));
}

#[test]
fn noise_filter_keeps_real_fix() {
    let c = mk("h1", "Fix race condition in scheduler", &["backend"], &["src/lib.rs"]);
    assert!(!is_noise_commit(&c));
}

#[test]
fn noise_filter_drops_commit_without_files() {
    let c = mk("h1", "Fix race condition in scheduler", &["backend"], &[]);
    assert!(is_noise_commit(&c));
}

#[test]
fn hash_validation_drops_hallucinations() {
    let real = vec![mk("real1", "Fix bug", &["backend"], &["src/a.rs"])];
    let pool = vec![scored("real1", 0.9), scored("ghost", 0.99)];
    let (out, _) = post_process(pool, &real, &RankingConfig::default());
    assert_eq!(out.len(), 1);
    assert_eq!(out[0].commit_hash, "real1");
}

#[test]
fn diversity_floor_prefers_spread() {
    let mut cands = vec![];
    let mut pool = vec![];
    for i in 0..6 {
        let h = format!("b{i}");
        cands.push(mk(&h, "feat backend", &["backend"], &["src/b.rs"]));
        pool.push(scored(&h, 0.9));
    }
    for i in 0..2 {
        let h = format!("f{i}");
        cands.push(mk(&h, "feat frontend", &["frontend"], &["src/f.js"]));
        pool.push(scored(&h, 0.1));
    }
    let (out, _) = post_process(pool, &cands, &RankingConfig::default());
    let frontend_count = out.iter().filter(|c| c.subsystem == "frontend").count();
    assert!(frontend_count >= 2, "expected diversity floor to keep both frontend entries");
}

#[test]
fn refill_from_noise_when_below_target_min() {
    let mut cfg = RankingConfig::default();
    cfg.target_min = 2;
    cfg.target_max = 15;
    let cands = vec![
        mk("n1", "chore: tidy", &["backend"], &["src/a.rs"]),
        mk("n2", "chore: cleanup", &["backend"], &["src/b.rs"]),
        mk("n3", "chore: format", &["backend"], &["src/c.rs"]),
    ];
    let pool = vec![scored("n1", 0.9), scored("n2", 0.5), scored("n3", 0.1)];
    let (out, below) = post_process(pool, &cands, &cfg);
    assert_eq!(out.len(), 2, "refill should top up to target_min");
    assert_eq!(out[0].commit_hash, "n1");
    assert_eq!(out[1].commit_hash, "n2");
    assert!(!below, "below_target_min should be false after a successful refill");
}

#[test]
fn below_target_min_when_pool_exhausted() {
    let mut cfg = RankingConfig::default();
    cfg.target_min = 5;
    cfg.target_max = 15;
    let cands = vec![
        mk("a", "Fix race in scheduler", &["backend"], &["src/a.rs"]),
        mk("b", "Fix deadlock in pool", &["backend"], &["src/b.rs"]),
    ];
    let pool = vec![scored("a", 0.9), scored("b", 0.5)];
    let (out, below) = post_process(pool, &cands, &cfg);
    assert_eq!(out.len(), 2);
    assert!(below, "2 < target_min=5 should report below_target_min");
}

#[test]
fn post_process_output_is_ranked_distinct_and_capped() {
    let mut cfg = RankingConfig::default();
    cfg.target_min = 1;
    cfg.target_max = 3;
    let mut cands = vec![];
    let mut pool = vec![];
    let scores = [0.2f32, 0.8, 0.5, 0.9, 0.1];
    for (i, s) in scores.iter().enumerate() {
        let h = format!("c{i}");
        cands.push(mk(&h, "Fix thing", &["core"], &["src/x.rs"]));
        pool.push(scored(&h, *s));
    }
    pool.push(scored("c3", 0.95));
    let (out, below) = post_process(pool, &cands, &cfg);
    assert!(!below);
    assert_eq!(out.len(), 3);
    let ranks: Vec<usize> = out.iter().map(|r| r.rank).collect();
    assert_eq!(ranks, vec![1, 2, 3]);
    for w in out.windows(2) {
        assert!(f32::from_bits(w[0].score) >= f32::from_bits(w[1].score));
        assert_ne!(w[0].commit_hash, w[1].commit_hash);
    }
    assert_eq!(out[0].commit_hash, "c3");
}

#[test]
fn ranked_entries_carry_candidate_details() {
    let mut c = mk("h1", "Fix bug", &["backend", "api"], &["src/a.rs"]);
    c.pr.pr_number = Some(42);
    c.pr.pr_comment_count = Some(9);
    let mut s = scored("h1", 0.7);
    s.architecture_shaping = true;
    s.rationale = "why".into();
    let (out, _) = post_process(vec![s], &[c], &RankingConfig::default());
    assert_eq!(out[0].subsystem, "backend");
    assert_eq!(out[0].subsystems, vec!["backend", "api"]);
    assert_eq!(out[0].source_pr, Some(42));
    assert_eq!(out[0].rationale, "why");
    assert_eq!(
        out[0].signals,
        SignalSummary {
            architecture_shaping: true,
            revert: false,
            incident_linked: false,
            discussion_rich: true,
            repeated_fix: false,
        }
    );
    assert_eq!(f32::from_bits(out[0].score), 0.7);
}

#[test]
fn score_keys_order_like_scores() {
    let vals = [-1.5f32, -0.0, 0.0, 0.1, 0.5, 0.9, 2.0];
    for w in vals.windows(2) {
        assert!(score_key(w[0].to_bits()) <= score_key(w[1].to_bits()));
    }
    assert_eq!(score_key(0.0f32.to_bits()), score_key((-0.0f32).to_bits()));
    assert!(score_key(0.25f32.to_bits()) < score_key(0.5f32.to_bits()));
}

#[test]
fn ranking_prompt_exact_text() {
    let mut c = mk("abc", "Fix crash", &["backend"], &["src/a.rs", "src/b.rs"]);
    c.commit.heuristics.is_revert = true;
    c.commit.heuristics.incident_refs = vec!["INC-1".into()];
    c.pr.pr_comment_count = Some(3);
    c.pr.linked_issues = vec!["#5".into()];
    let summaries = vec![(
        "abc".to_string(),
        CommitSummary {
            what_changed: "x".repeat(241),
            why: "because".into(),
            takeaway: "t".into(),
            expanded: false,
        },
    )];
    let p = build_ranking_prompt(&[c], &summaries, "Proj", 7);
    assert!(p.starts_with("PROJECT CONTEXT\nProj\n\nYou are ranking candidate git commits"));
    assert!(p.contains("Return at most 7 entries, highest first.\n\nCANDIDATES:\n- hash: abc\n"));
    assert!(p.contains(
        "  subsystems: [\"backend\"]\n  files: src/a.rs, src/b.rs\n  signals: revert=true was_reverted=false repeated_fix=false incidents=[\"INC-1\"] pr_comments=Some(3) pr_links=[\"#5\"]\n"
    ));
    let clipped = format!("    changed:  {}…\n", "x".repeat(240));
    assert!(p.contains(&clipped));
    assert!(p.ends_with("    why:      because\n    takeaway: t\n"));
}

#[test]
fn ranking_prompt_without_context_or_summaries() {
    let c = mk("h", "s", &[], &[]);
    let p = build_ranking_prompt(&[c], &vec![], "", 15);
    assert!(p.starts_with("You are ranking candidate git commits for a new-hire onboarding tour.\n"));
    assert!(p.ends_with("pr_comments=None pr_links=[]\n"));
    assert!(!p.contains("summary:"));
}

#[test]
fn ranking_reply_is_read_with_defaults() {
    let items = vec![
        RankingReplyItem {
            commit_hash: Some("a".into()),
            score_bits: Some(0.5f32.to_bits()),
            architecture_shaping: Some(true),
            rationale: Some("r".into()),
            evidence_summary: None,
        },
        RankingReplyItem {
            commit_hash: Some("b".into()),
            score_bits: None,
            architecture_shaping: None,
            rationale: None,
            evidence_summary: Some("e".into()),
        },
    ];
    let v = parse_ranking_response(Some(items)).unwrap();
    assert_eq!(v.len(), 2);
    assert!(v[0].architecture_shaping);
    assert_eq!(v[0].evidence_summary, "");
    assert_eq!(v[0].score, 0.5f32.to_bits());
    assert_eq!(v[1].score, 0.0f32.to_bits());
    assert_eq!(v[1].evidence_summary, "e");
}

#[test]
fn ranking_reply_errors() {
    assert_eq!(parse_ranking_response(None).unwrap_err(), "response missing 'candidates' array");
    let items = vec![RankingReplyItem {
        commit_hash: None,
        score_bits: None,
        architecture_shaping: None,
        rationale: None,
        evidence_summary: None,
    }];
    assert_eq!(parse_ranking_response(Some(items)).unwrap_err(), "missing commit_hash");
}

#[test]
fn ranking_run_decisions() {
    let cfg = RankingConfig { use_file_summaries: true, ..RankingConfig::default() };
    assert_eq!(plan_ranking(&[], &cfg).unwrap_err(), "no candidates to rank");
    let plan = plan_ranking(&[mk("a", "s", &[], &[])], &cfg).unwrap();
    assert_eq!(plan, RankingPlan { file_summaries: true, commit_summaries: false });
    assert!(wants_project_summary(plan, 3));
    assert!(!wants_project_summary(plan, 0));
    let none = RankingPlan { file_summaries: false, commit_summaries: false };
    assert!(!wants_project_summary(none, 3));
}

#[test]
fn finish_ranking_fills_metadata() {
    let cands = vec![mk("a", "Fix it", &["x"], &["src/a.rs"])];
    let out = finish_ranking(
        vec![scored("a", 0.4)],
        &cands,
        &RankingConfig::default(),
        "model-x".into(),
        "2024-05-01T00:00:00+00:00".into(),
    );
    assert_eq!(out.tour_candidates.len(), 1);
    assert_eq!(out.meta.prompt_version, "v1");
    assert_eq!(out.meta.model_id, "model-x");
    assert_eq!(out.meta.candidate_count, 1);
    assert!(out.meta.below_target_min);
}

#[test]
fn ranking_reply_falls_back_to_text() {
    let item = |h: &str| RankingReplyItem {
        commit_hash: Some(h.into()),
        score_bits: None,
        architecture_shaping: None,
        rationale: None,
        evidence_summary: None,
    };
    let v = parse_ranking_reply(Some(Some(vec![item("p")])), Some(Some(vec![item("t")]))).unwrap();
    assert_eq!(v[0].commit_hash, "p");
    let v = parse_ranking_reply(None, Some(Some(vec![item("t")]))).unwrap();
    assert_eq!(v[0].commit_hash, "t");
    assert_eq!(
        parse_ranking_reply(None, Some(None)).unwrap_err(),
        "response missing 'candidates' array"
    );
    assert_eq!(
        parse_ranking_reply(None, None).unwrap_err(),
        UNPARSEABLE_RANKING_MESSAGE
    );
}

#[test]
fn checked_prompt_reads_back_candidate_hashes() {
    let a = || mk("aaa111", "Fix crash", &["backend"], &["src/a.rs"]);
    let b = || mk("bbb222", "Add cache", &["db", "api"], &["src/b.rs", "src/c.rs"]);
    let summaries = vec![(
        "bbb222".to_string(),
        CommitSummary { what_changed: "x".into(), why: "y".into(), takeaway: "z".into(), expanded: false },
    )];
    let (p, ok) = ranking_prompt_checked(&[a(), b()], &summaries, "A tool.\nTwo lines.", 5);
    assert!(ok);
    assert_eq!(p, build_ranking_prompt(&[a(), b()], &summaries, "A tool.\nTwo lines.", 5));
    assert_eq!(extract_hashes_from_prompt(&p), vec!["aaa111", "bbb222"]);

    let bad = mk("ccc", "Two\nlines", &[], &[]);
    let (_, ok) = ranking_prompt_checked(&[a(), bad], &vec![], "", 5);
    assert!(!ok);
    let padded = mk(" ddd", "s", &[], &[]);
    assert!(!ranking_prompt_checked(&[padded], &vec![], "", 5).1);
    let multi = vec![(
        "aaa111".to_string(),
        CommitSummary { what_changed: "a\nb".into(), why: String::new(), takeaway: String::new(), expanded: false },
    )];
    assert!(!ranking_prompt_checked(&[a()], &multi, "", 5).1);
}

#[test]
fn ranking_prompt_uses_latest_summary_for_a_hash() {
    let c = mk("abc", "Fix crash", &[], &[]);
    let sum = |w: &str| CommitSummary { what_changed: w.into(), why: String::new(), takeaway: String::new(), expanded: false };
    let summaries = vec![("abc".to_string(), sum("older")), ("abc".to_string(), sum("newer"))];
    let p = build_ranking_prompt(&[c], &summaries, "", 5);
    assert!(p.contains("changed:  newer"));
    assert!(!p.contains("older"));
}

#[test]
fn checked_prompt_allows_line_breaks_inside_lists() {
    let mut c = mk("h9", "subject", &["odd\nname"], &["src/x.rs"]);
    c.commit.heuristics.incident_refs = vec!["INC\n1".into()];
    c.pr.linked_issues = vec!["#1\r\n".into()];
    let (p, ok) = ranking_prompt_checked(&[c], &vec![], "", 3);
    assert!(ok);
    assert!(p.contains("subsystems: [\"odd\\nname\"]"));
    assert_eq!(extract_hashes_from_prompt(&p), vec!["h9"]);
}
