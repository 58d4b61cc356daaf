use gitlens::mining_types::{CommitRecord, FileChange, HeuristicFlags};
use gitlens::ranking_types::{CandidateInput, PrEnrichment};
use gitlens::stages::{
    candidate_file_paths, commit_summary_from_reply, commit_summary_prompt, file_excerpt,
    file_summary_from_reply, file_summary_prompt, hash_bytes, hash_hex, project_prompt, project_summary_key, subsystem_prompts,
    top_path_segment, vague_trigger, FileSummary,
};

fn cand(hash: &str, subject: &str, files: &[(&str, usize, usize)]) -> CandidateInput {
    CandidateInput {
        commit: CommitRecord {
            hash: hash.into(),
            parent_hashes: vec![],
            author_name: "a".into(),
            author_email: "a@b".into(),
            timestamp_utc: "2024-01-01T00:00:00Z".into(),
            message_summary: subject.into(),
            subsystems: vec!["backend".into(), "db".into()],
            files_changed: files
                .iter()
                .map(|(p, a, d)| FileChange { path: p.to_string(), additions: *a, deletions: *d, status: "M".into() })
                .collect(),
            heuristics: HeuristicFlags::default(),
        },
        pr: PrEnrichment::default(),
    }
}

fn summary(purpose: &str, provides: &str) -> FileSummary {
    FileSummary {
        provides: provides.into(),
        externals: vec![],
        purpose: purpose.into(),
        functionalities: vec![],
        notes: String::new(),
    }
}

#[test]
fn vague_trigger_rules() {
    assert!(vague_trigger("fix bug"));
    assert!(vague_trigger("Improve the retry loop so that the scheduler stops spinning (#12)"));
    assert!(vague_trigger("fix: improve the retry loop so that the scheduler stops spinning"));
    assert!(!vague_trigger("fix: improve the retry loop so that the scheduler stops spinning (#12)"));
    assert!(!vague_trigger("  FEAT(api): add pagination to the list endpoint, see PROJ-42  "));
}

#[test]
fn content_hash_is_sixteen_hex_digits_and_deterministic() {
    let a = hash_bytes(b"hello");
    assert_eq!(a.len(), 16);
    assert!(a.chars().all(|c| c.is_ascii_hexdigit() && !c.is_ascii_uppercase()));
    assert_eq!(a, hash_bytes(b"hello"));
    assert_ne!(a, hash_bytes(b"hello!"));
    let k = project_summary_key("/repo", "v1");
    assert_eq!(k.len(), 33);
    assert_eq!(&k[16..17], "-");
    assert_eq!(&k[..16], hash_bytes(b"/repo"));
}

#[test]
fn file_excerpt_caps_characters() {
    let text: String = std::iter::repeat('é').take(8100).collect();
    let e = file_excerpt(text.as_bytes());
    assert_eq!(e.chars().count(), 8000);
    assert_eq!(file_excerpt(b"ab\xffc"), "ab\u{fffd}c");
}

#[test]
fn file_summary_prompt_text() {
    let p = file_summary_prompt("src/a.rs", "fn main() {}");
    assert_eq!(
        p,
        "File: src/a.rs\n\n--- content ---\nfn main() {}\n--- end ---\n\nSummarise: what it provides, what external things it uses, its purpose, the concrete functionalities it implements, and any special notes."
    );
}

#[test]
fn candidate_paths_are_sorted_and_unique() {
    let cs = vec![
        cand("a", "s", &[("src/z.rs", 1, 0), ("src/a.rs", 1, 0)]),
        cand("b", "s", &[("src/a.rs", 1, 0), ("docs/x.md", 1, 0)]),
    ];
    assert_eq!(candidate_file_paths(&cs), vec!["docs/x.md", "src/a.rs", "src/z.rs"]);
    assert!(candidate_file_paths(&[]).is_empty());
}

#[test]
fn commit_prompt_with_summaries_and_expansion() {
    let c = cand("abc", "fix", &[("src/a.rs", 3, 1), ("src/b.rs", 0, 2)]);
    let fs = vec![("src/a.rs".to_string(), summary("parses input", "parser"))];
    let (p, expanded) = commit_summary_prompt(&c, &fs);
    assert!(expanded);
    assert_eq!(
        p,
        "Commit: abc\nSubject: fix\nSubsystems: [\"backend\", \"db\"]\n- src/a.rs (+3 -1)\n    purpose: parses input\n- src/b.rs (+0 -2)\n\nThe commit message is terse. Infer intent from the evidence above.\n"
    );
    let c2 = cand("d", "fix(api): stop retry storms when the upstream times out, INC-42", &[]);
    let (p2, e2) = commit_summary_prompt(&c2, &vec![]);
    assert!(!e2);
    assert!(p2.ends_with("Subsystems: [\"backend\", \"db\"]\n"));
}

#[test]
fn commit_summary_reply_defaults() {
    let s = commit_summary_from_reply(Some((Some("w".into()), None, Some("t".into()))), "", true).unwrap();
    assert_eq!(s.what_changed, "w");
    assert_eq!(s.why, "");
    assert_eq!(s.takeaway, "t");
    assert!(s.expanded);
}

#[test]
fn commit_summary_reply_from_text() {
    let s = commit_summary_from_reply(None, r#"{"what_changed":"w","why":7}"#, false).unwrap();
    assert_eq!(s.what_changed, "w");
    assert_eq!(s.why, "");
    assert_eq!(s.takeaway, "");
    assert!(!s.expanded);
    assert_eq!(
        commit_summary_from_reply(None, "{oops", false).unwrap_err(),
        "unparseable commit summary"
    );
}

#[test]
fn subsystem_prompts_group_by_top_segment() {
    assert_eq!(top_path_segment("src/a/b.rs"), "src");
    assert_eq!(top_path_segment("README.md"), "README.md");
    let fs = vec![
        ("src/a.rs".to_string(), summary("A", "pa")),
        ("docs/x.md".to_string(), summary("X", "px")),
        ("src/b.rs".to_string(), summary("B", "pb")),
    ];
    let ps = subsystem_prompts(&fs);
    assert_eq!(ps.len(), 2);
    assert_eq!(ps[0].0, "src");
    assert_eq!(
        ps[0].1,
        "Subsystem: src\nFiles:\n- purpose: A\n  provides: pa\n- purpose: B\n  provides: pb\n\nIn 2-3 sentences, describe what this subsystem does and its role in the project."
    );
    assert_eq!(ps[1].0, "docs");
}

#[test]
fn subsystem_prompt_caps_files_at_forty() {
    let fs: Vec<(String, FileSummary)> = (0..45).map(|i| (format!("src/f{i}.rs"), summary("p", "q"))).collect();
    let ps = subsystem_prompts(&fs);
    assert_eq!(ps[0].1.matches("- purpose: ").count(), 40);
}

#[test]
fn project_prompt_text() {
    let replies = vec![("src".to_string(), "  Core logic.  \n".to_string())];
    let p = project_prompt(3, &replies);
    assert_eq!(
        p,
        "Project subsystems (3):\n\n## src\nCore logic.\n\nWrite a single short paragraph describing the project as a whole, its architectural shape, and what a new hire should know first."
    );
}

#[test]
fn hash_hex_is_sixteen_padded_digits() {
    assert_eq!(hash_hex(0x1234), "0000000000001234");
    assert_eq!(hash_hex(0), "0000000000000000");
    assert_eq!(hash_hex(u64::MAX), "ffffffffffffffff");
    assert_eq!(hash_hex(0xdead_beef_0000_00a1), "deadbeef000000a1");
    assert_eq!(hash_hex(0x1234), format!("{:016x}", 0x1234u64));
}

#[test]
fn file_summary_reply_sources() {
    let fs = |p: &str| FileSummary {
        provides: p.into(),
        externals: vec![],
        purpose: String::new(),
        functionalities: vec![],
        notes: String::new(),
    };
    let r = file_summary_from_reply(Some(Ok(fs("parsed"))), Some(Ok(fs("text")))).unwrap();
    assert_eq!(r.provides, "parsed");
    let r = file_summary_from_reply(None, Some(Ok(fs("text")))).unwrap();
    assert_eq!(r.provides, "text");
    assert_eq!(
        file_summary_from_reply(Some(Err("missing field `notes`".into())), Some(Ok(fs("text")))).unwrap_err(),
        "bad file summary shape: missing field `notes`"
    );
    assert_eq!(file_summary_from_reply(None, None).unwrap_err(), "unparseable file summary");
}
