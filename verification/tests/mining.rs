use gitlens::discovery::{discover_subsystems_from_entries, EntryKind, TreeEntry};
use gitlens::extraction::{merge_worker_outputs, WorkerOutput};
use gitlens::mining_types::{CommitRecord, FileChange, HeuristicFlags, MiningConfig, MiningWindow, SubsystemDef};
use gitlens::worker::{walk_step, WalkAction};

fn entry(name: &str, kind: EntryKind) -> TreeEntry {
    TreeEntry { name: Some(name.to_string()), kind }
}

#[test]
fn discovers_top_level_dirs_and_groups_root_files() {
    let entries = vec![
        entry("Cargo.toml", EntryKind::Blob),
        entry("README.md", EntryKind::Blob),
        entry("backend", EntryKind::Tree),
        entry("frontend", EntryKind::Tree),
        entry("node_modules", EntryKind::Tree),
    ];
    let subsystems = discover_subsystems_from_entries(&entries);
    let names: Vec<&str> = subsystems.iter().map(|s| s.name.as_str()).collect();
    assert!(names.contains(&"frontend"));
    assert!(names.contains(&"backend"));
    assert!(!names.contains(&"node_modules"), "ignored dirs must not be surfaced");
    let frontend = subsystems.iter().find(|s| s.name == "frontend").unwrap();
    assert_eq!(frontend.path_prefixes, vec!["frontend/".to_string()]);
    let root = subsystems
        .iter()
        .find(|s| s.name == "root")
        .expect("root-level files should be grouped into a root subsystem");
    assert!(root.path_prefixes.contains(&"README.md".to_string()));
    assert!(root.path_prefixes.contains(&"Cargo.toml".to_string()));
}

#[test]
fn skips_dotdirs_and_empty_repo_yields_no_subsystems() {
    let entries = vec![entry(".github", EntryKind::Tree)];
    let subsystems = discover_subsystems_from_entries(&entries);
    assert!(subsystems.iter().all(|s| s.name != ".github"), "dotdirs must be skipped");
    assert!(subsystems.is_empty());
}

#[test]
fn discovery_sorts_by_name_and_skips_unnamed_and_other_entries() {
    let entries = vec![
        entry("zeta", EntryKind::Tree),
        entry("b.txt", EntryKind::Blob),
        entry("a.txt", EntryKind::Blob),
        entry(".env", EntryKind::Blob),
        entry("alpha", EntryKind::Tree),
        entry("sub", EntryKind::Other),
        TreeEntry { name: None, kind: EntryKind::Tree },
        entry("target", EntryKind::Tree),
    ];
    let s = discover_subsystems_from_entries(&entries);
    let names: Vec<&str> = s.iter().map(|x| x.name.as_str()).collect();
    assert_eq!(names, vec!["alpha", "root", "zeta"]);
    assert_eq!(s[1].path_prefixes, vec!["a.txt", "b.txt"]);
}

fn record(hash: &str, ts: &str, subsystem: &str, files: &[&str], flags: HeuristicFlags) -> CommitRecord {
    CommitRecord {
        hash: hash.into(),
        parent_hashes: vec![],
        author_name: "a".into(),
        author_email: "a@b".into(),
        timestamp_utc: ts.into(),
        message_summary: "m".into(),
        subsystems: vec![subsystem.to_string()],
        files_changed: files
            .iter()
            .map(|p| FileChange { path: p.to_string(), additions: 1, deletions: 1, status: "M".into() })
            .collect(),
        heuristics: flags,
    }
}

fn config() -> MiningConfig {
    MiningConfig {
        repo_path: "/repo".into(),
        subsystems: vec![SubsystemDef { name: "backend".into(), path_prefixes: vec!["backend/".into()] }],
        window: MiningWindow { max_age_days: Some(30), max_commits_per_subsystem: None },
    }
}

#[test]
fn merge_dedupes_by_hash_and_sorts_newest_first() {
    let a_flags = HeuristicFlags { is_revert: true, ..HeuristicFlags::default() };
    let b_flags = HeuristicFlags { incident_refs: vec!["#2".into()], ..HeuristicFlags::default() };
    let w1 = WorkerOutput {
        subsystem_name: "backend".into(),
        candidates: vec![
            record("x1", "2024-01-01T00:00:00Z", "backend", &["backend/a.rs"], a_flags),
            record("x2", "2024-03-01T00:00:00Z", "backend", &["backend/b.rs"], HeuristicFlags::default()),
        ],
        scanned: 5,
    };
    let w2 = WorkerOutput {
        subsystem_name: "frontend".into(),
        candidates: vec![record("x1", "2024-01-01T00:00:00Z", "frontend", &["frontend/a.js", "backend/a.rs"], b_flags)],
        scanned: 3,
    };
    let out = merge_worker_outputs(&config(), vec![Ok(w1), Ok(w2)], "2024-05-05T00:00:00+00:00".into()).unwrap();
    assert_eq!(out.total_commits_scanned, 8);
    assert_eq!(out.subsystems_scanned, vec!["backend", "frontend"]);
    assert_eq!(out.candidate_count, 2);
    let hashes: Vec<&str> = out.commits.iter().map(|c| c.hash.as_str()).collect();
    assert_eq!(hashes, vec!["x2", "x1"]);
    let x1 = &out.commits[1];
    assert_eq!(x1.subsystems, vec!["backend", "frontend"]);
    let paths: Vec<&str> = x1.files_changed.iter().map(|f| f.path.as_str()).collect();
    assert_eq!(paths, vec!["backend/a.rs", "frontend/a.js"]);
    assert!(x1.heuristics.is_revert);
    assert_eq!(x1.heuristics.incident_refs, vec!["#2"]);
    assert_eq!(out.repo_path, "/repo");
    assert_eq!(out.generated_at_utc, "2024-05-05T00:00:00+00:00");
}

#[test]
fn merge_reports_first_worker_error() {
    let w = WorkerOutput { subsystem_name: "a".into(), candidates: vec![], scanned: 1 };
    let r = merge_worker_outputs(
        &config(),
        vec![Ok(w), Err("open repo: boom".to_string()), Err("second".to_string())],
        "t".into(),
    );
    assert_eq!(r.unwrap_err(), "open repo: boom");
}

#[test]
fn walk_step_decides_each_commit() {
    let w = MiningWindow { max_age_days: Some(30), max_commits_per_subsystem: Some(2) };
    assert_eq!(walk_step(&w, 2, Some(100), None, None), WalkAction::Stop);
    assert_eq!(walk_step(&w, 1, Some(100), None, None), WalkAction::ReadTime);
    assert_eq!(walk_step(&w, 1, Some(100), Some(99), None), WalkAction::Stop);
    assert_eq!(walk_step(&w, 1, Some(100), Some(100), None), WalkAction::ReadFiles);
    assert_eq!(walk_step(&w, 1, Some(100), Some(150), Some(false)), WalkAction::Skip);
    assert_eq!(walk_step(&w, 1, Some(100), Some(150), Some(true)), WalkAction::Keep);
    let open = MiningWindow { max_age_days: None, max_commits_per_subsystem: None };
    assert_eq!(walk_step(&open, 1_000_000, None, Some(i64::MIN), Some(true)), WalkAction::Keep);
}

#[test]
fn walk_keeps_at_most_the_cap() {
    let w = MiningWindow { max_age_days: None, max_commits_per_subsystem: Some(3) };
    let mut kept = 0usize;
    for _ in 0..10 {
        if walk_step(&w, kept, None, None, None) == WalkAction::Stop {
            break;
        }
        if walk_step(&w, kept, None, Some(0), Some(true)) == WalkAction::Keep {
            kept += 1;
        }
    }
    assert_eq!(kept, 3);
}
