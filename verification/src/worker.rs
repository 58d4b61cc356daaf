//! One mining worker's heuristic pre-filter: repeated-fix files, revert
//! linkage and incident references, scoped to that worker's raw commits.
use vstd::prelude::*;

use crate::mining_types::{
    MiningWindow,
    copy_file_changes, file_views, flags_candidate, CommitRecord, CommitRecordView, FileChange,
    FileChangeView, HeuristicFlags, HeuristicFlagsView, SubsystemDef, copy_opt_string, opt_str,
    record_views,
};
use crate::heuristics::{
    extract_incident_refs, extract_reverted_hash, incident_refs_of, is_fix_message,
    is_revert_message, FIX_SUBJECT_PATTERN, REVERT_BODY_PATTERN, REVERT_SUBJECT_PATTERN,
};
use crate::patterns::{opt_view, regex_capture, regex_is_match};
use crate::text::{copy_str, copy_strings, is_prefix, starts_with, strs, trim};

verus! {

/// Threshold at which a file is a "repeated-fix" file: at least this many
/// fix-flavoured commits in the window touch it.
pub const REPEATED_FIX_THRESHOLD: usize = 2;

/// A commit as read from history by one worker, before filtering.
#[derive(Debug)]
pub struct RawCommit {
    pub hash: String,
    pub parent_hashes: Vec<String>,
    pub author_name: String,
    pub author_email: String,
    pub timestamp_utc: String,
    pub subject: String,
    pub full_message: String,
    pub files: Vec<FileChange>,
    pub is_revert: bool,
    pub reverts_hash: Option<String>,
    pub is_fix: bool,
    pub incident_refs: Vec<String>,
}

pub struct RawCommitView {
    pub hash: Seq<char>,
    pub parent_hashes: Seq<Seq<char>>,
    pub author_name: Seq<char>,
    pub author_email: Seq<char>,
    pub timestamp_utc: Seq<char>,
    pub subject: Seq<char>,
    pub full_message: Seq<char>,
    pub files: Seq<FileChangeView>,
    pub is_revert: bool,
    pub reverts_hash: Option<Seq<char>>,
    pub is_fix: bool,
    pub incident_refs: Seq<Seq<char>>,
}

impl View for RawCommit {
    type V = RawCommitView;

    open spec fn view(&self) -> RawCommitView {
        RawCommitView {
            hash: self.hash@,
            parent_hashes: strs(self.parent_hashes@),
            author_name: self.author_name@,
            author_email: self.author_email@,
            timestamp_utc: self.timestamp_utc@,
            subject: self.subject@,
            full_message: self.full_message@,
            files: file_views(self.files@),
            is_revert: self.is_revert,
            reverts_hash: opt_str(self.reverts_hash),
            is_fix: self.is_fix,
            incident_refs: strs(self.incident_refs@),
        }
    }
}

pub open spec fn raw_views(v: Seq<RawCommit>) -> Seq<RawCommitView> {
    v.map_values(|c: RawCommit| c@)
}

/// Some prefix of the subsystem is a prefix of `path`.
pub open spec fn path_in_subsystem(path: Seq<char>, prefixes: Seq<Seq<char>>) -> bool {
    exists|k: int| 0 <= k < prefixes.len() && is_prefix(#[trigger] prefixes[k], path)
}

/// Whether `path` falls under one of the subsystem's path prefixes.
pub fn path_matches_subsystem(path: &str, subsystem: &SubsystemDef) -> (r: bool)
    ensures
        r == path_in_subsystem(path@, subsystem@.path_prefixes),
{
    let mut i: usize = 0;
    while i < subsystem.path_prefixes.len()
        invariant
            i <= subsystem.path_prefixes.len(),
            forall|k: int| 0 <= k < i ==> !is_prefix(#[trigger] subsystem@.path_prefixes[k], path@),
        decreases subsystem.path_prefixes.len() - i,
    {
        if starts_with(path, subsystem.path_prefixes[i].as_str()) {
            assert(subsystem@.path_prefixes[i as int] == subsystem.path_prefixes@[i as int]@);
            return true;
        }
        i += 1;
    }
    false
}

/// Number of entries of `files` whose path is `p`.
pub open spec fn path_count(files: Seq<FileChangeView>, p: Seq<char>) -> nat
    decreases files.len(),
{
    if files.len() == 0 {
        0
    } else {
        path_count(files.drop_last(), p) + (if files.last().path == p { 1nat } else { 0nat })
    }
}

/// How many times fix commits of `raw` touch path `p` (one per file entry).
pub open spec fn fix_count(raw: Seq<RawCommitView>, p: Seq<char>) -> nat
    decreases raw.len(),
{
    if raw.len() == 0 {
        0
    } else {
        fix_count(raw.drop_last(), p) + (if raw.last().is_fix {
            path_count(raw.last().files, p)
        } else {
            0
        })
    }
}

/// The paths of `files` (in order, with repeats) that fix commits touch at
/// least `REPEATED_FIX_THRESHOLD` times.
pub open spec fn hot_paths(raw: Seq<RawCommitView>, files: Seq<FileChangeView>) -> Seq<Seq<char>>
    decreases files.len(),
{
    if files.len() == 0 {
        Seq::empty()
    } else {
        let prev = hot_paths(raw, files.drop_last());
        if fix_count(raw, files.last().path) >= REPEATED_FIX_THRESHOLD {
            prev.push(files.last().path)
        } else {
            prev
        }
    }
}

/// Repeated-fix paths flagged for `c`: only a fix commit itself is flagged.
pub open spec fn repeated_fix_paths(raw: Seq<RawCommitView>, c: RawCommitView) -> Seq<Seq<char>> {
    if c.is_fix {
        hot_paths(raw, c.files)
    } else {
        Seq::empty()
    }
}

/// Some commit of `raw` says it reverts a hash that is a prefix of `c`'s hash
/// or of which `c`'s hash is a prefix (full or abbreviated hashes).
pub open spec fn reverted_in(raw: Seq<RawCommitView>, hash: Seq<char>) -> bool {
    exists|j: int|
        0 <= j < raw.len() && (#[trigger] raw[j]).reverts_hash is Some && (is_prefix(
            raw[j].reverts_hash->0,
            hash,
        ) || is_prefix(hash, raw[j].reverts_hash->0))
}

pub open spec fn flags_for(raw: Seq<RawCommitView>, c: RawCommitView) -> HeuristicFlagsView {
    HeuristicFlagsView {
        is_revert: c.is_revert,
        reverts_commit: c.reverts_hash,
        was_reverted: reverted_in(raw, c.hash),
        touches_repeated_fix_file: repeated_fix_paths(raw, c).len() > 0,
        repeated_fix_file_paths: repeated_fix_paths(raw, c),
        incident_refs: c.incident_refs,
    }
}

pub open spec fn record_for(
    raw: Seq<RawCommitView>,
    c: RawCommitView,
    subsystem: Seq<char>,
) -> CommitRecordView {
    CommitRecordView {
        hash: c.hash,
        parent_hashes: c.parent_hashes,
        author_name: c.author_name,
        author_email: c.author_email,
        timestamp_utc: c.timestamp_utc,
        message_summary: c.subject,
        subsystems: seq![subsystem],
        files_changed: c.files,
        heuristics: flags_for(raw, c),
    }
}

/// The records emitted for the first `k` commits of `raw`, in order: one per
/// commit that passes at least one heuristic.
pub open spec fn candidates_upto(
    raw: Seq<RawCommitView>,
    k: int,
    subsystem: Seq<char>,
) -> Seq<CommitRecordView>
    decreases k,
{
    if k <= 0 {
        Seq::empty()
    } else {
        let prev = candidates_upto(raw, k - 1, subsystem);
        if flags_candidate(flags_for(raw, raw[k - 1])) {
            prev.push(record_for(raw, raw[k - 1], subsystem))
        } else {
            prev
        }
    }
}

proof fn lemma_path_count_step(files: Seq<FileChangeView>, i: int, p: Seq<char>)
    requires
        0 <= i < files.len(),
    ensures
        path_count(files.take(i + 1), p) == path_count(files.take(i), p) + (if files[i].path
            == p {
            1nat
        } else {
            0nat
        }),
{
    assert(files.take(i + 1).drop_last() =~= files.take(i));
}

proof fn lemma_fix_count_step(raw: Seq<RawCommitView>, i: int, p: Seq<char>)
    requires
        0 <= i < raw.len(),
    ensures
        fix_count(raw.take(i + 1), p) == fix_count(raw.take(i), p) + (if raw[i].is_fix {
            path_count(raw[i].files, p)
        } else {
            0
        }),
{
    assert(raw.take(i + 1).drop_last() =~= raw.take(i));
}

/// Number of entries of `files` with path `p`, capped at `cap`.
fn path_count_capped(files: &Vec<FileChange>, p: &String, cap: usize) -> (n: usize)
    ensures
        n <= cap,
        n == cap || n == path_count(file_views(files@), p@),
        n < cap ==> n == path_count(file_views(files@), p@),
        n == cap ==> path_count(file_views(files@), p@) >= cap,
{
    let mut n: usize = 0;
    let mut i: usize = 0;
    while i < files.len()
        invariant
            i <= files.len(),
            n <= cap,
            n < cap ==> n == path_count(file_views(files@).take(i as int), p@),
            n == cap ==> path_count(file_views(files@).take(i as int), p@) >= cap,
        decreases files.len() - i,
    {
        proof {
            lemma_path_count_step(file_views(files@), i as int, p@);
        }
        if files[i].path == *p && n < cap {
            n += 1;
        }
        i += 1;
    }
    assert(file_views(files@).take(files@.len() as int) =~= file_views(files@));
    n
}

/// Whether fix commits of `raw` touch `p` at least `REPEATED_FIX_THRESHOLD` times.
fn is_hot_path(raw: &Vec<RawCommit>, p: &String) -> (r: bool)
    ensures
        r == (fix_count(raw_views(raw@), p@) >= REPEATED_FIX_THRESHOLD),
{
    let mut n: usize = 0;
    let mut i: usize = 0;
    while i < raw.len()
        invariant
            i <= raw.len(),
            n < REPEATED_FIX_THRESHOLD,
            n == fix_count(raw_views(raw@).take(i as int), p@),
        decreases raw.len() - i,
    {
        proof {
            lemma_fix_count_step(raw_views(raw@), i as int, p@);
        }
        if raw[i].is_fix {
            let m = path_count_capped(&raw[i].files, p, REPEATED_FIX_THRESHOLD);
            if n + m >= REPEATED_FIX_THRESHOLD {
                proof {
                    lemma_fix_count_monotone(raw_views(raw@), i + 1, p@);
                }
                return true;
            }
            n = n + m;
        }
        i += 1;
    }
    assert(raw_views(raw@).take(raw@.len() as int) =~= raw_views(raw@));
    false
}

proof fn lemma_fix_count_monotone(raw: Seq<RawCommitView>, k: int, p: Seq<char>)
    requires
        0 <= k <= raw.len(),
    ensures
        fix_count(raw.take(k), p) <= fix_count(raw, p),
    decreases raw.len() - k,
{
    if k < raw.len() {
        lemma_fix_count_monotone(raw, k + 1, p);
        lemma_fix_count_step(raw, k, p);
    } else {
        assert(raw.take(k) =~= raw);
    }
}

fn repeated_fix_files(raw: &Vec<RawCommit>, c: &RawCommit) -> (r: Vec<String>)
    ensures
        strs(r@) == repeated_fix_paths(raw_views(raw@), c@),
{
    let mut r: Vec<String> = Vec::new();
    if !c.is_fix {
        assert(strs(r@) =~= Seq::<Seq<char>>::empty());
        return r;
    }
    let mut i: usize = 0;
    while i < c.files.len()
        invariant
            i <= c.files.len(),
            c.is_fix,
            strs(r@) == hot_paths(raw_views(raw@), file_views(c.files@).take(i as int)),
        decreases c.files.len() - i,
    {
        assert(file_views(c.files@).take(i + 1).drop_last() =~= file_views(c.files@).take(
            i as int,
        ));
        if is_hot_path(raw, &c.files[i].path) {
            r.push(c.files[i].path.clone());
        }
        i += 1;
    }
    assert(file_views(c.files@).take(c.files@.len() as int) =~= file_views(c.files@));
    r
}

fn was_reverted(raw: &Vec<RawCommit>, hash: &String) -> (r: bool)
    ensures
        r == reverted_in(raw_views(raw@), hash@),
{
    let mut i: usize = 0;
    while i < raw.len()
        invariant
            i <= raw.len(),
            forall|j: int|
                0 <= j < i ==> !((#[trigger] raw_views(raw@)[j]).reverts_hash is Some && (
                is_prefix(raw_views(raw@)[j].reverts_hash->0, hash@) || is_prefix(
                    hash@,
                    raw_views(raw@)[j].reverts_hash->0,
                ))),
        decreases raw.len() - i,
    {
        match &raw[i].reverts_hash {
            Some(rh) => {
                if starts_with(hash.as_str(), rh.as_str()) || starts_with(
                    rh.as_str(),
                    hash.as_str(),
                ) {
                    assert(raw_views(raw@)[i as int].reverts_hash->0 == rh@);
                    return true;
                }
            },
            None => {},
        }
        i += 1;
    }
    false
}

/// The flags of one raw commit given its worker's whole raw list.
fn flags_of(raw: &Vec<RawCommit>, c: &RawCommit) -> (f: HeuristicFlags)
    ensures
        f@ == flags_for(raw_views(raw@), c@),
{
    let repeated = repeated_fix_files(raw, c);
    HeuristicFlags {
        is_revert: c.is_revert,
        reverts_commit: copy_opt_string(&c.reverts_hash),
        was_reverted: was_reverted(raw, &c.hash),
        touches_repeated_fix_file: repeated.len() > 0,
        repeated_fix_file_paths: repeated,
        incident_refs: copy_strings(&c.incident_refs),
    }
}

/// Pass 2/3 of the heuristic pre-filter, scoped to one worker's raw commit
/// list: emits, in order, only the commits that pass at least one heuristic
/// (revert linkage, repeated-fix-file membership, or an incident reference),
/// each tagged with the worker's subsystem.
pub fn filter_to_candidates(raw: Vec<RawCommit>, subsystem_name: &str) -> (out: Vec<
    CommitRecord,
>)
    ensures
        record_views(out@) == candidates_upto(raw_views(raw@), raw@.len() as int, subsystem_name@),
{
    let mut out: Vec<CommitRecord> = Vec::new();
    let mut i: usize = 0;
    while i < raw.len()
        invariant
            i <= raw.len(),
            record_views(out@) == candidates_upto(raw_views(raw@), i as int, subsystem_name@),
        decreases raw.len() - i,
    {
        let c = &raw[i];
        let flags = flags_of(&raw, c);
        if flags.is_candidate() {
            let mut subsystems: Vec<String> = Vec::new();
            subsystems.push(subsystem_name.to_owned());
            let rec = CommitRecord {
                hash: c.hash.clone(),
                parent_hashes: copy_strings(&c.parent_hashes),
                author_name: c.author_name.clone(),
                author_email: c.author_email.clone(),
                timestamp_utc: c.timestamp_utc.clone(),
                message_summary: c.subject.clone(),
                subsystems,
                files_changed: copy_file_changes(&c.files),
                heuristics: flags,
            };
            assert(strs(rec.subsystems@) =~= seq![subsystem_name@]);
            assert(rec@ == record_for(raw_views(raw@), raw_views(raw@)[i as int], subsystem_name@));
            out.push(rec);
            assert(record_views(out@) =~= candidates_upto(
                raw_views(raw@),
                i as int,
                subsystem_name@,
            ).push(record_for(raw_views(raw@), raw_views(raw@)[i as int], subsystem_name@)));
        }
        i += 1;
    }
    out
}

// ---------- the history walk ----------

impl RawCommit {
    /// A commit read from history, with its message heuristics applied: the
    /// subject is tested for a revert and for fix wording, the full message
    /// gives the reverted hash and the incident references.
    pub fn from_history(
        hash: String,
        parent_hashes: Vec<String>,
        author_name: String,
        author_email: String,
        timestamp_utc: String,
        subject: String,
        full_message: String,
        files: Vec<FileChange>,
    ) -> (r: RawCommit)
        ensures
            r@.hash == hash@,
            r@.parent_hashes == strs(parent_hashes@),
            r@.author_name == author_name@,
            r@.author_email == author_email@,
            r@.timestamp_utc == timestamp_utc@,
            r@.subject == subject@,
            r@.full_message == full_message@,
            r@.files == file_views(files@),
            r@.is_revert == regex_is_match(REVERT_SUBJECT_PATTERN@, trim(subject@)),
            r@.reverts_hash == regex_capture(REVERT_BODY_PATTERN@, full_message@, 1),
            r@.is_fix == regex_is_match(FIX_SUBJECT_PATTERN@, subject@),
            r@.incident_refs == incident_refs_of(full_message@),
    {
        let is_revert = is_revert_message(subject.as_str());
        let reverts_hash = extract_reverted_hash(full_message.as_str());
        let is_fix = is_fix_message(subject.as_str());
        let incident_refs = extract_incident_refs(full_message.as_str());
        proof {
            assert(opt_str(reverts_hash) == opt_view(reverts_hash));
        }
        RawCommit {
            hash,
            parent_hashes,
            author_name,
            author_email,
            timestamp_utc,
            subject,
            full_message,
            files,
            is_revert,
            reverts_hash,
            is_fix,
            incident_refs,
        }
    }
}

/// The walk stops once a worker holds `max_commits_per_subsystem` commits.
pub fn cap_reached(window: &MiningWindow, collected: usize) -> (r: bool)
    ensures
        r == (window.max_commits_per_subsystem matches Some(cap) && collected >= cap),
{
    match window.max_commits_per_subsystem {
        Some(cap) => collected >= cap,
        None => false,
    }
}

/// The walk (newest first) stops at the first commit older than the cutoff.
pub fn before_cutoff(cutoff_epoch: Option<i64>, commit_time: i64) -> (r: bool)
    ensures
        r == (cutoff_epoch matches Some(c) && commit_time < c),
{
    match cutoff_epoch {
        Some(c) => commit_time < c,
        None => false,
    }
}

/// A commit belongs to a worker when one of its files lies under the
/// subsystem's prefixes.
pub fn touches_subsystem(files: &Vec<FileChange>, subsystem: &SubsystemDef) -> (r: bool)
    ensures
        r == exists|i: int|
            0 <= i < files@.len() && path_in_subsystem(
                (#[trigger] files@[i]).path@,
                subsystem@.path_prefixes,
            ),
{
    let mut i: usize = 0;
    while i < files.len()
        invariant
            i <= files@.len(),
            forall|k: int|
                0 <= k < i ==> !path_in_subsystem(
                    (#[trigger] files@[k]).path@,
                    subsystem@.path_prefixes,
                ),
        decreases files.len() - i,
    {
        if path_matches_subsystem(files[i].path.as_str(), subsystem) {
            return true;
        }
        i += 1;
    }
    false
}

/// What the history walk does next with the current commit.
#[derive(Debug, Clone, Copy, PartialEq, Eq, Structural)]
pub enum WalkAction {
    /// End the walk.
    Stop,
    /// Read the commit's time, then decide again.
    ReadTime,
    /// Read the commit's changed files, then decide again.
    ReadFiles,
    /// Pass over the commit and go on to the next.
    Skip,
    /// Keep the commit and go on to the next.
    Keep,
}

/// The step of the walk (newest first) for one commit, given the commits kept
/// so far, the cutoff time, and what has been read of the commit: stop once
/// the cap is reached or at a commit older than the cutoff; skip a commit that
/// touches none of the subsystem's files; keep the others.
pub open spec fn walk_action_of(
    window: MiningWindow,
    kept: int,
    cutoff_epoch: Option<i64>,
    commit_time: Option<i64>,
    touches: Option<bool>,
) -> WalkAction {
    if window.max_commits_per_subsystem matches Some(cap) && kept >= cap {
        WalkAction::Stop
    } else {
        match commit_time {
            None => WalkAction::ReadTime,
            Some(t) => if cutoff_epoch matches Some(c) && t < c {
                WalkAction::Stop
            } else {
                match touches {
                    None => WalkAction::ReadFiles,
                    Some(false) => WalkAction::Skip,
                    Some(true) => WalkAction::Keep,
                }
            },
        }
    }
}

/// Decides the walk's next move for the current commit; `commit_time` and
/// `touches` are `None` until they have been read. A commit is kept only
/// below the cap, within the window and touching the subsystem, so a walk that
/// adds one commit per `Keep` never holds more than the cap.
pub fn walk_step(
    window: &MiningWindow,
    kept: usize,
    cutoff_epoch: Option<i64>,
    commit_time: Option<i64>,
    touches: Option<bool>,
) -> (r: WalkAction)
    ensures
        r == walk_action_of(*window, kept as int, cutoff_epoch, commit_time, touches),
        r == WalkAction::Keep ==> (window.max_commits_per_subsystem matches Some(cap) ==> kept
            < cap),
        r == WalkAction::Keep ==> touches == Some(true) && commit_time is Some && !(
        cutoff_epoch matches Some(c) && commit_time->0 < c),
{
    if cap_reached(window, kept) {
        return WalkAction::Stop;
    }
    match commit_time {
        None => WalkAction::ReadTime,
        Some(t) => {
            if before_cutoff(cutoff_epoch, t) {
                WalkAction::Stop
            } else {
                match touches {
                    None => WalkAction::ReadFiles,
                    Some(false) => WalkAction::Skip,
                    Some(true) => WalkAction::Keep,
                }
            }
        },
    }
}

/// The kind of change git reports for one file of a diff.
#[derive(Debug, Clone, Copy, PartialEq, Eq, Structural)]
pub enum DeltaKind {
    Added,
    Deleted,
    Modified,
    Renamed,
    Copied,
    Typechange,
    Other,
}

/// The one-letter status of a change kind (`?` for the rest).
pub open spec fn status_letter(kind: DeltaKind) -> Seq<char> {
    match kind {
        DeltaKind::Added => "A"@,
        DeltaKind::Deleted => "D"@,
        DeltaKind::Modified => "M"@,
        DeltaKind::Renamed => "R"@,
        DeltaKind::Copied => "C"@,
        DeltaKind::Typechange => "T"@,
        DeltaKind::Other => "?"@,
    }
}

/// The file change of one diff entry: its path is the new side's, else the
/// old side's; an entry with neither (or an empty one) is skipped. Line counts
/// are zero when git could not compute them.
pub fn file_change_from_delta(
    new_path: Option<String>,
    old_path: Option<String>,
    kind: DeltaKind,
    line_stats: Option<(usize, usize)>,
) -> (r: Option<FileChange>)
    ensures
        ({
            let path = match new_path {
                Some(p) => p@,
                None => match old_path {
                    Some(p) => p@,
                    None => Seq::<char>::empty(),
                },
            };
            if path.len() == 0 {
                r is None
            } else {
                r matches Some(f) && f@.path == path && f@.status == status_letter(kind)
                    && f@.additions == (match line_stats {
                    Some(st) => st.0,
                    None => 0,
                }) && f@.deletions == (match line_stats {
                    Some(st) => st.1,
                    None => 0,
                })
            }
        }),
{
    let path = match new_path {
        Some(p) => p,
        None => match old_path {
            Some(p) => p,
            None => String::new(),
        },
    };
    if path.as_str().is_empty() {
        return None;
    }
    let status = match kind {
        DeltaKind::Added => copy_str("A"),
        DeltaKind::Deleted => copy_str("D"),
        DeltaKind::Modified => copy_str("M"),
        DeltaKind::Renamed => copy_str("R"),
        DeltaKind::Copied => copy_str("C"),
        DeltaKind::Typechange => copy_str("T"),
        DeltaKind::Other => copy_str("?"),
    };
    let (additions, deletions) = match line_stats {
        Some(st) => st,
        None => (0, 0),
    };
    Some(FileChange { path, additions, deletions, status })
}

} // verus!
