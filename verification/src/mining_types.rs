//! Records exchanged by the history-mining stage, with their abstract views.
use vstd::prelude::*;

use crate::text::{copy_strings, strs};

verus! {

/// One subsystem partition: paths are matched by prefix against each commit's
/// changed files to decide which worker claims a commit.
#[derive(Debug)]
pub struct SubsystemDef {
    pub name: String,
    /// Path prefixes (relative to the repository root) belonging to this subsystem.
    pub path_prefixes: Vec<String>,
}

/// Caps the mining window; whichever bound is hit first stops a worker's walk.
#[derive(Debug)]
pub struct MiningWindow {
    pub max_age_days: Option<i64>,
    pub max_commits_per_subsystem: Option<usize>,
}

#[derive(Debug)]
pub struct MiningConfig {
    pub repo_path: String,
    pub subsystems: Vec<SubsystemDef>,
    pub window: MiningWindow,
}

#[derive(Debug)]
pub struct HeuristicFlags {
    pub is_revert: bool,
    /// Hash of the commit this one claims to revert, if parseable from the message.
    pub reverts_commit: Option<String>,
    /// True if this commit was itself later reverted by another commit in the window.
    pub was_reverted: bool,
    /// True if a file this commit touches was touched by at least two fix commits.
    pub touches_repeated_fix_file: bool,
    pub repeated_fix_file_paths: Vec<String>,
    /// Bug/incident references pulled from the commit message, e.g. "INC-1234", "#987".
    pub incident_refs: Vec<String>,
}

#[derive(Debug)]
pub struct FileChange {
    pub path: String,
    pub additions: usize,
    pub deletions: usize,
    /// "A" added, "M" modified, "D" deleted, "R" renamed, etc.
    pub status: String,
}

#[derive(Debug)]
pub struct CommitRecord {
    pub hash: String,
    pub parent_hashes: Vec<String>,
    pub author_name: String,
    pub author_email: String,
    pub timestamp_utc: String,
    pub message_summary: String,
    /// Every subsystem worker that claimed this commit.
    pub subsystems: Vec<String>,
    pub files_changed: Vec<FileChange>,
    pub heuristics: HeuristicFlags,
}

#[derive(Debug)]
pub struct MiningOutput {
    pub repo_path: String,
    pub generated_at_utc: String,
    pub window: MiningWindow,
    pub subsystems_scanned: Vec<String>,
    pub total_commits_scanned: usize,
    pub candidate_count: usize,
    /// Deduped, merged candidate commits.
    pub commits: Vec<CommitRecord>,
}

// ---------- abstract views ----------

pub struct SubsystemDefView {
    pub name: Seq<char>,
    pub path_prefixes: Seq<Seq<char>>,
}

pub struct HeuristicFlagsView {
    pub is_revert: bool,
    pub reverts_commit: Option<Seq<char>>,
    pub was_reverted: bool,
    pub touches_repeated_fix_file: bool,
    pub repeated_fix_file_paths: Seq<Seq<char>>,
    pub incident_refs: Seq<Seq<char>>,
}

pub struct FileChangeView {
    pub path: Seq<char>,
    pub additions: usize,
    pub deletions: usize,
    pub status: Seq<char>,
}

pub struct CommitRecordView {
    pub hash: Seq<char>,
    pub parent_hashes: Seq<Seq<char>>,
    pub author_name: Seq<char>,
    pub author_email: Seq<char>,
    pub timestamp_utc: Seq<char>,
    pub message_summary: Seq<char>,
    pub subsystems: Seq<Seq<char>>,
    pub files_changed: Seq<FileChangeView>,
    pub heuristics: HeuristicFlagsView,
}

pub open spec fn opt_str(o: Option<String>) -> Option<Seq<char>> {
    match o {
        Some(s) => Some(s@),
        None => None,
    }
}

impl View for SubsystemDef {
    type V = SubsystemDefView;

    open spec fn view(&self) -> SubsystemDefView {
        SubsystemDefView { name: self.name@, path_prefixes: strs(self.path_prefixes@) }
    }
}

impl View for HeuristicFlags {
    type V = HeuristicFlagsView;

    open spec fn view(&self) -> HeuristicFlagsView {
        HeuristicFlagsView {
            is_revert: self.is_revert,
            reverts_commit: opt_str(self.reverts_commit),
            was_reverted: self.was_reverted,
            touches_repeated_fix_file: self.touches_repeated_fix_file,
            repeated_fix_file_paths: strs(self.repeated_fix_file_paths@),
            incident_refs: strs(self.incident_refs@),
        }
    }
}

impl View for FileChange {
    type V = FileChangeView;

    open spec fn view(&self) -> FileChangeView {
        FileChangeView {
            path: self.path@,
            additions: self.additions,
            deletions: self.deletions,
            status: self.status@,
        }
    }
}

pub open spec fn file_views(v: Seq<FileChange>) -> Seq<FileChangeView> {
    v.map_values(|f: FileChange| f@)
}

pub open spec fn subsystem_views(v: Seq<SubsystemDef>) -> Seq<SubsystemDefView> {
    v.map_values(|s: SubsystemDef| s@)
}

impl View for CommitRecord {
    type V = CommitRecordView;

    open spec fn view(&self) -> CommitRecordView {
        CommitRecordView {
            hash: self.hash@,
            parent_hashes: strs(self.parent_hashes@),
            author_name: self.author_name@,
            author_email: self.author_email@,
            timestamp_utc: self.timestamp_utc@,
            message_summary: self.message_summary@,
            subsystems: strs(self.subsystems@),
            files_changed: file_views(self.files_changed@),
            heuristics: self.heuristics@,
        }
    }
}

pub open spec fn record_views(v: Seq<CommitRecord>) -> Seq<CommitRecordView> {
    v.map_values(|c: CommitRecord| c@)
}

// ---------- set-like list union ----------

/// `acc` followed by each element of `rest` that is not already present,
/// checked against the list as it grows (so `rest`'s own repeats are dropped).
pub open spec fn append_new(acc: Seq<Seq<char>>, rest: Seq<Seq<char>>) -> Seq<Seq<char>>
    decreases rest.len(),
{
    if rest.len() == 0 {
        acc
    } else {
        let prev = append_new(acc, rest.drop_last());
        if prev.contains(rest.last()) {
            prev
        } else {
            prev.push(rest.last())
        }
    }
}

/// Whether `v` holds a string equal to `s`.
pub fn contains_string(v: &Vec<String>, s: &String) -> (r: bool)
    ensures
        r == strs(v@).contains(s@),
{
    let mut i: usize = 0;
    while i < v.len()
        invariant
            i <= v.len(),
            forall|k: int| 0 <= k < i ==> v@[k]@ != s@,
        decreases v.len() - i,
    {
        if v[i] == *s {
            assert(strs(v@)[i as int] == s@);
            return true;
        }
        i += 1;
    }
    assert forall|k: int| 0 <= k < strs(v@).len() implies strs(v@)[k] != s@ by {}
    false
}

/// Appends to `acc` every string of `rest` it does not yet hold.
pub fn extend_unique(acc: &mut Vec<String>, rest: &Vec<String>)
    ensures
        strs(final(acc)@) == append_new(strs(old(acc)@), strs(rest@)),
{
    let ghost acc0 = strs(acc@);
    let mut i: usize = 0;
    while i < rest.len()
        invariant
            i <= rest.len(),
            strs(acc@) == append_new(acc0, strs(rest@.take(i as int))),
        decreases rest.len() - i,
    {
        let ghost prev = strs(acc@);
        assert(strs(rest@.take(i + 1)).drop_last() =~= strs(rest@.take(i as int)));
        assert(strs(rest@.take(i + 1)).last() == rest@[i as int]@);
        if !contains_string(acc, &rest[i]) {
            acc.push(rest[i].clone());
            assert(strs(acc@) =~= prev.push(rest@[i as int]@));
        }
        i += 1;
    }
    assert(rest@.take(rest@.len() as int) =~= rest@);
}

// ---------- HeuristicFlags ----------

/// The flag set for one commit seen by several workers: booleans or-ed, the
/// reverted hash taken from the first set when present, lists unioned.
pub open spec fn merged_flags(a: HeuristicFlagsView, b: HeuristicFlagsView) -> HeuristicFlagsView {
    HeuristicFlagsView {
        is_revert: a.is_revert || b.is_revert,
        reverts_commit: if a.reverts_commit is Some {
            a.reverts_commit
        } else {
            b.reverts_commit
        },
        was_reverted: a.was_reverted || b.was_reverted,
        touches_repeated_fix_file: a.touches_repeated_fix_file || b.touches_repeated_fix_file,
        repeated_fix_file_paths: append_new(a.repeated_fix_file_paths, b.repeated_fix_file_paths),
        incident_refs: append_new(a.incident_refs, b.incident_refs),
    }
}

/// A commit passes the heuristic pre-filter when at least one heuristic fired.
pub open spec fn flags_candidate(f: HeuristicFlagsView) -> bool {
    f.is_revert || f.was_reverted || f.touches_repeated_fix_file || f.incident_refs.len() > 0
}

/// The flag set with no heuristic fired.
pub open spec fn empty_flags() -> HeuristicFlagsView {
    HeuristicFlagsView {
        is_revert: false,
        reverts_commit: None,
        was_reverted: false,
        touches_repeated_fix_file: false,
        repeated_fix_file_paths: Seq::empty(),
        incident_refs: Seq::empty(),
    }
}

pub fn copy_opt_string(o: &Option<String>) -> (r: Option<String>)
    ensures
        opt_str(r) == opt_str(*o),
{
    match o {
        Some(s) => Some(s.clone()),
        None => None,
    }
}

impl HeuristicFlags {
    /// Union two flag sets for the same commit hash seen by different subsystem workers.
    pub fn merge(self, other: HeuristicFlags) -> (r: HeuristicFlags)
        ensures
            r@ == merged_flags(self@, other@),
    {
        let mut paths = self.repeated_fix_file_paths;
        extend_unique(&mut paths, &other.repeated_fix_file_paths);
        let mut refs = self.incident_refs;
        extend_unique(&mut refs, &other.incident_refs);
        let reverts_commit = match self.reverts_commit {
            Some(h) => Some(h),
            None => other.reverts_commit,
        };
        HeuristicFlags {
            is_revert: self.is_revert || other.is_revert,
            reverts_commit,
            was_reverted: self.was_reverted || other.was_reverted,
            touches_repeated_fix_file: self.touches_repeated_fix_file
                || other.touches_repeated_fix_file,
            repeated_fix_file_paths: paths,
            incident_refs: refs,
        }
    }

    pub fn is_candidate(&self) -> (r: bool)
        ensures
            r == flags_candidate(self@),
    {
        self.is_revert || self.was_reverted || self.touches_repeated_fix_file
            || self.incident_refs.len() > 0
    }

    /// A copy of these flags.
    pub fn copy(&self) -> (r: HeuristicFlags)
        ensures
            r@ == self@,
    {
        HeuristicFlags {
            is_revert: self.is_revert,
            reverts_commit: copy_opt_string(&self.reverts_commit),
            was_reverted: self.was_reverted,
            touches_repeated_fix_file: self.touches_repeated_fix_file,
            repeated_fix_file_paths: copy_strings(&self.repeated_fix_file_paths),
            incident_refs: copy_strings(&self.incident_refs),
        }
    }
}

impl Default for HeuristicFlags {
    fn default() -> (r: HeuristicFlags)
        ensures
            r@ == empty_flags(),
    {
        let r = HeuristicFlags {
            is_revert: false,
            reverts_commit: None,
            was_reverted: false,
            touches_repeated_fix_file: false,
            repeated_fix_file_paths: Vec::new(),
            incident_refs: Vec::new(),
        };
        assert(r@.repeated_fix_file_paths =~= Seq::<Seq<char>>::empty());
        assert(r@.incident_refs =~= Seq::<Seq<char>>::empty());
        r
    }
}

impl FileChange {
    /// A copy of this file change.
    pub fn copy(&self) -> (r: FileChange)
        ensures
            r@ == self@,
    {
        FileChange {
            path: self.path.clone(),
            additions: self.additions,
            deletions: self.deletions,
            status: self.status.clone(),
        }
    }
}

/// A copy of every file change of `v`.
pub fn copy_file_changes(v: &Vec<FileChange>) -> (r: Vec<FileChange>)
    ensures
        file_views(r@) == file_views(v@),
{
    let mut r: Vec<FileChange> = Vec::new();
    let mut i: usize = 0;
    while i < v.len()
        invariant
            i <= v.len(),
            file_views(r@) == file_views(v@.take(i as int)),
        decreases v.len() - i,
    {
        r.push(v[i].copy());
        assert(file_views(v@.take(i + 1)) =~= file_views(v@.take(i as int)).push(v@[i as int]@));
        assert(file_views(r@) =~= file_views(v@.take(i as int)).push(v@[i as int]@));
        i += 1;
    }
    assert(v@.take(v@.len() as int) =~= v@);
    r
}

impl CommitRecord {
    /// A copy of this record.
    pub fn copy(&self) -> (r: CommitRecord)
        ensures
            r@ == self@,
    {
        CommitRecord {
            hash: self.hash.clone(),
            parent_hashes: copy_strings(&self.parent_hashes),
            author_name: self.author_name.clone(),
            author_email: self.author_email.clone(),
            timestamp_utc: self.timestamp_utc.clone(),
            message_summary: self.message_summary.clone(),
            subsystems: copy_strings(&self.subsystems),
            files_changed: copy_file_changes(&self.files_changed),
            heuristics: self.heuristics.copy(),
        }
    }
}

impl SubsystemDef {
    /// A copy of this definition.
    pub fn copy(&self) -> (r: SubsystemDef)
        ensures
            r@ == self@,
    {
        SubsystemDef { name: self.name.clone(), path_prefixes: copy_strings(&self.path_prefixes) }
    }
}

impl MiningWindow {
    /// A copy of this window.
    pub fn copy(&self) -> (r: MiningWindow)
        ensures
            r == *self,
    {
        MiningWindow {
            max_age_days: self.max_age_days,
            max_commits_per_subsystem: self.max_commits_per_subsystem,
        }
    }
}

// ---------- laws of the flag union ----------

pub proof fn lemma_append_new_contains(acc: Seq<Seq<char>>, rest: Seq<Seq<char>>, x: Seq<char>)
    ensures
        append_new(acc, rest).contains(x) <==> (acc.contains(x) || rest.contains(x)),
    decreases rest.len(),
{
    if rest.len() > 0 {
        lemma_append_new_contains(acc, rest.drop_last(), x);
        let prev = append_new(acc, rest.drop_last());
        if rest.drop_last().contains(x) {
            let k = choose|k: int| 0 <= k < rest.drop_last().len() && rest.drop_last()[k] == x;
            assert(rest[k] == x);
        }
        if rest.contains(x) && !rest.drop_last().contains(x) {
            let k = choose|k: int| 0 <= k < rest.len() && rest[k] == x;
            if k < rest.len() - 1 {
                assert(rest.drop_last()[k] == x);
            }
            assert(x == rest.last());
        }
        if !prev.contains(rest.last()) {
            let p2 = prev.push(rest.last());
            assert(p2[p2.len() - 1] == rest.last());
            if prev.contains(x) {
                let k = choose|k: int| 0 <= k < prev.len() && prev[k] == x;
                assert(p2[k] == x);
            }
            if p2.contains(x) && x != rest.last() {
                let k = choose|k: int| 0 <= k < p2.len() && p2[k] == x;
                assert(prev[k] == x);
            }
        }
    }
}

proof fn lemma_append_new_len(acc: Seq<Seq<char>>, rest: Seq<Seq<char>>)
    ensures
        append_new(acc, rest).len() >= acc.len(),
        append_new(acc, rest).len() == 0 <==> (acc.len() == 0 && rest.len() == 0),
    decreases rest.len(),
{
    if rest.len() > 0 {
        lemma_append_new_len(acc, rest.drop_last());
        lemma_append_new_contains(acc, rest.drop_last(), rest.last());
    }
}

proof fn lemma_append_new_absorbed(acc: Seq<Seq<char>>, rest: Seq<Seq<char>>)
    requires
        forall|k: int| 0 <= k < rest.len() ==> acc.contains(#[trigger] rest[k]),
    ensures
        append_new(acc, rest) == acc,
    decreases rest.len(),
{
    if rest.len() > 0 {
        lemma_append_new_absorbed(acc, rest.drop_last());
        assert(acc.contains(rest[rest.len() - 1]));
    }
}

proof fn lemma_append_new_from_empty(rest: Seq<Seq<char>>)
    requires
        rest.no_duplicates(),
    ensures
        append_new(Seq::empty(), rest) == rest,
    decreases rest.len(),
{
    if rest.len() > 0 {
        let r = rest.drop_last();
        assert(r.no_duplicates());
        lemma_append_new_from_empty(r);
        if r.contains(rest.last()) {
            let k = choose|k: int| 0 <= k < r.len() && r[k] == rest.last();
            assert(rest[k] == rest[rest.len() - 1]);
        }
        assert(r.push(rest.last()) =~= rest);
    }
}

/// Merging flag sets is a union: the merged set passes the pre-filter exactly
/// when one of the two did, and each merged list holds exactly the strings
/// that occur in either input list.
pub proof fn law_merge_is_union(a: HeuristicFlagsView, b: HeuristicFlagsView)
    ensures
        flags_candidate(merged_flags(a, b)) == (flags_candidate(a) || flags_candidate(b)),
        forall|x: Seq<char>|
            #![trigger merged_flags(a, b).incident_refs.contains(x)]
            merged_flags(a, b).incident_refs.contains(x) <==> (a.incident_refs.contains(x)
                || b.incident_refs.contains(x)),
        forall|x: Seq<char>|
            #![trigger merged_flags(a, b).repeated_fix_file_paths.contains(x)]
            merged_flags(a, b).repeated_fix_file_paths.contains(x) <==> (
            a.repeated_fix_file_paths.contains(x) || b.repeated_fix_file_paths.contains(x)),
{
    lemma_append_new_len(a.incident_refs, b.incident_refs);
    assert forall|x: Seq<char>|
        merged_flags(a, b).incident_refs.contains(x) <==> (a.incident_refs.contains(x)
            || b.incident_refs.contains(x)) by {
        lemma_append_new_contains(a.incident_refs, b.incident_refs, x);
    }
    assert forall|x: Seq<char>|
        merged_flags(a, b).repeated_fix_file_paths.contains(x) <==> (
        a.repeated_fix_file_paths.contains(x) || b.repeated_fix_file_paths.contains(x)) by {
        lemma_append_new_contains(a.repeated_fix_file_paths, b.repeated_fix_file_paths, x);
    }
}

/// Merging with the empty flag set changes nothing, on either side (on the
/// left provided the other set's lists hold no repeats).
pub proof fn law_merge_identity(a: HeuristicFlagsView)
    ensures
        merged_flags(a, empty_flags()) == a,
        a.repeated_fix_file_paths.no_duplicates() && a.incident_refs.no_duplicates()
            ==> merged_flags(empty_flags(), a) == a,
{
    if a.repeated_fix_file_paths.no_duplicates() && a.incident_refs.no_duplicates() {
        lemma_append_new_from_empty(a.repeated_fix_file_paths);
        lemma_append_new_from_empty(a.incident_refs);
    }
}

/// Merging a flag set with itself gives it back.
pub proof fn law_merge_idempotent(a: HeuristicFlagsView)
    ensures
        merged_flags(a, a) == a,
{
    lemma_append_new_absorbed(a.repeated_fix_file_paths, a.repeated_fix_file_paths);
    lemma_append_new_absorbed(a.incident_refs, a.incident_refs);
}

} // verus!
