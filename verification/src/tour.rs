//! Tour narration: stop stubs joined from the ranking and mining outputs,
//! narration prompts, response checks, retry schedule and cache keys.
use vstd::prelude::*;
use vstd::string::StringSliceAdditionalSpecFns;

use crate::digest::{
    hex_encode, hex_of, is_lower_hex, lemma_hex_chars, lemma_hex_injective, lemma_hex_len, sha256,
    sha256_of,
};
use crate::patterns::{json_str_member, json_str_member_of, opt_view};
use crate::mining_types::{
    file_views, record_views, CommitRecord, CommitRecordView, FileChange, FileChangeView,
    HeuristicFlags, HeuristicFlagsView, MiningOutput, MiningWindow,
};
use crate::ranking_types::{ranked_views, RankedCandidate, RankedCandidateView, RankingOutput};
use crate::text::{
    copy_str, copy_strings, dec, dec_int, i64_to_string, join, join_strings, push_str, strs,
    u64_to_string,
};

verus! {

broadcast use vstd::string::group_string_axioms;

/// Why a commit was selected as a stop.
#[derive(Debug, Clone, Copy, PartialEq, Eq, Structural)]
pub enum TriggerKind {
    Revert,
    WasReverted,
    RepeatedFix,
    IncidentLinked,
    ArchitectureShaping,
}

/// Narration settings (the sampling temperature lives with the model call).
#[derive(Debug)]
pub struct TourConfig {
    pub fetch_linked_documents: bool,
    pub github_token: Option<String>,
    pub repo_slug: Option<String>,
    pub jira_token: Option<String>,
    pub jira_base_url: Option<String>,
    pub narration_prompt_version: String,
    pub model_id: String,
    pub max_narration_tokens: u32,
}

impl Default for TourConfig {
    fn default() -> (r: TourConfig)
        ensures
            !r.fetch_linked_documents,
            r.github_token is None,
            r.repo_slug is None,
            r.jira_token is None,
            r.jira_base_url is None,
            r.narration_prompt_version@ == "v1"@,
            r.model_id@ == "gemini-1.5-pro"@,
            r.max_narration_tokens == 1024,
    {
        TourConfig {
            fetch_linked_documents: false,
            github_token: None,
            repo_slug: None,
            jira_token: None,
            jira_base_url: None,
            narration_prompt_version: copy_str("v1"),
            model_id: copy_str("gemini-1.5-pro"),
            max_narration_tokens: 1024,
        }
    }
}

/// A tour stop before narration.
#[derive(Debug)]
pub struct StopStub {
    pub sequence: usize,
    pub commit_hash: String,
    pub timestamp_utc: String,
    pub message_summary: String,
    pub subsystem: String,
    pub subsystems: Vec<String>,
    pub files_changed: Vec<String>,
    pub triggered_by: Vec<TriggerKind>,
    pub selection_rationale: String,
    pub evidence_summary: String,
    pub linked_document: Option<String>,
}

/// A narrated tour stop.
#[derive(Debug)]
pub struct TourStop {
    pub sequence: usize,
    pub commit_hash: String,
    pub timestamp_utc: String,
    pub title: String,
    pub narration: String,
    pub subsystem: String,
    pub subsystems: Vec<String>,
    pub files_changed: Vec<String>,
    pub triggered_by: Vec<TriggerKind>,
    pub selection_rationale: String,
    pub linked_document: Option<String>,
}

pub struct StopStubView {
    pub sequence: usize,
    pub commit_hash: Seq<char>,
    pub timestamp_utc: Seq<char>,
    pub message_summary: Seq<char>,
    pub subsystem: Seq<char>,
    pub subsystems: Seq<Seq<char>>,
    pub files_changed: Seq<Seq<char>>,
    pub triggered_by: Seq<TriggerKind>,
    pub selection_rationale: Seq<char>,
    pub evidence_summary: Seq<char>,
    pub linked_document: Option<Seq<char>>,
}

impl View for StopStub {
    type V = StopStubView;

    open spec fn view(&self) -> StopStubView {
        StopStubView {
            sequence: self.sequence,
            commit_hash: self.commit_hash@,
            timestamp_utc: self.timestamp_utc@,
            message_summary: self.message_summary@,
            subsystem: self.subsystem@,
            subsystems: strs(self.subsystems@),
            files_changed: strs(self.files_changed@),
            triggered_by: self.triggered_by@,
            selection_rationale: self.selection_rationale@,
            evidence_summary: self.evidence_summary@,
            linked_document: crate::mining_types::opt_str(self.linked_document),
        }
    }
}

pub struct TourStopView {
    pub sequence: usize,
    pub commit_hash: Seq<char>,
    pub timestamp_utc: Seq<char>,
    pub title: Seq<char>,
    pub narration: Seq<char>,
    pub subsystem: Seq<char>,
    pub subsystems: Seq<Seq<char>>,
    pub files_changed: Seq<Seq<char>>,
    pub triggered_by: Seq<TriggerKind>,
    pub selection_rationale: Seq<char>,
    pub linked_document: Option<Seq<char>>,
}

impl View for TourStop {
    type V = TourStopView;

    open spec fn view(&self) -> TourStopView {
        TourStopView {
            sequence: self.sequence,
            commit_hash: self.commit_hash@,
            timestamp_utc: self.timestamp_utc@,
            title: self.title@,
            narration: self.narration@,
            subsystem: self.subsystem@,
            subsystems: strs(self.subsystems@),
            files_changed: strs(self.files_changed@),
            triggered_by: self.triggered_by@,
            selection_rationale: self.selection_rationale@,
            linked_document: crate::mining_types::opt_str(self.linked_document),
        }
    }
}

// ---------- whole-tour cache key ----------

/// JSON text of an optional signed integer, as `serde_json` writes it.
pub open spec fn json_opt_int(o: Option<int>) -> Seq<char> {
    match o {
        Some(n) => dec_int(n),
        None => "null"@,
    }
}

/// JSON text of a mining window, as `serde_json::to_string` writes it.
pub open spec fn window_json(w: MiningWindow) -> Seq<char> {
    "{\"max_age_days\":"@ + json_opt_int(
        match w.max_age_days {
            Some(n) => Some(n as int),
            None => None,
        },
    ) + ",\"max_commits_per_subsystem\":"@ + json_opt_int(
        match w.max_commits_per_subsystem {
            Some(n) => Some(n as int),
            None => None,
        },
    ) + "}"@
}

/// `{repo_path}|{head_hash}|{window_json}|{narration_prompt_version}`.
pub open spec fn tour_key_input(
    repo_path: Seq<char>,
    head_hash: Seq<char>,
    window: MiningWindow,
    version: Seq<char>,
) -> Seq<char> {
    repo_path + "|"@ + head_hash + "|"@ + window_json(window) + "|"@ + version
}

/// Serialises a mining window to JSON.
pub fn window_to_json(w: &MiningWindow) -> (r: String)
    ensures
        r@ == window_json(*w),
{
    let mut r = copy_str("{\"max_age_days\":");
    match w.max_age_days {
        Some(n) => {
            let d = i64_to_string(n);
            push_str(&mut r, d.as_str());
        },
        None => push_str(&mut r, "null"),
    }
    push_str(&mut r, ",\"max_commits_per_subsystem\":");
    match w.max_commits_per_subsystem {
        Some(n) => {
            let d = u64_to_string(n as u64);
            push_str(&mut r, d.as_str());
            assert(dec_int(n as int) == dec(n as u64 as nat));
        },
        None => push_str(&mut r, "null"),
    }
    push_str(&mut r, "}");
    r
}

/// The bytes the whole-tour cache key hashes: the UTF-8 encoding of
/// `"{repo_path}|{head_hash}|{window_json}|{narration_prompt_version}"`.
pub open spec fn tour_key_bytes(
    repo_path: Seq<char>,
    head_hash: Seq<char>,
    window: MiningWindow,
    version: Seq<char>,
) -> Seq<u8> {
    vstd::utf8::encode_utf8(tour_key_input(repo_path, head_hash, window, version))
}

/// Stable cache key for a whole-tour run: the lowercase hex SHA-256 of
/// `"{repo_path}|{head_hash}|{window_json}|{narration_prompt_version}"`,
/// 64 hex digits long.
pub fn tour_cache_key(
    repo_path: &str,
    head_hash: &str,
    window: &MiningWindow,
    narration_prompt_version: &str,
) -> (r: String)
    ensures
        r@ == hex_of(
            sha256_of(tour_key_bytes(repo_path@, head_hash@, *window, narration_prompt_version@)),
        ),
        r@.len() == 64,
        forall|i: int| 0 <= i < r@.len() ==> is_lower_hex(#[trigger] r@[i]),
{
    let wj = window_to_json(window);
    let mut raw = copy_str(repo_path);
    push_str(&mut raw, "|");
    push_str(&mut raw, head_hash);
    push_str(&mut raw, "|");
    push_str(&mut raw, wj.as_str());
    push_str(&mut raw, "|");
    push_str(&mut raw, narration_prompt_version);
    let digest = sha256(raw.as_str().as_bytes());
    proof {
        lemma_hex_len(digest@);
        lemma_hex_chars(digest@);
    }
    hex_encode(digest.as_slice())
}

/// Changing only the head hash, or only the narration prompt version, changes
/// the bytes that the whole-tour cache key hashes; and two keys are equal only
/// when the digests of their bytes are: distinct inputs get distinct keys
/// unless SHA-256 collides on them.
pub proof fn law_tour_cache_key_distinct(
    repo_path: Seq<char>,
    head1: Seq<char>,
    head2: Seq<char>,
    window: MiningWindow,
    version1: Seq<char>,
    version2: Seq<char>,
)
    ensures
        (head1 != head2 && version1 == version2) || (head1 == head2 && version1 != version2)
            ==> tour_key_bytes(repo_path, head1, window, version1) != tour_key_bytes(
            repo_path,
            head2,
            window,
            version2,
        ),
        hex_of(sha256_of(tour_key_bytes(repo_path, head1, window, version1))) == hex_of(
            sha256_of(tour_key_bytes(repo_path, head2, window, version2)),
        ) ==> sha256_of(tour_key_bytes(repo_path, head1, window, version1)) == sha256_of(
            tour_key_bytes(repo_path, head2, window, version2),
        ),
{
    let b1 = tour_key_bytes(repo_path, head1, window, version1);
    let b2 = tour_key_bytes(repo_path, head2, window, version2);
    let s1 = tour_key_input(repo_path, head1, window, version1);
    let s2 = tour_key_input(repo_path, head2, window, version2);
    if (head1 != head2 && version1 == version2) || (head1 == head2 && version1 != version2) {
        lemma_key_inputs_differ(repo_path, head1, head2, window_json(window), version1, version2);
        if b1 == b2 {
            vstd::utf8::encode_utf8_decode_utf8(s1);
            vstd::utf8::encode_utf8_decode_utf8(s2);
        }
    }
    if hex_of(sha256_of(b1)) == hex_of(sha256_of(b2)) {
        lemma_hex_injective(sha256_of(b1), sha256_of(b2));
    }
}

/// `r|h1|w|v1` and `r|h2|w|v2` differ when exactly one of the head hash and
/// the version does.
proof fn lemma_key_inputs_differ(
    r: Seq<char>,
    h1: Seq<char>,
    h2: Seq<char>,
    w: Seq<char>,
    v1: Seq<char>,
    v2: Seq<char>,
)
    requires
        (h1 != h2 && v1 == v2) || (h1 == h2 && v1 != v2),
    ensures
        r + "|"@ + h1 + "|"@ + w + "|"@ + v1 != r + "|"@ + h2 + "|"@ + w + "|"@ + v2,
{
    let s1 = r + "|"@ + h1 + "|"@ + w + "|"@ + v1;
    let s2 = r + "|"@ + h2 + "|"@ + w + "|"@ + v2;
    let p = r + "|"@;
    let q = "|"@ + w + "|"@;
    assert(s1 =~= p + h1 + q + v1);
    assert(s2 =~= p + h2 + q + v2);
    if s1 == s2 {
        if h1 != h2 {
            if h1.len() == h2.len() {
                assert(h1 =~= s1.subrange(p.len() as int, (p.len() + h1.len()) as int));
                assert(h2 =~= s2.subrange(p.len() as int, (p.len() + h2.len()) as int));
            } else {
                assert(s1.len() == p.len() + h1.len() + q.len() + v1.len());
                assert(s2.len() == p.len() + h2.len() + q.len() + v2.len());
            }
        } else {
            let k = (p.len() + h1.len() + q.len()) as int;
            if v1.len() == v2.len() {
                assert(v1 =~= s1.subrange(k, s1.len() as int));
                assert(v2 =~= s2.subrange(k, s2.len() as int));
            } else {
                assert(s1.len() == k + v1.len());
                assert(s2.len() == k + v2.len());
            }
        }
    }
}

// ---------- triggers ----------

/// The triggers of a stop, in fixed order; `ArchitectureShaping` alone when
/// no heuristic fired and the model did not flag it.
pub open spec fn triggers_of(h: HeuristicFlagsView, architecture_shaping: bool) -> Seq<TriggerKind> {
    let t = (if h.is_revert {
        seq![TriggerKind::Revert]
    } else {
        Seq::empty()
    }) + (if h.was_reverted {
        seq![TriggerKind::WasReverted]
    } else {
        Seq::empty()
    }) + (if h.touches_repeated_fix_file {
        seq![TriggerKind::RepeatedFix]
    } else {
        Seq::empty()
    }) + (if h.incident_refs.len() > 0 {
        seq![TriggerKind::IncidentLinked]
    } else {
        Seq::empty()
    }) + (if architecture_shaping {
        seq![TriggerKind::ArchitectureShaping]
    } else {
        Seq::empty()
    });
    if t.len() == 0 {
        seq![TriggerKind::ArchitectureShaping]
    } else {
        t
    }
}

/// The triggers derived from a commit's heuristic flags and the model's
/// architecture-shaping verdict.
pub fn derive_triggers(heuristics: &HeuristicFlags, architecture_shaping: bool) -> (r: Vec<
    TriggerKind,
>)
    ensures
        r@ == triggers_of(heuristics@, architecture_shaping),
        r@.len() > 0,
{
    let mut t: Vec<TriggerKind> = Vec::new();
    if heuristics.is_revert {
        t.push(TriggerKind::Revert);
    }
    if heuristics.was_reverted {
        t.push(TriggerKind::WasReverted);
    }
    if heuristics.touches_repeated_fix_file {
        t.push(TriggerKind::RepeatedFix);
    }
    if heuristics.incident_refs.len() > 0 {
        t.push(TriggerKind::IncidentLinked);
    }
    if architecture_shaping {
        t.push(TriggerKind::ArchitectureShaping);
    }
    if t.len() == 0 {
        t.push(TriggerKind::ArchitectureShaping);
    }
    assert(t@ =~= triggers_of(heuristics@, architecture_shaping));
    t
}

/// Snake-case name of a trigger.
pub open spec fn trigger_name(t: TriggerKind) -> Seq<char> {
    match t {
        TriggerKind::Revert => "revert"@,
        TriggerKind::WasReverted => "was_reverted"@,
        TriggerKind::RepeatedFix => "repeated_fix"@,
        TriggerKind::IncidentLinked => "incident_linked"@,
        TriggerKind::ArchitectureShaping => "architecture_shaping"@,
    }
}

pub fn trigger_kind_name(t: &TriggerKind) -> (r: &'static str)
    ensures
        r@ == trigger_name(*t),
{
    match t {
        TriggerKind::Revert => "revert",
        TriggerKind::WasReverted => "was_reverted",
        TriggerKind::RepeatedFix => "repeated_fix",
        TriggerKind::IncidentLinked => "incident_linked",
        TriggerKind::ArchitectureShaping => "architecture_shaping",
    }
}

// ---------- fetch_stop_documents ----------

pub const MISSING_TOKENS_MESSAGE: &'static str = "fetch_linked_documents is enabled but neither github_token nor jira_token is configured";

/// Fail-fast configuration check: fetching linked documents needs a GitHub or
/// a Jira token.
pub fn validate_tour_config(cfg: &TourConfig) -> (r: Result<(), String>)
    ensures
        r is Err <==> (cfg.fetch_linked_documents && cfg.github_token is None && cfg.jira_token
            is None),
        r matches Err(e) ==> e@ == MISSING_TOKENS_MESSAGE@,
{
    if cfg.fetch_linked_documents && cfg.github_token.is_none() && cfg.jira_token.is_none() {
        Err(copy_str(MISSING_TOKENS_MESSAGE))
    } else {
        Ok(())
    }
}

/// Some mined commit has hash `h`.
pub open spec fn mined(commits: Seq<CommitRecordView>, h: Seq<char>) -> bool {
    exists|i: int| 0 <= i < commits.len() && (#[trigger] commits[i]).hash == h
}

/// The mined commit a hash resolves to: the last one with that hash.
#[verifier::opaque]
pub open spec fn record_index(commits: Seq<CommitRecordView>, h: Seq<char>) -> int {
    choose|i: int|
        0 <= i < commits.len() && commits[i].hash == h && forall|j: int|
            i < j < commits.len() ==> (#[trigger] commits[j]).hash != h
}

/// The stub for ranked candidate `c` joined with its mined record.
pub open spec fn stub_for(c: RankedCandidateView, rec: CommitRecordView) -> StopStubView {
    StopStubView {
        sequence: c.rank,
        commit_hash: c.commit_hash,
        timestamp_utc: rec.timestamp_utc,
        message_summary: rec.message_summary,
        subsystem: c.subsystem,
        subsystems: c.subsystems,
        files_changed: rec.files_changed.map_values(|f: FileChangeView| f.path),
        triggered_by: triggers_of(rec.heuristics, c.signals.architecture_shaping),
        selection_rationale: c.rationale,
        evidence_summary: c.evidence_summary,
        linked_document: None,
    }
}

/// One planned stop: its stub and the references whose documents to fetch.
pub struct PlannedStopView {
    pub stub: StopStubView,
    pub refs_to_fetch: Seq<Seq<char>>,
}

/// The stops for the ranked candidates in rank order, skipping any whose hash
/// is not in the mining output; references to fetch are the record's incident
/// references when fetching is enabled.
pub open spec fn planned_stops(
    cands: Seq<RankedCandidateView>,
    commits: Seq<CommitRecordView>,
    fetch: bool,
) -> Seq<PlannedStopView>
    decreases cands.len(),
{
    if cands.len() == 0 {
        Seq::empty()
    } else {
        let prev = planned_stops(cands.drop_last(), commits, fetch);
        let c = cands.last();
        if mined(commits, c.commit_hash) {
            let rec = commits[record_index(commits, c.commit_hash)];
            prev.push(
                PlannedStopView {
                    stub: stub_for(c, rec),
                    refs_to_fetch: if fetch {
                        rec.heuristics.incident_refs
                    } else {
                        Seq::empty()
                    },
                },
            )
        } else {
            prev
        }
    }
}

/// The index of the mined record `h` resolves to, if any.
fn find_record(commits: &Vec<CommitRecord>, h: &String) -> (r: Option<usize>)
    ensures
        r is Some <==> mined(record_views(commits@), h@),
        r matches Some(i) ==> i < commits@.len() && i == record_index(record_views(commits@), h@),
{
    let ghost cv = record_views(commits@);
    let mut found: Option<usize> = None;
    let mut i: usize = 0;
    while i < commits.len()
        invariant
            i <= commits@.len(),
            cv == record_views(commits@),
            found matches Some(f) ==> f < i && cv[f as int].hash == h@ && forall|j: int|
                f < j < i ==> (#[trigger] cv[j]).hash != h@,
            found is None ==> forall|j: int| 0 <= j < i ==> (#[trigger] cv[j]).hash != h@,
        decreases commits@.len() - i,
    {
        if commits[i].hash == *h {
            found = Some(i);
        }
        i += 1;
    }
    match found {
        Some(f) => {
            reveal(record_index);
            assert(mined(cv, h@));
            let ghost c = record_index(cv, h@);
            assert(c == f) by {
                if c < f {
                    assert(cv[f as int].hash != h@);
                }
                if c > f {
                    assert(cv[c].hash != h@);
                }
            }
        },
        None => {
            assert(!mined(cv, h@));
        },
    }
    found
}

/// The paths of the changed files, in order.
pub fn file_paths(files: &Vec<FileChange>) -> (r: Vec<String>)
    ensures
        strs(r@) == file_views(files@).map_values(|f: FileChangeView| f.path),
{
    let mut r: Vec<String> = Vec::new();
    let mut i: usize = 0;
    while i < files.len()
        invariant
            i <= files@.len(),
            strs(r@) == file_views(files@).take(i as int).map_values(|f: FileChangeView| f.path),
        decreases files@.len() - i,
    {
        let ghost before = strs(r@);
        r.push(files[i].path.clone());
        assert(strs(r@) =~= before.push(files@[i as int].path@));
        assert(file_views(files@).take(i + 1).map_values(|f: FileChangeView| f.path)
            =~= file_views(files@).take(i as int).map_values(|f: FileChangeView| f.path).push(
            files@[i as int].path@,
        ));
        i += 1;
    }
    assert(file_views(files@).take(files@.len() as int) =~= file_views(files@));
    r
}

/// One planned stop: its stub (no linked document yet) and the references
/// whose documents should be fetched for it.
#[derive(Debug)]
pub struct PlannedStop {
    pub stub: StopStub,
    pub refs_to_fetch: Vec<String>,
}

pub open spec fn planned_views(v: Seq<PlannedStop>) -> Seq<PlannedStopView> {
    v.map_values(|p: PlannedStop| PlannedStopView { stub: p.stub@, refs_to_fetch: strs(p.refs_to_fetch@) })
}

/// Deterministic join of the ranking output with the mining output (the
/// document-free part of `fetch_stop_documents`): one stub per ranked
/// candidate found among the mined commits, in rank order, with its triggers
/// derived from the heuristic flags and the model's architecture verdict.
pub fn plan_stop_stubs(ranking: &RankingOutput, mining: &MiningOutput, cfg: &TourConfig) -> (r: Vec<
    PlannedStop,
>)
    ensures
        planned_views(r@) == planned_stops(
            ranked_views(ranking.tour_candidates@),
            record_views(mining.commits@),
            cfg.fetch_linked_documents,
        ),
{
    let ghost cands = ranked_views(ranking.tour_candidates@);
    let ghost commits = record_views(mining.commits@);
    let mut out: Vec<PlannedStop> = Vec::new();
    let mut i: usize = 0;
    while i < ranking.tour_candidates.len()
        invariant
            i <= cands.len(),
            cands == ranked_views(ranking.tour_candidates@),
            commits == record_views(mining.commits@),
            planned_views(out@) == planned_stops(
                cands.take(i as int),
                commits,
                cfg.fetch_linked_documents,
            ),
        decreases cands.len() - i,
    {
        assert(cands.take(i + 1).drop_last() =~= cands.take(i as int));
        assert(cands.take(i + 1).last() == cands[i as int]);
        let c = &ranking.tour_candidates[i];
        match find_record(&mining.commits, &c.commit_hash) {
            Some(j) => {
                let rec = &mining.commits[j];
                assert(commits[j as int] == rec@);
                let stub = StopStub {
                    sequence: c.rank,
                    commit_hash: c.commit_hash.clone(),
                    timestamp_utc: rec.timestamp_utc.clone(),
                    message_summary: rec.message_summary.clone(),
                    subsystem: c.subsystem.clone(),
                    subsystems: copy_strings(&c.subsystems),
                    files_changed: file_paths(&rec.files_changed),
                    triggered_by: derive_triggers(&rec.heuristics, c.signals.architecture_shaping),
                    selection_rationale: c.rationale.clone(),
                    evidence_summary: c.evidence_summary.clone(),
                    linked_document: None,
                };
                let refs = if cfg.fetch_linked_documents {
                    copy_strings(&rec.heuristics.incident_refs)
                } else {
                    Vec::new()
                };
                let p = PlannedStop { stub, refs_to_fetch: refs };
                assert(strs(p.refs_to_fetch@) =~= (if cfg.fetch_linked_documents {
                    rec@.heuristics.incident_refs
                } else {
                    Seq::empty()
                }));
                let ghost before = planned_views(out@);
                out.push(p);
                assert(planned_views(out@) =~= before.push(
                    PlannedStopView { stub: stub_for(cands[i as int], rec@), refs_to_fetch: strs(p.refs_to_fetch@) },
                ));
            },
            None => {},
        }
        i += 1;
    }
    assert(cands.take(cands.len() as int) =~= cands);
    out
}

/// The fetched documents that arrived, in order.
pub open spec fn arrived(docs: Seq<Option<Seq<char>>>) -> Seq<Seq<char>>
    decreases docs.len(),
{
    if docs.len() == 0 {
        Seq::empty()
    } else {
        match docs.last() {
            Some(d) => arrived(docs.drop_last()).push(d),
            None => arrived(docs.drop_last()),
        }
    }
}

pub const DOC_SEPARATOR: &'static str = "\n\n---\n\n";

/// The linked document of a stop: the documents that arrived, joined by a
/// horizontal rule; none when none arrived.
pub fn combine_linked_documents(docs: &Vec<Option<String>>) -> (r: Option<String>)
    ensures
        arrived(docs@.map_values(|d: Option<String>| crate::mining_types::opt_str(d))).len() == 0
            ==> r is None,
        arrived(docs@.map_values(|d: Option<String>| crate::mining_types::opt_str(d))).len() > 0
            ==> (r matches Some(s) && s@ == join(
            arrived(docs@.map_values(|d: Option<String>| crate::mining_types::opt_str(d))),
            DOC_SEPARATOR@,
        )),
{
    let ghost dv = docs@.map_values(|d: Option<String>| crate::mining_types::opt_str(d));
    let mut got: Vec<String> = Vec::new();
    let mut i: usize = 0;
    while i < docs.len()
        invariant
            i <= docs@.len(),
            dv == docs@.map_values(|d: Option<String>| crate::mining_types::opt_str(d)),
            strs(got@) == arrived(dv.take(i as int)),
        decreases docs@.len() - i,
    {
        assert(dv.take(i + 1).drop_last() =~= dv.take(i as int));
        assert(dv.take(i + 1).last() == dv[i as int]);
        match &docs[i] {
            Some(d) => {
                let ghost before = strs(got@);
                got.push(d.clone());
                assert(strs(got@) =~= before.push(d@));
            },
            None => {},
        }
        i += 1;
    }
    assert(dv.take(docs@.len() as int) =~= dv);
    if got.len() == 0 {
        None
    } else {
        Some(join_strings(&got, DOC_SEPARATOR))
    }
}


// ---------- narrate_stop ----------

/// `"- <s>\n"` for each string, concatenated.
pub open spec fn bullets(items: Seq<Seq<char>>) -> Seq<char>
    decreases items.len(),
{
    if items.len() == 0 {
        Seq::empty()
    } else {
        bullets(items.drop_last()) + "- "@ + items.last() + "\n"@
    }
}

/// Name of the first trigger, `architecture_shaping` when there is none.
pub open spec fn primary_trigger_name(triggers: Seq<TriggerKind>) -> Seq<char> {
    if triggers.len() > 0 {
        trigger_name(triggers[0])
    } else {
        "architecture_shaping"@
    }
}

/// The user prompt for narrating one stop.
pub open spec fn narration_prompt(
    stub: StopStubView,
    diff_excerpt: Seq<char>,
    others: Seq<Seq<char>>,
) -> Seq<char> {
    "COMMIT: "@ + stub.commit_hash + "\nSUBJECT: "@ + stub.message_summary + "\nSUBSYSTEMS: "@
        + join(stub.subsystems, ", "@) + "\nFILES CHANGED: "@ + join(stub.files_changed, ", "@)
        + "\n"@ + "SELECTION TRIGGERS: "@ + join(
        stub.triggered_by.map_values(|t: TriggerKind| trigger_name(t)),
        ", "@,
    ) + "\n"@ + "SELECTION RATIONALE: "@ + stub.selection_rationale + "\n\n"@ + (
    match stub.linked_document {
        Some(d) => "LINKED DOCUMENT:\n"@ + d + "\n\n"@,
        None => Seq::empty(),
    }) + (if others.len() > 0 {
        "OTHER STOPS IN THIS TOUR (for cross-reference):\n"@ + bullets(others) + "\n"@
    } else {
        Seq::empty()
    }) + (if diff_excerpt.len() > 0 {
        "DIFF EXCERPT (truncated):\n"@ + diff_excerpt + "\n"@
    } else {
        Seq::empty()
    }) + "\nMOCK_TRIGGER: "@ + primary_trigger_name(stub.triggered_by)
        + "\nCOMMIT_HASH_FOR_MOCK: "@ + stub.commit_hash
}

fn trigger_names(triggers: &Vec<TriggerKind>) -> (r: Vec<String>)
    ensures
        strs(r@) == triggers@.map_values(|t: TriggerKind| trigger_name(t)),
{
    let mut r: Vec<String> = Vec::new();
    let mut i: usize = 0;
    while i < triggers.len()
        invariant
            i <= triggers@.len(),
            strs(r@) == triggers@.take(i as int).map_values(|t: TriggerKind| trigger_name(t)),
        decreases triggers@.len() - i,
    {
        let ghost before = strs(r@);
        r.push(copy_str(trigger_kind_name(&triggers[i])));
        assert(strs(r@) =~= before.push(trigger_name(triggers@[i as int])));
        assert(triggers@.take(i + 1).map_values(|t: TriggerKind| trigger_name(t))
            =~= triggers@.take(i as int).map_values(|t: TriggerKind| trigger_name(t)).push(
            trigger_name(triggers@[i as int]),
        ));
        i += 1;
    }
    assert(triggers@.take(triggers@.len() as int) =~= triggers@);
    r
}

/// Build the user prompt for a single narration call.
#[verifier::rlimit(30)]
pub fn build_narration_prompt(
    stub: &StopStub,
    diff_excerpt: &str,
    other_evidence_summaries: &[String],
) -> (r: String)
    ensures
        r@ == narration_prompt(stub@, diff_excerpt@, strs(other_evidence_summaries@)),
{
    let mut user = copy_str("COMMIT: ");
    push_str(&mut user, stub.commit_hash.as_str());
    push_str(&mut user, "\nSUBJECT: ");
    push_str(&mut user, stub.message_summary.as_str());
    push_str(&mut user, "\nSUBSYSTEMS: ");
    let subs = join_strings(&stub.subsystems, ", ");
    push_str(&mut user, subs.as_str());
    push_str(&mut user, "\nFILES CHANGED: ");
    let files = join_strings(&stub.files_changed, ", ");
    push_str(&mut user, files.as_str());
    push_str(&mut user, "\n");
    push_str(&mut user, "SELECTION TRIGGERS: ");
    let names = trigger_names(&stub.triggered_by);
    let joined = join_strings(&names, ", ");
    push_str(&mut user, joined.as_str());
    push_str(&mut user, "\n");
    push_str(&mut user, "SELECTION RATIONALE: ");
    push_str(&mut user, stub.selection_rationale.as_str());
    push_str(&mut user, "\n\n");
    let ghost head = user@;
    match &stub.linked_document {
        Some(doc) => {
            push_str(&mut user, "LINKED DOCUMENT:\n");
            push_str(&mut user, doc.as_str());
            push_str(&mut user, "\n\n");
        },
        None => {},
    }
    let ghost with_doc = user@;
    if other_evidence_summaries.len() > 0 {
        push_str(&mut user, "OTHER STOPS IN THIS TOUR (for cross-reference):\n");
        let ghost start = user@;
        let mut i: usize = 0;
        while i < other_evidence_summaries.len()
            invariant
                i <= other_evidence_summaries@.len(),
                user@ == start + bullets(strs(other_evidence_summaries@).take(i as int)),
            decreases other_evidence_summaries@.len() - i,
        {
            let ghost prev = user@;
            push_str(&mut user, "- ");
            push_str(&mut user, other_evidence_summaries[i].as_str());
            push_str(&mut user, "\n");
            assert(strs(other_evidence_summaries@).take(i + 1).drop_last() =~= strs(
                other_evidence_summaries@,
            ).take(i as int));
            assert(strs(other_evidence_summaries@).take(i + 1).last()
                == other_evidence_summaries@[i as int]@);
            assert(user@ =~= start + bullets(strs(other_evidence_summaries@).take(i + 1)));
            i += 1;
        }
        assert(strs(other_evidence_summaries@).take(other_evidence_summaries@.len() as int)
            =~= strs(other_evidence_summaries@));
        push_str(&mut user, "\n");
    }
    let ghost with_others = user@;
    if !diff_excerpt.is_empty() {
        push_str(&mut user, "DIFF EXCERPT (truncated):\n");
        push_str(&mut user, diff_excerpt);
        push_str(&mut user, "\n");
    }
    let ghost with_diff = user@;
    let primary: &str = if stub.triggered_by.len() > 0 {
        trigger_kind_name(&stub.triggered_by[0])
    } else {
        "architecture_shaping"
    };
    push_str(&mut user, "\nMOCK_TRIGGER: ");
    push_str(&mut user, primary);
    push_str(&mut user, "\nCOMMIT_HASH_FOR_MOCK: ");
    push_str(&mut user, stub.commit_hash.as_str());
    proof {
        let sv = stub@;
        let others = strs(other_evidence_summaries@);
        assert(with_doc == head + (match sv.linked_document {
            Some(d) => "LINKED DOCUMENT:\n"@ + d + "\n\n"@,
            None => Seq::<char>::empty(),
        }));
        assert(with_others == with_doc + (if others.len() > 0 {
            "OTHER STOPS IN THIS TOUR (for cross-reference):\n"@ + bullets(others) + "\n"@
        } else {
            Seq::<char>::empty()
        }));
        assert(user@ =~= narration_prompt(sv, diff_excerpt@, others));
    }
    user
}

/// Key of a stop's cached narration: `{commit_hash}-{prompt_version}`.
pub fn narration_cache_key(commit_hash: &str, prompt_version: &str) -> (r: String)
    ensures
        r@ == commit_hash@ + "-"@ + prompt_version@,
{
    crate::text::concat3(commit_hash, "-", prompt_version)
}

/// Cache file for `key` of cache kind `kind`: `<root>/<kind>/<key>.json`.
pub fn cache_path(root: &str, kind: &str, key: &str) -> (r: String)
    ensures
        r@ == crate::text::path_join(crate::text::path_join(root@, kind@), key@ + ".json"@),
{
    let dir = crate::text::join_path(root, kind);
    let mut name = copy_str(key);
    push_str(&mut name, ".json");
    crate::text::join_path(dir.as_str(), name.as_str())
}

/// System prompt of the narration call.
pub const NARRATION_SYSTEM_PROMPT: &'static str = "You narrate git commits for a new-hire onboarding tour. Return strict JSON with fields: title (string) and narration (string, 2-4 paragraphs).";

/// Delay before narration attempt `attempt` (0-based): 0 ms, then 1000 ms,
/// then 2000 ms; no further attempt after the third.
pub fn narration_retry_delay_ms(attempt: usize) -> (r: Option<u64>)
    ensures
        attempt == 0 ==> r == Some(0u64),
        attempt == 1 ==> r == Some(1000u64),
        attempt == 2 ==> r == Some(2000u64),
        attempt >= 3 ==> r is None,
{
    if attempt == 0 {
        Some(0)
    } else if attempt == 1 {
        Some(1000)
    } else if attempt == 2 {
        Some(2000)
    } else {
        None
    }
}

/// `narrate_stop failed after {attempts} attempts for commit {hash}: {last_err}`.
pub fn narration_failure_message(attempts: usize, commit_hash: &str, last_err: &str) -> (r: String)
    ensures
        r@ == "narrate_stop failed after "@ + dec(attempts as nat) + " attempts for commit "@
            + commit_hash@ + ": "@ + last_err@,
{
    let mut r = copy_str("narrate_stop failed after ");
    let n = u64_to_string(attempts as u64);
    push_str(&mut r, n.as_str());
    push_str(&mut r, " attempts for commit ");
    push_str(&mut r, commit_hash);
    push_str(&mut r, ": ");
    push_str(&mut r, last_err);
    r
}

pub const NOT_JSON_MESSAGE: &'static str = "narration response was not parseable JSON";

pub const MISSING_TITLE_MESSAGE: &'static str = "narration response missing 'title' field";

pub const MISSING_NARRATION_MESSAGE: &'static str = "narration response missing 'narration' field";

/// The `title` and `narration` members of a narration reply: those of the
/// structured output when the call returned one (`parsed`), else those of the
/// reply text read as JSON; `None` when neither is JSON. A member is `None`
/// when it is missing or not a string.
pub open spec fn narration_reply_fields(
    parsed: Option<(Option<String>, Option<String>)>,
    text: Seq<char>,
) -> Option<(Option<Seq<char>>, Option<Seq<char>>)> {
    match parsed {
        Some((t, n)) => Some((opt_view(t), opt_view(n))),
        None => match (json_str_member_of(text, "title"@), json_str_member_of(text, "narration"@)) {
            (Some(t), Some(n)) => Some((t, n)),
            _ => None,
        },
    }
}

/// What a narration reply with members `fields` gives: the non-empty title
/// and narration, or the error for the first that is missing or empty; the
/// not-JSON error when there are no members to read.
pub open spec fn narration_result(
    r: Result<(String, String), String>,
    fields: Option<(Option<Seq<char>>, Option<Seq<char>>)>,
) -> bool {
    match fields {
        None => r is Err && r->Err_0@ == NOT_JSON_MESSAGE@,
        Some((t, n)) => match t {
            Some(title) if title.len() > 0 => match n {
                Some(narr) if narr.len() > 0 => r is Ok && r->Ok_0.0@ == title
                    && r->Ok_0.1@ == narr,
                _ => r is Err && r->Err_0@ == MISSING_NARRATION_MESSAGE@,
            },
            _ => r is Err && r->Err_0@ == MISSING_TITLE_MESSAGE@,
        },
    }
}

/// The checked `(title, narration)` of a narration reply, read from the
/// structured output `parsed` when the call returned one (its `title` and
/// `narration` members when they are strings), else from the reply `text`
/// read as JSON.
pub fn parse_narration_response(
    parsed: Option<(Option<String>, Option<String>)>,
    text: &str,
) -> (r: Result<(String, String), String>)
    ensures
        narration_result(r, narration_reply_fields(parsed, text@)),
{
    let fields = match parsed {
        Some(p) => Some(p),
        None => {
            let t = json_str_member(text, "title");
            let n = json_str_member(text, "narration");
            match (t, n) {
                (Some(t), Some(n)) => Some((t, n)),
                _ => None,
            }
        },
    };
    check_narration_fields(fields)
}

/// The checked `(title, narration)` of the members `reply` of a narration
/// reply; `None` when the reply was not JSON.
fn check_narration_fields(reply: Option<(Option<String>, Option<String>)>) -> (r: Result<
    (String, String),
    String,
>)
    ensures
        match reply {
            None => r is Err && r->Err_0@ == NOT_JSON_MESSAGE@,
            Some((t, n)) => match t {
                Some(title) if title@.len() > 0 => match n {
                    Some(narr) if narr@.len() > 0 => r is Ok && r->Ok_0.0@ == title@
                        && r->Ok_0.1@ == narr@,
                    _ => r is Err && r->Err_0@ == MISSING_NARRATION_MESSAGE@,
                },
                _ => r is Err && r->Err_0@ == MISSING_TITLE_MESSAGE@,
            },
        },
{
    match reply {
        None => Err(copy_str(NOT_JSON_MESSAGE)),
        Some((t, n)) => {
            let title = match t {
                Some(title) => {
                    if title.as_str().is_empty() {
                        return Err(copy_str(MISSING_TITLE_MESSAGE));
                    }
                    title
                },
                None => {
                    return Err(copy_str(MISSING_TITLE_MESSAGE));
                },
            };
            let narration = match n {
                Some(narr) => {
                    if narr.as_str().is_empty() {
                        return Err(copy_str(MISSING_NARRATION_MESSAGE));
                    }
                    narr
                },
                None => {
                    return Err(copy_str(MISSING_NARRATION_MESSAGE));
                },
            };
            Ok((title, narration))
        },
    }
}

/// The narrated stop for `stub` with the model's title and narration.
pub fn build_tour_stop(stub: &StopStub, title: String, narration: String) -> (r: TourStop)
    ensures
        r@ == (TourStopView {
            sequence: stub@.sequence,
            commit_hash: stub@.commit_hash,
            timestamp_utc: stub@.timestamp_utc,
            title: title@,
            narration: narration@,
            subsystem: stub@.subsystem,
            subsystems: stub@.subsystems,
            files_changed: stub@.files_changed,
            triggered_by: stub@.triggered_by,
            selection_rationale: stub@.selection_rationale,
            linked_document: stub@.linked_document,
        }),
{
    let mut triggers: Vec<TriggerKind> = Vec::new();
    let mut i: usize = 0;
    while i < stub.triggered_by.len()
        invariant
            i <= stub.triggered_by@.len(),
            triggers@ == stub.triggered_by@.take(i as int),
        decreases stub.triggered_by@.len() - i,
    {
        triggers.push(stub.triggered_by[i]);
        assert(stub.triggered_by@.take(i + 1) =~= stub.triggered_by@.take(i as int).push(
            stub.triggered_by@[i as int],
        ));
        i += 1;
    }
    assert(stub.triggered_by@.take(stub.triggered_by@.len() as int) =~= stub.triggered_by@);
    TourStop {
        sequence: stub.sequence,
        commit_hash: stub.commit_hash.clone(),
        timestamp_utc: stub.timestamp_utc.clone(),
        title,
        narration,
        subsystem: stub.subsystem.clone(),
        subsystems: copy_strings(&stub.subsystems),
        files_changed: copy_strings(&stub.files_changed),
        triggered_by: triggers,
        selection_rationale: stub.selection_rationale.clone(),
        linked_document: crate::mining_types::copy_opt_string(&stub.linked_document),
    }
}


// ---------- diff excerpt ----------

/// `{status} {path} (+{additions} -{deletions})\n`.
pub open spec fn change_line(f: FileChangeView) -> Seq<char> {
    f.status + " "@ + f.path + " (+"@ + dec(f.additions as nat) + " -"@ + dec(f.deletions as nat)
        + ")\n"@
}

/// One `change_line` per file change, concatenated.
pub open spec fn change_lines(fs: Seq<FileChangeView>) -> Seq<char>
    decreases fs.len(),
{
    if fs.len() == 0 {
        Seq::empty()
    } else {
        change_lines(fs.drop_last()) + change_line(fs.last())
    }
}

/// The compact diff-like text of a commit's file changes.
pub fn diff_excerpt_lines(changes: &Vec<FileChange>) -> (r: String)
    ensures
        r@ == change_lines(file_views(changes@)),
{
    let mut out = String::new();
    let mut i: usize = 0;
    while i < changes.len()
        invariant
            i <= changes@.len(),
            out@ == change_lines(file_views(changes@).take(i as int)),
        decreases changes@.len() - i,
    {
        let f = &changes[i];
        push_str(&mut out, f.status.as_str());
        push_str(&mut out, " ");
        push_str(&mut out, f.path.as_str());
        push_str(&mut out, " (+");
        let a = u64_to_string(f.additions as u64);
        push_str(&mut out, a.as_str());
        push_str(&mut out, " -");
        let d = u64_to_string(f.deletions as u64);
        push_str(&mut out, d.as_str());
        push_str(&mut out, ")\n");
        assert(file_views(changes@).take(i + 1).drop_last() =~= file_views(changes@).take(i as int));
        assert(file_views(changes@).take(i + 1).last() == f@);
        assert(out@ =~= change_lines(file_views(changes@).take(i + 1)));
        i += 1;
    }
    assert(file_views(changes@).take(changes@.len() as int) =~= file_views(changes@));
    out
}

/// Bytes of diff text handed to the narration prompt before truncation.
pub const DIFF_EXCERPT_BYTE_CAP: usize = 6000;

pub const TRUNCATION_MARK: &'static str = "\n... (truncated)";

/// A diff text cut to its first 6000 bytes, marked as truncated, when it is
/// longer than that. The cut must fall on a character boundary (cutting
/// elsewhere would split a character).
pub fn truncate_excerpt(text: String) -> (r: String)
    requires
        vstd::utf8::encode_utf8(text@).len() <= usize::MAX,
        vstd::utf8::encode_utf8(text@).len() > DIFF_EXCERPT_BYTE_CAP ==> vstd::utf8::is_char_boundary(
            vstd::utf8::encode_utf8(text@),
            DIFF_EXCERPT_BYTE_CAP as int,
        ),
    ensures
        vstd::utf8::encode_utf8(text@).len() <= DIFF_EXCERPT_BYTE_CAP ==> r@ == text@,
        vstd::utf8::encode_utf8(text@).len() > DIFF_EXCERPT_BYTE_CAP ==> r@ == vstd::utf8::decode_utf8(
            vstd::utf8::encode_utf8(text@).subrange(0, DIFF_EXCERPT_BYTE_CAP as int),
        ) + TRUNCATION_MARK@,
{
    broadcast use vstd::utf8::group_utf8_lib;

    if text.as_str().len() > DIFF_EXCERPT_BYTE_CAP {
        let (head, _tail) = text.as_str().split_at(DIFF_EXCERPT_BYTE_CAP);
        proof {
            assert(head.spec_bytes() == vstd::utf8::encode_utf8(head@));
            assert(vstd::utf8::decode_utf8(vstd::utf8::encode_utf8(head@)) == head@);
            assert(head.spec_bytes() =~= vstd::utf8::encode_utf8(text@).subrange(
                0,
                DIFF_EXCERPT_BYTE_CAP as int,
            ));
        }
        let mut r = copy_str(head);
        push_str(&mut r, TRUNCATION_MARK);
        r
    } else {
        text
    }
}

} // verus!
