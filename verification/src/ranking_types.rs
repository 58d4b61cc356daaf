//! Input and output records of significance ranking.
//!
//! Model scores travel here as the `u32` IEEE-754 bits of their `f32` value:
//! the ranking logic only copies scores and compares them through
//! `score_key`, whose order is that of the scores.
use vstd::prelude::*;

use crate::mining_types::{CommitRecord, CommitRecordView};
use crate::text::{copy_str, strs};

verus! {

/// Optional PR/issue enrichment; every field optional.
#[derive(Debug)]
pub struct PrEnrichment {
    pub pr_number: Option<u64>,
    pub pr_comment_count: Option<u32>,
    pub pr_thread_depth: Option<u32>,
    pub linked_issues: Vec<String>,
    pub revert_links: Vec<String>,
    pub rich_pr_history: bool,
}

pub struct PrEnrichmentView {
    pub pr_number: Option<u64>,
    pub pr_comment_count: Option<u32>,
    pub pr_thread_depth: Option<u32>,
    pub linked_issues: Seq<Seq<char>>,
    pub revert_links: Seq<Seq<char>>,
    pub rich_pr_history: bool,
}

impl View for PrEnrichment {
    type V = PrEnrichmentView;

    open spec fn view(&self) -> PrEnrichmentView {
        PrEnrichmentView {
            pr_number: self.pr_number,
            pr_comment_count: self.pr_comment_count,
            pr_thread_depth: self.pr_thread_depth,
            linked_issues: strs(self.linked_issues@),
            revert_links: strs(self.revert_links@),
            rich_pr_history: self.rich_pr_history,
        }
    }
}

impl Default for PrEnrichment {
    fn default() -> (r: PrEnrichment)
        ensures
            r@.pr_number is None,
            r@.pr_comment_count is None,
            r@.pr_thread_depth is None,
            r@.linked_issues.len() == 0,
            r@.revert_links.len() == 0,
            !r@.rich_pr_history,
    {
        PrEnrichment {
            pr_number: None,
            pr_comment_count: None,
            pr_thread_depth: None,
            linked_issues: Vec::new(),
            revert_links: Vec::new(),
            rich_pr_history: false,
        }
    }
}

#[derive(Debug)]
pub struct CandidateInput {
    pub commit: CommitRecord,
    pub pr: PrEnrichment,
}

pub struct CandidateInputView {
    pub commit: CommitRecordView,
    pub pr: PrEnrichmentView,
}

impl View for CandidateInput {
    type V = CandidateInputView;

    open spec fn view(&self) -> CandidateInputView {
        CandidateInputView { commit: self.commit@, pr: self.pr@ }
    }
}

pub open spec fn candidate_views(v: Seq<CandidateInput>) -> Seq<CandidateInputView> {
    v.map_values(|c: CandidateInput| c@)
}

/// The four signal families, plus repeated-fix.
#[derive(Debug, Clone, Copy, PartialEq, Eq, Structural)]
pub struct SignalSummary {
    pub architecture_shaping: bool,
    pub revert: bool,
    pub incident_linked: bool,
    pub discussion_rich: bool,
    pub repeated_fix: bool,
}

/// The signals of a candidate; `architecture_shaping` is decided by the model.
pub open spec fn signals_of(c: CandidateInputView, threshold: u32) -> SignalSummary {
    SignalSummary {
        architecture_shaping: false,
        revert: c.commit.heuristics.is_revert || c.commit.heuristics.was_reverted
            || c.pr.revert_links.len() > 0,
        incident_linked: c.commit.heuristics.incident_refs.len() > 0 || c.pr.linked_issues.len()
            > 0,
        discussion_rich: match c.pr.pr_comment_count {
            Some(n) => n >= threshold,
            None => false,
        },
        repeated_fix: c.commit.heuristics.touches_repeated_fix_file,
    }
}

impl SignalSummary {
    /// `discussion_rich_threshold` is the minimum PR comment count for a commit
    /// to be considered discussion-rich.
    pub fn from_candidate(c: &CandidateInput, discussion_rich_threshold: u32) -> (r: SignalSummary)
        ensures
            r == signals_of(c@, discussion_rich_threshold),
    {
        let h = &c.commit.heuristics;
        SignalSummary {
            architecture_shaping: false,
            revert: h.is_revert || h.was_reverted || c.pr.revert_links.len() > 0,
            incident_linked: h.incident_refs.len() > 0 || c.pr.linked_issues.len() > 0,
            discussion_rich: match c.pr.pr_comment_count {
                Some(n) => n >= discussion_rich_threshold,
                None => false,
            },
            repeated_fix: h.touches_repeated_fix_file,
        }
    }
}

/// A model-scored candidate; `score` holds the IEEE-754 bits of the model's score.
#[derive(Debug)]
pub struct ModelScoredCandidate {
    pub commit_hash: String,
    pub score: u32,
    pub architecture_shaping: bool,
    pub rationale: String,
    pub evidence_summary: String,
}

pub struct ModelScoredCandidateView {
    pub commit_hash: Seq<char>,
    pub score: u32,
    pub architecture_shaping: bool,
    pub rationale: Seq<char>,
    pub evidence_summary: Seq<char>,
}

impl View for ModelScoredCandidate {
    type V = ModelScoredCandidateView;

    open spec fn view(&self) -> ModelScoredCandidateView {
        ModelScoredCandidateView {
            commit_hash: self.commit_hash@,
            score: self.score,
            architecture_shaping: self.architecture_shaping,
            rationale: self.rationale@,
            evidence_summary: self.evidence_summary@,
        }
    }
}

pub open spec fn scored_views(v: Seq<ModelScoredCandidate>) -> Seq<ModelScoredCandidateView> {
    v.map_values(|r: ModelScoredCandidate| r@)
}

impl ModelScoredCandidate {
    pub fn copy(&self) -> (r: ModelScoredCandidate)
        ensures
            r@ == self@,
    {
        ModelScoredCandidate {
            commit_hash: self.commit_hash.clone(),
            score: self.score,
            architecture_shaping: self.architecture_shaping,
            rationale: self.rationale.clone(),
            evidence_summary: self.evidence_summary.clone(),
        }
    }
}

/// One ranked tour candidate; `score` holds the IEEE-754 bits of the model's score.
#[derive(Debug)]
pub struct RankedCandidate {
    pub rank: usize,
    pub commit_hash: String,
    /// Primary subsystem (the first one assigned).
    pub subsystem: String,
    pub subsystems: Vec<String>,
    pub timestamp_utc: String,
    pub score: u32,
    pub signals: SignalSummary,
    pub rationale: String,
    pub evidence_summary: String,
    pub source_pr: Option<u64>,
}

pub struct RankedCandidateView {
    pub rank: usize,
    pub commit_hash: Seq<char>,
    pub subsystem: Seq<char>,
    pub subsystems: Seq<Seq<char>>,
    pub timestamp_utc: Seq<char>,
    pub score: u32,
    pub signals: SignalSummary,
    pub rationale: Seq<char>,
    pub evidence_summary: Seq<char>,
    pub source_pr: Option<u64>,
}

impl View for RankedCandidate {
    type V = RankedCandidateView;

    open spec fn view(&self) -> RankedCandidateView {
        RankedCandidateView {
            rank: self.rank,
            commit_hash: self.commit_hash@,
            subsystem: self.subsystem@,
            subsystems: strs(self.subsystems@),
            timestamp_utc: self.timestamp_utc@,
            score: self.score,
            signals: self.signals,
            rationale: self.rationale@,
            evidence_summary: self.evidence_summary@,
            source_pr: self.source_pr,
        }
    }
}

pub open spec fn ranked_views(v: Seq<RankedCandidate>) -> Seq<RankedCandidateView> {
    v.map_values(|r: RankedCandidate| r@)
}

#[derive(Debug)]
pub struct RankingMeta {
    pub prompt_version: String,
    pub model_id: String,
    pub generated_at_utc: String,
    pub candidate_count: usize,
    /// True when the selected set is below `RankingConfig::target_min`, even
    /// after shortfall refill from the noise pool.
    pub below_target_min: bool,
}

#[derive(Debug)]
pub struct RankingOutput {
    pub tour_candidates: Vec<RankedCandidate>,
    pub meta: RankingMeta,
}

/// Ranking configuration (the sampling temperature lives with the model call).
#[derive(Debug)]
pub struct RankingConfig {
    pub prompt_version: String,
    pub model_id: String,
    pub target_min: usize,
    pub target_max: usize,
    /// Diversity floor per primary subsystem.
    pub min_per_subsystem: usize,
    /// Minimum PR comment count for a commit to be flagged `discussion_rich`.
    pub discussion_rich_comment_threshold: u32,
    pub use_file_summaries: bool,
    pub use_commit_summaries: bool,
}

impl Default for RankingConfig {
    fn default() -> (r: RankingConfig)
        ensures
            r.prompt_version@ == "v1"@,
            r.model_id@ == "gemini-1.5-pro"@,
            r.target_min == 10,
            r.target_max == 15,
            r.min_per_subsystem == 2,
            r.discussion_rich_comment_threshold == 5,
            !r.use_file_summaries,
            !r.use_commit_summaries,
    {
        RankingConfig {
            prompt_version: copy_str("v1"),
            model_id: copy_str("gemini-1.5-pro"),
            target_min: 10,
            target_max: 15,
            min_per_subsystem: 2,
            discussion_rich_comment_threshold: 5,
            use_file_summaries: false,
            use_commit_summaries: false,
        }
    }
}

/// The order key of an IEEE-754 single-precision score given by its bits:
/// keys compare as the scores do (negative and positive zero get one key;
/// NaNs sort above every number of their sign).
pub open spec fn score_key_of(bits: u32) -> u32 {
    if bits == 0x8000_0000u32 {
        0x8000_0000u32
    } else if bits >= 0x8000_0000u32 {
        (0xffff_ffffu32 - bits) as u32
    } else {
        (bits + 0x8000_0000u32) as u32
    }
}

/// Order key of the score with IEEE-754 bits `bits`.
pub fn score_key(bits: u32) -> (k: u32)
    ensures
        k == score_key_of(bits),
{
    if bits == 0x8000_0000u32 {
        0x8000_0000u32
    } else if bits >= 0x8000_0000u32 {
        0xffff_ffffu32 - bits
    } else {
        bits + 0x8000_0000u32
    }
}

} // verus!
