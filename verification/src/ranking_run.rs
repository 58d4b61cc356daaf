//! The decisions of a ranking run around its model calls: whether to run at
//! all, which enrichment stages to run, how the ranking reply becomes scored
//! candidates, and the output record.
use vstd::prelude::*;

use crate::ranking::{final_order, post_process, ranked_list};
use crate::ranking_types::{
    candidate_views, ranked_views, scored_views, CandidateInput,
    ModelScoredCandidate, ModelScoredCandidateView, RankingConfig, RankingMeta, RankingOutput,
};
use crate::text::copy_str;

verus! {

broadcast use vstd::string::group_string_axioms;

/// System prompt of the ranking call.
pub const RANKING_SYSTEM_PROMPT: &'static str = "You rank git commits for onboarding tours. Return strict JSON.";

/// Token cap of the ranking call.
pub const RANKING_MAX_TOKENS: u32 = 4096;

/// Error of a run with nothing to rank.
pub const NO_CANDIDATES_MESSAGE: &'static str = "no candidates to rank";

/// Error when the ranking reply is neither structured output nor JSON text.
pub const UNPARSEABLE_RANKING_MESSAGE: &'static str = "model returned unparseable output";

/// Error when the ranking reply has no `candidates` array.
pub const MISSING_CANDIDATES_MESSAGE: &'static str = "response missing 'candidates' array";

/// Error when a ranked entry has no `commit_hash`.
pub const MISSING_HASH_MESSAGE: &'static str = "missing commit_hash";

/// The enrichment stages a run performs before the ranking call.
#[derive(Debug, Clone, Copy, PartialEq, Eq, Structural)]
pub struct RankingPlan {
    pub file_summaries: bool,
    pub commit_summaries: bool,
}

/// Refuses an empty candidate set; otherwise runs the enrichment stages that
/// the configuration enables.
pub fn plan_ranking(candidates: &[CandidateInput], cfg: &RankingConfig) -> (r: Result<
    RankingPlan,
    String,
>)
    ensures
        candidates@.len() == 0 <==> r is Err,
        r matches Err(e) ==> e@ == NO_CANDIDATES_MESSAGE@,
        r matches Ok(p) ==> p.file_summaries == cfg.use_file_summaries && p.commit_summaries
            == cfg.use_commit_summaries,
{
    if candidates.len() == 0 {
        return Err(copy_str(NO_CANDIDATES_MESSAGE));
    }
    Ok(RankingPlan {
        file_summaries: cfg.use_file_summaries,
        commit_summaries: cfg.use_commit_summaries,
    })
}

/// The project summary is built only inside an enrichment run, and only once
/// file summaries exist to describe the subsystems.
pub fn wants_project_summary(plan: RankingPlan, file_summary_count: usize) -> (r: bool)
    ensures
        r == ((plan.file_summaries || plan.commit_summaries) && file_summary_count > 0),
{
    (plan.file_summaries || plan.commit_summaries) && file_summary_count > 0
}

/// One entry of the ranking reply as read from JSON: each field absent when
/// missing or of the wrong type. `score_bits` holds the IEEE-754 bits of the
/// `f32` score.
#[derive(Debug)]
pub struct RankingReplyItem {
    pub commit_hash: Option<String>,
    pub score_bits: Option<u32>,
    pub architecture_shaping: Option<bool>,
    pub rationale: Option<String>,
    pub evidence_summary: Option<String>,
}

/// The scored candidate an entry reads as: a missing score counts as 0.0, a
/// missing flag as `false`, missing texts as empty.
pub open spec fn scored_entry(item: RankingReplyItem) -> ModelScoredCandidateView {
    ModelScoredCandidateView {
        commit_hash: match item.commit_hash {
            Some(h) => h@,
            None => Seq::empty(),
        },
        score: match item.score_bits {
            Some(k) => k,
            None => 0,
        },
        architecture_shaping: match item.architecture_shaping {
            Some(b) => b,
            None => false,
        },
        rationale: match item.rationale {
            Some(s) => s@,
            None => Seq::empty(),
        },
        evidence_summary: match item.evidence_summary {
            Some(s) => s@,
            None => Seq::empty(),
        },
    }
}

fn text_or_empty(s: &Option<String>) -> (r: String)
    ensures
        r@ == (match s {
            Some(t) => t@,
            None => Seq::<char>::empty(),
        }),
{
    match s {
        Some(t) => t.clone(),
        None => String::new(),
    }
}

fn parse_items(items: Vec<RankingReplyItem>) -> (r: Result<Vec<ModelScoredCandidate>, String>)
    ensures
        if exists|i: int| 0 <= i < items@.len() && (#[trigger] items@[i]).commit_hash is None {
            r matches Err(e) && e@ == MISSING_HASH_MESSAGE@
        } else {
            r matches Ok(v) && scored_views(v@) == items@.map_values(
                |it: RankingReplyItem| scored_entry(it),
            )
        },
{
    let mut out: Vec<ModelScoredCandidate> = Vec::new();
    let mut i: usize = 0;
    while i < items.len()
        invariant
            i <= items@.len(),
            forall|k: int| 0 <= k < i ==> (#[trigger] items@[k]).commit_hash is Some,
            scored_views(out@) == items@.take(i as int).map_values(
                |it: RankingReplyItem| scored_entry(it),
            ),
        decreases items.len() - i,
    {
        let item = &items[i];
        let hash = match &item.commit_hash {
            Some(h) => h.clone(),
            None => return Err(copy_str(MISSING_HASH_MESSAGE)),
        };
        let score = match item.score_bits {
            Some(k) => k,
            None => 0,
        };
        let flag = match item.architecture_shaping {
            Some(b) => b,
            None => false,
        };
        let entry = ModelScoredCandidate {
            commit_hash: hash,
            score,
            architecture_shaping: flag,
            rationale: text_or_empty(&item.rationale),
            evidence_summary: text_or_empty(&item.evidence_summary),
        };
        let ghost before = scored_views(out@);
        out.push(entry);
        proof {
            let f = |it: RankingReplyItem| scored_entry(it);
            assert(scored_views(out@) =~= before.push(scored_entry(items@[i as int])));
            assert(items@.take(i + 1) =~= items@.take(i as int).push(items@[i as int]));
            assert(items@.take(i as int).push(items@[i as int]).map_values(f) =~= items@.take(
                i as int,
            ).map_values(f).push(scored_entry(items@[i as int])));
        }
        i += 1;
    }
    assert(items@.take(items@.len() as int) =~= items@);
    Ok(out)
}

/// `r` is what the `candidates` array of a reply reads as: an error when it is
/// missing or an entry lacks its `commit_hash`; otherwise one scored candidate
/// per entry, in order.
pub open spec fn reads_reply(
    r: Result<Vec<ModelScoredCandidate>, String>,
    candidates: Option<Vec<RankingReplyItem>>,
) -> bool {
    match candidates {
        None => r matches Err(e) && e@ == MISSING_CANDIDATES_MESSAGE@,
        Some(items) => if exists|i: int|
            0 <= i < items@.len() && (#[trigger] items@[i]).commit_hash is None {
            r matches Err(e) && e@ == MISSING_HASH_MESSAGE@
        } else {
            r matches Ok(v) && scored_views(v@) == items@.map_values(
                |it: RankingReplyItem| scored_entry(it),
            )
        },
    }
}

/// Reads the ranking reply: an error when it has no `candidates` array or an
/// entry lacks its `commit_hash`; otherwise one scored candidate per entry, in
/// order.
pub fn parse_ranking_response(candidates: Option<Vec<RankingReplyItem>>) -> (r: Result<
    Vec<ModelScoredCandidate>,
    String,
>)
    ensures
        reads_reply(r, candidates),
{
    match candidates {
        None => Err(copy_str(MISSING_CANDIDATES_MESSAGE)),
        Some(items) => parse_items(items),
    }
}

/// The ranking reply's entries: from the structured output when the call
/// returned one, else from the reply text read as JSON; an error when neither
/// is JSON. Each argument is `None` when that source is not JSON, and holds
/// `None` when the JSON has no `candidates` array.
pub fn parse_ranking_reply(
    parsed: Option<Option<Vec<RankingReplyItem>>>,
    from_text: Option<Option<Vec<RankingReplyItem>>>,
) -> (r: Result<Vec<ModelScoredCandidate>, String>)
    ensures
        match parsed {
            Some(c) => reads_reply(r, c),
            None => match from_text {
                Some(c) => reads_reply(r, c),
                None => r matches Err(e) && e@ == UNPARSEABLE_RANKING_MESSAGE@,
            },
        },
{
    match parsed {
        Some(c) => parse_ranking_response(c),
        None => match from_text {
            Some(c) => parse_ranking_response(c),
            None => Err(copy_str(UNPARSEABLE_RANKING_MESSAGE)),
        },
    }
}

/// Post-processes the scored candidates and wraps them with the run's
/// metadata.
pub fn finish_ranking(
    scored: Vec<ModelScoredCandidate>,
    candidates: &[CandidateInput],
    cfg: &RankingConfig,
    model_id: String,
    generated_at_utc: String,
) -> (r: RankingOutput)
    ensures
        ranked_views(r.tour_candidates@) == ranked_list(
            final_order(scored_views(scored@), candidate_views(candidates@), *cfg),
            candidate_views(candidates@),
            cfg.discussion_rich_comment_threshold,
        ),
        r.meta.below_target_min == (final_order(
            scored_views(scored@),
            candidate_views(candidates@),
            *cfg,
        ).len() < cfg.target_min),
        r.meta.prompt_version@ == cfg.prompt_version@,
        r.meta.model_id@ == model_id@,
        r.meta.generated_at_utc@ == generated_at_utc@,
        r.meta.candidate_count == candidates@.len(),
{
    let (ranked, below) = post_process(scored, candidates, cfg);
    RankingOutput {
        tour_candidates: ranked,
        meta: RankingMeta {
            prompt_version: cfg.prompt_version.clone(),
            model_id,
            generated_at_utc,
            candidate_count: candidates.len(),
            below_target_min: below,
        },
    }
}

} // verus!
