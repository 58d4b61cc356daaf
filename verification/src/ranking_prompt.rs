//! The stage-4 ranking prompt: project context, scoring instructions, and one
//! evidence block per candidate, with its commit summary when there is one.
use vstd::prelude::*;

use crate::mining_types::FileChangeView;
use crate::ranking_types::{candidate_views, CandidateInput, CandidateInputView};
use crate::render::{
    bool_string, bool_text, clip, clipped, debug_list, debug_opt_count, debug_opt_count_string,
    debug_string_list, find_entry, find_key, lemma_find_key_last,
};
use crate::prompt_laws::{
    debug_lists_single_line, law_ranking_prompt_lists_candidates, printable_candidate,
    printable_fields, printable_summaries, text_hashes,
};
use crate::stages::{CommitSummary, CommitSummaryView};
use crate::text::{dec, join, join_strings, push_str, single_line, u64_to_string};
use crate::tour::file_paths;

verus! {

broadcast use vstd::string::group_string_axioms;

/// Per-field cap on commit-summary text, so one verbose summary cannot crowd
/// out the rest of a large candidate set.
pub const SUMMARY_FIELD_CAP: usize = 240;

/// Scoring instructions of the ranking prompt, up to the entry limit.
pub const RANKING_INSTRUCTIONS: &'static str = "You are ranking candidate git commits for a new-hire onboarding tour.\nScore each on these axes — NOT on diff size:\n- Architecture-shaping (introduced/replaced a pattern)\n- Revert / revert chain (tried and undone — high narrative value)\n- Incident-linked fix (references a bug, outage, or incident)\n- Discussion richness (gnarly PR review, many comments)\nDownweight: dependency bumps, formatting passes, lockfile-only commits.\n\nReturn JSON: {\"candidates\":[{\"commit_hash\",\"score\"(0..1),\"architecture_shaping\"(bool),\"rationale\",\"evidence_summary\"}]}\nReturn at most ";

/// The commit summaries by commit hash, as characters.
pub open spec fn commit_summary_views(v: Seq<(String, CommitSummary)>) -> Seq<
    (Seq<char>, CommitSummaryView),
> {
    v.map_values(|e: (String, CommitSummary)| (e.0@, e.1@))
}

/// The project context paragraph, absent when there is no project summary.
pub open spec fn context_block(project_summary: Seq<char>) -> Seq<char> {
    if project_summary.len() == 0 {
        Seq::empty()
    } else {
        "PROJECT CONTEXT\n"@ + project_summary + "\n\n"@
    }
}

/// The commit summary lines under a candidate, each field clipped.
pub open spec fn summary_block(s: Option<CommitSummaryView>) -> Seq<char> {
    match s {
        Some(cs) => "  summary:\n"@ + "    changed:  "@ + clipped(
            cs.what_changed,
            SUMMARY_FIELD_CAP as nat,
        ) + "\n"@ + "    why:      "@ + clipped(cs.why, SUMMARY_FIELD_CAP as nat) + "\n"@
            + "    takeaway: "@ + clipped(cs.takeaway, SUMMARY_FIELD_CAP as nat) + "\n"@,
        None => Seq::empty(),
    }
}

/// Hash, subject, subsystems and files of one candidate.
pub open spec fn identity_lines(c: CandidateInputView) -> Seq<char> {
    "- hash: "@ + c.commit.hash + "\n  subject: "@ + c.commit.message_summary
        + "\n  subsystems: "@ + debug_list(c.commit.subsystems) + "\n  files: "@ + join(
        c.commit.files_changed.map_values(|f: FileChangeView| f.path),
        ", "@,
    )
}

/// The three heuristic flags of one candidate.
pub open spec fn flag_fields(c: CandidateInputView) -> Seq<char> {
    "\n  signals: revert="@ + bool_text(c.commit.heuristics.is_revert) + " was_reverted="@
        + bool_text(c.commit.heuristics.was_reverted) + " repeated_fix="@ + bool_text(
        c.commit.heuristics.touches_repeated_fix_file,
    )
}

/// Incident references, PR comment count and linked issues of one candidate.
pub open spec fn link_fields(c: CandidateInputView) -> Seq<char> {
    " incidents="@ + debug_list(c.commit.heuristics.incident_refs) + " pr_comments="@
        + debug_opt_count(c.pr.pr_comment_count) + " pr_links="@ + debug_list(c.pr.linked_issues)
}

/// The heuristic and PR signals of one candidate.
pub open spec fn signal_line(c: CandidateInputView) -> Seq<char> {
    flag_fields(c) + link_fields(c) + "\n"@
}

/// The raw evidence lines of one candidate.
pub open spec fn evidence_block(c: CandidateInputView) -> Seq<char> {
    identity_lines(c) + signal_line(c)
}

/// Every candidate's evidence, each followed by its commit summary when the
/// summaries hold one for its hash.
pub open spec fn candidate_blocks(
    cs: Seq<CandidateInputView>,
    summaries: Seq<(Seq<char>, CommitSummaryView)>,
) -> Seq<char>
    decreases cs.len(),
{
    if cs.len() == 0 {
        Seq::empty()
    } else {
        candidate_blocks(cs.drop_last(), summaries) + evidence_block(cs.last()) + summary_block(
            find_key(summaries, cs.last().commit.hash),
        )
    }
}

/// Everything before the candidates: context, instructions and entry limit.
pub open spec fn ranking_header(project_summary: Seq<char>, target_max: nat) -> Seq<char> {
    context_block(project_summary) + RANKING_INSTRUCTIONS@ + dec(target_max)
        + " entries, highest first.\n\nCANDIDATES:\n"@
}

/// The whole ranking prompt.
pub open spec fn ranking_prompt_of(
    cs: Seq<CandidateInputView>,
    summaries: Seq<(Seq<char>, CommitSummaryView)>,
    project_summary: Seq<char>,
    target_max: nat,
) -> Seq<char> {
    ranking_header(project_summary, target_max) + candidate_blocks(cs, summaries)
}

fn push_identity_lines(out: &mut String, c: &CandidateInput)
    ensures
        final(out)@ == old(out)@ + identity_lines(c@),
        single_line(debug_list(c@.commit.subsystems)),
{
    let ghost start = out@;
    push_str(out, "- hash: ");
    push_str(out, c.commit.hash.as_str());
    push_str(out, "\n  subject: ");
    push_str(out, c.commit.message_summary.as_str());
    let ghost mid = out@;
    assert(mid =~= start + "- hash: "@ + c@.commit.hash + "\n  subject: "@
        + c@.commit.message_summary);
    push_str(out, "\n  subsystems: ");
    let subs = debug_string_list(&c.commit.subsystems);
    push_str(out, subs.as_str());
    push_str(out, "\n  files: ");
    let paths = file_paths(&c.commit.files_changed);
    let files = join_strings(&paths, ", ");
    push_str(out, files.as_str());
    assert(out@ =~= mid + "\n  subsystems: "@ + debug_list(c@.commit.subsystems)
        + "\n  files: "@ + join(
        c@.commit.files_changed.map_values(|f: FileChangeView| f.path),
        ", "@,
    ));
    assert(out@ =~= start + identity_lines(c@));
}

fn push_flag_fields(out: &mut String, c: &CandidateInput)
    ensures
        final(out)@ == old(out)@ + flag_fields(c@),
{
    let ghost start = out@;
    push_str(out, "\n  signals: revert=");
    let b1 = bool_string(c.commit.heuristics.is_revert);
    push_str(out, b1.as_str());
    push_str(out, " was_reverted=");
    let b2 = bool_string(c.commit.heuristics.was_reverted);
    push_str(out, b2.as_str());
    push_str(out, " repeated_fix=");
    let b3 = bool_string(c.commit.heuristics.touches_repeated_fix_file);
    push_str(out, b3.as_str());
    assert(out@ =~= start + flag_fields(c@));
}

fn push_link_fields(out: &mut String, c: &CandidateInput)
    ensures
        final(out)@ == old(out)@ + link_fields(c@),
        single_line(debug_list(c@.commit.heuristics.incident_refs)),
        single_line(debug_list(c@.pr.linked_issues)),
{
    let ghost start = out@;
    push_str(out, " incidents=");
    let inc = debug_string_list(&c.commit.heuristics.incident_refs);
    push_str(out, inc.as_str());
    push_str(out, " pr_comments=");
    let pc = debug_opt_count_string(c.pr.pr_comment_count);
    push_str(out, pc.as_str());
    push_str(out, " pr_links=");
    let links = debug_string_list(&c.pr.linked_issues);
    push_str(out, links.as_str());
    assert(out@ =~= start + link_fields(c@));
}

fn push_signal_line(out: &mut String, c: &CandidateInput)
    ensures
        final(out)@ == old(out)@ + signal_line(c@),
        single_line(debug_list(c@.commit.heuristics.incident_refs)),
        single_line(debug_list(c@.pr.linked_issues)),
{
    let ghost start = out@;
    push_flag_fields(out, c);
    push_link_fields(out, c);
    push_str(out, "\n");
    assert(out@ =~= start + signal_line(c@));
}

fn push_evidence_block(out: &mut String, c: &CandidateInput)
    ensures
        final(out)@ == old(out)@ + evidence_block(c@),
        debug_lists_single_line(c@),
{
    let ghost start = out@;
    push_identity_lines(out, c);
    push_signal_line(out, c);
    assert(out@ =~= start + evidence_block(c@));
}

fn push_summary_block(out: &mut String, s: &CommitSummary)
    ensures
        final(out)@ == old(out)@ + summary_block(Some(s@)),
{
    let ghost start = out@;
    push_str(out, "  summary:\n");
    push_str(out, "    changed:  ");
    let a = clip(s.what_changed.as_str(), SUMMARY_FIELD_CAP);
    push_str(out, a.as_str());
    push_str(out, "\n");
    push_str(out, "    why:      ");
    let b = clip(s.why.as_str(), SUMMARY_FIELD_CAP);
    push_str(out, b.as_str());
    push_str(out, "\n");
    push_str(out, "    takeaway: ");
    let t = clip(s.takeaway.as_str(), SUMMARY_FIELD_CAP);
    push_str(out, t.as_str());
    push_str(out, "\n");
    assert(out@ =~= start + summary_block(Some(s@)));
}

/// Builds the Stage 4 ranking prompt. Where a commit summary exists for a
/// candidate (the last entry with its hash), its prose, clipped, follows the raw
/// signals; with no summaries the prompt is the raw signal blocks alone.
pub fn build_ranking_prompt(
    candidates: &[CandidateInput],
    commit_summaries: &Vec<(String, CommitSummary)>,
    project_summary: &str,
    target_max: usize,
) -> (r: String)
    ensures
        r@ == ranking_prompt_of(
            candidate_views(candidates@),
            commit_summary_views(commit_summaries@),
            project_summary@,
            target_max as nat,
        ),
        (forall|i: int|
            0 <= i < candidates@.len() ==> printable_fields(
                #[trigger] candidate_views(candidates@)[i],
            )) && printable_summaries(commit_summary_views(commit_summaries@)) ==> text_hashes(
            r@,
        ) == text_hashes(project_summary@) + candidate_views(candidates@).map_values(
            |c: CandidateInputView| c.commit.hash,
        ),
{
    let ghost cs = candidate_views(candidates@);
    let ghost sv = commit_summary_views(commit_summaries@);
    let mut out = String::new();
    if !project_summary.is_empty() {
        push_str(&mut out, "PROJECT CONTEXT\n");
        push_str(&mut out, project_summary);
        push_str(&mut out, "\n\n");
    }
    assert(out@ =~= context_block(project_summary@));
    push_str(&mut out, RANKING_INSTRUCTIONS);
    let n = u64_to_string(target_max as u64);
    push_str(&mut out, n.as_str());
    push_str(&mut out, " entries, highest first.\n\nCANDIDATES:\n");
    let ghost head = out@;
    let mut i: usize = 0;
    while i < candidates.len()
        invariant
            i <= candidates@.len(),
            cs == candidate_views(candidates@),
            sv == commit_summary_views(commit_summaries@),
            out@ == head + candidate_blocks(cs.take(i as int), sv),
            forall|j: int| 0 <= j < i ==> debug_lists_single_line(#[trigger] cs[j]),
        decreases candidates.len() - i,
    {
        let c = &candidates[i];
        push_evidence_block(&mut out, c);
        assert(cs[i as int] == candidates@[i as int]@);
        let found = find_entry(commit_summaries, c.commit.hash.as_str());
        proof {
            let k: int = match found {
                Some(j) => j as int,
                None => -1,
            };
            assert forall|j: int| k < j < sv.len() implies #[trigger] sv[j].0 != c.commit.hash@ by {
                assert(sv[j].0 == commit_summaries@[j].0@);
            }
            lemma_find_key_last(sv, c.commit.hash@, k);
        }
        match found {
            Some(j) => {
                push_summary_block(&mut out, &commit_summaries[j].1);
            },
            None => {},
        }
        proof {
            assert(cs.take(i + 1).drop_last() =~= cs.take(i as int));
            assert(cs.take(i + 1).last() == cs[i as int]);
        }
        i += 1;
    }
    assert(cs.take(candidates@.len() as int) =~= cs);
    proof {
        if (forall|i: int| 0 <= i < cs.len() ==> printable_fields(#[trigger] cs[i]))
            && printable_summaries(sv) {
            assert forall|i: int| 0 <= i < cs.len() implies printable_candidate(#[trigger] cs[i]) by {
                assert(printable_fields(cs[i]));
                assert(debug_lists_single_line(cs[i]));
            }
            law_ranking_prompt_lists_candidates(cs, sv, project_summary@, target_max as nat);
        }
    }
    out
}

} // verus!
