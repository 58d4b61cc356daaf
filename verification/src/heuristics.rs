//! Commit-message heuristics: revert subjects, reverted hashes, fix-flavoured
//! subjects and incident references.
use vstd::prelude::*;

use crate::mining_types::append_new;
use crate::patterns::{
    opt_view, regex_all_capture_pairs, regex_capture, regex_capture_pairs, regex_first_capture,
    regex_is_match, regex_matches, to_uppercase, upper,
};
use crate::text::{strs, trim, trim_str};

verus! {

/// The subject line `git revert` generates: `Revert "Original subject"`.
pub const REVERT_SUBJECT_PATTERN: &'static str = "^Revert\\s+\"(.+)\"\\s*$";

/// The body line `git revert` appends: `This reverts commit <sha>.`
pub const REVERT_BODY_PATTERN: &'static str = "This reverts commit ([0-9a-fA-F]{7,40})";

/// JIRA-style keys (ABC-123) in group 1, bare issue refs (#123) in group 2.
pub const INCIDENT_REF_PATTERN: &'static str = "(?i)\\b([A-Z]{2,10}-\\d+)\\b|(#\\d+)\\b";

/// Words that mark a bugfix subject.
pub const FIX_SUBJECT_PATTERN: &'static str = "(?i)\\b(fix|fixes|fixed|hotfix|patch)\\b";

/// True if the commit subject looks like a `git revert`-generated commit.
pub fn is_revert_message(subject: &str) -> (r: bool)
    ensures
        r == regex_is_match(REVERT_SUBJECT_PATTERN@, trim(subject@)),
{
    let t = trim_str(subject);
    regex_matches(REVERT_SUBJECT_PATTERN, t.as_str())
}

/// Pulls the reverted commit hash out of a revert commit's full message, if present.
pub fn extract_reverted_hash(full_message: &str) -> (r: Option<String>)
    ensures
        opt_view(r) == regex_capture(REVERT_BODY_PATTERN@, full_message@, 1),
{
    let r = regex_first_capture(REVERT_BODY_PATTERN, full_message, 1);
    r
}

/// True if the commit subject reads like a bugfix.
pub fn is_fix_message(subject: &str) -> (r: bool)
    ensures
        r == regex_is_match(FIX_SUBJECT_PATTERN@, subject@),
{
    regex_matches(FIX_SUBJECT_PATTERN, subject)
}

/// The reference text of one match: group 1 when it took part, else group 2.
pub open spec fn pick_group(p: (Option<Seq<char>>, Option<Seq<char>>)) -> Option<Seq<char>> {
    match p.0 {
        Some(a) => Some(a),
        None => p.1,
    }
}

/// The uppercased reference texts of the matches, in order (a match in which
/// neither group took part contributes nothing).
pub open spec fn upper_refs(pairs: Seq<(Option<Seq<char>>, Option<Seq<char>>)>) -> Seq<Seq<char>>
    decreases pairs.len(),
{
    if pairs.len() == 0 {
        Seq::empty()
    } else {
        let prev = upper_refs(pairs.drop_last());
        match pick_group(pairs.last()) {
            Some(t) => prev.push(upper(t)),
            None => prev,
        }
    }
}

/// The incident references of a message: uppercased, first occurrences only,
/// in order of appearance.
pub open spec fn incident_refs_of(message: Seq<char>) -> Seq<Seq<char>> {
    append_new(Seq::empty(), upper_refs(regex_capture_pairs(INCIDENT_REF_PATTERN@, message)))
}

/// Extracts incident/bug-number references from a commit message. Deduped, order-preserved.
pub fn extract_incident_refs(message: &str) -> (out: Vec<String>)
    ensures
        strs(out@) == incident_refs_of(message@),
{
    let pairs = regex_all_capture_pairs(INCIDENT_REF_PATTERN, message);
    let ghost pv = pairs@.map_values(
        |p: (Option<String>, Option<String>)| (opt_view(p.0), opt_view(p.1)),
    );
    let mut refs: Vec<String> = Vec::new();
    let mut i: usize = 0;
    while i < pairs.len()
        invariant
            i <= pairs.len(),
            pv == pairs@.map_values(
                |p: (Option<String>, Option<String>)| (opt_view(p.0), opt_view(p.1)),
            ),
            strs(refs@) == upper_refs(pv.take(i as int)),
        decreases pairs.len() - i,
    {
        assert(pv.take(i + 1).drop_last() =~= pv.take(i as int));
        assert(pv.take(i + 1).last() == pv[i as int]);
        let picked: Option<&String> = match &pairs[i].0 {
            Some(a) => Some(a),
            None => match &pairs[i].1 {
                Some(b) => Some(b),
                None => None,
            },
        };
        match picked {
            Some(t) => {
                let u = to_uppercase(t.as_str());
                refs.push(u);
                assert(strs(refs@) =~= upper_refs(pv.take(i as int)).push(upper(t@)));
            },
            None => {},
        }
        i += 1;
    }
    assert(pv.take(pairs@.len() as int) =~= pv);
    let mut out: Vec<String> = Vec::new();
    proof {
        assert(strs(out@) =~= Seq::<Seq<char>>::empty());
    }
    crate::mining_types::extend_unique(&mut out, &refs);
    out
}

pub proof fn lemma_append_new_no_dups(acc: Seq<Seq<char>>, rest: Seq<Seq<char>>)
    requires
        acc.no_duplicates(),
    ensures
        append_new(acc, rest).no_duplicates(),
    decreases rest.len(),
{
    if rest.len() > 0 {
        lemma_append_new_no_dups(acc, rest.drop_last());
        let prev = append_new(acc, rest.drop_last());
        if !prev.contains(rest.last()) {
            let p2 = prev.push(rest.last());
            assert forall|i: int, j: int|
                0 <= i < p2.len() && 0 <= j < p2.len() && i != j implies p2[i] != p2[j] by {
                if i == prev.len() {
                    assert(p2[j] == prev[j]);
                } else if j == prev.len() {
                    assert(p2[i] == prev[i]);
                }
            }
        }
    }
}

/// The incident references extracted from a message never repeat.
pub proof fn law_incident_refs_distinct(message: Seq<char>)
    ensures
        incident_refs_of(message).no_duplicates(),
{
    lemma_append_new_no_dups(
        Seq::empty(),
        upper_refs(regex_capture_pairs(INCIDENT_REF_PATTERN@, message)),
    );
}

} // verus!
