//! What the per-worker pre-filter promises: every commit with a revert, an
//! incident reference or a revert pointing at it is kept, each kept record
//! carries its commit's own data and flags, and nothing without a signal is
//! kept.
use vstd::prelude::*;

use crate::mining_types::{flags_candidate, CommitRecordView};
use crate::worker::{candidates_upto, flags_for, record_for, RawCommitView};

verus! {

proof fn lemma_candidates_trace(raw: Seq<RawCommitView>, k: int, subsystem: Seq<char>)
    requires
        0 <= k <= raw.len(),
    ensures
        forall|q: int|
            0 <= q < candidates_upto(raw, k, subsystem).len() ==> exists|i: int|
                0 <= i < k && (#[trigger] candidates_upto(raw, k, subsystem)[q]) == record_for(
                    raw,
                    raw[i],
                    subsystem,
                ) && flags_candidate(flags_for(raw, raw[i])),
        forall|i: int|
            0 <= i < k && flags_candidate(flags_for(raw, #[trigger] raw[i])) ==> exists|q: int|
                0 <= q < candidates_upto(raw, k, subsystem).len() && candidates_upto(
                    raw,
                    k,
                    subsystem,
                )[q] == record_for(raw, raw[i], subsystem),
    decreases k,
{
    if k > 0 {
        lemma_candidates_trace(raw, k - 1, subsystem);
        let prev = candidates_upto(raw, k - 1, subsystem);
        let cur = candidates_upto(raw, k, subsystem);
        assert forall|q: int| 0 <= q < prev.len() implies #[trigger] cur[q] == prev[q] by {}
        assert forall|q: int| 0 <= q < cur.len() implies exists|i: int|
            0 <= i < k && (#[trigger] cur[q]) == record_for(raw, raw[i], subsystem) && flags_candidate(
                flags_for(raw, raw[i]),
            ) by {
            if q < prev.len() {
                assert(cur[q] == prev[q]);
                let i = choose|i: int|
                    0 <= i < k - 1 && (#[trigger] prev[q]) == record_for(raw, raw[i], subsystem)
                        && flags_candidate(flags_for(raw, raw[i]));
            } else {
                assert(cur[q] == record_for(raw, raw[k - 1], subsystem));
            }
        }
        assert forall|i: int| 0 <= i < k && flags_candidate(flags_for(raw, #[trigger] raw[i])) implies exists|q: int|
            0 <= q < cur.len() && cur[q] == record_for(raw, raw[i], subsystem) by {
            if i < k - 1 {
                let q = choose|q: int| 0 <= q < prev.len() && prev[q] == record_for(raw, raw[i], subsystem);
                assert(cur[q] == prev[q]);
            } else {
                assert(cur[prev.len() as int] == record_for(raw, raw[i], subsystem));
            }
        }
    }
}

/// The record of commit `c` for `subsystem`: the commit's own hash, subject,
/// files, revert data and incident references, tagged with the subsystem.
pub open spec fn carries_commit(r: CommitRecordView, c: RawCommitView, subsystem: Seq<char>) -> bool {
    &&& r.hash == c.hash
    &&& r.parent_hashes == c.parent_hashes
    &&& r.message_summary == c.subject
    &&& r.files_changed == c.files
    &&& r.subsystems == seq![subsystem]
    &&& r.heuristics.is_revert == c.is_revert
    &&& r.heuristics.reverts_commit == c.reverts_hash
    &&& r.heuristics.incident_refs == c.incident_refs
}

/// The pre-filter keeps every commit that is a revert, names an incident, or
/// is named by another commit's revert, with its own data and flags (a
/// commit named by a revert is flagged as reverted); every kept record is some
/// commit's, with at least one signal among its flags.
pub proof fn law_prefilter_keeps_signals(raw: Seq<RawCommitView>, subsystem: Seq<char>)
    ensures
        forall|i: int|
            0 <= i < raw.len() && ((#[trigger] raw[i]).is_revert || raw[i].incident_refs.len() > 0)
                ==> exists|q: int|
                0 <= q < candidates_upto(raw, raw.len() as int, subsystem).len() && carries_commit(
                    candidates_upto(raw, raw.len() as int, subsystem)[q],
                    raw[i],
                    subsystem,
                ),
        forall|i: int, j: int|
            0 <= i < raw.len() && 0 <= j < raw.len() && (#[trigger] raw[j]).reverts_hash == Some(
                (#[trigger] raw[i]).hash,
            ) ==> exists|q: int|
                0 <= q < candidates_upto(raw, raw.len() as int, subsystem).len() && carries_commit(
                    candidates_upto(raw, raw.len() as int, subsystem)[q],
                    raw[i],
                    subsystem,
                ) && candidates_upto(raw, raw.len() as int, subsystem)[q].heuristics.was_reverted,
        forall|q: int|
            0 <= q < candidates_upto(raw, raw.len() as int, subsystem).len() ==> {
                let r = #[trigger] candidates_upto(raw, raw.len() as int, subsystem)[q];
                &&& exists|i: int| 0 <= i < raw.len() && carries_commit(r, raw[i], subsystem)
                &&& (r.heuristics.is_revert || r.heuristics.was_reverted
                    || r.heuristics.touches_repeated_fix_file || r.heuristics.incident_refs.len() > 0)
            },
{
    let n = raw.len() as int;
    let out = candidates_upto(raw, n, subsystem);
    lemma_candidates_trace(raw, n, subsystem);
    assert forall|i: int|
        0 <= i < raw.len() && ((#[trigger] raw[i]).is_revert || raw[i].incident_refs.len() > 0)
            implies exists|q: int| 0 <= q < out.len() && carries_commit(out[q], raw[i], subsystem) by {
        assert(flags_candidate(flags_for(raw, raw[i])));
        let q = choose|q: int| 0 <= q < out.len() && out[q] == record_for(raw, raw[i], subsystem);
        assert(carries_commit(out[q], raw[i], subsystem));
    }
    assert forall|i: int, j: int|
        0 <= i < raw.len() && 0 <= j < raw.len() && (#[trigger] raw[j]).reverts_hash == Some(
            (#[trigger] raw[i]).hash,
        ) implies exists|q: int|
        0 <= q < out.len() && carries_commit(out[q], raw[i], subsystem)
            && out[q].heuristics.was_reverted by {
        let h = raw[i].hash;
        assert(h.subrange(0, h.len() as int) =~= h);
        assert(flags_for(raw, raw[i]).was_reverted);
        assert(flags_candidate(flags_for(raw, raw[i])));
        let q = choose|q: int| 0 <= q < out.len() && out[q] == record_for(raw, raw[i], subsystem);
        assert(carries_commit(out[q], raw[i], subsystem));
    }
    assert forall|q: int| 0 <= q < out.len() implies {
        let r = #[trigger] out[q];
        &&& exists|i: int| 0 <= i < raw.len() && carries_commit(r, raw[i], subsystem)
        &&& (r.heuristics.is_revert || r.heuristics.was_reverted
            || r.heuristics.touches_repeated_fix_file || r.heuristics.incident_refs.len() > 0)
    } by {
        let i = choose|i: int|
            0 <= i < n && (#[trigger] out[q]) == record_for(raw, raw[i], subsystem) && flags_candidate(
                flags_for(raw, raw[i]),
            );
        assert(carries_commit(out[q], raw[i], subsystem));
    }
}

} // verus!
