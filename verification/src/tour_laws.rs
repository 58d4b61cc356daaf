//! What joining the ranking with the mining output promises of the stops.
use vstd::prelude::*;

use crate::mining_types::CommitRecordView;
use crate::ranking_types::RankedCandidateView;
use crate::mining_types::HeuristicFlagsView;
use crate::text::join;
use crate::tour::{narration_prompt, planned_stops, trigger_name, triggers_of, StopStubView, TriggerKind};

verus! {

/// Every planned stop comes from a ranked candidate: its sequence is that
/// candidate's rank.
proof fn lemma_planned_from_cands(
    cands: Seq<RankedCandidateView>,
    commits: Seq<CommitRecordView>,
    fetch: bool,
    i: int,
)
    requires
        0 <= i < planned_stops(cands, commits, fetch).len(),
    ensures
        exists|k: int|
            0 <= k < cands.len() && planned_stops(cands, commits, fetch)[i].stub.sequence
                == #[trigger] cands[k].rank,
    decreases cands.len(),
{
    let prev = planned_stops(cands.drop_last(), commits, fetch);
    if i < prev.len() {
        lemma_planned_from_cands(cands.drop_last(), commits, fetch, i);
        let k = choose|k: int|
            0 <= k < cands.len() - 1 && prev[i].stub.sequence == #[trigger] cands.drop_last()[k].rank;
        assert(cands.drop_last()[k] == cands[k]);
        assert(planned_stops(cands, commits, fetch)[i] == prev[i]);
    } else {
        assert(planned_stops(cands, commits, fetch)[i].stub.sequence == cands[cands.len() - 1].rank);
    }
}

/// The stops keep the ranking's order: when the ranked candidates come with
/// increasing ranks, the planned stops' sequence numbers increase too.
pub proof fn law_stops_in_rank_order(
    cands: Seq<RankedCandidateView>,
    commits: Seq<CommitRecordView>,
    fetch: bool,
)
    requires
        forall|i: int, j: int| 0 <= i < j < cands.len() ==> (#[trigger] cands[i]).rank < (#[trigger] cands[j]).rank,
    ensures
        forall|i: int, j: int|
            0 <= i < j < planned_stops(cands, commits, fetch).len() ==> (#[trigger] planned_stops(
                cands,
                commits,
                fetch,
            )[i]).stub.sequence < (#[trigger] planned_stops(cands, commits, fetch)[j]).stub.sequence,
    decreases cands.len(),
{
    if cands.len() > 0 {
        let d = cands.drop_last();
        assert forall|i: int, j: int| 0 <= i < j < d.len() implies (#[trigger] d[i]).rank < (
        #[trigger] d[j]).rank by {
            assert(d[i] == cands[i] && d[j] == cands[j]);
        }
        law_stops_in_rank_order(d, commits, fetch);
        let prev = planned_stops(d, commits, fetch);
        let p = planned_stops(cands, commits, fetch);
        assert forall|i: int, j: int| 0 <= i < j < p.len() implies (#[trigger] p[i]).stub.sequence < (
        #[trigger] p[j]).stub.sequence by {
            assert(p[i] == prev[i]);
            if j < prev.len() {
                assert(p[j] == prev[j]);
            } else {
                lemma_planned_from_cands(d, commits, fetch, i);
                let k = choose|k: int| 0 <= k < d.len() && prev[i].stub.sequence == #[trigger] d[k].rank;
                assert(d[k] == cands[k]);
                assert(p[j].stub.sequence == cands[cands.len() - 1].rank);
            }
        }
    }
}

/// The fixed position of each trigger kind in a stop's trigger list.
pub open spec fn trigger_order(t: TriggerKind) -> int {
    match t {
        TriggerKind::Revert => 0,
        TriggerKind::WasReverted => 1,
        TriggerKind::RepeatedFix => 2,
        TriggerKind::IncidentLinked => 3,
        TriggerKind::ArchitectureShaping => 4,
    }
}

/// Trigger kinds in strictly increasing fixed order.
pub open spec fn in_kind_order(s: Seq<TriggerKind>) -> bool {
    forall|i: int, j: int| 0 <= i < j < s.len() ==> trigger_order(#[trigger] s[i]) < trigger_order(#[trigger] s[j])
}

proof fn lemma_push_if(s: Seq<TriggerKind>, flag: bool, x: TriggerKind) -> (r: Seq<TriggerKind>)
    requires
        in_kind_order(s),
        forall|k: int| 0 <= k < s.len() ==> trigger_order(#[trigger] s[k]) < trigger_order(x),
    ensures
        r == (if flag { s + seq![x] } else { s + Seq::<TriggerKind>::empty() }),
        in_kind_order(r),
        forall|k: int| 0 <= k < r.len() ==> trigger_order(#[trigger] r[k]) <= trigger_order(x),
        forall|y: TriggerKind| #[trigger] r.contains(y) <==> (s.contains(y) || (flag && y == x)),
{
    let r = if flag { s + seq![x] } else { s + Seq::<TriggerKind>::empty() };
    if flag {
        assert(r =~= s.push(x));
        assert forall|y: TriggerKind| #[trigger] r.contains(y) <==> (s.contains(y) || y == x) by {
            if r.contains(y) {
                let k = choose|k: int| 0 <= k < r.len() && r[k] == y;
                if k < s.len() {
                    assert(r[k] == s[k]);
                }
            }
            if s.contains(y) {
                let k = choose|k: int| 0 <= k < s.len() && s[k] == y;
                assert(r[k] == s[k]);
            }
            if y == x {
                assert(r[s.len() as int] == x);
            }
        }
    } else {
        assert(r =~= s);
    }
    r
}

/// A stop's triggers name exactly the heuristics that fired: a revert, a
/// commit that was later reverted, a repeated-fix file, incident references;
/// architecture-shaping appears when the model flagged it or when nothing
/// else fired. Each appears once, in the fixed order of the kinds.
#[verifier::spinoff_prover]
#[verifier::rlimit(30)]
pub proof fn law_triggers_follow_flags(h: HeuristicFlagsView, architecture_shaping: bool)
    ensures
        triggers_of(h, architecture_shaping).contains(TriggerKind::Revert) <==> h.is_revert,
        triggers_of(h, architecture_shaping).contains(TriggerKind::WasReverted) <==> h.was_reverted,
        triggers_of(h, architecture_shaping).contains(TriggerKind::RepeatedFix)
            <==> h.touches_repeated_fix_file,
        triggers_of(h, architecture_shaping).contains(TriggerKind::IncidentLinked)
            <==> h.incident_refs.len() > 0,
        triggers_of(h, architecture_shaping).contains(TriggerKind::ArchitectureShaping)
            <==> (architecture_shaping || !(h.is_revert || h.was_reverted
            || h.touches_repeated_fix_file || h.incident_refs.len() > 0)),
        in_kind_order(triggers_of(h, architecture_shaping)),
{
    let e = Seq::<TriggerKind>::empty();
    let s1 = lemma_push_if(e, h.is_revert, TriggerKind::Revert);
    let s2 = lemma_push_if(s1, h.was_reverted, TriggerKind::WasReverted);
    let s3 = lemma_push_if(s2, h.touches_repeated_fix_file, TriggerKind::RepeatedFix);
    let s4 = lemma_push_if(s3, h.incident_refs.len() > 0, TriggerKind::IncidentLinked);
    let s5 = lemma_push_if(s4, architecture_shaping, TriggerKind::ArchitectureShaping);
    let r = triggers_of(h, architecture_shaping);
    assert(s1 =~= (if h.is_revert { seq![TriggerKind::Revert] } else { e }));
    if s5.len() == 0 {
        assert(!s5.contains(TriggerKind::Revert));
        assert(!s5.contains(TriggerKind::WasReverted));
        assert(!s5.contains(TriggerKind::RepeatedFix));
        assert(!s5.contains(TriggerKind::IncidentLinked));
        assert(!s5.contains(TriggerKind::ArchitectureShaping));
        assert(r =~= seq![TriggerKind::ArchitectureShaping]);
        assert(r[0] == TriggerKind::ArchitectureShaping);
        assert forall|y: TriggerKind| #[trigger] r.contains(y) <==> y == TriggerKind::ArchitectureShaping by {
            if r.contains(y) {
                let k = choose|k: int| 0 <= k < r.len() && r[k] == y;
            }
        }
    } else {
        assert(r == s5);
    }
}

/// `x` occurs in `s` as a contiguous run of characters.
pub open spec fn has_infix(s: Seq<char>, x: Seq<char>) -> bool {
    exists|i: int| 0 <= i && i + x.len() <= s.len() && #[trigger] s.subrange(i, i + x.len()) == x
}

proof fn lemma_infix_of(a: Seq<char>, x: Seq<char>, b: Seq<char>)
    ensures
        has_infix(a + x + b, x),
{
    let s = a + x + b;
    assert(s.subrange(a.len() as int, (a.len() + x.len()) as int) =~= x);
}

/// Each part of a joined text occurs in it.
proof fn lemma_join_has_part(parts: Seq<Seq<char>>, sep: Seq<char>, k: int) -> (ab: (Seq<char>, Seq<char>))
    requires
        0 <= k < parts.len(),
    ensures
        join(parts, sep) == ab.0 + parts[k] + ab.1,
    decreases parts.len(),
{
    if parts.len() == 1 {
        assert(join(parts, sep) =~= Seq::<char>::empty() + parts[k] + Seq::<char>::empty());
        (Seq::empty(), Seq::empty())
    } else if k == parts.len() - 1 {
        let a = join(parts.drop_last(), sep) + sep;
        assert(join(parts, sep) =~= a + parts[k] + Seq::<char>::empty());
        (a, Seq::empty())
    } else {
        let (a, b) = lemma_join_has_part(parts.drop_last(), sep, k);
        assert(parts.drop_last()[k] == parts[k]);
        let b2 = b + sep + parts.last();
        assert(join(parts, sep) =~= a + parts[k] + b2);
        (a, b2)
    }
}

/// The narration prompt has a line `SELECTION TRIGGERS: ` naming every
/// trigger of the stop, in order, separated by `, `; each trigger's name
/// occurs in that line.
#[verifier::spinoff_prover]
pub proof fn law_narration_prompt_names_triggers(
    stub: StopStubView,
    diff_excerpt: Seq<char>,
    others: Seq<Seq<char>>,
)
    ensures
        has_infix(
            narration_prompt(stub, diff_excerpt, others),
            "\nSELECTION TRIGGERS: "@ + join(
                stub.triggered_by.map_values(|t: TriggerKind| trigger_name(t)),
                ", "@,
            ) + "\n"@,
        ),
        forall|k: int|
            0 <= k < stub.triggered_by.len() ==> has_infix(
                join(stub.triggered_by.map_values(|t: TriggerKind| trigger_name(t)), ", "@),
                trigger_name(#[trigger] stub.triggered_by[k]),
            ),
{
    let names = stub.triggered_by.map_values(|t: TriggerKind| trigger_name(t));
    let line = join(names, ", "@);
    let p = narration_prompt(stub, diff_excerpt, others);
    let pre = "COMMIT: "@ + stub.commit_hash + "\nSUBJECT: "@ + stub.message_summary
        + "\nSUBSYSTEMS: "@ + join(stub.subsystems, ", "@) + "\nFILES CHANGED: "@ + join(
        stub.files_changed,
        ", "@,
    );
    let post = p.subrange(
        (pre.len() + ("\n"@ + "SELECTION TRIGGERS: "@).len() + line.len() + 1) as int,
        p.len() as int,
    );
    reveal_strlit("\n");
    reveal_strlit("\nSELECTION TRIGGERS: ");
    reveal_strlit("SELECTION TRIGGERS: ");
    assert("\n"@ + "SELECTION TRIGGERS: "@ =~= "\nSELECTION TRIGGERS: "@);
    let x = "\nSELECTION TRIGGERS: "@ + line + "\n"@;
    assert(p =~= pre + x + post);
    lemma_infix_of(pre, x, post);
    assert forall|k: int| 0 <= k < stub.triggered_by.len() implies has_infix(
        line,
        trigger_name(#[trigger] stub.triggered_by[k]),
    ) by {
        let (a, b) = lemma_join_has_part(names, ", "@, k);
        lemma_infix_of(a, names[k], b);
    }
}

} // verus!
