//! What merging the workers' results promises: each commit once, every
//! worker's candidate present, newest first.
use vstd::prelude::*;

use crate::extraction::{
    by_time, fold_results, has_hash, hash_index, merge_into, merge_records, merged_record,
    unique_hashes, WorkerOutputView,
};
use crate::mining_types::{lemma_append_new_contains, merged_flags, CommitRecordView};
use crate::sorting::{
    lemma_seq_lt_irreflexive, lemma_seq_lt_transitive, lemma_sort_desc_contains,
    lemma_sort_desc_keys_distinct, lemma_sort_desc_len, lemma_sort_desc_sorted, seq_lt, sort_desc,
};

verus! {

proof fn lemma_merge_into_props(acc: Seq<CommitRecordView>, r: CommitRecordView)
    requires
        unique_hashes(acc),
    ensures
        unique_hashes(merge_into(acc, r)),
        has_hash(merge_into(acc, r), r.hash),
        forall|h: Seq<char>| has_hash(acc, h) ==> #[trigger] has_hash(merge_into(acc, r), h),
{
    let m = merge_into(acc, r);
    if has_hash(acc, r.hash) {
        let i = hash_index(acc, r.hash);
        assert(0 <= i < acc.len() && acc[i].hash == r.hash);
        assert(m[i].hash == acc[i].hash);
        assert forall|a: int| 0 <= a < m.len() implies (#[trigger] m[a]).hash == acc[a].hash by {
            if a == i {
                assert(merged_record(acc[i], r).hash == acc[i].hash);
            }
        }
        assert(has_hash(m, r.hash));
        assert forall|h: Seq<char>| has_hash(acc, h) implies #[trigger] has_hash(m, h) by {
            let a = choose|a: int| 0 <= a < acc.len() && (#[trigger] acc[a]).hash == h;
            assert(m[a].hash == h);
        }
    } else {
        assert(m[acc.len() as int] == r);
        assert forall|h: Seq<char>| has_hash(acc, h) implies #[trigger] has_hash(m, h) by {
            let a = choose|a: int| 0 <= a < acc.len() && (#[trigger] acc[a]).hash == h;
            assert(m[a] == acc[a]);
        }
        assert forall|a: int, b: int|
            0 <= a < m.len() && 0 <= b < m.len() && a != b implies (#[trigger] m[a]).hash != (
            #[trigger] m[b]).hash by {
            if a < acc.len() && b < acc.len() {
                assert(m[a] == acc[a] && m[b] == acc[b]);
            } else if a < acc.len() {
                assert(m[a] == acc[a]);
            } else {
                assert(m[b] == acc[b]);
            }
        }
    }
}

proof fn lemma_merge_records_props(acc: Seq<CommitRecordView>, rs: Seq<CommitRecordView>)
    requires
        unique_hashes(acc),
    ensures
        unique_hashes(merge_records(acc, rs)),
        forall|k: int| 0 <= k < rs.len() ==> has_hash(merge_records(acc, rs), (#[trigger] rs[k]).hash),
        forall|h: Seq<char>| has_hash(acc, h) ==> #[trigger] has_hash(merge_records(acc, rs), h),
    decreases rs.len(),
{
    if rs.len() > 0 {
        let prev = merge_records(acc, rs.drop_last());
        lemma_merge_records_props(acc, rs.drop_last());
        lemma_merge_into_props(prev, rs.last());
        assert forall|k: int| 0 <= k < rs.len() implies has_hash(
            merge_records(acc, rs),
            (#[trigger] rs[k]).hash,
        ) by {
            if k < rs.len() - 1 {
                assert(rs.drop_last()[k] == rs[k]);
                assert(has_hash(prev, rs[k].hash));
            }
        }
    }
}

/// The fold keeps one record per hash and holds every successful worker's
/// candidates.
proof fn lemma_fold_props(rs: Seq<Result<WorkerOutputView, Seq<char>>>)
    ensures
        fold_results(rs) matches Ok((names, total, recs)) ==> {
            &&& unique_hashes(recs)
            &&& forall|i: int, k: int|
                0 <= i < rs.len() && rs[i] is Ok && 0 <= k < rs[i]->Ok_0.candidates.len()
                    ==> has_hash(recs, #[trigger] rs[i]->Ok_0.candidates[k].hash)
        },
    decreases rs.len(),
{
    if rs.len() > 0 {
        lemma_fold_props(rs.drop_last());
        match fold_results(rs.drop_last()) {
            Err(_) => {},
            Ok((names, total, recs)) => match rs.last() {
                Err(_) => {},
                Ok(w) => {
                    lemma_merge_records_props(recs, w.candidates);
                    let out = merge_records(recs, w.candidates);
                    assert forall|i: int, k: int|
                        0 <= i < rs.len() && rs[i] is Ok && 0 <= k
                            < rs[i]->Ok_0.candidates.len() implies has_hash(
                        out,
                        #[trigger] rs[i]->Ok_0.candidates[k].hash,
                    ) by {
                        if i < rs.len() - 1 {
                            assert(rs.drop_last()[i] == rs[i]);
                            assert(has_hash(recs, rs[i]->Ok_0.candidates[k].hash));
                        } else {
                            assert(rs[i] == rs.last());
                            assert(has_hash(out, w.candidates[k].hash));
                        }
                    }
                },
            },
        }
    }
}

/// Merging the workers' results, when none failed, yields one record per
/// commit hash, keeps a record for every candidate any worker produced, and
/// orders the records newest first (no timestamp sorts after an earlier one's).
pub proof fn law_mining_merge(rs: Seq<Result<WorkerOutputView, Seq<char>>>)
    ensures
        fold_results(rs) matches Ok((names, total, recs)) ==> {
            let out = sort_desc(recs, by_time());
            &&& unique_hashes(out)
            &&& forall|i: int, k: int|
                0 <= i < rs.len() && rs[i] is Ok && 0 <= k < rs[i]->Ok_0.candidates.len()
                    ==> has_hash(out, #[trigger] rs[i]->Ok_0.candidates[k].hash)
            &&& forall|i: int, j: int|
                0 <= i < j < out.len() ==> !seq_lt(
                    (#[trigger] out[i]).timestamp_utc,
                    (#[trigger] out[j]).timestamp_utc,
                )
        },
{
    lemma_fold_props(rs);
    if let Ok((names, total, recs)) = fold_results(rs) {
        let out = sort_desc(recs, by_time());
        lemma_sort_desc_len(recs, by_time());
        assert forall|a: CommitRecordView| !#[trigger] (by_time())(a, a) by {
            lemma_seq_lt_irreflexive(a.timestamp_utc);
        }
        assert forall|a: CommitRecordView, b: CommitRecordView, c: CommitRecordView|
            #[trigger] (by_time())(a, b) && #[trigger] (by_time())(b, c) implies (by_time())(
            a,
            c,
        ) by {
            lemma_seq_lt_transitive(a.timestamp_utc, b.timestamp_utc, c.timestamp_utc);
        }
        lemma_sort_desc_sorted(recs, by_time());
        assert forall|i: int, j: int| 0 <= i < j < out.len() implies !seq_lt(
            (#[trigger] out[i]).timestamp_utc,
            (#[trigger] out[j]).timestamp_utc,
        ) by {
            assert(!(by_time())(out[i], out[j]));
        }
        let hkey = |r: CommitRecordView| r.hash;
        assert forall|a: int, b: int|
            0 <= a < recs.len() && 0 <= b < recs.len() && a != b implies hkey(#[trigger] recs[a])
            != hkey(#[trigger] recs[b]) by {}
        lemma_sort_desc_keys_distinct(recs, by_time(), hkey);
        assert forall|a: int, b: int|
            0 <= a < out.len() && 0 <= b < out.len() && a != b implies (#[trigger] out[a]).hash
            != (#[trigger] out[b]).hash by {
            assert(hkey(out[a]) != hkey(out[b]));
        }
        assert forall|i: int, k: int|
            0 <= i < rs.len() && rs[i] is Ok && 0 <= k < rs[i]->Ok_0.candidates.len() implies has_hash(
            out,
            #[trigger] rs[i]->Ok_0.candidates[k].hash,
        ) by {
            let h = rs[i]->Ok_0.candidates[k].hash;
            assert(has_hash(recs, h));
            let j = choose|j: int| 0 <= j < recs.len() && (#[trigger] recs[j]).hash == h;
            lemma_sort_desc_contains(recs, by_time(), j);
            let q = choose|q: int| 0 <= q < out.len() && out[q] == recs[j];
            assert(out[q].hash == h);
        }
    }
}

/// Record `r` carries what candidate `c` contributed: its hash, every
/// subsystem tag, and every heuristic signal (flags and listed references and
/// repeated-fix paths).
pub open spec fn carries(r: CommitRecordView, c: CommitRecordView) -> bool {
    &&& r.hash == c.hash
    &&& forall|t: Seq<char>| c.subsystems.contains(t) ==> #[trigger] r.subsystems.contains(t)
    &&& (c.heuristics.is_revert ==> r.heuristics.is_revert)
    &&& (c.heuristics.was_reverted ==> r.heuristics.was_reverted)
    &&& (c.heuristics.touches_repeated_fix_file ==> r.heuristics.touches_repeated_fix_file)
    &&& forall|x: Seq<char>|
        c.heuristics.incident_refs.contains(x) ==> #[trigger] r.heuristics.incident_refs.contains(x)
    &&& forall|x: Seq<char>|
        c.heuristics.repeated_fix_file_paths.contains(x)
            ==> #[trigger] r.heuristics.repeated_fix_file_paths.contains(x)
}

/// Some record of `recs` carries `c`.
pub open spec fn carried(recs: Seq<CommitRecordView>, c: CommitRecordView) -> bool {
    exists|j: int| 0 <= j < recs.len() && carries(#[trigger] recs[j], c)
}

proof fn lemma_merged_record_carries(e: CommitRecordView, r: CommitRecordView, c: CommitRecordView)
    requires
        e.hash == r.hash,
        carries(e, c) || c == r,
    ensures
        carries(merged_record(e, r), c),
{
    let m = merged_record(e, r);
    assert forall|t: Seq<char>| c.subsystems.contains(t) implies #[trigger] m.subsystems.contains(t) by {
        lemma_append_new_contains(e.subsystems, r.subsystems, t);
    }
    assert forall|x: Seq<char>| c.heuristics.incident_refs.contains(x) implies #[trigger] m.heuristics.incident_refs.contains(x) by {
        lemma_append_new_contains(e.heuristics.incident_refs, r.heuristics.incident_refs, x);
    }
    assert forall|x: Seq<char>| c.heuristics.repeated_fix_file_paths.contains(x) implies #[trigger] m.heuristics.repeated_fix_file_paths.contains(x) by {
        lemma_append_new_contains(
            e.heuristics.repeated_fix_file_paths,
            r.heuristics.repeated_fix_file_paths,
            x,
        );
    }
}

proof fn lemma_carries_self(c: CommitRecordView)
    ensures
        carries(c, c),
{
}

proof fn lemma_merge_into_carries(acc: Seq<CommitRecordView>, r: CommitRecordView, c: CommitRecordView)
    requires
        unique_hashes(acc),
        carried(acc, c) || c == r,
    ensures
        carried(merge_into(acc, r), c),
{
    let m = merge_into(acc, r);
    if has_hash(acc, r.hash) {
        let j0 = choose|j: int| 0 <= j < acc.len() && (#[trigger] acc[j]).hash == r.hash;
        assert forall|j: int| 0 <= j < j0 implies (#[trigger] acc[j]).hash != r.hash by {}
        let i = hash_index(acc, r.hash);
        assert(0 <= i < acc.len() && acc[i].hash == r.hash);
        if c == r {
            lemma_merged_record_carries(acc[i], r, c);
            assert(carries(m[i], c));
        } else {
            let j = choose|j: int| 0 <= j < acc.len() && carries(#[trigger] acc[j], c);
            if j == i {
                lemma_merged_record_carries(acc[i], r, c);
                assert(carries(m[i], c));
            } else {
                assert(m[j] == acc[j]);
                assert(carries(m[j], c));
            }
        }
    } else {
        if c == r {
            lemma_carries_self(r);
            assert(m[acc.len() as int] == r);
            assert(carries(m[acc.len() as int], c));
        } else {
            let j = choose|j: int| 0 <= j < acc.len() && carries(#[trigger] acc[j], c);
            assert(m[j] == acc[j]);
            assert(carries(m[j], c));
        }
    }
}

proof fn lemma_merge_records_carries(
    acc: Seq<CommitRecordView>,
    rs: Seq<CommitRecordView>,
    c: CommitRecordView,
)
    requires
        unique_hashes(acc),
        carried(acc, c) || exists|k: int| 0 <= k < rs.len() && #[trigger] rs[k] == c,
    ensures
        carried(merge_records(acc, rs), c),
    decreases rs.len(),
{
    if rs.len() > 0 {
        let d = rs.drop_last();
        lemma_merge_records_props(acc, d);
        if carried(acc, c) || exists|k: int| 0 <= k < d.len() && #[trigger] d[k] == c {
            lemma_merge_records_carries(acc, d, c);
            lemma_merge_into_carries(merge_records(acc, d), rs.last(), c);
        } else {
            let k = choose|k: int| 0 <= k < rs.len() && #[trigger] rs[k] == c;
            if k < rs.len() - 1 {
                assert(d[k] == rs[k]);
            }
            assert(c == rs.last());
            lemma_merge_into_carries(merge_records(acc, d), rs.last(), c);
        }
    }
}

proof fn lemma_fold_carries(rs: Seq<Result<WorkerOutputView, Seq<char>>>, i: int, k: int)
    requires
        0 <= i < rs.len(),
        rs[i] is Ok,
        0 <= k < rs[i]->Ok_0.candidates.len(),
        fold_results(rs) is Ok,
    ensures
        carried(fold_results(rs)->Ok_0.2, rs[i]->Ok_0.candidates[k]),
    decreases rs.len(),
{
    let d = rs.drop_last();
    let c = rs[i]->Ok_0.candidates[k];
    assert(fold_results(d) is Ok);
    let recs = fold_results(d)->Ok_0.2;
    lemma_fold_props(d);
    let w = rs.last()->Ok_0;
    if i < rs.len() - 1 {
        assert(d[i] == rs[i]);
        lemma_fold_carries(d, i, k);
        lemma_merge_records_carries(recs, w.candidates, c);
    } else {
        assert(w.candidates[k] == c);
        lemma_merge_records_carries(recs, w.candidates, c);
    }
}

/// Merging unions what the workers found about a commit: when no worker
/// failed, each candidate any worker produced is carried by a record of the
/// output with its hash, every subsystem tag and every heuristic signal.
pub proof fn law_mining_merge_unions(rs: Seq<Result<WorkerOutputView, Seq<char>>>)
    ensures
        fold_results(rs) is Ok ==> forall|i: int, k: int|
            0 <= i < rs.len() && rs[i] is Ok && 0 <= k < rs[i]->Ok_0.candidates.len() ==> carried(
                sort_desc(fold_results(rs)->Ok_0.2, by_time()),
                #[trigger] rs[i]->Ok_0.candidates[k],
            ),
{
    if fold_results(rs) is Ok {
        let recs = fold_results(rs)->Ok_0.2;
        let out = sort_desc(recs, by_time());
        assert forall|i: int, k: int|
            0 <= i < rs.len() && rs[i] is Ok && 0 <= k < rs[i]->Ok_0.candidates.len() implies carried(
            out,
            #[trigger] rs[i]->Ok_0.candidates[k],
        ) by {
            let c = rs[i]->Ok_0.candidates[k];
            lemma_fold_carries(rs, i, k);
            let j = choose|j: int| 0 <= j < recs.len() && carries(#[trigger] recs[j], c);
            lemma_sort_desc_contains(recs, by_time(), j);
            let q = choose|q: int| 0 <= q < out.len() && out[q] == recs[j];
            assert(carries(out[q], c));
        }
    }
}

} // verus!
