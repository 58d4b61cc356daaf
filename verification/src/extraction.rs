//! Merging of the per-subsystem workers' candidate lists into one mining
//! output: dedup by commit hash, union of subsystem tags, heuristic flags and
//! changed files, newest commit first.
use vstd::prelude::*;

use crate::mining_types::{
    append_new, extend_unique, merged_flags, record_views, CommitRecord, CommitRecordView,
    FileChange, FileChangeView, file_views, MiningConfig, MiningOutput, HeuristicFlags,
};
use crate::sorting::{first_below, lemma_first_below_is, seq_lt, sort_desc, str_lt};
use crate::text::strs;

verus! {

/// What one worker produced: its subsystem, its candidate records and how many
/// raw commits it scanned.
#[derive(Debug)]
pub struct WorkerOutput {
    pub subsystem_name: String,
    pub candidates: Vec<CommitRecord>,
    pub scanned: usize,
}

pub struct WorkerOutputView {
    pub subsystem_name: Seq<char>,
    pub candidates: Seq<CommitRecordView>,
    pub scanned: usize,
}

impl View for WorkerOutput {
    type V = WorkerOutputView;

    open spec fn view(&self) -> WorkerOutputView {
        WorkerOutputView {
            subsystem_name: self.subsystem_name@,
            candidates: record_views(self.candidates@),
            scanned: self.scanned,
        }
    }
}

pub open spec fn result_view(r: Result<WorkerOutput, String>) -> Result<WorkerOutputView, Seq<char>> {
    match r {
        Ok(w) => Ok(w@),
        Err(e) => Err(e@),
    }
}

pub open spec fn result_views(rs: Seq<Result<WorkerOutput, String>>) -> Seq<
    Result<WorkerOutputView, Seq<char>>,
> {
    rs.map_values(|r: Result<WorkerOutput, String>| result_view(r))
}

/// `acc` followed by each file of `rest` whose path is not yet present.
pub open spec fn append_new_files(acc: Seq<FileChangeView>, rest: Seq<FileChangeView>) -> Seq<
    FileChangeView,
>
    decreases rest.len(),
{
    if rest.len() == 0 {
        acc
    } else {
        let prev = append_new_files(acc, rest.drop_last());
        if exists|k: int| 0 <= k < prev.len() && (#[trigger] prev[k]).path == rest.last().path {
            prev
        } else {
            prev.push(rest.last())
        }
    }
}

/// The record for a hash seen again: subsystem tags, heuristic flags and
/// changed files of `r` are unioned into `e`; everything else stays `e`'s.
pub open spec fn merged_record(e: CommitRecordView, r: CommitRecordView) -> CommitRecordView {
    CommitRecordView {
        hash: e.hash,
        parent_hashes: e.parent_hashes,
        author_name: e.author_name,
        author_email: e.author_email,
        timestamp_utc: e.timestamp_utc,
        message_summary: e.message_summary,
        subsystems: append_new(e.subsystems, r.subsystems),
        files_changed: append_new_files(e.files_changed, r.files_changed),
        heuristics: merged_flags(e.heuristics, r.heuristics),
    }
}

pub open spec fn has_hash(acc: Seq<CommitRecordView>, h: Seq<char>) -> bool {
    exists|i: int| 0 <= i < acc.len() && (#[trigger] acc[i]).hash == h
}

/// Index of the first record of `acc` with hash `h`.
pub open spec fn hash_index(acc: Seq<CommitRecordView>, h: Seq<char>) -> int {
    choose|i: int|
        0 <= i < acc.len() && acc[i].hash == h && forall|j: int|
            0 <= j < i ==> (#[trigger] acc[j]).hash != h
}

/// `acc` with `r` merged in: into the record of the same hash when there is
/// one, otherwise appended.
pub open spec fn merge_into(acc: Seq<CommitRecordView>, r: CommitRecordView) -> Seq<
    CommitRecordView,
> {
    if has_hash(acc, r.hash) {
        let i = hash_index(acc, r.hash);
        acc.update(i, merged_record(acc[i], r))
    } else {
        acc.push(r)
    }
}

/// `acc` with every record of `rs` merged in, in order.
pub open spec fn merge_records(acc: Seq<CommitRecordView>, rs: Seq<CommitRecordView>) -> Seq<
    CommitRecordView,
>
    decreases rs.len(),
{
    if rs.len() == 0 {
        acc
    } else {
        merge_into(merge_records(acc, rs.drop_last()), rs.last())
    }
}

/// Newest-first order on records: `a` ranks below `b` when its timestamp
/// sorts before `b`'s.
pub open spec fn by_time() -> spec_fn(CommitRecordView, CommitRecordView) -> bool {
    |a: CommitRecordView, b: CommitRecordView| seq_lt(a.timestamp_utc, b.timestamp_utc)
}

/// The workers' results folded in order: the first error wins; otherwise the
/// scanned subsystem names, the total scanned count and the merged records.
pub open spec fn fold_results(rs: Seq<Result<WorkerOutputView, Seq<char>>>) -> Result<
    (Seq<Seq<char>>, int, Seq<CommitRecordView>),
    Seq<char>,
>
    decreases rs.len(),
{
    if rs.len() == 0 {
        Ok((Seq::empty(), 0, Seq::empty()))
    } else {
        match fold_results(rs.drop_last()) {
            Err(e) => Err(e),
            Ok((names, total, recs)) => match rs.last() {
                Err(e) => Err(e),
                Ok(w) => Ok(
                    (
                        names.push(w.subsystem_name),
                        total + w.scanned,
                        merge_records(recs, w.candidates),
                    ),
                ),
            },
        }
    }
}

/// Sum of the scanned counts of the successful results.
pub open spec fn scanned_sum(rs: Seq<Result<WorkerOutputView, Seq<char>>>) -> int
    decreases rs.len(),
{
    if rs.len() == 0 {
        0
    } else {
        scanned_sum(rs.drop_last()) + match rs.last() {
            Ok(w) => w.scanned as int,
            Err(_) => 0,
        }
    }
}

pub open spec fn unique_hashes(acc: Seq<CommitRecordView>) -> bool {
    forall|i: int, j: int|
        0 <= i < acc.len() && 0 <= j < acc.len() && i != j ==> (#[trigger] acc[i]).hash != (
        #[trigger] acc[j]).hash
}

/// Appends to `acc` every file of `rest` whose path it does not yet hold.
fn extend_unique_files(acc: &mut Vec<FileChange>, rest: &Vec<FileChange>)
    ensures
        file_views(final(acc)@) == append_new_files(file_views(old(acc)@), file_views(rest@)),
{
    let ghost acc0 = file_views(acc@);
    let mut i: usize = 0;
    while i < rest.len()
        invariant
            i <= rest.len(),
            file_views(acc@) == append_new_files(acc0, file_views(rest@.take(i as int))),
        decreases rest.len() - i,
    {
        let ghost prev = file_views(acc@);
        assert(file_views(rest@.take(i + 1)).drop_last() =~= file_views(rest@.take(i as int)));
        assert(file_views(rest@.take(i + 1)).last() == rest@[i as int]@);
        let mut j: usize = 0;
        let mut found = false;
        while j < acc.len()
            invariant
                j <= acc.len(),
                i < rest.len(),
                file_views(acc@) == prev,
                found ==> exists|k: int| 0 <= k < prev.len() && (#[trigger] prev[k]).path
                    == rest@[i as int]@.path,
                !found ==> forall|k: int| 0 <= k < j ==> (#[trigger] prev[k]).path
                    != rest@[i as int]@.path,
            decreases acc.len() - j,
        {
            if acc[j].path == rest[i].path {
                assert(prev[j as int].path == rest@[i as int]@.path);
                found = true;
            }
            j += 1;
        }
        if !found {
            acc.push(rest[i].copy());
            assert(file_views(acc@) =~= prev.push(rest@[i as int]@));
        }
        i += 1;
    }
    assert(rest@.take(rest@.len() as int) =~= rest@);
}

/// Merges `r` into `merged` (see `merge_into`).
fn merge_record_into(merged: &mut Vec<CommitRecord>, r: CommitRecord)
    requires
        unique_hashes(record_views(old(merged)@)),
    ensures
        record_views(final(merged)@) == merge_into(record_views(old(merged)@), r@),
        unique_hashes(record_views(final(merged)@)),
{
    let ghost acc = record_views(merged@);
    let mut i: usize = 0;
    while i < merged.len() && !(merged[i].hash == r.hash)
        invariant
            i <= merged.len(),
            record_views(merged@) == acc,
            forall|j: int| 0 <= j < i ==> (#[trigger] acc[j]).hash != r@.hash,
        decreases merged.len() - i,
    {
        i += 1;
    }
    if i < merged.len() {
        assert(acc[i as int].hash == r@.hash);
        assert(has_hash(acc, r@.hash));
        let ghost c = hash_index(acc, r@.hash);
        assert(c == i) by {
            if c < i {
                assert(acc[c].hash != r@.hash);
            }
            if c > i {
                assert(acc[i as int].hash != r@.hash);
            }
        }
        let e = merged.remove(i);
        let CommitRecord {
            hash,
            parent_hashes,
            author_name,
            author_email,
            timestamp_utc,
            message_summary,
            subsystems,
            files_changed,
            heuristics,
        } = e;
        let CommitRecord {
            hash: _r_hash,
            parent_hashes: _r_parents,
            author_name: _r_author,
            author_email: _r_email,
            timestamp_utc: _r_ts,
            message_summary: _r_msg,
            subsystems: r_subsystems,
            files_changed: r_files,
            heuristics: r_heuristics,
        } = r;
        let mut subsystems = subsystems;
        extend_unique(&mut subsystems, &r_subsystems);
        let mut files_changed = files_changed;
        extend_unique_files(&mut files_changed, &r_files);
        let heuristics: HeuristicFlags = heuristics.merge(r_heuristics);
        let m = CommitRecord {
            hash,
            parent_hashes,
            author_name,
            author_email,
            timestamp_utc,
            message_summary,
            subsystems,
            files_changed,
            heuristics,
        };
        assert(m@ == merged_record(acc[i as int], r@));
        merged.insert(i, m);
        assert(record_views(merged@) =~= acc.update(i as int, merged_record(acc[i as int], r@)));
        assert(unique_hashes(record_views(merged@))) by {
            let nv = record_views(merged@);
            assert forall|a: int, b: int|
                0 <= a < nv.len() && 0 <= b < nv.len() && a != b implies (#[trigger] nv[a]).hash
                != (#[trigger] nv[b]).hash by {
                assert(nv[a].hash == acc[a].hash);
                assert(nv[b].hash == acc[b].hash);
            }
        }
    } else {
        assert(!has_hash(acc, r@.hash));
        merged.push(r);
        assert(record_views(merged@) =~= acc.push(r@));
        assert(unique_hashes(record_views(merged@))) by {
            let nv = record_views(merged@);
            assert forall|a: int, b: int|
                0 <= a < nv.len() && 0 <= b < nv.len() && a != b implies (#[trigger] nv[a]).hash
                != (#[trigger] nv[b]).hash by {
                if a < acc.len() && b < acc.len() {
                    assert(nv[a] == acc[a]);
                    assert(nv[b] == acc[b]);
                } else if a < acc.len() {
                    assert(nv[a] == acc[a]);
                } else if b < acc.len() {
                    assert(nv[b] == acc[b]);
                }
            }
        }
    }
}

/// Sorts records newest first (stable: equal timestamps keep their order).
pub fn sort_by_time_desc(v: Vec<CommitRecord>) -> (r: Vec<CommitRecord>)
    ensures
        record_views(r@) == sort_desc(record_views(v@), by_time()),
{
    let ghost s = record_views(v@);
    let ghost n = v@.len();
    let mut input = v;
    let mut out: Vec<CommitRecord> = Vec::new();
    assert(s.take(0) =~= Seq::<CommitRecordView>::empty());
    assert(s.skip(0) =~= s);
    while input.len() > 0
        invariant
            input@.len() <= n,
            s.len() == n,
            record_views(input@) == s.skip(n - input@.len()),
            record_views(out@) == sort_desc(s.take(n - input@.len()), by_time()),
        decreases input@.len(),
    {
        let ghost k = n - input@.len();
        let ghost before_in = input@;
        let x = input.remove(0);
        assert(record_views(before_in)[0] == before_in[0]@);
        assert(s.skip(k)[0] == s[k]);
        assert(x@ == s[k]);
        assert(record_views(input@) =~= record_views(before_in).drop_first());
        assert(record_views(input@) =~= s.skip(k + 1));
        let mut p: usize = 0;
        while p < out.len() && !str_lt(&out[p].timestamp_utc, &x.timestamp_utc)
            invariant
                p <= out.len(),
                forall|q: int|
                    0 <= q < p ==> !(by_time())(#[trigger] record_views(out@)[q], x@),
            decreases out.len() - p,
        {
            p += 1;
        }
        proof {
            lemma_first_below_is(record_views(out@), x@, by_time(), p as int);
            assert(s.take(k + 1).drop_last() =~= s.take(k));
            assert(s.take(k + 1).last() == x@);
        }
        let ghost before = record_views(out@);
        out.insert(p, x);
        assert(record_views(out@) =~= before.insert(p as int, x@));
    }
    assert(s.take(n as int) =~= s);
    out
}

/// Merges the workers' results (see `fold_results`) and emits the mining
/// output, candidates sorted newest first.
pub fn merge_worker_outputs(
    config: &MiningConfig,
    results: Vec<Result<WorkerOutput, String>>,
    generated_at_utc: String,
) -> (r: Result<MiningOutput, String>)
    requires
        scanned_sum(result_views(results@)) <= usize::MAX,
    ensures
        fold_results(result_views(results@)) is Err ==> r is Err && r->Err_0@ == fold_results(
            result_views(results@),
        )->Err_0,
        fold_results(result_views(results@)) is Ok ==> r is Ok && {
            let (names, total, recs) = fold_results(result_views(results@))->Ok_0;
            let out = r->Ok_0;
            &&& out.repo_path@ == config.repo_path@
            &&& out.generated_at_utc@ == generated_at_utc@
            &&& out.window == config.window
            &&& strs(out.subsystems_scanned@) == names
            &&& out.total_commits_scanned == total
            &&& record_views(out.commits@) == sort_desc(recs, by_time())
            &&& out.candidate_count == out.commits@.len()
        },
{
    let ghost rv = result_views(results@);
    let mut names: Vec<String> = Vec::new();
    let mut total: usize = 0;
    let mut merged: Vec<CommitRecord> = Vec::new();
    let ghost mut i: int = 0;
    let mut pending = results;
    let ghost n = pending@.len();
    assert(rv.take(0) =~= Seq::<Result<WorkerOutputView, Seq<char>>>::empty());
    assert(strs(names@) =~= Seq::<Seq<char>>::empty());
    assert(record_views(merged@) =~= Seq::<CommitRecordView>::empty());
    assert(rv.skip(0) =~= rv);
    while pending.len() > 0
        invariant
            pending@.len() <= n,
            rv == result_views(results@),
            rv.len() == n,
            i == n - pending@.len(),
            result_views(pending@) == rv.skip(i),
            fold_results(rv.take(i as int)) == Ok::<
                (Seq<Seq<char>>, int, Seq<CommitRecordView>),
                Seq<char>,
            >((strs(names@), total as int, record_views(merged@))),
            scanned_sum(rv.take(i as int)) == total,
            scanned_sum(rv) <= usize::MAX,
            unique_hashes(record_views(merged@)),
        decreases pending@.len(),
    {
        let ghost before_rs = pending@;
        let res = pending.remove(0);
        assert(result_views(before_rs)[0] == result_view(before_rs[0]));
        assert(rv.skip(i as int)[0] == rv[i as int]);
        assert(result_view(res) == rv[i as int]);
        assert(result_views(pending@) =~= result_views(before_rs).drop_first());
        assert(result_views(pending@) =~= rv.skip(i + 1));
        assert(rv.take(i + 1).drop_last() =~= rv.take(i as int));
        assert(rv.take(i + 1).last() == rv[i as int]);
        proof {
            lemma_scanned_sum_prefix(rv, i + 1);
        }
        match res {
            Err(e) => {
                proof {
                    assert(rv.take(i + 1).last() == Err::<WorkerOutputView, Seq<char>>(e@));
                    assert(fold_results(rv.take(i + 1)) == Err::<
                        (Seq<Seq<char>>, int, Seq<CommitRecordView>),
                        Seq<char>,
                    >(e@));
                    lemma_fold_err_sticks(rv, i + 1);
                    assert(fold_results(rv) == Err::<
                        (Seq<Seq<char>>, int, Seq<CommitRecordView>),
                        Seq<char>,
                    >(e@));
                }
                return Err(e);
            },
            Ok(w) => {
                let ghost wv = w@;
                let ghost prev_names = strs(names@);
                let ghost prev_total = total as int;
                assert(rv[i] == Ok::<WorkerOutputView, Seq<char>>(wv));
                let WorkerOutput { subsystem_name, candidates, scanned } = w;
                let ghost before = record_views(merged@);
                let ghost cands = record_views(candidates@);
                let mut cands_left = candidates;
                let ghost m = cands.len();
                assert(cands.take(0) =~= Seq::<CommitRecordView>::empty());
                assert(cands.skip(0) =~= cands);
                while cands_left.len() > 0
                    invariant
                        cands_left@.len() <= m,
                        cands.len() == m,
                        record_views(cands_left@) == cands.skip(m - cands_left@.len()),
                        record_views(merged@) == merge_records(
                            before,
                            cands.take(m - cands_left@.len()),
                        ),
                        unique_hashes(record_views(merged@)),
                    decreases cands_left@.len(),
                {
                    let ghost k = m - cands_left@.len();
                    let ghost before_c = cands_left@;
                    let c = cands_left.remove(0);
                    assert(record_views(before_c)[0] == before_c[0]@);
                    assert(cands.skip(k)[0] == cands[k]);
                    assert(c@ == cands[k]);
                    assert(record_views(cands_left@) =~= record_views(before_c).drop_first());
                    assert(record_views(cands_left@) =~= cands.skip(k + 1));
                    assert(cands.take(k + 1).drop_last() =~= cands.take(k));
                    assert(cands.take(k + 1).last() == cands[k]);
                    merge_record_into(&mut merged, c);
                }
                assert(cands.take(m as int) =~= cands);
                names.push(subsystem_name);
                assert(strs(names@) =~= strs(names@.drop_last()).push(names@.last()@));
                total = total + scanned;
                proof {
                    assert(record_views(merged@) == merge_records(before, wv.candidates));
                    assert(strs(names@) == prev_names.push(wv.subsystem_name));
                    assert(total == prev_total + wv.scanned);
                    assert(fold_results(rv.take(i)) == Ok::<
                        (Seq<Seq<char>>, int, Seq<CommitRecordView>),
                        Seq<char>,
                    >((prev_names, prev_total, before)));
                    assert(fold_results(rv.take(i + 1)) == Ok::<
                        (Seq<Seq<char>>, int, Seq<CommitRecordView>),
                        Seq<char>,
                    >((strs(names@), total as int, record_views(merged@))));
                }
            },
        }
        proof {
            i = i + 1;
        }
    }
    assert(rv.take(n as int) =~= rv);
    let commits = sort_by_time_desc(merged);
    proof {
        crate::sorting::lemma_sort_desc_len(record_views(merged@), by_time());
    }
    let candidate_count = commits.len();
    Ok(
        MiningOutput {
            repo_path: config.repo_path.clone(),
            generated_at_utc,
            window: config.window.copy(),
            subsystems_scanned: names,
            total_commits_scanned: total,
            candidate_count,
            commits,
        },
    )
}

proof fn lemma_scanned_sum_prefix(rs: Seq<Result<WorkerOutputView, Seq<char>>>, k: int)
    requires
        0 <= k <= rs.len(),
    ensures
        scanned_sum(rs.take(k)) <= scanned_sum(rs),
        scanned_sum(rs.take(k)) >= 0,
    decreases rs.len() - k,
{
    if k < rs.len() {
        lemma_scanned_sum_prefix(rs, k + 1);
        assert(rs.take(k + 1).drop_last() =~= rs.take(k));
        lemma_scanned_sum_nonneg(rs.take(k));
    } else {
        assert(rs.take(k) =~= rs);
        lemma_scanned_sum_nonneg(rs);
    }
}

proof fn lemma_scanned_sum_nonneg(rs: Seq<Result<WorkerOutputView, Seq<char>>>)
    ensures
        scanned_sum(rs) >= 0,
    decreases rs.len(),
{
    if rs.len() > 0 {
        lemma_scanned_sum_nonneg(rs.drop_last());
    }
}

/// Once the fold of a prefix is an error, the fold of the whole sequence is
/// that same error.
proof fn lemma_fold_err_sticks(rs: Seq<Result<WorkerOutputView, Seq<char>>>, k: int)
    requires
        0 <= k <= rs.len(),
        fold_results(rs.take(k)) is Err,
    ensures
        fold_results(rs) == fold_results(rs.take(k)),
    decreases rs.len() - k,
{
    if k < rs.len() {
        assert(rs.take(k + 1).drop_last() =~= rs.take(k));
        lemma_fold_err_sticks(rs, k + 1);
    } else {
        assert(rs.take(k) =~= rs);
    }
}

} // verus!
