//! The diversity floor of the ranking, stated from the non-noise pool itself:
//! the best `min_per_subsystem` entries of every primary subsystem are kept.
use vstd::prelude::*;

use crate::heuristics::lemma_append_new_no_dups;
use crate::mining_types::lemma_append_new_contains;
use crate::ranking::{
    bucket_keys, by_score, diversity_floor, filter_seq, final_order, floor_list, in_bucket,
    known_pred, primary_fn, primary_of, signal_pred, take_n,
};
use crate::ranking_laws::{holds_hash, law_diversity_floor_kept};
use crate::ranking_types::{CandidateInputView, ModelScoredCandidateView, RankingConfig};
use crate::sorting::sort_desc;

verus! {

/// The non-noise pool: the entries whose hash is a candidate and which are not
/// noise, highest score first.
pub open spec fn signal_pool(
    raw: Seq<ModelScoredCandidateView>,
    cands: Seq<CandidateInputView>,
) -> Seq<ModelScoredCandidateView> {
    sort_desc(filter_seq(filter_seq(raw, known_pred(cands)), signal_pred(cands)), by_score())
}

/// The number of distinct primary subsystems among `pool`.
pub open spec fn subsystem_count(
    cands: Seq<CandidateInputView>,
    pool: Seq<ModelScoredCandidateView>,
) -> nat {
    pool.map_values(|r: ModelScoredCandidateView| primary_of(cands, r)).to_set().len()
}

/// How many entries before position `i` of `pool` share its primary
/// subsystem: 0 for the best of its subsystem, 1 for the next, and so on.
pub open spec fn bucket_rank(
    cands: Seq<CandidateInputView>,
    pool: Seq<ModelScoredCandidateView>,
    i: int,
) -> nat {
    filter_seq(pool.take(i), in_bucket(cands, primary_of(cands, pool[i]))).len()
}

proof fn lemma_filter_prefix<T>(s: Seq<T>, p: spec_fn(T) -> bool, i: int)
    requires
        0 <= i <= s.len(),
    ensures
        filter_seq(s.take(i), p).len() <= filter_seq(s, p).len(),
        forall|k: int|
            0 <= k < filter_seq(s.take(i), p).len() ==> #[trigger] filter_seq(s, p)[k]
                == filter_seq(s.take(i), p)[k],
    decreases s.len(),
{
    if i == s.len() {
        assert(s.take(i) =~= s);
    } else {
        assert(s.take(i) =~= s.drop_last().take(i));
        lemma_filter_prefix(s.drop_last(), p, i);
    }
}

proof fn lemma_filter_at<T>(s: Seq<T>, p: spec_fn(T) -> bool, i: int)
    requires
        0 <= i < s.len(),
        p(s[i]),
    ensures
        filter_seq(s.take(i), p).len() < filter_seq(s, p).len(),
        filter_seq(s, p)[filter_seq(s.take(i), p).len() as int] == s[i],
{
    let t = s.take(i + 1);
    assert(t.drop_last() =~= s.take(i));
    assert(t.last() == s[i]);
    lemma_filter_prefix(s, p, i + 1);
    let r = filter_seq(s.take(i), p).len() as int;
    assert(filter_seq(t, p)[r] == s[i]);
}

proof fn lemma_floor_len(
    cands: Seq<CandidateInputView>,
    pool: Seq<ModelScoredCandidateView>,
    keys: Seq<Seq<char>>,
    m: nat,
)
    ensures
        floor_list(cands, pool, keys, m).len() <= keys.len() * m,
    decreases keys.len(),
{
    if keys.len() > 0 {
        lemma_floor_len(cands, pool, keys.drop_last(), m);
        let n = keys.len() as int;
        assert((n - 1) * m + m == n * m) by (nonlinear_arith);
    }
}

proof fn lemma_floor_holds(
    cands: Seq<CandidateInputView>,
    pool: Seq<ModelScoredCandidateView>,
    keys: Seq<Seq<char>>,
    m: nat,
    key: Seq<char>,
    j: int,
)
    requires
        keys.contains(key),
        0 <= j < take_n(filter_seq(pool, in_bucket(cands, key)), m).len(),
    ensures
        holds_hash(
            floor_list(cands, pool, keys, m),
            take_n(filter_seq(pool, in_bucket(cands, key)), m)[j].commit_hash,
        ),
    decreases keys.len(),
{
    let prev = floor_list(cands, pool, keys.drop_last(), m);
    let tail = take_n(filter_seq(pool, in_bucket(cands, keys.last())), m);
    let whole = floor_list(cands, pool, keys, m);
    assert(whole == prev + tail);
    if keys.last() == key {
        assert(whole[prev.len() + j] == tail[j]);
    } else {
        let q = choose|q: int| 0 <= q < keys.len() && keys[q] == key;
        assert(keys.drop_last()[q] == key);
        lemma_floor_holds(cands, pool, keys.drop_last(), m, key, j);
        let h = take_n(filter_seq(pool, in_bucket(cands, key)), m)[j].commit_hash;
        let w = choose|w: int| 0 <= w < prev.len() && (#[trigger] prev[w]).commit_hash == h;
        assert(whole[w] == prev[w]);
    }
}

/// The diversity floor: when every primary subsystem of the non-noise pool
/// can have `min_per_subsystem` places within `target_max`, the best
/// `min_per_subsystem` non-noise entries of each subsystem (by score) are in
/// the final ranking; so each subsystem has at least the smaller of
/// `min_per_subsystem` and its number of non-noise entries.
pub proof fn law_floor_per_subsystem(
    raw: Seq<ModelScoredCandidateView>,
    cands: Seq<CandidateInputView>,
    cfg: RankingConfig,
)
    requires
        subsystem_count(cands, signal_pool(raw, cands)) * cfg.min_per_subsystem <= cfg.target_max,
    ensures
        forall|i: int|
            0 <= i < signal_pool(raw, cands).len() && bucket_rank(
                cands,
                signal_pool(raw, cands),
                i,
            ) < cfg.min_per_subsystem ==> holds_hash(
                final_order(raw, cands, cfg),
                (#[trigger] signal_pool(raw, cands)[i]).commit_hash,
            ),
{
    let m = cfg.min_per_subsystem as nat;
    let signal = signal_pool(raw, cands);
    let prims = signal.map_values(primary_fn(cands));
    let keys = bucket_keys(cands, signal);
    lemma_append_new_no_dups(Seq::empty(), prims);
    keys.unique_seq_to_set();
    assert forall|x: Seq<char>| keys.to_set().contains(x) == prims.to_set().contains(x) by {
        lemma_append_new_contains(Seq::empty(), prims, x);
    }
    assert(keys.to_set() =~= prims.to_set());
    assert(prims =~= signal.map_values(|r: ModelScoredCandidateView| primary_of(cands, r)));
    let floor = floor_list(cands, signal, keys, m);
    lemma_floor_len(cands, signal, keys, m);
    assert(floor == diversity_floor(raw, cands, m));
    law_diversity_floor_kept(raw, cands, cfg);
    assert forall|i: int|
        0 <= i < signal.len() && bucket_rank(cands, signal, i) < cfg.min_per_subsystem implies holds_hash(
        final_order(raw, cands, cfg),
        (#[trigger] signal[i]).commit_hash,
    ) by {
        let key = primary_of(cands, signal[i]);
        let p = in_bucket(cands, key);
        assert(p(signal[i]));
        assert(prims[i] == key);
        lemma_append_new_contains(Seq::empty(), prims, key);
        let f = filter_seq(signal, p);
        lemma_filter_at(signal, p, i);
        let r = bucket_rank(cands, signal, i) as int;
        let t = take_n(f, m);
        assert(t[r] == signal[i]);
        lemma_floor_holds(cands, signal, keys, m, key, r);
        let w = choose|w: int| 0 <= w < floor.len() && (#[trigger] floor[w]).commit_hash == signal[i].commit_hash;
        assert(holds_hash(final_order(raw, cands, cfg), floor[w].commit_hash));
    }
}

} // verus!
