//! What post-processing promises of every ranking it returns, whatever the
//! model scored: only real candidates, none twice, at most `target_max` of
//! them, ranked 1, 2, ... by non-increasing score.
use vstd::prelude::*;

use crate::ranking::{
    add_all, add_new, all_known, by_score, fill, filter_seq, final_order, floor_list, in_bucket,
    known, known_pred, lemma_add_all_known, lemma_all_known_filter, lemma_all_known_sort,
    lemma_fill_known, lemma_filter_from, lookup, noise_pred, noise_spec, ranked_list, selection,
    signal_pred, signal_tiers, take_n, bucket_keys, diversity_floor,
};
use crate::ranking_types::{score_key_of, CandidateInputView, ModelScoredCandidateView, RankingConfig};
use crate::sorting::{
    first_below, lemma_first_below_bounds, lemma_first_below_props, lemma_sort_desc_contains,
    lemma_sort_desc_from_input, lemma_sort_desc_keys_distinct, lemma_sort_desc_len, sort_desc,
};

verus! {

/// No two entries share a commit hash.
pub open spec fn distinct_hashes(s: Seq<ModelScoredCandidateView>) -> bool {
    forall|i: int, j: int|
        0 <= i < j < s.len() ==> (#[trigger] s[i]).commit_hash != (#[trigger] s[j]).commit_hash
}

/// Scores never increase along the sequence.
pub open spec fn score_descending(s: Seq<ModelScoredCandidateView>) -> bool {
    forall|i: int, j: int|
        0 <= i < j < s.len() ==> score_key_of((#[trigger] s[i]).score) >= score_key_of(
            (#[trigger] s[j]).score,
        )
}

/// Sorting by score yields non-increasing scores.
pub proof fn lemma_sort_by_score_descending(s: Seq<ModelScoredCandidateView>)
    ensures
        score_descending(sort_desc(s, by_score())),
    decreases s.len(),
{
    if s.len() > 0 {
        let p = sort_desc(s.drop_last(), by_score());
        lemma_sort_by_score_descending(s.drop_last());
        lemma_sort_desc_len(s.drop_last(), by_score());
        let x = s.last();
        let k = first_below(p, x, by_score());
        lemma_first_below_bounds(p, x, by_score());
        lemma_first_below_props(p, x, by_score());
        let r = p.insert(k, x);
        assert(r == sort_desc(s, by_score()));
        assert forall|i: int, j: int| 0 <= i < j < r.len() implies score_key_of((#[trigger] r[i]).score) >= score_key_of(
        (#[trigger] r[j]).score) by {
            if j < k {
                assert(r[i] == p[i] && r[j] == p[j]);
            } else if j == k {
                assert(r[i] == p[i]);
                assert(!(by_score())(p[i], x));
            } else if i == k {
                assert(r[j] == p[j - 1]);
                assert((by_score())(p[k], x));
                if j - 1 > k {
                    assert(score_key_of(p[k].score) >= score_key_of(p[j - 1].score));
                }
            } else if i < k {
                assert(r[i] == p[i] && r[j] == p[j - 1]);
            } else {
                assert(r[i] == p[i - 1] && r[j] == p[j - 1]);
            }
        }
    }
}

/// Sorting keeps hashes distinct.
pub proof fn lemma_sort_keeps_distinct(s: Seq<ModelScoredCandidateView>)
    requires
        distinct_hashes(s),
    ensures
        distinct_hashes(sort_desc(s, by_score())),
{
    let key = |r: ModelScoredCandidateView| r.commit_hash;
    assert forall|i: int, j: int|
        0 <= i < s.len() && 0 <= j < s.len() && i != j implies key(#[trigger] s[i]) != key(
        #[trigger] s[j],
    ) by {
        if i < j {
            assert(s[i].commit_hash != s[j].commit_hash);
        } else {
            assert(s[j].commit_hash != s[i].commit_hash);
        }
    }
    lemma_sort_desc_keys_distinct(s, by_score(), key);
    let r = sort_desc(s, by_score());
    assert forall|i: int, j: int| 0 <= i < j < r.len() implies (#[trigger] r[i]).commit_hash != (
    #[trigger] r[j]).commit_hash by {
        assert(key(r[i]) != key(r[j]));
    }
}

proof fn lemma_add_new_distinct(sel: Seq<ModelScoredCandidateView>, r: ModelScoredCandidateView)
    requires
        distinct_hashes(sel),
    ensures
        distinct_hashes(add_new(sel, r)),
{
    if !exists|k: int| 0 <= k < sel.len() && (#[trigger] sel[k]).commit_hash == r.commit_hash {
        let n = sel.push(r);
        assert forall|i: int, j: int| 0 <= i < j < n.len() implies (#[trigger] n[i]).commit_hash
            != (#[trigger] n[j]).commit_hash by {
            assert(n[i] == sel[i]);
            if j < sel.len() {
                assert(n[j] == sel[j]);
            }
        }
    }
}

proof fn lemma_add_all_distinct(sel: Seq<ModelScoredCandidateView>, list: Seq<ModelScoredCandidateView>)
    requires
        distinct_hashes(sel),
    ensures
        distinct_hashes(add_all(sel, list)),
    decreases list.len(),
{
    if list.len() > 0 {
        lemma_add_all_distinct(sel, list.drop_last());
        lemma_add_new_distinct(add_all(sel, list.drop_last()), list.last());
    }
}

proof fn lemma_fill_distinct(
    sel: Seq<ModelScoredCandidateView>,
    list: Seq<ModelScoredCandidateView>,
    cap: nat,
)
    requires
        distinct_hashes(sel),
    ensures
        distinct_hashes(fill(sel, list, cap)),
    decreases list.len(),
{
    if list.len() > 0 {
        lemma_fill_distinct(sel, list.drop_last(), cap);
        lemma_add_new_distinct(fill(sel, list.drop_last(), cap), list.last());
    }
}

proof fn lemma_take_n_props(s: Seq<ModelScoredCandidateView>, n: nat, cv: Seq<CandidateInputView>)
    ensures
        take_n(s, n).len() <= n,
        take_n(s, n).len() <= s.len(),
        distinct_hashes(s) ==> distinct_hashes(take_n(s, n)),
        all_known(cv, s) ==> all_known(cv, take_n(s, n)),
{
    let t = take_n(s, n);
    assert forall|i: int| 0 <= i < t.len() implies t[i] == s[i] by {}
    if distinct_hashes(s) {
        assert forall|i: int, j: int| 0 <= i < j < t.len() implies (#[trigger] t[i]).commit_hash
            != (#[trigger] t[j]).commit_hash by {
            assert(t[i] == s[i] && t[j] == s[j]);
        }
    }
    if all_known(cv, s) {
        assert forall|k: int| 0 <= k < t.len() implies known(cv, (#[trigger] t[k]).commit_hash) by {
            assert(t[k] == s[k]);
        }
    }
}

proof fn lemma_floor_known(
    cv: Seq<CandidateInputView>,
    pool: Seq<ModelScoredCandidateView>,
    keys: Seq<Seq<char>>,
    m: nat,
)
    requires
        all_known(cv, pool),
    ensures
        all_known(cv, floor_list(cv, pool, keys, m)),
    decreases keys.len(),
{
    if keys.len() > 0 {
        lemma_floor_known(cv, pool, keys.drop_last(), m);
        let f = filter_seq(pool, in_bucket(cv, keys.last()));
        lemma_all_known_filter(cv, pool, in_bucket(cv, keys.last()));
        lemma_take_n_props(f, m, cv);
        let a = floor_list(cv, pool, keys.drop_last(), m);
        let b = take_n(f, m);
        assert forall|k: int| 0 <= k < (a + b).len() implies known(
            cv,
            (#[trigger] (a + b)[k]).commit_hash,
        ) by {
            if k < a.len() {
                assert((a + b)[k] == a[k]);
            } else {
                assert((a + b)[k] == b[k - a.len()]);
            }
        }
    }
}

proof fn lemma_validated_known(cv: Seq<CandidateInputView>, raw: Seq<ModelScoredCandidateView>)
    ensures
        all_known(cv, filter_seq(raw, known_pred(cv))),
{
    assert forall|k: int| 0 <= k < filter_seq(raw, known_pred(cv)).len() implies known(
        cv,
        (#[trigger] filter_seq(raw, known_pred(cv))[k]).commit_hash,
    ) by {
        lemma_filter_from(raw, known_pred(cv), k);
    }
}

/// Every ranking that post-processing returns lists only real candidates,
/// none twice, at most `target_max` of them, ranked 1, 2, ... in order of
/// non-increasing score.
pub proof fn law_post_process_output(
    raw: Seq<ModelScoredCandidateView>,
    cands: Seq<CandidateInputView>,
    cfg: RankingConfig,
)
    ensures
        ({
            let out = ranked_list(
                final_order(raw, cands, cfg),
                cands,
                cfg.discussion_rich_comment_threshold,
            );
            &&& out.len() <= cfg.target_max
            &&& forall|i: int|
                0 <= i < out.len() ==> (#[trigger] out[i]).rank == i + 1 && known(
                    cands,
                    out[i].commit_hash,
                )
            &&& forall|i: int, j: int|
                0 <= i < j < out.len() ==> score_key_of((#[trigger] out[i]).score) >= score_key_of(
                    (#[trigger] out[j]).score,
                )
            &&& forall|i: int, j: int|
                0 <= i < j < out.len() ==> (#[trigger] out[i]).commit_hash != (
                #[trigger] out[j]).commit_hash
        }),
{
    let tmin = cfg.target_min as nat;
    let tmax = cfg.target_max as nat;
    let m = cfg.min_per_subsystem as nat;
    let validated = filter_seq(raw, known_pred(cands));
    lemma_validated_known(cands, raw);
    lemma_all_known_filter(cands, validated, signal_pred(cands));
    lemma_all_known_filter(cands, validated, noise_pred(cands));
    let signal = sort_desc(filter_seq(validated, signal_pred(cands)), by_score());
    let noise = sort_desc(filter_seq(validated, noise_pred(cands)), by_score());
    lemma_all_known_sort(cands, filter_seq(validated, signal_pred(cands)));
    lemma_all_known_sort(cands, filter_seq(validated, noise_pred(cands)));
    let floor = floor_list(cands, signal, bucket_keys(cands, signal), m);
    lemma_floor_known(cands, signal, bucket_keys(cands, signal), m);
    let empty = Seq::<ModelScoredCandidateView>::empty();
    assert(all_known(cands, empty));
    assert(distinct_hashes(empty));
    lemma_add_all_known(cands, empty, floor);
    lemma_add_all_distinct(empty, floor);
    let s0 = add_all(empty, floor);
    let s1 = fill(s0, signal, tmax);
    lemma_fill_known(cands, s0, signal, tmax);
    lemma_fill_distinct(s0, signal, tmax);
    let s2 = if s1.len() < tmin {
        fill(s1, noise, tmin)
    } else {
        s1
    };
    lemma_fill_known(cands, s1, noise, tmin);
    lemma_fill_distinct(s1, noise, tmin);
    let sel = take_n(s2, tmax);
    lemma_take_n_props(s2, tmax, cands);
    assert(sel == selection(raw, cands, tmin, tmax, m));
    let fin = sort_desc(sel, by_score());
    assert(fin == final_order(raw, cands, cfg));
    lemma_sort_desc_len(sel, by_score());
    lemma_all_known_sort(cands, sel);
    lemma_sort_keeps_distinct(sel);
    lemma_sort_by_score_descending(sel);
    let out = ranked_list(fin, cands, cfg.discussion_rich_comment_threshold);
    assert forall|i: int| 0 <= i < out.len() implies (#[trigger] out[i]).rank == i + 1 && known(
        cands,
        out[i].commit_hash,
    ) by {
        assert(known(cands, fin[i].commit_hash));
    }
    assert forall|i: int, j: int| 0 <= i < j < out.len() implies score_key_of((#[trigger] out[i]).score) >= score_key_of(
    (#[trigger] out[j]).score) by {
        assert(score_key_of(fin[i].score) >= score_key_of(fin[j].score));
    }
    assert forall|i: int, j: int| 0 <= i < j < out.len() implies (#[trigger] out[i]).commit_hash
        != (#[trigger] out[j]).commit_hash by {
        assert(fin[i].commit_hash != fin[j].commit_hash);
    }
}

/// Every element of `s` satisfies `p`.
pub open spec fn all_sat(s: Seq<ModelScoredCandidateView>, p: spec_fn(ModelScoredCandidateView) -> bool) -> bool {
    forall|k: int| 0 <= k < s.len() ==> p(#[trigger] s[k])
}

proof fn lemma_add_all_sat(
    sel: Seq<ModelScoredCandidateView>,
    list: Seq<ModelScoredCandidateView>,
    p: spec_fn(ModelScoredCandidateView) -> bool,
)
    requires
        all_sat(sel, p),
        all_sat(list, p),
    ensures
        all_sat(add_all(sel, list), p),
    decreases list.len(),
{
    if list.len() > 0 {
        let d = list.drop_last();
        assert(all_sat(d, p)) by {
            assert forall|k: int| 0 <= k < d.len() implies p(#[trigger] d[k]) by {
                assert(d[k] == list[k]);
            }
        }
        lemma_add_all_sat(sel, d, p);
        assert(p(list[list.len() - 1]));
    }
}

proof fn lemma_fill_sat(
    sel: Seq<ModelScoredCandidateView>,
    list: Seq<ModelScoredCandidateView>,
    cap: nat,
    p: spec_fn(ModelScoredCandidateView) -> bool,
)
    requires
        all_sat(sel, p),
        all_sat(list, p),
    ensures
        all_sat(fill(sel, list, cap), p),
    decreases list.len(),
{
    if list.len() > 0 {
        let d = list.drop_last();
        assert(all_sat(d, p)) by {
            assert forall|k: int| 0 <= k < d.len() implies p(#[trigger] d[k]) by {
                assert(d[k] == list[k]);
            }
        }
        lemma_fill_sat(sel, d, cap, p);
        assert(p(list[list.len() - 1]));
    }
}

proof fn lemma_filter_sat(s: Seq<ModelScoredCandidateView>, q: spec_fn(ModelScoredCandidateView) -> bool)
    ensures
        all_sat(filter_seq(s, q), q),
{
    assert forall|k: int| 0 <= k < filter_seq(s, q).len() implies q(#[trigger] filter_seq(s, q)[k]) by {
        lemma_filter_from(s, q, k);
    }
}

proof fn lemma_sort_sat(s: Seq<ModelScoredCandidateView>, p: spec_fn(ModelScoredCandidateView) -> bool)
    requires
        all_sat(s, p),
    ensures
        all_sat(sort_desc(s, by_score()), p),
{
    lemma_sort_desc_len(s, by_score());
    assert forall|k: int| 0 <= k < sort_desc(s, by_score()).len() implies p(
        #[trigger] sort_desc(s, by_score())[k],
    ) by {
        lemma_sort_desc_from_input(s, by_score(), k);
        let j = choose|j: int| 0 <= j < s.len() && s[j] == sort_desc(s, by_score())[k];
        assert(p(s[j]));
    }
}

proof fn lemma_floor_sat(
    cv: Seq<CandidateInputView>,
    pool: Seq<ModelScoredCandidateView>,
    keys: Seq<Seq<char>>,
    m: nat,
    p: spec_fn(ModelScoredCandidateView) -> bool,
)
    requires
        all_sat(pool, p),
    ensures
        all_sat(floor_list(cv, pool, keys, m), p),
    decreases keys.len(),
{
    if keys.len() > 0 {
        lemma_floor_sat(cv, pool, keys.drop_last(), m, p);
        let f = filter_seq(pool, in_bucket(cv, keys.last()));
        assert(all_sat(f, p)) by {
            assert forall|k: int| 0 <= k < f.len() implies p(#[trigger] f[k]) by {
                lemma_filter_from(pool, in_bucket(cv, keys.last()), k);
                let j = choose|j: int| 0 <= j < pool.len() && pool[j] == f[k];
                assert(p(pool[j]));
            }
        }
        let a = floor_list(cv, pool, keys.drop_last(), m);
        let b = take_n(f, m);
        assert forall|k: int| 0 <= k < (a + b).len() implies p(#[trigger] (a + b)[k]) by {
            if k < a.len() {
                assert((a + b)[k] == a[k]);
            } else {
                assert((a + b)[k] == b[k - a.len()]);
                assert(b[k - a.len()] == f[k - a.len()]);
            }
        }
    }
}

/// Noise commits are re-admitted only on a shortfall: a ranking that lists a
/// noise commit is one whose diversity floor and non-noise fill together
/// stayed below `target_min`.
pub proof fn law_noise_only_on_shortfall(
    raw: Seq<ModelScoredCandidateView>,
    cands: Seq<CandidateInputView>,
    cfg: RankingConfig,
)
    ensures
        ({
            let fin = final_order(raw, cands, cfg);
            (exists|i: int|
                0 <= i < fin.len() && noise_spec(cands[lookup(cands, (#[trigger] fin[i]).commit_hash)]))
                ==> signal_tiers(raw, cands, cfg.target_max as nat, cfg.min_per_subsystem as nat).len()
                < cfg.target_min
        }),
{
    let tmin = cfg.target_min as nat;
    let tmax = cfg.target_max as nat;
    let m = cfg.min_per_subsystem as nat;
    let sp = signal_pred(cands);
    let validated = filter_seq(raw, known_pred(cands));
    let signal = sort_desc(filter_seq(validated, sp), by_score());
    lemma_filter_sat(validated, sp);
    lemma_sort_sat(filter_seq(validated, sp), sp);
    let floor = floor_list(cands, signal, bucket_keys(cands, signal), m);
    lemma_floor_sat(cands, signal, bucket_keys(cands, signal), m, sp);
    let empty = Seq::<ModelScoredCandidateView>::empty();
    assert(all_sat(empty, sp));
    lemma_add_all_sat(empty, floor, sp);
    let s1 = fill(add_all(empty, floor), signal, tmax);
    lemma_fill_sat(add_all(empty, floor), signal, tmax, sp);
    assert(s1 == signal_tiers(raw, cands, tmax, m));
    if s1.len() >= tmin {
        let sel = take_n(s1, tmax);
        assert(sel == selection(raw, cands, tmin, tmax, m));
        assert(all_sat(sel, sp)) by {
            assert forall|k: int| 0 <= k < sel.len() implies sp(#[trigger] sel[k]) by {
                assert(sel[k] == s1[k]);
            }
        }
        lemma_sort_sat(sel, sp);
        let fin = sort_desc(sel, by_score());
        assert(fin == final_order(raw, cands, cfg));
        assert forall|i: int| 0 <= i < fin.len() implies !noise_spec(
            cands[lookup(cands, (#[trigger] fin[i]).commit_hash)],
        ) by {
            assert(sp(fin[i]));
        }
    }
}

/// Some entry of `s` has hash `h`.
pub open spec fn holds_hash(s: Seq<ModelScoredCandidateView>, h: Seq<char>) -> bool {
    exists|i: int| 0 <= i < s.len() && (#[trigger] s[i]).commit_hash == h
}

proof fn lemma_add_new_extends(sel: Seq<ModelScoredCandidateView>, r: ModelScoredCandidateView)
    ensures
        add_new(sel, r).len() <= sel.len() + 1,
        add_new(sel, r).len() >= sel.len(),
        forall|j: int| 0 <= j < sel.len() ==> #[trigger] add_new(sel, r)[j] == sel[j],
        holds_hash(add_new(sel, r), r.commit_hash),
{
    if exists|k: int| 0 <= k < sel.len() && (#[trigger] sel[k]).commit_hash == r.commit_hash {
        let k = choose|k: int| 0 <= k < sel.len() && (#[trigger] sel[k]).commit_hash == r.commit_hash;
        assert(add_new(sel, r)[k] == sel[k]);
    } else {
        assert(add_new(sel, r)[sel.len() as int] == r);
    }
}

proof fn lemma_add_all_extends(sel: Seq<ModelScoredCandidateView>, list: Seq<ModelScoredCandidateView>)
    ensures
        add_all(sel, list).len() <= sel.len() + list.len(),
        add_all(sel, list).len() >= sel.len(),
        forall|j: int| 0 <= j < sel.len() ==> #[trigger] add_all(sel, list)[j] == sel[j],
        forall|k: int| 0 <= k < list.len() ==> holds_hash(add_all(sel, list), (#[trigger] list[k]).commit_hash),
    decreases list.len(),
{
    if list.len() > 0 {
        let prev = add_all(sel, list.drop_last());
        lemma_add_all_extends(sel, list.drop_last());
        lemma_add_new_extends(prev, list.last());
        assert forall|k: int| 0 <= k < list.len() implies holds_hash(
            add_all(sel, list),
            (#[trigger] list[k]).commit_hash,
        ) by {
            if k < list.len() - 1 {
                assert(list.drop_last()[k] == list[k]);
                let i = choose|i: int| 0 <= i < prev.len() && (#[trigger] prev[i]).commit_hash == list[k].commit_hash;
                assert(add_all(sel, list)[i] == prev[i]);
            }
        }
    }
}

proof fn lemma_fill_extends(sel: Seq<ModelScoredCandidateView>, list: Seq<ModelScoredCandidateView>, cap: nat)
    ensures
        fill(sel, list, cap).len() >= sel.len(),
        forall|j: int| 0 <= j < sel.len() ==> #[trigger] fill(sel, list, cap)[j] == sel[j],
    decreases list.len(),
{
    if list.len() > 0 {
        let prev = fill(sel, list.drop_last(), cap);
        lemma_fill_extends(sel, list.drop_last(), cap);
        lemma_add_new_extends(prev, list.last());
        assert forall|j: int| 0 <= j < sel.len() implies #[trigger] fill(sel, list, cap)[j] == sel[j] by {
            assert(prev[j] == sel[j]);
        }
    }
}

/// The diversity floor is kept whenever it fits: when its picks number at
/// most `target_max`, each of them is in the final ranking.
pub proof fn law_diversity_floor_kept(
    raw: Seq<ModelScoredCandidateView>,
    cands: Seq<CandidateInputView>,
    cfg: RankingConfig,
)
    requires
        diversity_floor(raw, cands, cfg.min_per_subsystem as nat).len() <= cfg.target_max,
    ensures
        forall|k: int|
            0 <= k < diversity_floor(raw, cands, cfg.min_per_subsystem as nat).len() ==> holds_hash(
                final_order(raw, cands, cfg),
                (#[trigger] diversity_floor(raw, cands, cfg.min_per_subsystem as nat)[k]).commit_hash,
            ),
{
    let tmin = cfg.target_min as nat;
    let tmax = cfg.target_max as nat;
    let m = cfg.min_per_subsystem as nat;
    let validated = filter_seq(raw, known_pred(cands));
    let signal = sort_desc(filter_seq(validated, signal_pred(cands)), by_score());
    let noise = sort_desc(filter_seq(validated, noise_pred(cands)), by_score());
    let floor = floor_list(cands, signal, bucket_keys(cands, signal), m);
    assert(floor == diversity_floor(raw, cands, m));
    let empty = Seq::<ModelScoredCandidateView>::empty();
    let s0 = add_all(empty, floor);
    lemma_add_all_extends(empty, floor);
    let s1 = fill(s0, signal, tmax);
    lemma_fill_extends(s0, signal, tmax);
    let s2 = if s1.len() < tmin {
        fill(s1, noise, tmin)
    } else {
        s1
    };
    lemma_fill_extends(s1, noise, tmin);
    let sel = take_n(s2, tmax);
    assert(sel == selection(raw, cands, tmin, tmax, m));
    let fin = sort_desc(sel, by_score());
    assert(fin == final_order(raw, cands, cfg));
    assert forall|k: int| 0 <= k < floor.len() implies holds_hash(fin, (#[trigger] floor[k]).commit_hash) by {
        let j = choose|j: int| 0 <= j < s0.len() && (#[trigger] s0[j]).commit_hash == floor[k].commit_hash;
        assert(s1[j] == s0[j]);
        assert(s2[j] == s0[j]);
        assert(sel[j] == s0[j]);
        lemma_sort_desc_contains(sel, by_score(), j);
        let q = choose|q: int| 0 <= q < fin.len() && fin[q] == sel[j];
        assert(fin[q].commit_hash == floor[k].commit_hash);
    }
}

} // verus!
