//! Deterministic stage of significance ranking: noise detection and the
//! selection and ranking of model-scored candidates (no model calls).
use vstd::prelude::*;

use crate::mining_types::append_new;
use crate::patterns::{regex_is_match, regex_matches};
use crate::ranking_types::{
    candidate_views, ranked_views, scored_views, signals_of, CandidateInput, CandidateInputView,
    ModelScoredCandidate, ModelScoredCandidateView, RankedCandidate, RankedCandidateView,
    RankingConfig, SignalSummary, score_key, score_key_of,
};
use crate::sorting::{first_below, lemma_first_below_is, sort_desc};
use crate::text::{copy_str, copy_strings, strs, trim, trim_str};

verus! {

/// Lockfiles and formatter/linter configuration.
pub const NOISE_PATH_PATTERN: &'static str = "(?ix)(^|/)(package-lock\\.json|yarn\\.lock|pnpm-lock\\.yaml|Cargo\\.lock|poetry\\.lock|Gemfile\\.lock|go\\.sum|composer\\.lock|\\.prettierrc.*|\\.eslintrc.*|\\.editorconfig|rustfmt\\.toml)$";

/// Subjects of routine churn.
pub const NOISE_MSG_PATTERN: &'static str = "(?ix)^(chore|style|format|formatting|lint|deps|dependenc(y|ies)|bump\\s+version|version\\s+bump|merge\\s+branch|update\\s+.*\\.lock|release\\s+v?\\d)(:|\\(|\\s|$)";

/// A candidate is noise when its subject reads like routine churn or every
/// file it touched (vacuously, when it touched none) is a lockfile/config file.
pub open spec fn noise_spec(c: CandidateInputView) -> bool {
    regex_is_match(NOISE_MSG_PATTERN@, trim(c.commit.message_summary)) || forall|k: int|
        0 <= k < c.commit.files_changed.len() ==> regex_is_match(
            NOISE_PATH_PATTERN@,
            #[trigger] c.commit.files_changed[k].path,
        )
}

/// True if a candidate should be dropped from the primary pool: its message
/// reads like routine churn, it touched no file, or every file it touched is a
/// lockfile/config. Such candidates go to the noise pool, from which
/// `post_process` can still re-admit them to reach `target_min`.
pub fn is_noise_commit(c: &CandidateInput) -> (r: bool)
    ensures
        r == noise_spec(c@),
{
    let subject = trim_str(c.commit.message_summary.as_str());
    if regex_matches(NOISE_MSG_PATTERN, subject.as_str()) {
        return true;
    }
    if c.commit.files_changed.len() == 0 {
        return true;
    }
    let mut i: usize = 0;
    while i < c.commit.files_changed.len()
        invariant
            i <= c.commit.files_changed.len(),
            !regex_is_match(NOISE_MSG_PATTERN@, trim(c@.commit.message_summary)),
            forall|k: int|
                0 <= k < i ==> regex_is_match(
                    NOISE_PATH_PATTERN@,
                    #[trigger] c@.commit.files_changed[k].path,
                ),
        decreases c.commit.files_changed.len() - i,
    {
        if !regex_matches(NOISE_PATH_PATTERN, c.commit.files_changed[i].path.as_str()) {
            assert(c@.commit.files_changed[i as int].path == c.commit.files_changed@[i as int].path@);
            return false;
        }
        i += 1;
    }
    true
}

// ---------- selection specification ----------

/// The elements of `s` satisfying `p`, in order.
pub open spec fn filter_seq<T>(s: Seq<T>, p: spec_fn(T) -> bool) -> Seq<T>
    decreases s.len(),
{
    if s.len() == 0 {
        Seq::empty()
    } else {
        let prev = filter_seq(s.drop_last(), p);
        if p(s.last()) {
            prev.push(s.last())
        } else {
            prev
        }
    }
}

/// At most the first `n` elements of `s`.
pub open spec fn take_n<T>(s: Seq<T>, n: nat) -> Seq<T> {
    if s.len() <= n {
        s
    } else {
        s.take(n as int)
    }
}

/// Score-descending order on scored candidates.
pub open spec fn by_score() -> spec_fn(ModelScoredCandidateView, ModelScoredCandidateView) -> bool {
    |a: ModelScoredCandidateView, b: ModelScoredCandidateView| score_key_of(a.score) < score_key_of(b.score)
}

/// Some candidate has hash `h`.
pub open spec fn known(cands: Seq<CandidateInputView>, h: Seq<char>) -> bool {
    exists|i: int| 0 <= i < cands.len() && (#[trigger] cands[i]).commit.hash == h
}

/// The candidate a hash resolves to: the last one with that hash.
#[verifier::opaque]
pub open spec fn lookup(cands: Seq<CandidateInputView>, h: Seq<char>) -> int {
    choose|i: int|
        0 <= i < cands.len() && cands[i].commit.hash == h && forall|j: int|
            i < j < cands.len() ==> (#[trigger] cands[j]).commit.hash != h
}

pub open spec fn known_pred(cands: Seq<CandidateInputView>) -> spec_fn(ModelScoredCandidateView) -> bool {
    |r: ModelScoredCandidateView| known(cands, r.commit_hash)
}

pub open spec fn noise_pred(cands: Seq<CandidateInputView>) -> spec_fn(ModelScoredCandidateView) -> bool {
    |r: ModelScoredCandidateView| noise_spec(cands[lookup(cands, r.commit_hash)])
}

pub open spec fn signal_pred(cands: Seq<CandidateInputView>) -> spec_fn(ModelScoredCandidateView) -> bool {
    |r: ModelScoredCandidateView| !noise_spec(cands[lookup(cands, r.commit_hash)])
}

/// Primary subsystem of a scored candidate for the diversity floor.
pub open spec fn primary_of(cands: Seq<CandidateInputView>, r: ModelScoredCandidateView) -> Seq<char> {
    let s = cands[lookup(cands, r.commit_hash)].commit.subsystems;
    if s.len() > 0 {
        s[0]
    } else {
        "unknown"@
    }
}

pub open spec fn in_bucket(cands: Seq<CandidateInputView>, key: Seq<char>) -> spec_fn(ModelScoredCandidateView) -> bool {
    |r: ModelScoredCandidateView| primary_of(cands, r) == key
}

/// Distinct primary subsystems of `pool`, in order of first appearance.
pub open spec fn bucket_keys(cands: Seq<CandidateInputView>, pool: Seq<ModelScoredCandidateView>) -> Seq<Seq<char>> {
    append_new(Seq::empty(), pool.map_values(primary_fn(cands)))
}

pub open spec fn primary_fn(cands: Seq<CandidateInputView>) -> spec_fn(ModelScoredCandidateView) -> Seq<char> {
    |r: ModelScoredCandidateView| primary_of(cands, r)
}

/// The diversity-floor picks: for each key in order, the first `m` entries of
/// `pool` with that primary subsystem.
pub open spec fn floor_list(
    cands: Seq<CandidateInputView>,
    pool: Seq<ModelScoredCandidateView>,
    keys: Seq<Seq<char>>,
    m: nat,
) -> Seq<ModelScoredCandidateView>
    decreases keys.len(),
{
    if keys.len() == 0 {
        Seq::empty()
    } else {
        floor_list(cands, pool, keys.drop_last(), m) + take_n(
            filter_seq(pool, in_bucket(cands, keys.last())),
            m,
        )
    }
}

/// `sel` with `r` appended unless an entry with the same hash is present.
pub open spec fn add_new(sel: Seq<ModelScoredCandidateView>, r: ModelScoredCandidateView) -> Seq<
    ModelScoredCandidateView,
> {
    if exists|k: int| 0 <= k < sel.len() && (#[trigger] sel[k]).commit_hash == r.commit_hash {
        sel
    } else {
        sel.push(r)
    }
}

/// `sel` extended from `list` in order by `add_new`.
pub open spec fn add_all(sel: Seq<ModelScoredCandidateView>, list: Seq<ModelScoredCandidateView>) -> Seq<
    ModelScoredCandidateView,
>
    decreases list.len(),
{
    if list.len() == 0 {
        sel
    } else {
        add_new(add_all(sel, list.drop_last()), list.last())
    }
}

/// `sel` extended from `list` in order by `add_new`, stopping once it holds
/// `cap` entries.
pub open spec fn fill(
    sel: Seq<ModelScoredCandidateView>,
    list: Seq<ModelScoredCandidateView>,
    cap: nat,
) -> Seq<ModelScoredCandidateView>
    decreases list.len(),
{
    if list.len() == 0 {
        sel
    } else {
        let prev = fill(sel, list.drop_last(), cap);
        if prev.len() >= cap {
            prev
        } else {
            add_new(prev, list.last())
        }
    }
}

/// The selected set, before the final ranking sort.
pub open spec fn selection(
    raw: Seq<ModelScoredCandidateView>,
    cands: Seq<CandidateInputView>,
    target_min: nat,
    target_max: nat,
    m: nat,
) -> Seq<ModelScoredCandidateView> {
    let validated = filter_seq(raw, known_pred(cands));
    let signal = sort_desc(filter_seq(validated, signal_pred(cands)), by_score());
    let noise = sort_desc(filter_seq(validated, noise_pred(cands)), by_score());
    let floor = floor_list(cands, signal, bucket_keys(cands, signal), m);
    let s1 = fill(add_all(Seq::empty(), floor), signal, target_max);
    let s2 = if s1.len() < target_min {
        fill(s1, noise, target_min)
    } else {
        s1
    };
    take_n(s2, target_max)
}

/// The diversity-floor picks of `selection`: the first `m` non-noise entries
/// by score of each primary subsystem.
pub open spec fn diversity_floor(
    raw: Seq<ModelScoredCandidateView>,
    cands: Seq<CandidateInputView>,
    m: nat,
) -> Seq<ModelScoredCandidateView> {
    let validated = filter_seq(raw, known_pred(cands));
    let signal = sort_desc(filter_seq(validated, signal_pred(cands)), by_score());
    floor_list(cands, signal, bucket_keys(cands, signal), m)
}

/// The first two selection tiers: the diversity floor, then the non-noise
/// pool by score, up to `target_max` (the `s1` of `selection`).
pub open spec fn signal_tiers(
    raw: Seq<ModelScoredCandidateView>,
    cands: Seq<CandidateInputView>,
    target_max: nat,
    m: nat,
) -> Seq<ModelScoredCandidateView> {
    let validated = filter_seq(raw, known_pred(cands));
    let signal = sort_desc(filter_seq(validated, signal_pred(cands)), by_score());
    let floor = floor_list(cands, signal, bucket_keys(cands, signal), m);
    fill(add_all(Seq::empty(), floor), signal, target_max)
}

/// The tour entry for selected `r` at 1-based position `rank`.
pub open spec fn ranked_entry(
    r: ModelScoredCandidateView,
    rank: int,
    c: CandidateInputView,
    threshold: u32,
) -> RankedCandidateView {
    RankedCandidateView {
        rank: rank as usize,
        commit_hash: r.commit_hash,
        subsystem: if c.commit.subsystems.len() > 0 {
            c.commit.subsystems[0]
        } else {
            Seq::empty()
        },
        subsystems: c.commit.subsystems,
        timestamp_utc: c.commit.timestamp_utc,
        score: r.score,
        signals: SignalSummary {
            architecture_shaping: r.architecture_shaping,
            ..signals_of(c, threshold)
        },
        rationale: r.rationale,
        evidence_summary: r.evidence_summary,
        source_pr: c.pr.pr_number,
    }
}


// ---------- implementation ----------

pub open spec fn all_known(cands: Seq<CandidateInputView>, s: Seq<ModelScoredCandidateView>) -> bool {
    forall|k: int| 0 <= k < s.len() ==> known(cands, (#[trigger] s[k]).commit_hash)
}

/// The index of the candidate `h` resolves to, if any.
fn lookup_index(cands: &[CandidateInput], h: &String) -> (r: Option<usize>)
    ensures
        r is Some <==> known(candidate_views(cands@), h@),
        r matches Some(i) ==> i < cands@.len() && i == lookup(candidate_views(cands@), h@),
{
    let ghost cv = candidate_views(cands@);
    let mut found: Option<usize> = None;
    let mut i: usize = 0;
    while i < cands.len()
        invariant
            i <= cands@.len(),
            cv == candidate_views(cands@),
            found matches Some(f) ==> f < i && cv[f as int].commit.hash == h@ && forall|j: int|
                f < j < i ==> (#[trigger] cv[j]).commit.hash != h@,
            found is None ==> forall|j: int| 0 <= j < i ==> (#[trigger] cv[j]).commit.hash != h@,
        decreases cands@.len() - i,
    {
        if cands[i].commit.hash == *h {
            found = Some(i);
        }
        i += 1;
    }
    match found {
        Some(f) => {
            reveal(lookup);
            assert(known(cv, h@));
            let ghost c = lookup(cv, h@);
            assert(c == f) by {
                if c < f {
                    assert(cv[f as int].commit.hash != h@);
                }
                if c > f {
                    assert(cv[c].commit.hash != h@);
                }
            }
        },
        None => {
            assert(!known(cv, h@));
        },
    }
    found
}

/// Sorts scored candidates by descending score (stable).
fn sort_scored_desc(v: Vec<ModelScoredCandidate>) -> (r: Vec<ModelScoredCandidate>)
    ensures
        scored_views(r@) == sort_desc(scored_views(v@), by_score()),
{
    let ghost s = scored_views(v@);
    let ghost n = v@.len();
    let mut input = v;
    let mut out: Vec<ModelScoredCandidate> = Vec::new();
    assert(s.take(0) =~= Seq::<ModelScoredCandidateView>::empty());
    assert(s.skip(0) =~= s);
    while input.len() > 0
        invariant
            input@.len() <= n,
            s.len() == n,
            scored_views(input@) == s.skip(n - input@.len()),
            scored_views(out@) == sort_desc(s.take(n - input@.len()), by_score()),
        decreases input@.len(),
    {
        let ghost k = n - input@.len();
        let ghost before_in = input@;
        let x = input.remove(0);
        assert(scored_views(before_in)[0] == before_in[0]@);
        assert(s.skip(k)[0] == s[k]);
        assert(scored_views(input@) =~= scored_views(before_in).drop_first());
        assert(scored_views(input@) =~= s.skip(k + 1));
        let mut p: usize = 0;
        while p < out.len() && !(score_key(out[p].score) < score_key(x.score))
            invariant
                p <= out.len(),
                forall|q: int|
                    0 <= q < p ==> !(by_score())(#[trigger] scored_views(out@)[q], x@),
            decreases out.len() - p,
        {
            p += 1;
        }
        proof {
            lemma_first_below_is(scored_views(out@), x@, by_score(), p as int);
            assert(s.take(k + 1).drop_last() =~= s.take(k));
            assert(s.take(k + 1).last() == x@);
        }
        let ghost before = scored_views(out@);
        out.insert(p, x);
        assert(scored_views(out@) =~= before.insert(p as int, x@));
    }
    assert(s.take(n as int) =~= s);
    out
}

/// The model's entries whose hash is a known candidate, in order.
fn keep_known(raw: &Vec<ModelScoredCandidate>, cands: &[CandidateInput]) -> (r: Vec<
    ModelScoredCandidate,
>)
    ensures
        scored_views(r@) == filter_seq(scored_views(raw@), known_pred(candidate_views(cands@))),
        all_known(candidate_views(cands@), scored_views(r@)),
{
    let ghost cv = candidate_views(cands@);
    let ghost s = scored_views(raw@);
    let mut r: Vec<ModelScoredCandidate> = Vec::new();
    let mut i: usize = 0;
    while i < raw.len()
        invariant
            i <= raw@.len(),
            s == scored_views(raw@),
            cv == candidate_views(cands@),
            scored_views(r@) == filter_seq(s.take(i as int), known_pred(cv)),
            all_known(cv, scored_views(r@)),
        decreases raw@.len() - i,
    {
        assert(s.take(i + 1).drop_last() =~= s.take(i as int));
        assert(s.take(i + 1).last() == s[i as int]);
        let ghost before = scored_views(r@);
        match lookup_index(cands, &raw[i].commit_hash) {
            Some(_) => {
                r.push(raw[i].copy());
                assert(scored_views(r@) =~= before.push(s[i as int]));
            },
            None => {},
        }
        i += 1;
    }
    assert(s.take(raw@.len() as int) =~= s);
    r
}

/// Splits `v` (all known) into its non-noise and noise entries, in order.
fn split_noise(v: &Vec<ModelScoredCandidate>, cands: &[CandidateInput]) -> (r: (
    Vec<ModelScoredCandidate>,
    Vec<ModelScoredCandidate>,
))
    requires
        all_known(candidate_views(cands@), scored_views(v@)),
    ensures
        scored_views(r.0@) == filter_seq(scored_views(v@), signal_pred(candidate_views(cands@))),
        scored_views(r.1@) == filter_seq(scored_views(v@), noise_pred(candidate_views(cands@))),
{
    let ghost cv = candidate_views(cands@);
    let ghost s = scored_views(v@);
    let mut sig: Vec<ModelScoredCandidate> = Vec::new();
    let mut noise: Vec<ModelScoredCandidate> = Vec::new();
    let mut i: usize = 0;
    while i < v.len()
        invariant
            i <= v@.len(),
            s == scored_views(v@),
            cv == candidate_views(cands@),
            all_known(cv, s),
            scored_views(sig@) == filter_seq(s.take(i as int), signal_pred(cv)),
            scored_views(noise@) == filter_seq(s.take(i as int), noise_pred(cv)),
        decreases v@.len() - i,
    {
        assert(s.take(i + 1).drop_last() =~= s.take(i as int));
        assert(s.take(i + 1).last() == s[i as int]);
        assert(known(cv, s[i as int].commit_hash));
        let idx = lookup_index(cands, &v[i].commit_hash);
        let j = match idx {
            Some(j) => j,
            None => {
                assert(false);
                0
            },
        };
        assert(cv[j as int] == cands@[j as int]@);
        if is_noise_commit(&cands[j]) {
            let ghost before = scored_views(noise@);
            noise.push(v[i].copy());
            assert(scored_views(noise@) =~= before.push(s[i as int]));
        } else {
            let ghost before = scored_views(sig@);
            sig.push(v[i].copy());
            assert(scored_views(sig@) =~= before.push(s[i as int]));
        }
        i += 1;
    }
    assert(s.take(v@.len() as int) =~= s);
    (sig, noise)
}


pub proof fn lemma_filter_from<T>(s: Seq<T>, p: spec_fn(T) -> bool, k: int)
    requires
        0 <= k < filter_seq(s, p).len(),
    ensures
        exists|j: int| 0 <= j < s.len() && s[j] == filter_seq(s, p)[k],
        p(filter_seq(s, p)[k]),
    decreases s.len(),
{
    let prev = filter_seq(s.drop_last(), p);
    if k < prev.len() {
        lemma_filter_from(s.drop_last(), p, k);
        let j = choose|j: int| 0 <= j < s.len() - 1 && s.drop_last()[j] == prev[k];
        assert(s[j] == prev[k]);
        if p(s.last()) {
            assert(filter_seq(s, p)[k] == prev[k]);
        }
    } else {
        assert(s[s.len() - 1] == filter_seq(s, p)[k]);
    }
}

pub proof fn lemma_all_known_filter(
    cv: Seq<CandidateInputView>,
    s: Seq<ModelScoredCandidateView>,
    p: spec_fn(ModelScoredCandidateView) -> bool,
)
    requires
        all_known(cv, s),
    ensures
        all_known(cv, filter_seq(s, p)),
{
    assert forall|k: int| 0 <= k < filter_seq(s, p).len() implies known(
        cv,
        (#[trigger] filter_seq(s, p)[k]).commit_hash,
    ) by {
        lemma_filter_from(s, p, k);
        let j = choose|j: int| 0 <= j < s.len() && s[j] == filter_seq(s, p)[k];
        assert(known(cv, s[j].commit_hash));
    }
}

pub proof fn lemma_all_known_sort(cv: Seq<CandidateInputView>, s: Seq<ModelScoredCandidateView>)
    requires
        all_known(cv, s),
    ensures
        all_known(cv, sort_desc(s, by_score())),
{
    crate::sorting::lemma_sort_desc_len(s, by_score());
    assert forall|k: int| 0 <= k < sort_desc(s, by_score()).len() implies known(
        cv,
        (#[trigger] sort_desc(s, by_score())[k]).commit_hash,
    ) by {
        crate::sorting::lemma_sort_desc_from_input(s, by_score(), k);
        let j = choose|j: int| 0 <= j < s.len() && s[j] == sort_desc(s, by_score())[k];
        assert(known(cv, s[j].commit_hash));
    }
}

/// The primary subsystem of a known scored candidate.
fn primary(cands: &[CandidateInput], r: &ModelScoredCandidate) -> (p: String)
    requires
        known(candidate_views(cands@), r@.commit_hash),
    ensures
        p@ == primary_of(candidate_views(cands@), r@),
{
    let ghost cv = candidate_views(cands@);
    let j = match lookup_index(cands, &r.commit_hash) {
        Some(j) => j,
        None => {
            assert(false);
            0
        },
    };
    assert(cv[j as int] == cands@[j as int]@);
    if cands[j].commit.subsystems.len() > 0 {
        cands[j].commit.subsystems[0].clone()
    } else {
        copy_str("unknown")
    }
}

/// Distinct primary subsystems of `pool`, in order of first appearance.
fn primaries_in_order(pool: &Vec<ModelScoredCandidate>, cands: &[CandidateInput]) -> (keys: Vec<
    String,
>)
    requires
        all_known(candidate_views(cands@), scored_views(pool@)),
    ensures
        strs(keys@) == bucket_keys(candidate_views(cands@), scored_views(pool@)),
{
    let ghost cv = candidate_views(cands@);
    let ghost s = scored_views(pool@);
    let mut prims: Vec<String> = Vec::new();
    let mut i: usize = 0;
    while i < pool.len()
        invariant
            i <= pool@.len(),
            s == scored_views(pool@),
            cv == candidate_views(cands@),
            all_known(cv, s),
            strs(prims@) == s.take(i as int).map_values(primary_fn(cv)),
        decreases pool@.len() - i,
    {
        assert(known(cv, s[i as int].commit_hash));
        let ghost before = strs(prims@);
        let p = primary(cands, &pool[i]);
        prims.push(p);
        assert(strs(prims@) =~= before.push(primary_of(cv, s[i as int])));
        assert(s.take(i + 1).map_values(primary_fn(cv)) =~= s.take(i as int).map_values(
            primary_fn(cv),
        ).push(primary_of(cv, s[i as int])));
        i += 1;
    }
    assert(s.take(pool@.len() as int) =~= s);
    let mut keys: Vec<String> = Vec::new();
    assert(strs(keys@) =~= Seq::<Seq<char>>::empty());
    crate::mining_types::extend_unique(&mut keys, &prims);
    keys
}

/// The entries of `pool` (all known) whose primary subsystem is `key`, at most `m`.
fn bucket_head(pool: &Vec<ModelScoredCandidate>, cands: &[CandidateInput], key: &String, m: usize) -> (r: Vec<
    ModelScoredCandidate,
>)
    requires
        all_known(candidate_views(cands@), scored_views(pool@)),
    ensures
        scored_views(r@) == take_n(
            filter_seq(scored_views(pool@), in_bucket(candidate_views(cands@), key@)),
            m as nat,
        ),
        all_known(candidate_views(cands@), scored_views(r@)),
{
    let ghost cv = candidate_views(cands@);
    let ghost s = scored_views(pool@);
    let mut r: Vec<ModelScoredCandidate> = Vec::new();
    let mut i: usize = 0;
    while i < pool.len()
        invariant
            i <= pool@.len(),
            s == scored_views(pool@),
            cv == candidate_views(cands@),
            all_known(cv, s),
            scored_views(r@) == filter_seq(s.take(i as int), in_bucket(cv, key@)),
            all_known(cv, scored_views(r@)),
        decreases pool@.len() - i,
    {
        assert(s.take(i + 1).drop_last() =~= s.take(i as int));
        assert(s.take(i + 1).last() == s[i as int]);
        assert(known(cv, s[i as int].commit_hash));
        let p = primary(cands, &pool[i]);
        if p == *key {
            let ghost before = scored_views(r@);
            r.push(pool[i].copy());
            assert(scored_views(r@) =~= before.push(s[i as int]));
        }
        i += 1;
    }
    assert(s.take(pool@.len() as int) =~= s);
    let ghost full = scored_views(r@);
    r.truncate(m);
    assert(scored_views(r@) =~= take_n(full, m as nat));
    r
}

/// The diversity-floor picks of `pool` for `keys`.
fn floor_picks(pool: &Vec<ModelScoredCandidate>, cands: &[CandidateInput], keys: &Vec<String>, m: usize) -> (r: Vec<
    ModelScoredCandidate,
>)
    requires
        all_known(candidate_views(cands@), scored_views(pool@)),
    ensures
        scored_views(r@) == floor_list(
            candidate_views(cands@),
            scored_views(pool@),
            strs(keys@),
            m as nat,
        ),
        all_known(candidate_views(cands@), scored_views(r@)),
{
    let ghost cv = candidate_views(cands@);
    let ghost s = scored_views(pool@);
    let ghost ks = strs(keys@);
    let mut r: Vec<ModelScoredCandidate> = Vec::new();
    let mut i: usize = 0;
    while i < keys.len()
        invariant
            i <= keys@.len(),
            s == scored_views(pool@),
            cv == candidate_views(cands@),
            ks == strs(keys@),
            all_known(cv, s),
            scored_views(r@) == floor_list(cv, s, ks.take(i as int), m as nat),
            all_known(cv, scored_views(r@)),
        decreases keys@.len() - i,
    {
        assert(ks.take(i + 1).drop_last() =~= ks.take(i as int));
        assert(ks.take(i + 1).last() == keys@[i as int]@);
        let ghost before = scored_views(r@);
        let mut b = bucket_head(pool, cands, &keys[i], m);
        let ghost bv = scored_views(b@);
        r.append(&mut b);
        assert(scored_views(r@) =~= before + bv);
        i += 1;
    }
    assert(ks.take(keys@.len() as int) =~= ks);
    r
}

/// Appends `r` to `sel` unless an entry with the same hash is present.
fn add_if_new(sel: &mut Vec<ModelScoredCandidate>, r: &ModelScoredCandidate)
    ensures
        scored_views(final(sel)@) == add_new(scored_views(old(sel)@), r@),
{
    let ghost s = scored_views(sel@);
    let mut i: usize = 0;
    while i < sel.len()
        invariant
            i <= sel@.len(),
            s == scored_views(sel@),
            forall|k: int| 0 <= k < i ==> (#[trigger] s[k]).commit_hash != r@.commit_hash,
        decreases sel@.len() - i,
    {
        if sel[i].commit_hash == r.commit_hash {
            assert(s[i as int].commit_hash == r@.commit_hash);
            return;
        }
        i += 1;
    }
    sel.push(r.copy());
    assert(scored_views(sel@) =~= s.push(r@));
}

/// Adds the entries of `list` in order (see `add_all`).
fn add_each(sel: &mut Vec<ModelScoredCandidate>, list: &Vec<ModelScoredCandidate>)
    ensures
        scored_views(final(sel)@) == add_all(scored_views(old(sel)@), scored_views(list@)),
{
    let ghost s0 = scored_views(sel@);
    let ghost l = scored_views(list@);
    let mut i: usize = 0;
    while i < list.len()
        invariant
            i <= list@.len(),
            l == scored_views(list@),
            scored_views(sel@) == add_all(s0, l.take(i as int)),
        decreases list@.len() - i,
    {
        assert(l.take(i + 1).drop_last() =~= l.take(i as int));
        assert(l.take(i + 1).last() == l[i as int]);
        add_if_new(sel, &list[i]);
        i += 1;
    }
    assert(l.take(list@.len() as int) =~= l);
}

/// Adds the entries of `list` in order until `sel` holds `cap` (see `fill`).
fn fill_to(sel: &mut Vec<ModelScoredCandidate>, list: &Vec<ModelScoredCandidate>, cap: usize)
    ensures
        scored_views(final(sel)@) == fill(scored_views(old(sel)@), scored_views(list@), cap as nat),
{
    let ghost s0 = scored_views(sel@);
    let ghost l = scored_views(list@);
    let mut i: usize = 0;
    while i < list.len()
        invariant
            i <= list@.len(),
            l == scored_views(list@),
            scored_views(sel@) == fill(s0, l.take(i as int), cap as nat),
        decreases list@.len() - i,
    {
        assert(l.take(i + 1).drop_last() =~= l.take(i as int));
        assert(l.take(i + 1).last() == l[i as int]);
        if sel.len() < cap {
            add_if_new(sel, &list[i]);
        }
        i += 1;
    }
    assert(l.take(list@.len() as int) =~= l);
}


/// The final order: the selection sorted by descending score.
pub open spec fn final_order(
    raw: Seq<ModelScoredCandidateView>,
    cands: Seq<CandidateInputView>,
    cfg: RankingConfig,
) -> Seq<ModelScoredCandidateView> {
    sort_desc(
        selection(
            raw,
            cands,
            cfg.target_min as nat,
            cfg.target_max as nat,
            cfg.min_per_subsystem as nat,
        ),
        by_score(),
    )
}

/// The tour entries for the final order, ranked 1, 2, ...
pub open spec fn ranked_list(
    fin: Seq<ModelScoredCandidateView>,
    cands: Seq<CandidateInputView>,
    threshold: u32,
) -> Seq<RankedCandidateView> {
    Seq::new(
        fin.len(),
        |i: int| ranked_entry(fin[i], i + 1, cands[lookup(cands, fin[i].commit_hash)], threshold),
    )
}

pub proof fn lemma_add_all_known(
    cv: Seq<CandidateInputView>,
    sel: Seq<ModelScoredCandidateView>,
    list: Seq<ModelScoredCandidateView>,
)
    requires
        all_known(cv, sel),
        all_known(cv, list),
    ensures
        all_known(cv, add_all(sel, list)),
    decreases list.len(),
{
    if list.len() > 0 {
        assert(all_known(cv, list.drop_last())) by {
            assert forall|k: int| 0 <= k < list.drop_last().len() implies known(
                cv,
                (#[trigger] list.drop_last()[k]).commit_hash,
            ) by {
                assert(list.drop_last()[k] == list[k]);
            }
        }
        lemma_add_all_known(cv, sel, list.drop_last());
        assert(known(cv, list[list.len() - 1].commit_hash));
    }
}

pub proof fn lemma_fill_known(
    cv: Seq<CandidateInputView>,
    sel: Seq<ModelScoredCandidateView>,
    list: Seq<ModelScoredCandidateView>,
    cap: nat,
)
    requires
        all_known(cv, sel),
        all_known(cv, list),
    ensures
        all_known(cv, fill(sel, list, cap)),
    decreases list.len(),
{
    if list.len() > 0 {
        assert(all_known(cv, list.drop_last())) by {
            assert forall|k: int| 0 <= k < list.drop_last().len() implies known(
                cv,
                (#[trigger] list.drop_last()[k]).commit_hash,
            ) by {
                assert(list.drop_last()[k] == list[k]);
            }
        }
        lemma_fill_known(cv, sel, list.drop_last(), cap);
        assert(known(cv, list[list.len() - 1].commit_hash));
    }
}

/// Deterministic selection and ranking of model-scored candidates; no model call.
///
/// Entries whose hash is not a candidate are dropped. The rest split into a
/// non-noise and a noise pool (`is_noise_commit`), each score-sorted. The set
/// is chosen in tiers until `target_min` entries are chosen or the pools run
/// out: first a diversity floor of `min_per_subsystem` per primary subsystem
/// (subsystems in order of first appearance in the non-noise pool), then the
/// non-noise pool by score up to `target_max`, then the highest-scoring noise
/// entries while below `target_min`. The set is cut to `target_max`, sorted by
/// score and ranked from 1. The flag reports whether it is still short of
/// `target_min`.
pub fn post_process(
    ranked_raw: Vec<ModelScoredCandidate>,
    candidates: &[CandidateInput],
    cfg: &RankingConfig,
) -> (r: (Vec<RankedCandidate>, bool))
    ensures
        ranked_views(r.0@) == ranked_list(
            final_order(scored_views(ranked_raw@), candidate_views(candidates@), *cfg),
            candidate_views(candidates@),
            cfg.discussion_rich_comment_threshold,
        ),
        r.1 == (final_order(scored_views(ranked_raw@), candidate_views(candidates@), *cfg).len()
            < cfg.target_min),
{
    let ghost cv = candidate_views(candidates@);
    let ghost raw = scored_views(ranked_raw@);
    let validated = keep_known(&ranked_raw, candidates);
    let (sig, noise) = split_noise(&validated, candidates);
    proof {
        lemma_all_known_filter(cv, scored_views(validated@), signal_pred(cv));
        lemma_all_known_filter(cv, scored_views(validated@), noise_pred(cv));
    }
    let sig = sort_scored_desc(sig);
    let noise = sort_scored_desc(noise);
    proof {
        lemma_all_known_sort(cv, filter_seq(scored_views(validated@), signal_pred(cv)));
        lemma_all_known_sort(cv, filter_seq(scored_views(validated@), noise_pred(cv)));
    }
    let keys = primaries_in_order(&sig, candidates);
    let floor = floor_picks(&sig, candidates, &keys, cfg.min_per_subsystem);
    let mut selected: Vec<ModelScoredCandidate> = Vec::new();
    assert(scored_views(selected@) =~= Seq::<ModelScoredCandidateView>::empty());
    add_each(&mut selected, &floor);
    proof {
        lemma_add_all_known(cv, Seq::empty(), scored_views(floor@));
    }
    fill_to(&mut selected, &sig, cfg.target_max);
    proof {
        lemma_fill_known(
            cv,
            add_all(Seq::empty(), scored_views(floor@)),
            scored_views(sig@),
            cfg.target_max as nat,
        );
    }
    if selected.len() < cfg.target_min {
        let ghost s1 = scored_views(selected@);
        fill_to(&mut selected, &noise, cfg.target_min);
        proof {
            lemma_fill_known(cv, s1, scored_views(noise@), cfg.target_min as nat);
        }
    }
    let ghost s2 = scored_views(selected@);
    selected.truncate(cfg.target_max);
    assert(scored_views(selected@) =~= take_n(s2, cfg.target_max as nat));
    assert(all_known(cv, scored_views(selected@))) by {
        assert forall|k: int| 0 <= k < scored_views(selected@).len() implies known(
            cv,
            (#[trigger] scored_views(selected@)[k]).commit_hash,
        ) by {
            assert(scored_views(selected@)[k] == s2[k]);
        }
    }
    assert(scored_views(selected@) == selection(
        raw,
        cv,
        cfg.target_min as nat,
        cfg.target_max as nat,
        cfg.min_per_subsystem as nat,
    ));
    let ghost sel_v = scored_views(selected@);
    let fin = sort_scored_desc(selected);
    proof {
        lemma_all_known_sort(cv, sel_v);
        crate::sorting::lemma_sort_desc_len(sel_v, by_score());
    }
    let below = fin.len() < cfg.target_min;
    let ghost fv = scored_views(fin@);
    let mut out: Vec<RankedCandidate> = Vec::new();
    let mut i: usize = 0;
    while i < fin.len()
        invariant
            i <= fin@.len(),
            fv == scored_views(fin@),
            cv == candidate_views(candidates@),
            all_known(cv, fv),
            ranked_views(out@) == ranked_list(fv, cv, cfg.discussion_rich_comment_threshold).take(
                i as int,
            ),
        decreases fin@.len() - i,
    {
        let r = &fin[i];
        assert(known(cv, fv[i as int].commit_hash));
        let j = match lookup_index(candidates, &r.commit_hash) {
            Some(j) => j,
            None => {
                assert(false);
                0
            },
        };
        let c = &candidates[j];
        assert(cv[j as int] == c@);
        let base = SignalSummary::from_candidate(c, cfg.discussion_rich_comment_threshold);
        let signals = SignalSummary { architecture_shaping: r.architecture_shaping, ..base };
        let subsystem = if c.commit.subsystems.len() > 0 {
            c.commit.subsystems[0].clone()
        } else {
            String::new()
        };
        let entry = RankedCandidate {
            rank: i + 1,
            commit_hash: r.commit_hash.clone(),
            subsystem,
            subsystems: copy_strings(&c.commit.subsystems),
            timestamp_utc: c.commit.timestamp_utc.clone(),
            score: r.score,
            signals,
            rationale: r.rationale.clone(),
            evidence_summary: r.evidence_summary.clone(),
            source_pr: c.pr.pr_number,
        };
        proof {
            if c.commit.subsystems@.len() > 0 {
                assert(c@.commit.subsystems[0] == c.commit.subsystems@[0]@);
            }
            assert(entry@ == ranked_entry(fv[i as int], i + 1, cv[j as int], cfg.discussion_rich_comment_threshold));
        }
        let ghost before = ranked_views(out@);
        out.push(entry);
        assert(ranked_views(out@) =~= before.push(entry@));
        assert(ranked_list(fv, cv, cfg.discussion_rich_comment_threshold).take(i + 1)
            =~= ranked_list(fv, cv, cfg.discussion_rich_comment_threshold).take(i as int).push(entry@));
        i += 1;
    }
    assert(ranked_list(fv, cv, cfg.discussion_rich_comment_threshold).take(fin@.len() as int)
        =~= ranked_list(fv, cv, cfg.discussion_rich_comment_threshold));
    (out, below)
}

} // verus!
