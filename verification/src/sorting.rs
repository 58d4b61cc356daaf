//! Stable descending insertion order, as `slice::sort_by` with a
//! "greater first" comparator produces it, and the lexicographic order of
//! strings.
use vstd::prelude::*;

verus! {

/// Index of the first element of `s` that ranks strictly below `x`, or the
/// length of `s` when there is none: where a stable descending sort places `x`
/// after the elements already sorted.
pub open spec fn first_below<T>(s: Seq<T>, x: T, lt: spec_fn(T, T) -> bool) -> int
    decreases s.len(),
{
    if s.len() == 0 {
        0
    } else if lt(s[0], x) {
        0
    } else {
        1 + first_below(s.drop_first(), x, lt)
    }
}

/// `s` sorted in descending order by `lt` (`lt(a, b)`: `a` ranks below `b`),
/// keeping the input order of elements that rank equally.
pub open spec fn sort_desc<T>(s: Seq<T>, lt: spec_fn(T, T) -> bool) -> Seq<T>
    decreases s.len(),
{
    if s.len() == 0 {
        Seq::empty()
    } else {
        let p = sort_desc(s.drop_last(), lt);
        p.insert(first_below(p, s.last(), lt), s.last())
    }
}

pub proof fn lemma_first_below_bounds<T>(s: Seq<T>, x: T, lt: spec_fn(T, T) -> bool)
    ensures
        0 <= first_below(s, x, lt) <= s.len(),
    decreases s.len(),
{
    if s.len() > 0 && !lt(s[0], x) {
        lemma_first_below_bounds(s.drop_first(), x, lt);
    }
}

/// The first index at which `lt(s[i], x)` holds is `first_below`.
pub proof fn lemma_first_below_is<T>(s: Seq<T>, x: T, lt: spec_fn(T, T) -> bool, i: int)
    requires
        0 <= i <= s.len(),
        forall|k: int| 0 <= k < i ==> !lt(#[trigger] s[k], x),
        i == s.len() || lt(s[i], x),
    ensures
        first_below(s, x, lt) == i,
    decreases i,
{
    if i > 0 {
        let t = s.drop_first();
        assert forall|k: int| 0 <= k < i - 1 implies !lt(#[trigger] t[k], x) by {
            assert(t[k] == s[k + 1]);
        }
        if i < s.len() {
            assert(t[i - 1] == s[i]);
        }
        lemma_first_below_is(t, x, lt, i - 1);
        assert(!lt(s[0], x));
    }
}

/// What `first_below` finds: nothing before it ranks below `x`; the element
/// at it, if any, does.
pub proof fn lemma_first_below_props<T>(s: Seq<T>, x: T, lt: spec_fn(T, T) -> bool)
    ensures
        forall|q: int| 0 <= q < first_below(s, x, lt) ==> !lt(#[trigger] s[q], x),
        first_below(s, x, lt) < s.len() ==> lt(s[first_below(s, x, lt)], x),
    decreases s.len(),
{
    lemma_first_below_bounds(s, x, lt);
    if s.len() > 0 && !lt(s[0], x) {
        let t = s.drop_first();
        lemma_first_below_props(t, x, lt);
        lemma_first_below_bounds(t, x, lt);
        let ft = first_below(t, x, lt);
        assert(first_below(s, x, lt) == 1 + ft);
        assert forall|q: int| 0 <= q < first_below(s, x, lt) implies !lt(#[trigger] s[q], x) by {
            if q > 0 {
                assert(s[q] == t[q - 1]);
            }
        }
        if 1 + ft < s.len() {
            assert(s[1 + ft] == t[ft]);
        }
    }
}

/// Every element of the input appears in `sort_desc(s)`.
pub proof fn lemma_sort_desc_contains<T>(s: Seq<T>, lt: spec_fn(T, T) -> bool, j: int)
    requires
        0 <= j < s.len(),
    ensures
        exists|k: int| 0 <= k < sort_desc(s, lt).len() && sort_desc(s, lt)[k] == s[j],
    decreases s.len(),
{
    let p = sort_desc(s.drop_last(), lt);
    lemma_sort_desc_len(s.drop_last(), lt);
    let pos = first_below(p, s.last(), lt);
    lemma_first_below_bounds(p, s.last(), lt);
    let r = p.insert(pos, s.last());
    assert(r == sort_desc(s, lt));
    if j == s.len() - 1 {
        assert(r[pos] == s[j]);
    } else {
        lemma_sort_desc_contains(s.drop_last(), lt, j);
        let k = choose|k: int| 0 <= k < p.len() && p[k] == s.drop_last()[j];
        if k < pos {
            assert(r[k] == s[j]);
        } else {
            assert(r[k + 1] == s[j]);
        }
    }
}

/// For a strict order `lt`, no element of `sort_desc(s)` ranks below a later one.
pub proof fn lemma_sort_desc_sorted<T>(s: Seq<T>, lt: spec_fn(T, T) -> bool)
    requires
        forall|a: T| !#[trigger] lt(a, a),
        forall|a: T, b: T, c: T| #[trigger] lt(a, b) && #[trigger] lt(b, c) ==> lt(a, c),
    ensures
        forall|i: int, j: int|
            0 <= i < j < sort_desc(s, lt).len() ==> !lt(
                #[trigger] sort_desc(s, lt)[i],
                #[trigger] sort_desc(s, lt)[j],
            ),
    decreases s.len(),
{
    if s.len() > 0 {
        let p = sort_desc(s.drop_last(), lt);
        lemma_sort_desc_sorted(s.drop_last(), lt);
        lemma_sort_desc_len(s.drop_last(), lt);
        let x = s.last();
        let k = first_below(p, x, lt);
        lemma_first_below_bounds(p, x, lt);
        lemma_first_below_props(p, x, lt);
        let r = p.insert(k, x);
        assert(r == sort_desc(s, lt));
        assert forall|i: int, j: int| 0 <= i < j < r.len() implies !lt(#[trigger] r[i], #[trigger] r[j]) by {
            if j < k {
                assert(r[i] == p[i] && r[j] == p[j]);
            } else if j == k {
                assert(r[i] == p[i]);
            } else if i == k {
                assert(r[j] == p[j - 1]);
                assert(lt(p[k], x));
                if j - 1 > k {
                    assert(!lt(p[k], p[j - 1]));
                    if lt(x, p[j - 1]) {
                        assert(lt(p[k], p[j - 1]));
                    }
                } else {
                    if lt(x, p[k]) {
                        assert(lt(x, x));
                    }
                }
            } else if i < k {
                assert(r[i] == p[i] && r[j] == p[j - 1]);
            } else {
                assert(r[i] == p[i - 1] && r[j] == p[j - 1]);
            }
        }
    }
}

/// Sorting keeps the keys of distinct positions distinct.
pub proof fn lemma_sort_desc_keys_distinct<T, K>(
    s: Seq<T>,
    lt: spec_fn(T, T) -> bool,
    key: spec_fn(T) -> K,
)
    requires
        forall|i: int, j: int|
            0 <= i < s.len() && 0 <= j < s.len() && i != j ==> key(#[trigger] s[i]) != key(
                #[trigger] s[j],
            ),
    ensures
        forall|i: int, j: int|
            0 <= i < sort_desc(s, lt).len() && 0 <= j < sort_desc(s, lt).len() && i != j ==> key(
                #[trigger] sort_desc(s, lt)[i],
            ) != key(#[trigger] sort_desc(s, lt)[j]),
    decreases s.len(),
{
    if s.len() > 0 {
        let d = s.drop_last();
        assert forall|i: int, j: int|
            0 <= i < d.len() && 0 <= j < d.len() && i != j implies key(#[trigger] d[i]) != key(
            #[trigger] d[j],
        ) by {
            assert(d[i] == s[i] && d[j] == s[j]);
        }
        lemma_sort_desc_keys_distinct(d, lt, key);
        let p = sort_desc(d, lt);
        lemma_sort_desc_len(d, lt);
        let x = s.last();
        let k = first_below(p, x, lt);
        lemma_first_below_bounds(p, x, lt);
        assert forall|q: int| 0 <= q < p.len() implies key(#[trigger] p[q]) != key(x) by {
            lemma_sort_desc_from_input(d, lt, q);
            let t = choose|t: int| 0 <= t < d.len() && d[t] == p[q];
            assert(s[t] == p[q]);
            assert(s[s.len() - 1] == x);
        }
        let r = p.insert(k, x);
        assert(r == sort_desc(s, lt));
        assert forall|i: int, j: int|
            0 <= i < r.len() && 0 <= j < r.len() && i != j implies key(#[trigger] r[i]) != key(
            #[trigger] r[j],
        ) by {
            if i != k && j != k {
                let i2 = if i < k { i } else { i - 1 };
                let j2 = if j < k { j } else { j - 1 };
                assert(r[i] == p[i2] && r[j] == p[j2]);
            } else if i == k {
                let j2 = if j < k { j } else { j - 1 };
                assert(r[j] == p[j2]);
            } else {
                let i2 = if i < k { i } else { i - 1 };
                assert(r[i] == p[i2]);
            }
        }
    }
}

pub proof fn lemma_sort_desc_len<T>(s: Seq<T>, lt: spec_fn(T, T) -> bool)
    ensures
        sort_desc(s, lt).len() == s.len(),
    decreases s.len(),
{
    if s.len() > 0 {
        lemma_sort_desc_len(s.drop_last(), lt);
        lemma_first_below_bounds(sort_desc(s.drop_last(), lt), s.last(), lt);
    }
}

/// The elements of `sort_desc(s)` are those of `s`: each element of the
/// result comes from the input.
pub proof fn lemma_sort_desc_from_input<T>(s: Seq<T>, lt: spec_fn(T, T) -> bool, k: int)
    requires
        0 <= k < s.len(),
    ensures
        sort_desc(s, lt).len() == s.len(),
        exists|j: int| 0 <= j < s.len() && s[j] == sort_desc(s, lt)[k],
    decreases s.len(),
{
    lemma_sort_desc_len(s, lt);
    let p = sort_desc(s.drop_last(), lt);
    lemma_sort_desc_len(s.drop_last(), lt);
    let pos = first_below(p, s.last(), lt);
    lemma_first_below_bounds(p, s.last(), lt);
    let r = p.insert(pos, s.last());
    if k == pos {
        assert(s[s.len() - 1] == r[k]);
    } else {
        let k2 = if k < pos { k } else { k - 1 };
        assert(r[k] == p[k2]);
        lemma_sort_desc_from_input(s.drop_last(), lt, k2);
        let j = choose|j: int| 0 <= j < s.len() - 1 && s.drop_last()[j] == p[k2];
        assert(s[j] == r[k]);
    }
}

/// Lexicographic order of character sequences (what `Ord` on `String`
/// gives: UTF-8 byte order agrees with code point order).
pub open spec fn seq_lt(a: Seq<char>, b: Seq<char>) -> bool
    decreases a.len(),
{
    if a.len() == 0 {
        b.len() > 0
    } else if b.len() == 0 {
        false
    } else if (a[0] as u32) < (b[0] as u32) {
        true
    } else if (a[0] as u32) > (b[0] as u32) {
        false
    } else {
        seq_lt(a.drop_first(), b.drop_first())
    }
}

/// No sequence sorts before itself.
pub proof fn lemma_seq_lt_irreflexive(a: Seq<char>)
    ensures
        !seq_lt(a, a),
    decreases a.len(),
{
    if a.len() > 0 {
        lemma_seq_lt_irreflexive(a.drop_first());
    }
}

/// The order is transitive.
pub proof fn lemma_seq_lt_transitive(a: Seq<char>, b: Seq<char>, c: Seq<char>)
    requires
        seq_lt(a, b),
        seq_lt(b, c),
    ensures
        seq_lt(a, c),
    decreases a.len(),
{
    if a.len() > 0 && b.len() > 0 && c.len() > 0 {
        if (a[0] as u32) == (b[0] as u32) && (b[0] as u32) == (c[0] as u32) {
            lemma_seq_lt_transitive(a.drop_first(), b.drop_first(), c.drop_first());
        }
    }
}

/// Two different sequences are ordered one way or the other.
pub proof fn lemma_seq_lt_total(a: Seq<char>, b: Seq<char>)
    requires
        a != b,
    ensures
        seq_lt(a, b) || seq_lt(b, a),
    decreases a.len(),
{
    if a.len() == 0 {
        assert(b.len() > 0) by {
            if b.len() == 0 {
                assert(a =~= b);
            }
        }
    } else if b.len() > 0 {
        if (a[0] as u32) == (b[0] as u32) {
            vstd::utf8::char_u32_cast(a[0], a[0] as u32);
            vstd::utf8::char_u32_cast(b[0], b[0] as u32);
            assert(a[0] == b[0]);
            if a.drop_first() == b.drop_first() {
                assert(a =~= seq![a[0]] + a.drop_first());
                assert(b =~= seq![b[0]] + b.drop_first());
            }
            lemma_seq_lt_total(a.drop_first(), b.drop_first());
        }
    }
}

proof fn lemma_seq_lt_from(a: Seq<char>, b: Seq<char>, i: int)
    requires
        0 <= i <= a.len(),
        i <= b.len(),
        forall|k: int| 0 <= k < i ==> a[k] == b[k],
    ensures
        seq_lt(a, b) == seq_lt(a.subrange(i, a.len() as int), b.subrange(i, b.len() as int)),
    decreases i,
{
    if i > 0 {
        lemma_seq_lt_from(a.drop_first(), b.drop_first(), i - 1);
        assert(a.drop_first().subrange(i - 1, a.len() - 1) =~= a.subrange(i, a.len() as int));
        assert(b.drop_first().subrange(i - 1, b.len() - 1) =~= b.subrange(i, b.len() as int));
        assert(a[0] == b[0]);
    } else {
        assert(a.subrange(0, a.len() as int) =~= a);
        assert(b.subrange(0, b.len() as int) =~= b);
    }
}

/// Whether `a` sorts strictly before `b`.
pub fn str_lt(a: &String, b: &String) -> (r: bool)
    ensures
        r == seq_lt(a@, b@),
{
    let va = crate::text::chars_of(a.as_str());
    let vb = crate::text::chars_of(b.as_str());
    let mut i: usize = 0;
    while i < va.len() && i < vb.len() && va[i] == vb[i]
        invariant
            va@ == a@,
            vb@ == b@,
            i <= va.len(),
            i <= vb.len(),
            forall|k: int| 0 <= k < i ==> va@[k] == vb@[k],
        decreases va.len() - i,
    {
        i += 1;
    }
    proof {
        lemma_seq_lt_from(va@, vb@, i as int);
    }
    let ra = va.len() - i;
    let rb = vb.len() - i;
    if ra == 0 {
        rb > 0
    } else if rb == 0 {
        false
    } else {
        proof {
            let sa = va@.subrange(i as int, va@.len() as int);
            let sb = vb@.subrange(i as int, vb@.len() as int);
            assert(sa[0] == va@[i as int]);
            assert(sb[0] == vb@[i as int]);
            assert(va@[i as int] != vb@[i as int]);
            assert((va@[i as int] as u32) != (vb@[i as int] as u32)) by {
                vstd::utf8::char_u32_cast(va@[i as int], va@[i as int] as u32);
                vstd::utf8::char_u32_cast(vb@[i as int], vb@[i as int] as u32);
            }
        }
        (va[i] as u32) < (vb[i] as u32)
    }
}

} // verus!
