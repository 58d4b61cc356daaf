//! How values are spelled inside model prompts: `Debug` lists and options,
//! `Display` booleans, clipped fields, and lookups in keyed summary lists.
use vstd::prelude::*;

use crate::patterns::{debug_str, debug_string};
use crate::text::{
    dec, join, join_strings, lemma_join_single, lemma_single_concat, push_str, single_line, strs,
    take_chars, take_chars_str,
};

verus! {

broadcast use vstd::string::group_string_axioms;

/// `{:?}` of a list of strings: `["a", "b"]`.
pub open spec fn debug_list(items: Seq<Seq<char>>) -> Seq<char> {
    "["@ + join(items.map_values(|s: Seq<char>| debug_str(s)), ", "@) + "]"@
}

/// Renders `v` as `{:?}` does, on one line.
pub fn debug_string_list(v: &Vec<String>) -> (r: String)
    ensures
        r@ == debug_list(strs(v@)),
        single_line(r@),
{
    let mut parts: Vec<String> = Vec::new();
    let mut i: usize = 0;
    while i < v.len()
        invariant
            i <= v.len(),
            strs(parts@) == strs(v@.take(i as int)).map_values(|s: Seq<char>| debug_str(s)),
            forall|k: int| 0 <= k < parts@.len() ==> single_line(#[trigger] parts@[k]@),
        decreases v.len() - i,
    {
        let d = debug_string(v[i].as_str());
        let ghost old_parts = parts@;
        parts.push(d);
        proof {
            let f = |s: Seq<char>| debug_str(s);
            let prev = strs(v@.take(i as int));
            assert(strs(v@.take(i + 1)) =~= prev.push(v@[i as int]@));
            assert(strs(parts@) =~= strs(old_parts).push(debug_str(v@[i as int]@)));
            assert(prev.push(v@[i as int]@).map_values(f) =~= prev.map_values(f).push(
                debug_str(v@[i as int]@),
            ));
        }
        i += 1;
    }
    assert(v@.take(v@.len() as int) =~= v@);
    let body = join_strings(&parts, ", ");
    let mut r = String::new();
    r.push('[');
    push_str(&mut r, body.as_str());
    r.push(']');
    proof {
        reveal_strlit("[");
        reveal_strlit("]");
        reveal_strlit(", ");
    }
    assert(r@ =~= debug_list(strs(v@)));
    proof {
        let ps = strs(parts@);
        assert forall|k: int| 0 <= k < ps.len() implies single_line(#[trigger] ps[k]) by {
            assert(ps[k] == parts@[k]@);
        }
        lemma_join_single(ps, ", "@);
        lemma_single_concat("["@, join(ps, ", "@));
        lemma_single_concat("["@ + join(ps, ", "@), "]"@);
    }
    r
}

/// `Display` of a boolean.
pub open spec fn bool_text(b: bool) -> Seq<char> {
    if b {
        "true"@
    } else {
        "false"@
    }
}

/// Renders `b` as `{}` does.
pub fn bool_string(b: bool) -> (r: String)
    ensures
        r@ == bool_text(b),
{
    if b {
        String::from_str("true")
    } else {
        String::from_str("false")
    }
}

/// `{:?}` of an optional count: `Some(7)` or `None`.
pub open spec fn debug_opt_count(o: Option<u32>) -> Seq<char> {
    match o {
        Some(n) => "Some("@ + dec(n as nat) + ")"@,
        None => "None"@,
    }
}

/// Renders `o` as `{:?}` does.
pub fn debug_opt_count_string(o: Option<u32>) -> (r: String)
    ensures
        r@ == debug_opt_count(o),
{
    match o {
        Some(n) => {
            let mut r = String::from_str("Some(");
            let d = crate::text::u64_to_string(n as u64);
            push_str(&mut r, d.as_str());
            push_str(&mut r, ")");
            r
        },
        None => String::from_str("None"),
    }
}

/// At most `cap` characters of `s`, followed by `…` when something was cut.
pub open spec fn clipped(s: Seq<char>, cap: nat) -> Seq<char> {
    if s.len() > cap {
        take_chars(s, cap).push('…')
    } else {
        s
    }
}

/// Clips `s` to `cap` characters, marking a cut with `…`.
pub fn clip(s: &str, cap: usize) -> (r: String)
    ensures
        r@ == clipped(s@, cap as nat),
{
    let mut out = take_chars_str(s, cap);
    if s.unicode_len() > cap {
        out.push('…');
    }
    out
}

/// The value of the last entry whose key is `key`, if any: what a map filled
/// from the entries in order holds for `key`.
pub open spec fn find_key<V>(entries: Seq<(Seq<char>, V)>, key: Seq<char>) -> Option<V>
    decreases entries.len(),
{
    if entries.len() == 0 {
        None
    } else if entries.last().0 == key {
        Some(entries.last().1)
    } else {
        find_key(entries.drop_last(), key)
    }
}

/// Index of the last entry whose key is `key`.
pub fn find_entry<V>(entries: &Vec<(String, V)>, key: &str) -> (r: Option<usize>)
    ensures
        match r {
            Some(i) => i < entries@.len() && entries@[i as int].0@ == key@ && forall|j: int|
                i < j < entries@.len() ==> #[trigger] entries@[j].0@ != key@,
            None => forall|j: int| 0 <= j < entries@.len() ==> #[trigger] entries@[j].0@ != key@,
        },
{
    let mut i: usize = entries.len();
    while i > 0
        invariant
            i <= entries@.len(),
            forall|j: int| i <= j < entries@.len() ==> #[trigger] entries@[j].0@ != key@,
        decreases i,
    {
        i -= 1;
        if crate::text::str_eq(entries[i].0.as_str(), key) {
            return Some(i);
        }
    }
    None
}

/// `find_key` over a sequence meets the last index `k` whose key matches
/// (`k == -1` when none does).
pub proof fn lemma_find_key_last<V>(entries: Seq<(Seq<char>, V)>, key: Seq<char>, k: int)
    requires
        -1 <= k < entries.len(),
        forall|j: int| k < j < entries.len() ==> #[trigger] entries[j].0 != key,
        k >= 0 ==> entries[k].0 == key,
    ensures
        find_key(entries, key) == if k >= 0 {
            Some(entries[k].1)
        } else {
            None::<V>
        },
    decreases entries.len(),
{
    if entries.len() > 0 && k < entries.len() - 1 {
        let t = entries.drop_last();
        assert forall|j: int| k < j < t.len() implies #[trigger] t[j].0 != key by {
            assert(t[j] == entries[j]);
        }
        assert(entries.last() == entries[entries.len() - 1]);
        lemma_find_key_last(t, key, k);
        if k >= 0 {
            assert(t[k] == entries[k]);
        }
    }
}

} // verus!
