//! What the mock provider reads back from a ranking prompt: the candidate
//! section lists exactly the candidates' hashes, in order.
use vstd::prelude::*;

use crate::mining_types::FileChangeView;
use crate::ranking_prompt::{
    context_block, ranking_header, ranking_prompt_of, RANKING_INSTRUCTIONS,
    candidate_blocks, evidence_block, identity_lines, link_fields, signal_line,
    summary_block, SUMMARY_FIELD_CAP,
};
use crate::ranking_prompt::{build_ranking_prompt, commit_summary_views};
use crate::ranking_types::{candidate_views, CandidateInput, CandidateInputView};
use crate::render::{bool_text, clipped, debug_list, debug_opt_count, find_key};
use crate::stages::{CommitSummary, CommitSummaryView};
use crate::testing_api::{hashes_of, line_hash, split_lines, HASH_LINE_PREFIX};
use crate::text::{
    chars_of, dec, digit_char, is_ws, join, lemma_join_single, lemma_single_concat, single_line, lemma_trim_start_at, str_eq, take_chars, trim, trim_end,
    trim_start, trim_str,
};

verus! {

proof fn lemma_split_nonempty(s: Seq<char>)
    ensures
        split_lines(s).len() >= 1,
    decreases s.len(),
{
    if s.len() > 0 {
        lemma_split_nonempty(s.drop_last());
    }
}

/// Splitting text that follows a newline-terminated prefix.
proof fn lemma_split_append(a: Seq<char>, b: Seq<char>)
    requires
        a.len() > 0,
        a.last() == '\n',
    ensures
        split_lines(a + b) == split_lines(a).drop_last() + split_lines(b),
    decreases b.len(),
{
    lemma_split_nonempty(a);
    lemma_split_nonempty(b);
    if b.len() == 0 {
        assert(a + b =~= a);
        assert(a.drop_last() + seq![a.last()] =~= a);
        assert(split_lines(a) == split_lines(a.drop_last()).push(Seq::empty()));
        assert(split_lines(a).drop_last() + split_lines(b) =~= split_lines(a));
    } else {
        let b2 = b.drop_last();
        lemma_split_append(a, b2);
        lemma_split_nonempty(b2);
        assert((a + b).drop_last() =~= a + b2);
        assert((a + b).last() == b.last());
        let p = split_lines(a).drop_last();
        let q = split_lines(b2);
        if b.last() == '\n' {
            assert((p + q).push(Seq::empty()) =~= p + q.push(Seq::empty()));
        } else {
            assert((p + q).update((p + q).len() - 1, (p + q).last().push(b.last())) =~= p + q.update(
                q.len() - 1,
                q.last().push(b.last()),
            ));
        }
    }
}

/// A line without newline is one piece.
proof fn lemma_split_single(x: Seq<char>)
    requires
        single_line(x),
    ensures
        split_lines(x) == seq![x],
    decreases x.len(),
{
    if x.len() > 0 {
        let d = x.drop_last();
        assert(single_line(d)) by {
            assert forall|i: int| 0 <= i < d.len() implies d[i] != '\n' by {
                assert(d[i] == x[i]);
            }
        }
        lemma_split_single(d);
        assert(x.last() != '\n') by {
            assert(x[x.len() - 1] != '\n');
        }
        assert(d.push(x.last()) =~= x);
        assert(seq![d].update(0, d.push(x.last())) =~= seq![x]);
    } else {
        assert(x =~= Seq::<char>::empty());
    }
}

proof fn lemma_hashes_append(x: Seq<Seq<char>>, y: Seq<Seq<char>>)
    ensures
        hashes_of(x + y) == hashes_of(x) + hashes_of(y),
    decreases y.len(),
{
    if y.len() == 0 {
        assert(x + y =~= x);
        assert(hashes_of(x) + hashes_of(y) =~= hashes_of(x));
    } else {
        lemma_hashes_append(x, y.drop_last());
        assert((x + y).drop_last() =~= x + y.drop_last());
        assert((x + y).last() == y.last());
        match line_hash(y.last()) {
            Some(h) => {
                assert((hashes_of(x) + hashes_of(y.drop_last())).push(h) =~= hashes_of(x) + hashes_of(
                    y.drop_last(),
                ).push(h));
            },
            None => {},
        }
    }
}

proof fn lemma_empty_line()
    ensures
        line_hash(Seq::empty()) is None,
        hashes_of(seq![Seq::<char>::empty()]) == Seq::<Seq<char>>::empty(),
{
    reveal_strlit("- hash: ");
    assert(trim_start(Seq::<char>::empty()) =~= Seq::<char>::empty());
    assert(trim(Seq::<char>::empty()) =~= Seq::<char>::empty());
    assert(HASH_LINE_PREFIX@.len() == 8);
    let one = seq![Seq::<char>::empty()];
    assert(one.drop_last() =~= Seq::<Seq<char>>::empty());
    assert(hashes_of(Seq::<Seq<char>>::empty()) == Seq::<Seq<char>>::empty());
    assert(one.last() == Seq::<char>::empty());
    assert(hashes_of(one) == hashes_of(one.drop_last()));
}

/// The hashes a text lists.
pub open spec fn text_hashes(s: Seq<char>) -> Seq<Seq<char>> {
    hashes_of(split_lines(s))
}

/// Hashes of two texts, the first ending in a newline (or empty), add up.
pub proof fn lemma_text_hashes_append(a: Seq<char>, b: Seq<char>)
    requires
        a.len() == 0 || a.last() == '\n',
    ensures
        text_hashes(a + b) == text_hashes(a) + text_hashes(b),
{
    if a.len() == 0 {
        assert(a + b =~= b);
        assert(text_hashes(a) =~= Seq::<Seq<char>>::empty()) by {
            assert(split_lines(a) == seq![Seq::<char>::empty()]);
            lemma_empty_line();
        }
        assert(text_hashes(a) + text_hashes(b) =~= text_hashes(b));
    } else {
        lemma_split_append(a, b);
        lemma_hashes_append(split_lines(a).drop_last(), split_lines(b));
        lemma_split_nonempty(a);
        let pa = split_lines(a);
        assert(a.drop_last() + seq![a.last()] =~= a);
        assert(pa == split_lines(a.drop_last()).push(Seq::empty()));
        assert(pa.drop_last() + seq![Seq::<char>::empty()] =~= pa);
        lemma_hashes_append(pa.drop_last(), seq![Seq::<char>::empty()]);
        lemma_empty_line();
        assert(hashes_of(pa.drop_last()) + Seq::<Seq<char>>::empty() =~= hashes_of(pa.drop_last()));
    }
}

/// The hashes of one newline-terminated line.
pub proof fn lemma_line_hashes(x: Seq<char>)
    requires
        single_line(x),
    ensures
        text_hashes(x + seq!['\n']) == match line_hash(x) {
            Some(h) => seq![h],
            None => Seq::<Seq<char>>::empty(),
        },
{
    lemma_split_single(x);
    let s = x + seq!['\n'];
    assert(s.drop_last() =~= x);
    assert(s.last() == '\n');
    assert(split_lines(s) == seq![x].push(Seq::<char>::empty()));
    let ls = seq![x, Seq::<char>::empty()];
    assert(split_lines(s) =~= ls);
    assert(ls.drop_last() =~= seq![x]);
    assert(seq![x].drop_last() =~= Seq::<Seq<char>>::empty());
    lemma_empty_line();
    assert(hashes_of(ls) == hashes_of(seq![x])) by {
        assert(ls.last() == Seq::<char>::empty());
    }
    assert(hashes_of(Seq::<Seq<char>>::empty()) == Seq::<Seq<char>>::empty());
    assert(seq![x].last() == x);
    match line_hash(x) {
        Some(h) => {
            assert(Seq::<Seq<char>>::empty().push(h) =~= seq![h]);
        },
        None => {},
    }
}

proof fn lemma_trim_start_len(s: Seq<char>)
    ensures
        trim_start(s).len() <= s.len(),
        s.len() > 0 && is_ws(s[0]) ==> trim_start(s).len() < s.len(),
    decreases s.len(),
{
    if s.len() > 0 && is_ws(s[0]) {
        lemma_trim_start_len(s.drop_first());
    }
}

proof fn lemma_trim_end_len(s: Seq<char>)
    ensures
        trim_end(s).len() <= s.len(),
        s.len() > 0 && is_ws(s.last()) ==> trim_end(s).len() < s.len(),
    decreases s.len(),
{
    if s.len() > 0 && is_ws(s.last()) {
        lemma_trim_end_len(s.drop_last());
    }
}

/// A trimmed, non-empty text starts and ends with non-whitespace.
proof fn lemma_trimmed_ends(h: Seq<char>)
    requires
        h.len() > 0,
        trim(h) == h,
    ensures
        !is_ws(h[0]),
        !is_ws(h.last()),
{
    lemma_trim_start_len(h);
    lemma_trim_end_len(trim_start(h));
    if is_ws(h.last()) {
        if !is_ws(h[0]) {
            assert(trim_start(h) == h);
        }
    }
}

/// Trimming the end keeps a non-whitespace first character.
proof fn lemma_trim_end_keeps_first(t: Seq<char>)
    requires
        t.len() > 0,
        !is_ws(t[0]),
    ensures
        trim_end(t).len() > 0,
        trim_end(t)[0] == t[0],
    decreases t.len(),
{
    if is_ws(t.last()) {
        if t.len() == 1 {
            assert(t.last() == t[0]);
        } else {
            assert(t.drop_last()[0] == t[0]);
            lemma_trim_end_keeps_first(t.drop_last());
        }
    }
}

/// The candidate line of hash `h` names `h`.
pub proof fn lemma_hash_line(h: Seq<char>)
    requires
        h.len() > 0,
        trim(h) == h,
    ensures
        line_hash(HASH_LINE_PREFIX@ + h) == Some(h),
{
    reveal_strlit("- hash: ");
    let x = HASH_LINE_PREFIX@ + h;
    lemma_trimmed_ends(h);
    assert(x[0] == '-');
    assert(trim_start(x) == x);
    assert(x.last() == h.last());
    assert(trim_end(x) == x);
    assert(x.subrange(0, 8) =~= HASH_LINE_PREFIX@);
    assert(x.subrange(8, x.len() as int) =~= h);
}

/// A line whose first non-blank character is not `-` names no hash.
pub proof fn lemma_plain_line(x: Seq<char>, k: int)
    requires
        0 <= k < x.len(),
        forall|j: int| 0 <= j < k ==> is_ws(#[trigger] x[j]),
        !is_ws(x[k]),
        x[k] != '-',
    ensures
        line_hash(x) is None,
{
    reveal_strlit("- hash: ");
    lemma_trim_start_at(x, k);
    let t = x.subrange(k, x.len() as int);
    assert(t[0] == x[k]);
    lemma_trim_end_keeps_first(t);
    assert(trim(x) == trim_end(t));
    assert(trim(x)[0] != HASH_LINE_PREFIX@[0]);
}

proof fn lemma_dec_single(n: nat)
    ensures
        single_line(dec(n)),
    decreases n,
{
    if n >= 10 {
        lemma_dec_single(n / 10);
        let d = dec(n / 10);
        let e = d.push(digit_char(n % 10));
        assert forall|i: int| 0 <= i < e.len() implies #[trigger] e[i] != '\n' by {
            if i < d.len() {
                assert(e[i] == d[i]);
            }
        }
    }
}

proof fn lemma_clipped_single(s: Seq<char>, cap: nat)
    requires
        single_line(s),
    ensures
        single_line(clipped(s, cap)),
{
    if s.len() > cap {
        let t = take_chars(s, cap);
        let e = t.push('…');
        assert forall|i: int| 0 <= i < e.len() implies #[trigger] e[i] != '\n' by {
            if i < t.len() {
                assert(e[i] == t[i]);
                assert(t[i] == s[i]);
            }
        }
    }
}

proof fn lemma_bool_text_single(b: bool)
    ensures
        single_line(bool_text(b)),
{
    reveal_strlit("true");
    reveal_strlit("false");
}

proof fn lemma_opt_count_single(o: Option<u32>)
    ensures
        single_line(debug_opt_count(o)),
{
    reveal_strlit("Some(");
    reveal_strlit(")");
    reveal_strlit("None");
    if let Some(n) = o {
        lemma_dec_single(n as nat);
        lemma_single_concat("Some("@, dec(n as nat));
        lemma_single_concat("Some("@ + dec(n as nat), ")"@);
    }
}

/// A newline-terminated line that starts, after blanks, with a character
/// other than `-` names no hash.
proof fn lemma_field_line(lit: Seq<char>, v: Seq<char>, k: int)
    requires
        single_line(lit),
        single_line(v),
        0 <= k < lit.len(),
        forall|j: int| 0 <= j < k ==> is_ws(#[trigger] lit[j]),
        !is_ws(lit[k]),
        lit[k] != '-',
    ensures
        text_hashes(lit + v + seq!['\n']) == Seq::<Seq<char>>::empty(),
{
    let x = lit + v;
    lemma_single_concat(lit, v);
    assert forall|j: int| 0 <= j < k implies is_ws(#[trigger] x[j]) by {
        assert(x[j] == lit[j]);
    }
    assert(x[k] == lit[k]);
    lemma_plain_line(x, k);
    lemma_line_hashes(x);
}

/// The candidate's own fields fit the ranking prompt's line layout: its hash
/// is a non-empty trimmed single line, and its subject and file paths hold no
/// newline.
pub open spec fn printable_fields(c: CandidateInputView) -> bool {
    &&& c.commit.hash.len() > 0
    &&& trim(c.commit.hash) == c.commit.hash
    &&& single_line(c.commit.hash)
    &&& single_line(c.commit.message_summary)
    &&& forall|k: int|
        0 <= k < c.commit.files_changed.len() ==> single_line(
            (#[trigger] c.commit.files_changed[k]).path,
        )
}

/// The `Debug` renderings of the candidate's lists are single lines (as they
/// are for every list the prompt renders: `debug_string_list` states it).
pub open spec fn debug_lists_single_line(c: CandidateInputView) -> bool {
    &&& single_line(debug_list(c.commit.subsystems))
    &&& single_line(debug_list(c.commit.heuristics.incident_refs))
    &&& single_line(debug_list(c.pr.linked_issues))
}

/// A candidate whose evidence prints one field per line.
pub open spec fn printable_candidate(c: CandidateInputView) -> bool {
    printable_fields(c) && debug_lists_single_line(c)
}

proof fn lemma_signal_body_single(c: CandidateInputView)
    requires
        printable_candidate(c),
    ensures
        single_line(
            "  signals: revert="@ + bool_text(c.commit.heuristics.is_revert) + " was_reverted="@
                + bool_text(c.commit.heuristics.was_reverted) + " repeated_fix="@ + bool_text(
                c.commit.heuristics.touches_repeated_fix_file,
            ) + link_fields(c),
        ),
{
    reveal_strlit("  signals: revert=");
    reveal_strlit(" was_reverted=");
    reveal_strlit(" repeated_fix=");
    reveal_strlit(" incidents=");
    reveal_strlit(" pr_comments=");
    reveal_strlit(" pr_links=");
    let h = c.commit.heuristics;
    lemma_bool_text_single(h.is_revert);
    lemma_bool_text_single(h.was_reverted);
    lemma_bool_text_single(h.touches_repeated_fix_file);
    lemma_opt_count_single(c.pr.pr_comment_count);
    let a1 = "  signals: revert="@ + bool_text(h.is_revert);
    lemma_single_concat("  signals: revert="@, bool_text(h.is_revert));
    lemma_single_concat(a1, " was_reverted="@);
    lemma_single_concat(a1 + " was_reverted="@, bool_text(h.was_reverted));
    let a2 = a1 + " was_reverted="@ + bool_text(h.was_reverted);
    lemma_single_concat(a2, " repeated_fix="@);
    lemma_single_concat(a2 + " repeated_fix="@, bool_text(h.touches_repeated_fix_file));
    let a3 = a2 + " repeated_fix="@ + bool_text(h.touches_repeated_fix_file);
    let l1 = " incidents="@ + debug_list(h.incident_refs);
    lemma_single_concat(" incidents="@, debug_list(h.incident_refs));
    lemma_single_concat(l1, " pr_comments="@);
    lemma_single_concat(l1 + " pr_comments="@, debug_opt_count(c.pr.pr_comment_count));
    let l2 = l1 + " pr_comments="@ + debug_opt_count(c.pr.pr_comment_count);
    lemma_single_concat(l2, " pr_links="@);
    lemma_single_concat(l2 + " pr_links="@, debug_list(c.pr.linked_issues));
    assert(link_fields(c) == l2 + " pr_links="@ + debug_list(c.pr.linked_issues));
    lemma_single_concat(a3, link_fields(c));
}

/// The signal line's text after its leading newline.
pub open spec fn signal_body(c: CandidateInputView) -> Seq<char> {
    "  signals: revert="@ + bool_text(c.commit.heuristics.is_revert) + " was_reverted="@
        + bool_text(c.commit.heuristics.was_reverted) + " repeated_fix="@ + bool_text(
        c.commit.heuristics.touches_repeated_fix_file,
    ) + link_fields(c)
}

/// The files of a candidate as the evidence prints them.
pub open spec fn files_text(c: CandidateInputView) -> Seq<char> {
    join(c.commit.files_changed.map_values(|f: FileChangeView| f.path), ", "@)
}

proof fn lemma_identity_split(c: CandidateInputView)
    ensures
        identity_lines(c) =~= (HASH_LINE_PREFIX@ + c.commit.hash + seq!['\n']) + ("  subject: "@
            + c.commit.message_summary + seq!['\n']) + ("  subsystems: "@ + debug_list(
            c.commit.subsystems,
        ) + seq!['\n']) + ("  files: "@ + files_text(c)),
{
    reveal_strlit("\n  subject: ");
    reveal_strlit("  subject: ");
    reveal_strlit("\n  subsystems: ");
    reveal_strlit("  subsystems: ");
    reveal_strlit("\n  files: ");
    reveal_strlit("  files: ");
    let nl = seq!['\n'];
    assert("\n  subject: "@ =~= nl + "  subject: "@);
    assert("\n  subsystems: "@ =~= nl + "  subsystems: "@);
    assert("\n  files: "@ =~= nl + "  files: "@);
}

proof fn lemma_signal_split(c: CandidateInputView)
    ensures
        signal_line(c) =~= seq!['\n'] + (signal_body(c) + seq!['\n']),
{
    reveal_strlit("\n  signals: revert=");
    reveal_strlit("  signals: revert=");
    reveal_strlit("\n");
    let nl = seq!['\n'];
    assert("\n  signals: revert="@ =~= nl + "  signals: revert="@);
    assert("\n"@ =~= nl);
}

proof fn lemma_evidence_split(c: CandidateInputView)
    ensures
        evidence_block(c) =~= (HASH_LINE_PREFIX@ + c.commit.hash + seq!['\n']) + ("  subject: "@
            + c.commit.message_summary + seq!['\n']) + ("  subsystems: "@ + debug_list(
            c.commit.subsystems,
        ) + seq!['\n']) + ("  files: "@ + files_text(c) + seq!['\n']) + (signal_body(c)
            + seq!['\n']),
{
    lemma_identity_split(c);
    lemma_signal_split(c);
}

/// The evidence lines of a printable candidate name its hash and nothing else.
pub proof fn lemma_evidence_hashes(c: CandidateInputView)
    requires
        printable_candidate(c),
    ensures
        text_hashes(evidence_block(c)) == seq![c.commit.hash],
{
    let nl = seq!['\n'];
    let h = c.commit.hash;
    let c1 = HASH_LINE_PREFIX@ + h + nl;
    let c2 = "  subject: "@ + c.commit.message_summary + nl;
    let c3 = "  subsystems: "@ + debug_list(c.commit.subsystems) + nl;
    let c4 = "  files: "@ + files_text(c) + nl;
    let c5 = signal_body(c) + nl;
    lemma_evidence_split(c);
    assert(evidence_block(c) == c1 + c2 + c3 + c4 + c5);
    let paths = c.commit.files_changed.map_values(|f: FileChangeView| f.path);
    assert forall|k: int| 0 <= k < paths.len() implies single_line(#[trigger] paths[k]) by {
        assert(paths[k] == c.commit.files_changed[k].path);
    }
    reveal_strlit(", ");
    lemma_join_single(paths, ", "@);
    lemma_hash_line(h);
    reveal_strlit("- hash: ");
    lemma_single_concat(HASH_LINE_PREFIX@, h);
    lemma_line_hashes(HASH_LINE_PREFIX@ + h);
    reveal_strlit("  subject: ");
    lemma_field_line("  subject: "@, c.commit.message_summary, 2);
    reveal_strlit("  subsystems: ");
    lemma_field_line("  subsystems: "@, debug_list(c.commit.subsystems), 2);
    reveal_strlit("  files: ");
    lemma_field_line("  files: "@, files_text(c), 2);
    lemma_signal_body_single(c);
    reveal_strlit("  signals: revert=");
    let body = signal_body(c);
    assert(body[0] == ' ' && body[1] == ' ' && body[2] == 's');
    lemma_plain_line(body, 2);
    lemma_line_hashes(body);
    lemma_text_hashes_append(c1, c2);
    lemma_text_hashes_append(c1 + c2, c3);
    lemma_text_hashes_append(c1 + c2 + c3, c4);
    lemma_text_hashes_append(c1 + c2 + c3 + c4, c5);
    assert(seq![h] + Seq::<Seq<char>>::empty() + Seq::<Seq<char>>::empty() + Seq::<Seq<char>>::empty()
        + Seq::<Seq<char>>::empty() =~= seq![h]);
}

/// Commit summaries whose fields are single lines.
pub open spec fn printable_summaries(sums: Seq<(Seq<char>, CommitSummaryView)>) -> bool {
    forall|j: int|
        0 <= j < sums.len() ==> {
            &&& single_line((#[trigger] sums[j]).1.what_changed)
            &&& single_line(sums[j].1.why)
            &&& single_line(sums[j].1.takeaway)
        }
}

proof fn lemma_find_key_from<V>(entries: Seq<(Seq<char>, V)>, key: Seq<char>)
    ensures
        find_key(entries, key) matches Some(v) ==> exists|j: int|
            0 <= j < entries.len() && (#[trigger] entries[j]).1 == v,
    decreases entries.len(),
{
    if entries.len() > 0 {
        if entries.last().0 == key {
            assert(entries[entries.len() - 1] == entries.last());
        } else {
            lemma_find_key_from(entries.drop_last(), key);
            if let Some(v) = find_key(entries, key) {
                let j = choose|j: int| 0 <= j < entries.len() - 1 && (#[trigger] entries.drop_last()[j]).1 == v;
                assert(entries[j] == entries.drop_last()[j]);
            }
        }
    }
}

proof fn lemma_summary_split(cs: CommitSummaryView)
    ensures
        summary_block(Some(cs)) =~= ("  summary:"@ + seq!['\n']) + ("    changed:  "@ + clipped(
            cs.what_changed,
            SUMMARY_FIELD_CAP as nat,
        ) + seq!['\n']) + ("    why:      "@ + clipped(cs.why, SUMMARY_FIELD_CAP as nat) + seq![
            '\n',
        ]) + ("    takeaway: "@ + clipped(cs.takeaway, SUMMARY_FIELD_CAP as nat) + seq!['\n']),
{
    reveal_strlit("  summary:\n");
    reveal_strlit("  summary:");
    reveal_strlit("\n");
    assert("  summary:\n"@ =~= "  summary:"@ + seq!['\n']);
    assert("\n"@ =~= seq!['\n']);
}

/// A summary block of single-line fields names no hash, and ends a line.
proof fn lemma_summary_hashes(s: Option<CommitSummaryView>)
    requires
        s matches Some(cs) ==> single_line(cs.what_changed) && single_line(cs.why) && single_line(
            cs.takeaway,
        ),
    ensures
        text_hashes(summary_block(s)) == Seq::<Seq<char>>::empty(),
        summary_block(s).len() == 0 || summary_block(s).last() == '\n',
{
    match s {
        None => {
            assert(split_lines(Seq::<char>::empty()) == seq![Seq::<char>::empty()]);
            lemma_empty_line();
        },
        Some(cs) => {
            let nl = seq!['\n'];
            let cap = SUMMARY_FIELD_CAP as nat;
            let cw = clipped(cs.what_changed, cap);
            let cy = clipped(cs.why, cap);
            let ct = clipped(cs.takeaway, cap);
            lemma_clipped_single(cs.what_changed, cap);
            lemma_clipped_single(cs.why, cap);
            lemma_clipped_single(cs.takeaway, cap);
            let d1 = "  summary:"@ + nl;
            let d2 = "    changed:  "@ + cw + nl;
            let d3 = "    why:      "@ + cy + nl;
            let d4 = "    takeaway: "@ + ct + nl;
            lemma_summary_split(cs);
            assert(summary_block(s) == d1 + d2 + d3 + d4);
            reveal_strlit("  summary:");
            reveal_strlit("    changed:  ");
            reveal_strlit("    why:      ");
            reveal_strlit("    takeaway: ");
            assert("  summary:"@ + Seq::<char>::empty() + nl =~= d1);
            lemma_field_line("  summary:"@, Seq::<char>::empty(), 2);
            lemma_field_line("    changed:  "@, cw, 4);
            lemma_field_line("    why:      "@, cy, 4);
            lemma_field_line("    takeaway: "@, ct, 4);
            lemma_text_hashes_append(d1, d2);
            lemma_text_hashes_append(d1 + d2, d3);
            lemma_text_hashes_append(d1 + d2 + d3, d4);
            assert(Seq::<Seq<char>>::empty() + Seq::<Seq<char>>::empty() + Seq::<Seq<char>>::empty()
                + Seq::<Seq<char>>::empty() =~= Seq::<Seq<char>>::empty());
            assert((d1 + d2 + d3 + d4).last() == d4.last());
        },
    }
}

/// The candidate section lists each candidate's hash once, in order.
pub proof fn lemma_candidate_blocks_hashes(
    cs: Seq<CandidateInputView>,
    sums: Seq<(Seq<char>, CommitSummaryView)>,
)
    requires
        forall|i: int| 0 <= i < cs.len() ==> printable_candidate(#[trigger] cs[i]),
        printable_summaries(sums),
    ensures
        text_hashes(candidate_blocks(cs, sums)) == cs.map_values(|c: CandidateInputView| c.commit.hash),
        candidate_blocks(cs, sums).len() == 0 || candidate_blocks(cs, sums).last() == '\n',
    decreases cs.len(),
{
    if cs.len() == 0 {
        assert(split_lines(Seq::<char>::empty()) == seq![Seq::<char>::empty()]);
        lemma_empty_line();
        assert(cs.map_values(|c: CandidateInputView| c.commit.hash) =~= Seq::<Seq<char>>::empty());
    } else {
        let d = cs.drop_last();
        assert forall|i: int| 0 <= i < d.len() implies printable_candidate(#[trigger] d[i]) by {
            assert(d[i] == cs[i]);
        }
        lemma_candidate_blocks_hashes(d, sums);
        let prev = candidate_blocks(d, sums);
        let c = cs.last();
        assert(printable_candidate(cs[cs.len() - 1]));
        let ev = evidence_block(c);
        let found = find_key(sums, c.commit.hash);
        let sb = summary_block(found);
        lemma_find_key_from(sums, c.commit.hash);
        if let Some(v) = found {
            let j = choose|j: int| 0 <= j < sums.len() && (#[trigger] sums[j]).1 == v;
            assert(single_line(sums[j].1.what_changed));
        }
        lemma_summary_hashes(found);
        lemma_evidence_hashes(c);
        lemma_evidence_split(c);
        assert(ev.last() == '\n');
        lemma_text_hashes_append(prev, ev);
        lemma_text_hashes_append(prev + ev, sb);
        assert((prev + ev).last() == '\n');
        assert(candidate_blocks(cs, sums) == prev + ev + sb);
        let f = |c: CandidateInputView| c.commit.hash;
        assert(cs.map_values(f) =~= d.map_values(f).push(c.commit.hash));
        assert(d.map_values(f) + seq![c.commit.hash] + Seq::<Seq<char>>::empty() =~= d.map_values(
            f,
        ).push(c.commit.hash));
        if sb.len() > 0 {
            assert((prev + ev + sb).last() == sb.last());
        } else {
            assert(prev + ev + sb =~= prev + ev);
        }
    }
}

/// The instructions, line by line.
proof fn lemma_instructions_split()
    ensures
        RANKING_INSTRUCTIONS@ =~= ("You are ranking candidate git commits for a new-hire onboarding tour."@ + seq!['\n']) + ("Score each on these axes — NOT on diff size:"@ + seq!['\n']) + ("- Architecture-shaping (introduced/replaced a pattern)"@ + seq![
            '\n',
        ]) + ("- Revert / revert chain (tried and undone — high narrative value)"@ + seq!['\n']) + ("- Incident-linked fix (references a bug, outage, or incident)"@ + seq!['\n']) + ("- Discussion richness (gnarly PR review, many comments)"@ + seq!['\n']) + (
        "Downweight: dependency bumps, formatting passes, lockfile-only commits."@ + seq!['\n']) + seq!['\n'] + ("Return JSON: {\"candidates\":[{\"commit_hash\",\"score\"(0..1),\"architecture_shaping\"(bool),\"rationale\",\"evidence_summary\"}]}"@ + seq!['\n']) + "Return at most "@,
{
    reveal_strlit("You are ranking candidate git commits for a new-hire onboarding tour.\nScore each on these axes — NOT on diff size:\n- Architecture-shaping (introduced/replaced a pattern)\n- Revert / revert chain (tried and undone — high narrative value)\n- Incident-linked fix (references a bug, outage, or incident)\n- Discussion richness (gnarly PR review, many comments)\nDownweight: dependency bumps, formatting passes, lockfile-only commits.\n\nReturn JSON: {\"candidates\":[{\"commit_hash\",\"score\"(0..1),\"architecture_shaping\"(bool),\"rationale\",\"evidence_summary\"}]}\nReturn at most ");
    reveal_strlit("You are ranking candidate git commits for a new-hire onboarding tour.");
    reveal_strlit("Score each on these axes — NOT on diff size:");
    reveal_strlit("- Architecture-shaping (introduced/replaced a pattern)");
    reveal_strlit("- Revert / revert chain (tried and undone — high narrative value)");
    reveal_strlit("- Incident-linked fix (references a bug, outage, or incident)");
    reveal_strlit("- Discussion richness (gnarly PR review, many comments)");
    reveal_strlit("Downweight: dependency bumps, formatting passes, lockfile-only commits.");
    reveal_strlit("Return JSON: {\"candidates\":[{\"commit_hash\",\"score\"(0..1),\"architecture_shaping\"(bool),\"rationale\",\"evidence_summary\"}]}");
    reveal_strlit("Return at most ");
}

/// A line starting `- ` and then anything but `h` names no hash.
proof fn lemma_dash_line(x: Seq<char>)
    requires
        x.len() >= 3,
        x[0] == '-',
        x[1] == ' ',
        x[2] != 'h',
        !is_ws(x.last()),
    ensures
        line_hash(x) is None,
{
    reveal_strlit("- hash: ");
    assert(trim_start(x) == x);
    assert(trim_end(x) == x);
    assert(HASH_LINE_PREFIX@[2] == 'h');
}

/// A plain line (first character not blank, not `-`) names no hash.
proof fn lemma_plain_text_line(x: Seq<char>)
    requires
        single_line(x),
        x.len() > 0,
        !is_ws(x[0]),
        x[0] != '-',
    ensures
        text_hashes(x + seq!['\n']) == Seq::<Seq<char>>::empty(),
{
    lemma_plain_line(x, 0);
    lemma_line_hashes(x);
}

proof fn lemma_dash_text_line(x: Seq<char>)
    requires
        single_line(x),
        x.len() >= 3,
        x[0] == '-',
        x[1] == ' ',
        x[2] != 'h',
        !is_ws(x.last()),
    ensures
        text_hashes(x + seq!['\n']) == Seq::<Seq<char>>::empty(),
{
    lemma_dash_line(x);
    lemma_line_hashes(x);
}

/// A trailing newline adds no hash.
proof fn lemma_text_hashes_newline(x: Seq<char>)
    ensures
        text_hashes(x + seq!['\n']) == text_hashes(x),
{
    let s = x + seq!['\n'];
    assert(s.drop_last() =~= x);
    assert(s.last() == '\n');
    assert(split_lines(s) == split_lines(x).push(Seq::<char>::empty()));
    lemma_empty_line();
    assert(split_lines(s).drop_last() =~= split_lines(x));
    assert(split_lines(s).last() == Seq::<char>::empty());
}

proof fn lemma_instruction_lines_hashes()
    ensures
        text_hashes("You are ranking candidate git commits for a new-hire onboarding tour."@ + seq!['\n']) == Seq::<Seq<char>>::empty(),
        text_hashes("Score each on these axes — NOT on diff size:"@ + seq!['\n']) == Seq::<Seq<char>>::empty(),
        text_hashes("- Architecture-shaping (introduced/replaced a pattern)"@ + seq!['\n']) == Seq::<Seq<char>>::empty(),
        text_hashes("- Revert / revert chain (tried and undone — high narrative value)"@ + seq!['\n']) == Seq::<Seq<char>>::empty(),
        text_hashes("- Incident-linked fix (references a bug, outage, or incident)"@ + seq!['\n']) == Seq::<Seq<char>>::empty(),
        text_hashes("- Discussion richness (gnarly PR review, many comments)"@ + seq!['\n']) == Seq::<Seq<char>>::empty(),
        text_hashes("Downweight: dependency bumps, formatting passes, lockfile-only commits."@ + seq!['\n']) == Seq::<Seq<char>>::empty(),
        text_hashes("Return JSON: {\"candidates\":[{\"commit_hash\",\"score\"(0..1),\"architecture_shaping\"(bool),\"rationale\",\"evidence_summary\"}]}"@ + seq!['\n']) == Seq::<Seq<char>>::empty(),
{
    reveal_strlit("You are ranking candidate git commits for a new-hire onboarding tour.");
    reveal_strlit("Score each on these axes — NOT on diff size:");
    reveal_strlit("- Architecture-shaping (introduced/replaced a pattern)");
    reveal_strlit("- Revert / revert chain (tried and undone — high narrative value)");
    reveal_strlit("- Incident-linked fix (references a bug, outage, or incident)");
    reveal_strlit("- Discussion richness (gnarly PR review, many comments)");
    reveal_strlit("Downweight: dependency bumps, formatting passes, lockfile-only commits.");
    reveal_strlit("Return JSON: {\"candidates\":[{\"commit_hash\",\"score\"(0..1),\"architecture_shaping\"(bool),\"rationale\",\"evidence_summary\"}]}");
    lemma_plain_text_line("You are ranking candidate git commits for a new-hire onboarding tour."@);
    lemma_plain_text_line("Score each on these axes — NOT on diff size:"@);
    lemma_dash_text_line("- Architecture-shaping (introduced/replaced a pattern)"@);
    lemma_dash_text_line("- Revert / revert chain (tried and undone — high narrative value)"@);
    lemma_dash_text_line("- Incident-linked fix (references a bug, outage, or incident)"@);
    lemma_dash_text_line("- Discussion richness (gnarly PR review, many comments)"@);
    lemma_plain_text_line("Downweight: dependency bumps, formatting passes, lockfile-only commits."@);
    lemma_plain_text_line("Return JSON: {\"candidates\":[{\"commit_hash\",\"score\"(0..1),\"architecture_shaping\"(bool),\"rationale\",\"evidence_summary\"}]}"@);
}

/// The header lists the hashes of the project summary's lines and no other.
pub proof fn lemma_header_hashes(ps: Seq<char>, n: nat)
    ensures
        text_hashes(ranking_header(ps, n)) == text_hashes(ps),
        ranking_header(ps, n).len() > 0,
        ranking_header(ps, n).last() == '\n',
{
    let nl = seq!['\n'];
    let e = Seq::<Seq<char>>::empty();
    lemma_instructions_split();
    lemma_instruction_lines_hashes();
    reveal_strlit("\n\n");
    reveal_strlit("PROJECT CONTEXT\n");
    reveal_strlit("PROJECT CONTEXT");
    reveal_strlit(" entries, highest first.\n\nCANDIDATES:\n");
    reveal_strlit(" entries, highest first.");
    reveal_strlit("CANDIDATES:");
    reveal_strlit("Return at most ");
    // context
    let ctx = context_block(ps);
    if ps.len() == 0 {
        assert(ctx =~= Seq::<char>::empty());
        assert(split_lines(Seq::<char>::empty()) == seq![Seq::<char>::empty()]);
        lemma_empty_line();
        assert(text_hashes(ps) == e);
    } else {
        let k1 = "PROJECT CONTEXT"@ + nl;
        let k2 = ps + nl;
        assert(ctx =~= k1 + k2 + nl);
        lemma_plain_text_line("PROJECT CONTEXT"@);
        lemma_text_hashes_newline(ps);
        lemma_text_hashes_newline(Seq::<char>::empty());
        assert(Seq::<char>::empty() + nl =~= nl);
        assert(split_lines(Seq::<char>::empty()) == seq![Seq::<char>::empty()]);
        lemma_empty_line();
        lemma_text_hashes_append(k1, k2);
        lemma_text_hashes_append(k1 + k2, nl);
        assert(e + text_hashes(ps) + e =~= text_hashes(ps));
    }
    assert(text_hashes(ctx) == text_hashes(ps));
    assert(ctx.len() == 0 || ctx.last() == '\n');
    // the instructions and the entry limit
    let tail_line = "Return at most "@ + dec(n) + " entries, highest first."@;
    lemma_dec_single(n);
    lemma_single_concat("Return at most "@, dec(n));
    lemma_single_concat("Return at most "@ + dec(n), " entries, highest first."@);
    lemma_plain_text_line(tail_line);
    lemma_plain_text_line("CANDIDATES:"@);
    assert(" entries, highest first.\n\nCANDIDATES:\n"@ =~= " entries, highest first."@ + nl + nl + (
    "CANDIDATES:"@ + nl));
    let i1 = ("You are ranking candidate git commits for a new-hire onboarding tour."@ + nl) + ("Score each on these axes — NOT on diff size:"@ + nl) + ("- Architecture-shaping (introduced/replaced a pattern)"@ + nl) + ("- Revert / revert chain (tried and undone — high narrative value)"@ + nl) + ("- Incident-linked fix (references a bug, outage, or incident)"@ + nl) + ("- Discussion richness (gnarly PR review, many comments)"@ + nl) + ("Downweight: dependency bumps, formatting passes, lockfile-only commits."@ + nl) + nl + ("Return JSON: {\"candidates\":[{\"commit_hash\",\"score\"(0..1),\"architecture_shaping\"(bool),\"rationale\",\"evidence_summary\"}]}"@ + nl);
    assert(RANKING_INSTRUCTIONS@ + dec(n) + " entries, highest first.\n\nCANDIDATES:\n"@ =~= i1 + (
    tail_line + nl) + nl + ("CANDIDATES:"@ + nl));
    lemma_text_hashes_newline(Seq::<char>::empty());
    assert(Seq::<char>::empty() + nl =~= nl);
    assert(split_lines(Seq::<char>::empty()) == seq![Seq::<char>::empty()]);
    lemma_empty_line();
    assert(text_hashes(nl) == e);
    lemma_text_hashes_append(("You are ranking candidate git commits for a new-hire onboarding tour."@ + nl), ("Score each on these axes — NOT on diff size:"@ + nl));
    lemma_text_hashes_append(("You are ranking candidate git commits for a new-hire onboarding tour."@ + nl) + ("Score each on these axes — NOT on diff size:"@ + nl), ("- Architecture-shaping (introduced/replaced a pattern)"@ + nl));
    lemma_text_hashes_append(("You are ranking candidate git commits for a new-hire onboarding tour."@ + nl) + ("Score each on these axes — NOT on diff size:"@ + nl) + ("- Architecture-shaping (introduced/replaced a pattern)"@ + nl), ("- Revert / revert chain (tried and undone — high narrative value)"@ + nl));
    lemma_text_hashes_append(("You are ranking candidate git commits for a new-hire onboarding tour."@ + nl) + ("Score each on these axes — NOT on diff size:"@ + nl) + ("- Architecture-shaping (introduced/replaced a pattern)"@ + nl) + ("- Revert / revert chain (tried and undone — high narrative value)"@ + nl), ("- Incident-linked fix (references a bug, outage, or incident)"@ + nl));
    lemma_text_hashes_append(("You are ranking candidate git commits for a new-hire onboarding tour."@ + nl) + ("Score each on these axes — NOT on diff size:"@ + nl) + ("- Architecture-shaping (introduced/replaced a pattern)"@ + nl) + ("- Revert / revert chain (tried and undone — high narrative value)"@ + nl) + ("- Incident-linked fix (references a bug, outage, or incident)"@ + nl), ("- Discussion richness (gnarly PR review, many comments)"@ + nl));
    lemma_text_hashes_append(("You are ranking candidate git commits for a new-hire onboarding tour."@ + nl) + ("Score each on these axes — NOT on diff size:"@ + nl) + ("- Architecture-shaping (introduced/replaced a pattern)"@ + nl) + ("- Revert / revert chain (tried and undone — high narrative value)"@ + nl) + ("- Incident-linked fix (references a bug, outage, or incident)"@ + nl) + ("- Discussion richness (gnarly PR review, many comments)"@ + nl), ("Downweight: dependency bumps, formatting passes, lockfile-only commits."@ + nl));
    lemma_text_hashes_append(("You are ranking candidate git commits for a new-hire onboarding tour."@ + nl) + ("Score each on these axes — NOT on diff size:"@ + nl) + ("- Architecture-shaping (introduced/replaced a pattern)"@ + nl) + ("- Revert / revert chain (tried and undone — high narrative value)"@ + nl) + ("- Incident-linked fix (references a bug, outage, or incident)"@ + nl) + ("- Discussion richness (gnarly PR review, many comments)"@ + nl) + ("Downweight: dependency bumps, formatting passes, lockfile-only commits."@ + nl), nl);
    lemma_text_hashes_append(("You are ranking candidate git commits for a new-hire onboarding tour."@ + nl) + ("Score each on these axes — NOT on diff size:"@ + nl) + ("- Architecture-shaping (introduced/replaced a pattern)"@ + nl) + ("- Revert / revert chain (tried and undone — high narrative value)"@ + nl) + ("- Incident-linked fix (references a bug, outage, or incident)"@ + nl) + ("- Discussion richness (gnarly PR review, many comments)"@ + nl) + ("Downweight: dependency bumps, formatting passes, lockfile-only commits."@ + nl) + nl, ("Return JSON: {\"candidates\":[{\"commit_hash\",\"score\"(0..1),\"architecture_shaping\"(bool),\"rationale\",\"evidence_summary\"}]}"@ + nl));
    assert(text_hashes(i1) == e);
    let rest = i1 + (tail_line + nl) + nl + ("CANDIDATES:"@ + nl);
    lemma_text_hashes_append(i1, tail_line + nl);
    lemma_text_hashes_append(i1 + (tail_line + nl), nl);
    lemma_text_hashes_append(i1 + (tail_line + nl) + nl, "CANDIDATES:"@ + nl);
    assert(text_hashes(rest) == e);
    assert(ranking_header(ps, n) =~= ctx + rest);
    lemma_text_hashes_append(ctx, rest);
    assert(text_hashes(ps) + e =~= text_hashes(ps));
    assert((ctx + rest).last() == '\n');
}

/// What the mock provider reads back from a ranking prompt: the hashes the
/// project summary's own lines name (none for ordinary prose), then every
/// candidate's hash once, in candidate order, provided each candidate prints
/// one field per line (hash non-empty and trimmed, list renderings on one
/// line) and the commit summaries' fields are single lines.
/// `build_ranking_prompt` states the same of the prompt it builds, where the
/// list renderings are known to be single lines.
pub proof fn law_ranking_prompt_lists_candidates(
    cs: Seq<CandidateInputView>,
    sums: Seq<(Seq<char>, CommitSummaryView)>,
    project_summary: Seq<char>,
    target_max: nat,
)
    requires
        forall|i: int| 0 <= i < cs.len() ==> printable_candidate(#[trigger] cs[i]),
        printable_summaries(sums),
    ensures
        text_hashes(ranking_prompt_of(cs, sums, project_summary, target_max)) == text_hashes(
            project_summary,
        ) + cs.map_values(|c: CandidateInputView| c.commit.hash),
{
    lemma_header_hashes(project_summary, target_max);
    lemma_candidate_blocks_hashes(cs, sums);
    lemma_text_hashes_append(
        ranking_header(project_summary, target_max),
        candidate_blocks(cs, sums),
    );
}

/// Whether `s` holds no newline.
pub fn is_single_line(s: &str) -> (b: bool)
    ensures
        b == single_line(s@),
{
    let v = chars_of(s);
    let mut i: usize = 0;
    while i < v.len()
        invariant
            i <= v.len(),
            v@ == s@,
            forall|j: int| 0 <= j < i ==> v@[j] != '\n',
        decreases v.len() - i,
    {
        if v[i] == '\n' {
            return false;
        }
        i += 1;
    }
    true
}

/// Whether the candidate's own fields fit the ranking prompt's line layout.
pub fn is_printable_candidate(c: &CandidateInput) -> (b: bool)
    ensures
        b == printable_fields(c@),
{
    let h = c.commit.hash.as_str();
    if h.is_empty() {
        return false;
    }
    let t = trim_str(h);
    if !str_eq(t.as_str(), h) || !is_single_line(h) {
        return false;
    }
    if !is_single_line(c.commit.message_summary.as_str()) {
        return false;
    }
    let files = &c.commit.files_changed;
    let mut k: usize = 0;
    while k < files.len()
        invariant
            k <= files.len(),
            files@ == c.commit.files_changed@,
            forall|j: int| 0 <= j < k ==> single_line(#[trigger] files@[j].path@),
        decreases files.len() - k,
    {
        if !is_single_line(files[k].path.as_str()) {
            assert(c@.commit.files_changed[k as int].path == files@[k as int].path@);
            return false;
        }
        k += 1;
    }
    assert forall|j: int| 0 <= j < c@.commit.files_changed.len() implies single_line(
        (#[trigger] c@.commit.files_changed[j]).path,
    ) by {
        assert(c@.commit.files_changed[j].path == files@[j].path@);
    }
    true
}

/// Builds the ranking prompt and tells whether every candidate's own fields
/// and every commit summary field fit its line layout; when they do, the
/// hashes read back from the prompt are those the project summary's own lines
/// name, then every candidate's hash once, in candidate order.
pub fn ranking_prompt_checked(
    candidates: &[CandidateInput],
    commit_summaries: &Vec<(String, CommitSummary)>,
    project_summary: &str,
    target_max: usize,
) -> (r: (String, bool))
    ensures
        r.0@ == ranking_prompt_of(
            candidate_views(candidates@),
            commit_summary_views(commit_summaries@),
            project_summary@,
            target_max as nat,
        ),
        r.1 == ((forall|i: int|
            0 <= i < candidates@.len() ==> printable_fields(
                #[trigger] candidate_views(candidates@)[i],
            )) && printable_summaries(commit_summary_views(commit_summaries@))),
        r.1 ==> text_hashes(r.0@) == text_hashes(project_summary@) + candidate_views(
            candidates@,
        ).map_values(|c: CandidateInputView| c.commit.hash),
{
    let ghost cs = candidate_views(candidates@);
    let ghost sv = commit_summary_views(commit_summaries@);
    let prompt = build_ranking_prompt(candidates, commit_summaries, project_summary, target_max);
    let mut ok = true;
    let mut i: usize = 0;
    while i < candidates.len()
        invariant
            i <= candidates@.len(),
            cs == candidate_views(candidates@),
            ok == (forall|j: int| 0 <= j < i ==> printable_fields(#[trigger] cs[j])),
        decreases candidates.len() - i,
    {
        let p = is_printable_candidate(&candidates[i]);
        proof {
            assert(cs[i as int] == candidates@[i as int]@);
            if !p {
                assert(!printable_fields(cs[i as int]));
            }
        }
        ok = ok && p;
        i += 1;
    }
    let mut sums_ok = true;
    let mut j: usize = 0;
    while j < commit_summaries.len()
        invariant
            j <= commit_summaries@.len(),
            sv == commit_summary_views(commit_summaries@),
            sums_ok == (forall|k: int|
                0 <= k < j ==> {
                    &&& single_line((#[trigger] sv[k]).1.what_changed)
                    &&& single_line(sv[k].1.why)
                    &&& single_line(sv[k].1.takeaway)
                }),
        decreases commit_summaries.len() - j,
    {
        let e = &commit_summaries[j].1;
        let a = is_single_line(e.what_changed.as_str());
        let b = is_single_line(e.why.as_str());
        let c = is_single_line(e.takeaway.as_str());
        proof {
            assert(sv[j as int].1 == commit_summaries@[j as int].1@);
        }
        sums_ok = sums_ok && a && b && c;
        j += 1;
    }
    (prompt, ok && sums_ok)
}

} // verus!
