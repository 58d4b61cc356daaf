//! The canned replies of the mock provider: which stage a request belongs to
//! (by the fields its schema requires), the hashes a ranking prompt lists, and
//! the placeholder texts of each stage.
use vstd::prelude::*;

use crate::stages::FileSummary;
use crate::text::{
    copy_str, is_prefix, push_str, starts_with, strs, string_from_chars, string_from_range, trim,
    trim_chars,
};

verus! {

broadcast use vstd::string::group_string_axioms;

/// The stage a request comes from.
#[derive(Debug, Clone, Copy, PartialEq, Eq, Structural)]
pub enum MockStage {
    Ranking,
    FileSummary,
    CommitSummary,
    Prose,
}

/// Dispatch on the fields the request's schema requires (`required`, empty
/// when there is no schema): `candidates` marks the ranking call, `provides`
/// the file summary, `what_changed` the commit summary; anything else is prose.
pub open spec fn mock_stage_of(required: Seq<Seq<char>>) -> MockStage {
    if required.contains("candidates"@) {
        MockStage::Ranking
    } else if required.contains("provides"@) {
        MockStage::FileSummary
    } else if required.contains("what_changed"@) {
        MockStage::CommitSummary
    } else {
        MockStage::Prose
    }
}

/// The stage of a request, from the fields its schema requires.
pub fn mock_stage(required: &Vec<String>) -> (r: MockStage)
    ensures
        r == mock_stage_of(strs(required@)),
{
    let candidates = copy_str("candidates");
    let provides = copy_str("provides");
    let what = copy_str("what_changed");
    if crate::mining_types::contains_string(required, &candidates) {
        MockStage::Ranking
    } else if crate::mining_types::contains_string(required, &provides) {
        MockStage::FileSummary
    } else if crate::mining_types::contains_string(required, &what) {
        MockStage::CommitSummary
    } else {
        MockStage::Prose
    }
}

/// The pieces of `s` between newline characters (one more than there are
/// newlines).
pub open spec fn split_lines(s: Seq<char>) -> Seq<Seq<char>>
    decreases s.len(),
{
    if s.len() == 0 {
        seq![Seq::empty()]
    } else {
        let prev = split_lines(s.drop_last());
        if s.last() == '\n' {
            prev.push(Seq::empty())
        } else {
            prev.update(prev.len() - 1, prev.last().push(s.last()))
        }
    }
}

proof fn lemma_split_lines_nonempty(s: Seq<char>)
    ensures
        split_lines(s).len() >= 1,
    decreases s.len(),
{
    if s.len() > 0 {
        lemma_split_lines_nonempty(s.drop_last());
    }
}

/// Marker of a candidate line in the ranking prompt.
pub const HASH_LINE_PREFIX: &'static str = "- hash: ";

/// The hash a line names: the trimmed rest of a line that, trimmed, starts
/// with `- hash: `.
pub open spec fn line_hash(line: Seq<char>) -> Option<Seq<char>> {
    let t = trim(line);
    if is_prefix(HASH_LINE_PREFIX@, t) {
        Some(trim(t.subrange(HASH_LINE_PREFIX@.len() as int, t.len() as int)))
    } else {
        None
    }
}

/// The hashes named by `lines`, in order.
pub open spec fn hashes_of(lines: Seq<Seq<char>>) -> Seq<Seq<char>>
    decreases lines.len(),
{
    if lines.len() == 0 {
        Seq::empty()
    } else {
        let prev = hashes_of(lines.drop_last());
        match line_hash(lines.last()) {
            Some(h) => prev.push(h),
            None => prev,
        }
    }
}

fn hash_of_line(line: &Vec<char>) -> (r: Option<String>)
    ensures
        match r {
            Some(h) => line_hash(line@) == Some(h@),
            None => line_hash(line@) is None,
        },
{
    let t = trim_chars(line);
    let ts = string_from_chars(&t);
    if starts_with(ts.as_str(), HASH_LINE_PREFIX) {
        proof {
            reveal_strlit("- hash: ");
        }
        let rest = string_from_range(&t, 8, t.len());
        let h = crate::text::trim_str(rest.as_str());
        Some(h)
    } else {
        None
    }
}

/// The commit hashes listed in a ranking prompt: every line that, trimmed,
/// starts with `- hash: ` contributes its trimmed remainder. (Splitting at
/// every newline gives the lines of `str::lines` up to a trailing carriage
/// return and a final empty line, which trimming and the prefix test ignore.)
pub fn extract_hashes_from_prompt(prompt: &str) -> (r: Vec<String>)
    ensures
        strs(r@) == hashes_of(split_lines(prompt@)),
{
    let chars = crate::text::chars_of(prompt);
    let mut out: Vec<String> = Vec::new();
    let mut cur: Vec<char> = Vec::new();
    let mut i: usize = 0;
    proof {
        assert(chars@.take(0) =~= Seq::<char>::empty());
    }
    while i < chars.len()
        invariant
            i <= chars@.len(),
            chars@ == prompt@,
            split_lines(chars@.take(i as int)).len() >= 1,
            cur@ == split_lines(chars@.take(i as int)).last(),
            strs(out@) == hashes_of(split_lines(chars@.take(i as int)).drop_last()),
        decreases chars.len() - i,
    {
        let ghost before = chars@.take(i as int);
        let ghost after = chars@.take(i + 1);
        proof {
            assert(after.drop_last() =~= before);
            assert(after.last() == chars@[i as int]);
            lemma_split_lines_nonempty(before);
            lemma_split_lines_nonempty(after);
        }
        if chars[i] == '\n' {
            let found = hash_of_line(&cur);
            match found {
                Some(h) => {
                    let ghost o = strs(out@);
                    out.push(h);
                    assert(strs(out@) =~= o.push(h@));
                },
                None => {},
            }
            proof {
                let pl = split_lines(before);
                assert(split_lines(after) == pl.push(Seq::<char>::empty()));
                assert(split_lines(after).drop_last() =~= pl);
                assert(pl =~= pl.drop_last().push(pl.last()));
            }
            cur = Vec::new();
            assert(cur@ =~= Seq::<char>::empty());
        } else {
            cur.push(chars[i]);
            proof {
                let pl = split_lines(before);
                assert(split_lines(after) == pl.update(pl.len() - 1, pl.last().push(chars@[i as int])));
                assert(split_lines(after).drop_last() =~= pl.drop_last());
            }
        }
        i += 1;
    }
    assert(chars@.take(chars@.len() as int) =~= chars@);
    let found = hash_of_line(&cur);
    match found {
        Some(h) => {
            let ghost o = strs(out@);
            out.push(h);
            assert(strs(out@) =~= o.push(h@));
        },
        None => {},
    }
    proof {
        let pl = split_lines(chars@);
        lemma_split_lines_nonempty(chars@);
        assert(pl =~= pl.drop_last().push(pl.last()));
    }
    out
}

/// One entry of the mock ranking reply (its score is given by its position).
#[derive(Debug)]
pub struct MockRankingEntry {
    pub commit_hash: String,
    pub rationale: String,
    pub evidence_summary: String,
}

/// `e` is the mock ranking entry of hash `h`.
pub open spec fn mock_entry_of(e: MockRankingEntry, h: Seq<char>) -> bool {
    &&& e.commit_hash@ == h
    &&& e.rationale@ == "[mock rationale for "@ + h + "]"@
    &&& e.evidence_summary@ == "[mock evidence for "@ + h + "]"@
}

/// `v` holds the mock ranking entries of the hashes `prompt` lists, in order.
pub open spec fn mock_entries_of(v: Seq<MockRankingEntry>, prompt: Seq<char>) -> bool {
    &&& v.len() == hashes_of(split_lines(prompt)).len()
    &&& forall|i: int|
        0 <= i < v.len() ==> mock_entry_of(#[trigger] v[i], hashes_of(split_lines(prompt))[i])
}

/// The mock ranking reply: one entry per hash the prompt lists, in order.
pub fn mock_ranking_entries(prompt: &str) -> (r: Vec<MockRankingEntry>)
    ensures
        mock_entries_of(r@, prompt@),
{
    let hashes = extract_hashes_from_prompt(prompt);
    let mut out: Vec<MockRankingEntry> = Vec::new();
    let mut i: usize = 0;
    while i < hashes.len()
        invariant
            i <= hashes@.len(),
            out@.len() == i,
            forall|k: int|
                0 <= k < i ==> {
                    let h = hashes@[k]@;
                    &&& (#[trigger] out@[k]).commit_hash@ == h
                    &&& out@[k].rationale@ == "[mock rationale for "@ + h + "]"@
                    &&& out@[k].evidence_summary@ == "[mock evidence for "@ + h + "]"@
                },
        decreases hashes.len() - i,
    {
        let h = &hashes[i];
        let mut rationale = copy_str("[mock rationale for ");
        push_str(&mut rationale, h.as_str());
        push_str(&mut rationale, "]");
        let mut evidence = copy_str("[mock evidence for ");
        push_str(&mut evidence, h.as_str());
        push_str(&mut evidence, "]");
        out.push(MockRankingEntry { commit_hash: h.clone(), rationale, evidence_summary: evidence });
        i += 1;
    }
    proof {
        assert forall|k: int| 0 <= k < out@.len() implies hashes@[k]@ == hashes_of(
            split_lines(prompt@),
        )[k] by {
            assert(strs(hashes@)[k] == hashes@[k]@);
        }
    }
    out
}

/// The mock file summary: placeholder texts and empty lists.
pub fn mock_file_summary() -> (r: FileSummary)
    ensures
        r.provides@ == "[mock provides]"@,
        r.externals@.len() == 0,
        r.purpose@ == "[mock purpose]"@,
        r.functionalities@.len() == 0,
        r.notes@ == "[mock notes]"@,
{
    FileSummary {
        provides: copy_str("[mock provides]"),
        externals: Vec::new(),
        purpose: copy_str("[mock purpose]"),
        functionalities: Vec::new(),
        notes: copy_str("[mock notes]"),
    }
}

/// The mock commit summary fields: what changed, why, takeaway.
pub fn mock_commit_fields() -> (r: (String, String, String))
    ensures
        r.0@ == "[mock what_changed]"@,
        r.1@ == "[mock why]"@,
        r.2@ == "[mock takeaway]"@,
{
    (copy_str("[mock what_changed]"), copy_str("[mock why]"), copy_str("[mock takeaway]"))
}

/// The characters of `s` before its first newline (all of them when there is
/// none).
pub open spec fn before_newline(s: Seq<char>) -> Seq<char>
    decreases s.len(),
{
    if s.len() == 0 || s[0] == '\n' {
        Seq::empty()
    } else {
        seq![s[0]] + before_newline(s.drop_first())
    }
}

/// The first line as `str::lines` yields it: none for empty text; a line that
/// a newline ends loses one trailing carriage return.
pub open spec fn first_line(s: Seq<char>) -> Option<Seq<char>> {
    if s.len() == 0 {
        None
    } else {
        let b = before_newline(s);
        if b.len() < s.len() && b.len() > 0 && b.last() == '\r' {
            Some(b.drop_last())
        } else {
            Some(b)
        }
    }
}

proof fn lemma_before_newline_prefix(s: Seq<char>, k: int)
    requires
        0 <= k <= s.len(),
        forall|j: int| 0 <= j < k ==> s[j] != '\n',
        k == s.len() || s[k] == '\n',
    ensures
        before_newline(s) == s.subrange(0, k),
    decreases k,
{
    if k > 0 {
        lemma_before_newline_prefix(s.drop_first(), k - 1);
        assert(seq![s[0]] + s.drop_first().subrange(0, k - 1) =~= s.subrange(0, k));
    }
}

/// The prose reply of the mock provider: `[mock prose for <first line>]`, or
/// `unknown` in place of the line when the prompt is empty.
pub fn mock_prose_text(user: &str) -> (r: String)
    ensures
        r@ == "[mock prose for "@ + match first_line(user@) {
            Some(l) => l,
            None => "unknown"@,
        } + "]"@,
{
    let v = crate::text::chars_of(user);
    let mut r = copy_str("[mock prose for ");
    if v.len() == 0 {
        push_str(&mut r, "unknown");
    } else {
        let mut k: usize = 0;
        while k < v.len() && v[k] != '\n'
            invariant
                k <= v@.len(),
                v@ == user@,
                forall|j: int| 0 <= j < k ==> v@[j] != '\n',
            decreases v.len() - k,
        {
            k += 1;
        }
        proof {
            lemma_before_newline_prefix(v@, k as int);
        }
        let end = if k < v.len() && k > 0 && v[k - 1] == '\r' {
            k - 1
        } else {
            k
        };
        let line = string_from_range(&v, 0, end);
        push_str(&mut r, line.as_str());
    }
    push_str(&mut r, "]");
    r
}

/// The test-only provider: every call gets the canned reply of its stage.
#[derive(Debug, Clone, Copy)]
pub struct MockProvider;

/// A canned reply, by stage.
#[derive(Debug)]
pub enum MockReply {
    /// One entry per listed hash; the scores descend from the first.
    Ranking(Vec<MockRankingEntry>),
    FileSummary(FileSummary),
    /// What changed, why, takeaway.
    CommitSummary(String, String, String),
    /// Plain prose; the reply carries no structured value.
    Prose(String),
}

/// The canned reply to a request whose schema requires `required` and whose
/// user prompt is `user`.
pub fn dummy_response(required: &Vec<String>, user: &str) -> (r: MockReply)
    ensures
        match mock_stage_of(strs(required@)) {
            MockStage::Ranking => r matches MockReply::Ranking(v) && mock_entries_of(v@, user@),
            MockStage::FileSummary => r matches MockReply::FileSummary(f) && f.provides@
                == "[mock provides]"@ && f.externals@.len() == 0 && f.purpose@ == "[mock purpose]"@
                && f.functionalities@.len() == 0 && f.notes@ == "[mock notes]"@,
            MockStage::CommitSummary => r matches MockReply::CommitSummary(a, b, c) && a@
                == "[mock what_changed]"@ && b@ == "[mock why]"@ && c@ == "[mock takeaway]"@,
            MockStage::Prose => r matches MockReply::Prose(t) && t@ == "[mock prose for "@
                + match first_line(user@) {
                Some(l) => l,
                None => "unknown"@,
            } + "]"@,
        },
{
    match mock_stage(required) {
        MockStage::Ranking => MockReply::Ranking(mock_ranking_entries(user)),
        MockStage::FileSummary => MockReply::FileSummary(mock_file_summary()),
        MockStage::CommitSummary => {
            let (a, b, c) = mock_commit_fields();
            MockReply::CommitSummary(a, b, c)
        },
        MockStage::Prose => MockReply::Prose(mock_prose_text(user)),
    }
}

} // verus!
