//! Stages 1–3 of ranking (file, commit and project summaries): their records,
//! cache keys, prompts and the vague-message trigger.
use vstd::prelude::*;

use crate::digest::hex_digit;
use crate::mining_types::{append_new, extend_unique, CommitRecordView, FileChangeView};
use crate::ranking_types::{candidate_views, CandidateInput, CandidateInputView};
use crate::sorting::{
    lemma_seq_lt_irreflexive, lemma_seq_lt_total, lemma_seq_lt_transitive, seq_lt, str_lt,
};
use crate::render::{debug_list, debug_string_list, find_entry, find_key, lemma_find_key_last};
use crate::text::dec;
use crate::patterns::{
    json_str_member, json_str_member_of, lossy_text, opt_view, regex_is_match, regex_matches,
    utf8_lossy,
};
use crate::text::{push_str, strs, take_chars, take_chars_str, trim, trim_str};

verus! {

// ---------- content hashing ----------

/// What `std::collections::hash_map::DefaultHasher` produces for a byte slice
/// (`Hash::hash` of the slice into a hasher made by `DefaultHasher::new`, then
/// `Hasher::finish`).
pub uninterp spec fn default_hash_of(bytes: Seq<u8>) -> u64;

/// Calls `BuildHasher::hash_one` on `BuildHasherDefault<DefaultHasher>`, which
/// hashes the slice with a fresh `DefaultHasher::new()` and returns `finish()`.
/// Claims only that the result is the name `default_hash_of` of the bytes: std
/// documents that every `DefaultHasher` made by `new` behaves the same (the
/// hasher is not randomly seeded); the hash values themselves are not stated.
#[verifier::external_body]
fn default_hash(bytes: &[u8]) -> (r: u64)
    ensures
        r == default_hash_of(bytes@),
{
    std::hash::BuildHasher::hash_one(
        &std::hash::BuildHasherDefault::<std::collections::hash_map::DefaultHasher>::default(),
        bytes,
    )
}

/// The last `width` hexadecimal digits of `n`, lowercase, most significant
/// first, padded with `0` (what `format!("{:0width$x}")` prints when `n` fits).
pub open spec fn hex_fixed(n: nat, width: nat) -> Seq<char>
    decreases width,
{
    if width == 0 {
        Seq::empty()
    } else {
        hex_fixed(n / 16, (width - 1) as nat).push(hex_digit((n % 16) as int))
    }
}

fn hex_char(d: u64) -> (c: char)
    requires
        d < 16,
    ensures
        c == hex_digit(d as int),
{
    if d == 0 { '0' }
    else if d == 1 { '1' }
    else if d == 2 { '2' }
    else if d == 3 { '3' }
    else if d == 4 { '4' }
    else if d == 5 { '5' }
    else if d == 6 { '6' }
    else if d == 7 { '7' }
    else if d == 8 { '8' }
    else if d == 9 { '9' }
    else if d == 10 { 'a' }
    else if d == 11 { 'b' }
    else if d == 12 { 'c' }
    else if d == 13 { 'd' }
    else if d == 14 { 'e' }
    else { 'f' }
}

fn hex_fixed_string(n: u64, width: usize) -> (r: String)
    ensures
        r@ == hex_fixed(n as nat, width as nat),
    decreases width,
{
    if width == 0 {
        String::new()
    } else {
        let mut r = hex_fixed_string(n / 16, width - 1);
        r.push(hex_char(n % 16));
        r
    }
}

/// A 64-bit hash as 16 lowercase hexadecimal digits, zero-padded
/// (`format!("{:016x}", h)`).
pub fn hash_hex(h: u64) -> (r: String)
    ensures
        r@ == hex_fixed(h as nat, 16),
{
    hex_fixed_string(h, 16)
}

/// Cache key of a file's content: its `DefaultHasher` value as 16 lowercase
/// hexadecimal digits (`format!("{:016x}", hash)`).
pub fn hash_bytes(bytes: &[u8]) -> (r: String)
    ensures
        r@ == hex_fixed(default_hash_of(bytes@) as nat, 16),
{
    let h = default_hash(bytes);
    hash_hex(h)
}

// ---------- stage 1: file summaries ----------

/// How many characters of a file go into its summary prompt.
pub const FILE_EXCERPT_CHARS: usize = 8000;

/// System prompt of the file-summary call.
pub const FILE_SUMMARY_SYSTEM_PROMPT: &'static str = "You summarise source files for a codebase tour. Return strict JSON.";

/// Token cap of the file-summary call.
pub const FILE_SUMMARY_MAX_TOKENS: u32 = 1024;

/// The part of a file that goes into its summary prompt: the first
/// `FILE_EXCERPT_CHARS` characters of its lossily decoded content.
pub fn file_excerpt(bytes: &[u8]) -> (r: String)
    ensures
        r@ == take_chars(utf8_lossy(bytes@), FILE_EXCERPT_CHARS as nat),
        vstd::utf8::valid_utf8(bytes@) ==> r@ == take_chars(
            vstd::utf8::decode_utf8(bytes@),
            FILE_EXCERPT_CHARS as nat,
        ),
{
    let text = lossy_text(bytes);
    take_chars_str(text.as_str(), FILE_EXCERPT_CHARS)
}

/// The user prompt of the file-summary call.
pub open spec fn file_summary_prompt_of(rel_path: Seq<char>, excerpt: Seq<char>) -> Seq<char> {
    "File: "@ + rel_path + "\n\n--- content ---\n"@ + excerpt
        + "\n--- end ---\n\nSummarise: what it provides, what external things it uses, its purpose, the concrete functionalities it implements, and any special notes."@
}

/// Builds the user prompt of the file-summary call for `rel_path`.
pub fn file_summary_prompt(rel_path: &str, excerpt: &str) -> (r: String)
    ensures
        r@ == file_summary_prompt_of(rel_path@, excerpt@),
{
    let mut r = String::new();
    push_str(&mut r, "File: ");
    push_str(&mut r, rel_path);
    push_str(&mut r, "\n\n--- content ---\n");
    push_str(&mut r, excerpt);
    push_str(
        &mut r,
        "\n--- end ---\n\nSummarise: what it provides, what external things it uses, its purpose, the concrete functionalities it implements, and any special notes.",
    );
    proof {
        reveal_strlit("File: ");
    }
    r
}

/// Every path that some candidate's changed files name.
pub open spec fn candidate_paths(cs: Seq<CandidateInputView>) -> Set<Seq<char>> {
    Set::new(
        |p: Seq<char>|
            exists|i: int, j: int|
                0 <= i < cs.len() && 0 <= j < cs[i].commit.files_changed.len()
                    && #[trigger] cs[i].commit.files_changed[j].path == p,
    )
}

/// Each element sorts strictly before every later one.
pub open spec fn strictly_ascending(s: Seq<Seq<char>>) -> bool {
    forall|i: int, j: int| 0 <= i < j < s.len() ==> seq_lt(#[trigger] s[i], #[trigger] s[j])
}

/// Inserts `p` into the ascending list `v` unless it is there already.
fn insert_unique_sorted(v: &mut Vec<String>, p: &String)
    requires
        strictly_ascending(strs(old(v)@)),
    ensures
        strictly_ascending(strs(final(v)@)),
        forall|q: Seq<char>| #[trigger]
            strs(final(v)@).contains(q) <==> (strs(old(v)@).contains(q) || q == p@),
{
    let ghost s0 = strs(v@);
    let mut k: usize = 0;
    while k < v.len() && str_lt(&v[k], p)
        invariant
            k <= v@.len(),
            s0 == strs(v@),
            forall|q: int| 0 <= q < k ==> seq_lt(#[trigger] s0[q], p@),
        decreases v.len() - k,
    {
        k += 1;
    }
    if k < v.len() && crate::text::str_eq(v[k].as_str(), p.as_str()) {
        assert(s0[k as int] == p@);
        return;
    }
    v.insert(k, p.clone());
    proof {
        let n = strs(v@);
        assert(n =~= s0.insert(k as int, p@));
        if k < s0.len() {
            assert(!seq_lt(s0[k as int], p@));
            lemma_seq_lt_total(s0[k as int], p@);
        }
        assert forall|i: int, j: int| 0 <= i < j < n.len() implies seq_lt(
            #[trigger] n[i],
            #[trigger] n[j],
        ) by {
            if j == k {
            } else if i == k {
                if j - 1 > k {
                    lemma_seq_lt_transitive(p@, s0[k as int], s0[j - 1]);
                }
            } else if i < k && j > k {
            }
        }
        assert forall|q: Seq<char>| #[trigger]
            n.contains(q) <==> (s0.contains(q) || q == p@) by {
            if s0.contains(q) {
                let t = choose|t: int| 0 <= t < s0.len() && s0[t] == q;
                if t < k {
                    assert(n[t] == q);
                } else {
                    assert(n[t + 1] == q);
                }
            }
            if q == p@ {
                assert(n[k as int] == q);
            }
        }
    }
}

/// The distinct paths touched by the candidates, in ascending order: the only
/// files stage 1 summarises.
pub fn candidate_file_paths(candidates: &[CandidateInput]) -> (r: Vec<String>)
    ensures
        strictly_ascending(strs(r@)),
        forall|p: Seq<char>| #[trigger]
            strs(r@).contains(p) <==> candidate_paths(candidate_views(candidates@)).contains(p),
{
    let ghost cs = candidate_views(candidates@);
    let mut out: Vec<String> = Vec::new();
    let mut i: usize = 0;
    while i < candidates.len()
        invariant
            i <= candidates@.len(),
            cs == candidate_views(candidates@),
            strictly_ascending(strs(out@)),
            forall|p: Seq<char>| #[trigger]
                strs(out@).contains(p) <==> exists|a: int, b: int|
                    0 <= a < i && 0 <= b < cs[a].commit.files_changed.len()
                        && #[trigger] cs[a].commit.files_changed[b].path == p,
        decreases candidates.len() - i,
    {
        let files = &candidates[i].commit.files_changed;
        let mut j: usize = 0;
        while j < files.len()
            invariant
                i < candidates@.len(),
                j <= files@.len(),
                files@ == candidates@[i as int].commit.files_changed@,
                cs == candidate_views(candidates@),
                strictly_ascending(strs(out@)),
                forall|p: Seq<char>| #[trigger]
                    strs(out@).contains(p) <==> (exists|a: int, b: int|
                        0 <= a < i && 0 <= b < cs[a].commit.files_changed.len()
                            && #[trigger] cs[a].commit.files_changed[b].path == p) || (exists|
                        b: int,
                    | 0 <= b < j && #[trigger] cs[i as int].commit.files_changed[b].path == p),
            decreases files.len() - j,
        {
            insert_unique_sorted(&mut out, &files[j].path);
            proof {
                assert(cs[i as int].commit.files_changed[j as int].path == files@[j as int].path@);
            }
            j += 1;
        }
        proof {
            assert forall|p: Seq<char>| #[trigger] strs(out@).contains(p) <==> exists|
                a: int,
                b: int,
            |
                0 <= a < i + 1 && 0 <= b < cs[a].commit.files_changed.len()
                    && #[trigger] cs[a].commit.files_changed[b].path == p by {
                if exists|b: int|
                    0 <= b < files@.len() && #[trigger] cs[i as int].commit.files_changed[b].path
                        == p {
                    let b = choose|b: int|
                        0 <= b < files@.len() && #[trigger] cs[i as int].commit.files_changed[b].path
                            == p;
                    assert(cs[i as int].commit.files_changed[b].path == p);
                }
            }
        }
        i += 1;
    }
    out
}

// ---------- stage 2: commit summaries ----------

/// Conventional-commit prefix (case-insensitive).
pub const CONVENTIONAL_PREFIX_PATTERN: &'static str = "(?i)^(feat|fix|refactor|chore|docs|test|perf|build|ci|style)\\b";

/// An issue or ticket reference: `#123` or `ABC-123`.
pub const TICKET_REF_PATTERN: &'static str = "#\\d+|[A-Z]{2,10}-\\d+";

/// A message is vague when, trimmed, it is shorter than 40 characters, lacks a
/// conventional-commit prefix, or names no issue or ticket.
pub open spec fn is_vague(message: Seq<char>) -> bool {
    let m = trim(message);
    ||| m.len() < 40
    ||| !regex_is_match(CONVENTIONAL_PREFIX_PATTERN@, m)
    ||| !regex_is_match(TICKET_REF_PATTERN@, m)
}

/// The vague-message trigger: any one of its conditions asks for the expanded
/// commit summary.
pub fn vague_trigger(message: &str) -> (r: bool)
    ensures
        r == is_vague(message@),
{
    let m = trim_str(message);
    if m.as_str().unicode_len() < 40 {
        return true;
    }
    if !regex_matches(CONVENTIONAL_PREFIX_PATTERN, m.as_str()) {
        return true;
    }
    if !regex_matches(TICKET_REF_PATTERN, m.as_str()) {
        return true;
    }
    false
}

/// Stage 1 output for one file.
#[derive(Debug)]
pub struct FileSummary {
    pub provides: String,
    pub externals: Vec<String>,
    pub purpose: String,
    pub functionalities: Vec<String>,
    pub notes: String,
}

/// Stage 2 output for one commit.
#[derive(Debug)]
pub struct CommitSummary {
    pub what_changed: String,
    pub why: String,
    pub takeaway: String,
    /// True if the vague trigger fired and extra evidence was requested.
    pub expanded: bool,
}

pub struct CommitSummaryView {
    pub what_changed: Seq<char>,
    pub why: Seq<char>,
    pub takeaway: Seq<char>,
    pub expanded: bool,
}

impl View for CommitSummary {
    type V = CommitSummaryView;

    open spec fn view(&self) -> CommitSummaryView {
        CommitSummaryView {
            what_changed: self.what_changed@,
            why: self.why@,
            takeaway: self.takeaway@,
            expanded: self.expanded,
        }
    }
}

pub struct FileSummaryView {
    pub provides: Seq<char>,
    pub externals: Seq<Seq<char>>,
    pub purpose: Seq<char>,
    pub functionalities: Seq<Seq<char>>,
    pub notes: Seq<char>,
}

impl View for FileSummary {
    type V = FileSummaryView;

    open spec fn view(&self) -> FileSummaryView {
        FileSummaryView {
            provides: self.provides@,
            externals: strs(self.externals@),
            purpose: self.purpose@,
            functionalities: strs(self.functionalities@),
            notes: self.notes@,
        }
    }
}

/// The file summaries by path, as characters.
pub open spec fn summary_views(v: Seq<(String, FileSummary)>) -> Seq<(Seq<char>, FileSummaryView)> {
    v.map_values(|e: (String, FileSummary)| (e.0@, e.1@))
}

/// System prompt of the commit-summary call.
pub const COMMIT_SUMMARY_SYSTEM_PROMPT: &'static str = "You summarise git commits for a new-hire onboarding tour. Return strict JSON.";

/// Token cap of the commit-summary call.
pub const COMMIT_SUMMARY_MAX_TOKENS: u32 = 768;

/// Closing line of an expanded commit prompt.
pub const TERSE_MESSAGE_NOTE: &'static str = "\nThe commit message is terse. Infer intent from the evidence above.\n";

/// `- path (+adds -dels)` line of one changed file.
pub open spec fn file_change_line(f: FileChangeView) -> Seq<char> {
    "- "@ + f.path + " (+"@ + dec(f.additions as nat) + " -"@ + dec(f.deletions as nat) + ")\n"@
}

/// The purpose line under a file, when its summary is known.
pub open spec fn purpose_line(s: Option<FileSummaryView>) -> Seq<char> {
    match s {
        Some(fs) => "    purpose: "@ + fs.purpose + "\n"@,
        None => Seq::empty(),
    }
}

/// One line per changed file, each followed by the file's purpose when a
/// summary for its path is known.
pub open spec fn file_change_lines(
    files: Seq<FileChangeView>,
    summaries: Seq<(Seq<char>, FileSummaryView)>,
) -> Seq<char>
    decreases files.len(),
{
    if files.len() == 0 {
        Seq::empty()
    } else {
        file_change_lines(files.drop_last(), summaries) + file_change_line(files.last())
            + purpose_line(find_key(summaries, files.last().path))
    }
}

/// The user prompt of the commit-summary call.
pub open spec fn commit_summary_prompt_of(
    c: CommitRecordView,
    summaries: Seq<(Seq<char>, FileSummaryView)>,
    expanded: bool,
) -> Seq<char> {
    "Commit: "@ + c.hash + "\nSubject: "@ + c.message_summary + "\nSubsystems: "@ + debug_list(
        c.subsystems,
    ) + "\n"@ + file_change_lines(c.files_changed, summaries) + if expanded {
        TERSE_MESSAGE_NOTE@
    } else {
        Seq::empty()
    }
}

/// Appends the line of changed file `f`, and its purpose line when its path has
/// a summary.
fn push_file_change_line(
    user: &mut String,
    f: &crate::mining_types::FileChange,
    file_summaries: &Vec<(String, FileSummary)>,
)
    ensures
        final(user)@ == old(user)@ + file_change_line(f@) + purpose_line(
            find_key(summary_views(file_summaries@), f.path@),
        ),
{
    let ghost sv = summary_views(file_summaries@);
    let ghost start = user@;
    push_str(user, "- ");
    push_str(user, f.path.as_str());
    push_str(user, " (+");
    let a = crate::text::u64_to_string(f.additions as u64);
    push_str(user, a.as_str());
    push_str(user, " -");
    let d = crate::text::u64_to_string(f.deletions as u64);
    push_str(user, d.as_str());
    push_str(user, ")\n");
    let found = find_entry(file_summaries, f.path.as_str());
    proof {
        let k: int = match found {
            Some(j) => j as int,
            None => -1,
        };
        assert forall|j: int| k < j < sv.len() implies #[trigger] sv[j].0 != f.path@ by {
            assert(sv[j].0 == file_summaries@[j].0@);
        }
        lemma_find_key_last(sv, f.path@, k);
        reveal_strlit("- ");
        reveal_strlit(" (+");
        reveal_strlit(" -");
        reveal_strlit(")\n");
    }
    assert(user@ =~= start + file_change_line(f@));
    match found {
        Some(j) => {
            push_str(user, "    purpose: ");
            push_str(user, file_summaries[j].1.purpose.as_str());
            push_str(user, "\n");
            proof {
                reveal_strlit("    purpose: ");
                reveal_strlit("\n");
            }
        },
        None => {},
    }
}

/// Builds the commit-summary prompt for candidate `c`, and says whether the
/// vague-message trigger asked for the expanded form.
pub fn commit_summary_prompt(c: &CandidateInput, file_summaries: &Vec<(String, FileSummary)>) -> (r: (
    String,
    bool,
))
    ensures
        r.1 == is_vague(c@.commit.message_summary),
        r.0@ == commit_summary_prompt_of(c@.commit, summary_views(file_summaries@), r.1),
{
    let expanded = vague_trigger(c.commit.message_summary.as_str());
    let ghost sv = summary_views(file_summaries@);
    let mut user = String::new();
    push_str(&mut user, "Commit: ");
    push_str(&mut user, c.commit.hash.as_str());
    push_str(&mut user, "\nSubject: ");
    push_str(&mut user, c.commit.message_summary.as_str());
    push_str(&mut user, "\nSubsystems: ");
    let subs = debug_string_list(&c.commit.subsystems);
    push_str(&mut user, subs.as_str());
    push_str(&mut user, "\n");
    let ghost head = user@;
    let files = &c.commit.files_changed;
    let mut i: usize = 0;
    while i < files.len()
        invariant
            i <= files@.len(),
            files@ == c.commit.files_changed@,
            sv == summary_views(file_summaries@),
            user@ == head + file_change_lines(c@.commit.files_changed.take(i as int), sv),
        decreases files.len() - i,
    {
        push_file_change_line(&mut user, &files[i], file_summaries);
        proof {
            let fv = c@.commit.files_changed;
            assert(fv.take(i + 1).drop_last() =~= fv.take(i as int));
            assert(fv.take(i + 1).last() == fv[i as int]);
        }
        assert(user@ =~= head + file_change_lines(c@.commit.files_changed.take(i + 1), sv));
        i += 1;
    }
    assert(c@.commit.files_changed.take(files@.len() as int) =~= c@.commit.files_changed);
    if expanded {
        push_str(&mut user, TERSE_MESSAGE_NOTE);
    }
    proof {
        reveal_strlit("Commit: ");
        reveal_strlit("\nSubject: ");
        reveal_strlit("\nSubsystems: ");
        reveal_strlit("\n");
    }
    assert(user@ =~= commit_summary_prompt_of(c@.commit, sv, expanded));
    (user, expanded)
}

pub const UNPARSEABLE_FILE_SUMMARY_MESSAGE: &'static str = "unparseable file summary";

pub const BAD_FILE_SUMMARY_PREFIX: &'static str = "bad file summary shape: ";

/// What one JSON source of a file-summary reply gives: the summary, or the
/// shape error with its detail.
pub open spec fn file_reply_read(
    r: Result<FileSummary, String>,
    read: Result<FileSummary, String>,
) -> bool {
    match read {
        Ok(f) => r is Ok && r->Ok_0@ == f@,
        Err(e) => r is Err && r->Err_0@ == BAD_FILE_SUMMARY_PREFIX@ + e@,
    }
}

/// A file summary from the reply: the structured output read as a summary
/// when the call returned one, else the reply text read so; each argument is
/// `None` when that source is not JSON, and holds the shape error's detail
/// when the JSON is not a summary. An error when neither source is JSON.
pub fn file_summary_from_reply(
    parsed: Option<Result<FileSummary, String>>,
    from_text: Option<Result<FileSummary, String>>,
) -> (r: Result<FileSummary, String>)
    ensures
        match parsed {
            Some(read) => file_reply_read(r, read),
            None => match from_text {
                Some(read) => file_reply_read(r, read),
                None => r is Err && r->Err_0@ == UNPARSEABLE_FILE_SUMMARY_MESSAGE@,
            },
        },
{
    let read = match parsed {
        Some(read) => read,
        None => match from_text {
            Some(read) => read,
            None => {
                return Err(UNPARSEABLE_FILE_SUMMARY_MESSAGE.to_string());
            },
        },
    };
    match read {
        Ok(f) => Ok(f),
        Err(e) => {
            let mut m = BAD_FILE_SUMMARY_PREFIX.to_string();
            push_str(&mut m, e.as_str());
            Err(m)
        },
    }
}

pub const UNPARSEABLE_SUMMARY_MESSAGE: &'static str = "unparseable commit summary";

/// A member of a reply as text: a missing member reads as empty.
pub open spec fn text_or_empty(o: Option<Seq<char>>) -> Seq<char> {
    match o {
        Some(s) => s,
        None => Seq::empty(),
    }
}

/// The `what_changed`, `why` and `takeaway` members of a commit-summary reply:
/// those of the structured output when the call returned one (`parsed`), else
/// those of the reply text read as JSON; `None` when neither is JSON. A member
/// is `None` when it is missing or not a string.
pub open spec fn summary_reply_fields(
    parsed: Option<(Option<String>, Option<String>, Option<String>)>,
    text: Seq<char>,
) -> Option<(Option<Seq<char>>, Option<Seq<char>>, Option<Seq<char>>)> {
    match parsed {
        Some((w, y, t)) => Some((opt_view(w), opt_view(y), opt_view(t))),
        None => match (
            json_str_member_of(text, "what_changed"@),
            json_str_member_of(text, "why"@),
            json_str_member_of(text, "takeaway"@),
        ) {
            (Some(w), Some(y), Some(t)) => Some((w, y, t)),
            _ => None,
        },
    }
}

/// Member text of a reply: the string, or empty when it is missing.
pub fn text_of(o: Option<String>) -> (r: String)
    ensures
        r@ == text_or_empty(opt_view(o)),
{
    match o {
        Some(s) => s,
        None => String::new(),
    }
}

/// A commit summary from the reply: its three text members (a missing one
/// reads as empty), taken from the structured output `parsed` when the call
/// returned one, else from the reply `text` read as JSON; an error when neither
/// is JSON.
pub fn commit_summary_from_reply(
    parsed: Option<(Option<String>, Option<String>, Option<String>)>,
    text: &str,
    expanded: bool,
) -> (r: Result<CommitSummary, String>)
    ensures
        match summary_reply_fields(parsed, text@) {
            None => r is Err && r->Err_0@ == UNPARSEABLE_SUMMARY_MESSAGE@,
            Some((w, y, t)) => r is Ok && r->Ok_0.what_changed@ == text_or_empty(w)
                && r->Ok_0.why@ == text_or_empty(y) && r->Ok_0.takeaway@ == text_or_empty(t)
                && r->Ok_0.expanded == expanded,
        },
{
    let fields = match parsed {
        Some(p) => Some(p),
        None => {
            let w = json_str_member(text, "what_changed");
            let y = json_str_member(text, "why");
            let t = json_str_member(text, "takeaway");
            match (w, y, t) {
                (Some(w), Some(y), Some(t)) => Some((w, y, t)),
                _ => None,
            }
        },
    };
    match fields {
        None => Err(UNPARSEABLE_SUMMARY_MESSAGE.to_string()),
        Some((w, y, t)) => Ok(
            CommitSummary { what_changed: text_of(w), why: text_of(y), takeaway: text_of(t), expanded },
        ),
    }
}

// ---------- stage 3: project summary ----------

/// System prompt of each per-subsystem call.
pub const SUBSYSTEM_SUMMARY_SYSTEM_PROMPT: &'static str = "You summarise code subsystems. Return plain prose, not JSON.";

/// Token cap of each per-subsystem call.
pub const SUBSYSTEM_SUMMARY_MAX_TOKENS: u32 = 400;

/// System prompt of the whole-project call.
pub const PROJECT_SUMMARY_SYSTEM_PROMPT: &'static str = "You write crisp architecture overviews for onboarding. Plain prose.";

/// Token cap of the whole-project call.
pub const PROJECT_SUMMARY_MAX_TOKENS: u32 = 600;

/// At most this many file summaries go into one subsystem prompt.
pub const SUBSYSTEM_FILE_CAP: usize = 40;

/// Cache key of the project summary: the content hashes of the repository path
/// and of the prompt version, joined by `-`.
pub fn project_summary_key(repo_path: &str, prompt_version: &str) -> (r: String)
    ensures
        r@ == hex_fixed(default_hash_of(vstd::utf8::encode_utf8(repo_path@)) as nat, 16) + "-"@
            + hex_fixed(default_hash_of(vstd::utf8::encode_utf8(prompt_version@)) as nat, 16),
{
    let mut r = hash_bytes(repo_path.as_bytes());
    push_str(&mut r, "-");
    let v = hash_bytes(prompt_version.as_bytes());
    push_str(&mut r, v.as_str());
    r
}

/// The part of a path before its first `/` (all of it when there is none).
pub open spec fn top_segment(p: Seq<char>) -> Seq<char>
    decreases p.len(),
{
    if p.len() == 0 || p[0] == '/' {
        Seq::empty()
    } else {
        seq![p[0]] + top_segment(p.drop_first())
    }
}

proof fn lemma_top_segment_prefix(p: Seq<char>, k: int)
    requires
        0 <= k <= p.len(),
        forall|j: int| 0 <= j < k ==> p[j] != '/',
        k == p.len() || p[k] == '/',
    ensures
        top_segment(p) == p.subrange(0, k),
    decreases k,
{
    if k > 0 {
        lemma_top_segment_prefix(p.drop_first(), k - 1);
        assert(seq![p[0]] + p.drop_first().subrange(0, k - 1) =~= p.subrange(0, k));
    }
}

/// The top path segment of `path`.
pub fn top_path_segment(path: &str) -> (r: String)
    ensures
        r@ == top_segment(path@),
{
    let v = crate::text::chars_of(path);
    let mut k: usize = 0;
    while k < v.len() && v[k] != '/'
        invariant
            k <= v@.len(),
            v@ == path@,
            forall|j: int| 0 <= j < k ==> v@[j] != '/',
        decreases v.len() - k,
    {
        k += 1;
    }
    proof {
        lemma_top_segment_prefix(v@, k as int);
    }
    crate::text::string_from_range(&v, 0, k)
}

/// The subsystems of the project summary: the top path segments of the
/// summarised files, each once, in order of first appearance.
pub open spec fn subsystem_tops(fs: Seq<(Seq<char>, FileSummaryView)>) -> Seq<Seq<char>> {
    append_new(
        Seq::empty(),
        fs.map_values(|e: (Seq<char>, FileSummaryView)| top_segment(e.0)),
    )
}

/// The summaries of the files under `top`, in order.
pub open spec fn members_of(fs: Seq<(Seq<char>, FileSummaryView)>, top: Seq<char>) -> Seq<
    FileSummaryView,
>
    decreases fs.len(),
{
    if fs.len() == 0 {
        Seq::empty()
    } else if top_segment(fs.last().0) == top {
        members_of(fs.drop_last(), top).push(fs.last().1)
    } else {
        members_of(fs.drop_last(), top)
    }
}

/// At most the first `n` elements of `s`.
pub open spec fn first_n<T>(s: Seq<T>, n: nat) -> Seq<T> {
    if s.len() <= n {
        s
    } else {
        s.take(n as int)
    }
}

/// The purpose and provides lines of each summary.
pub open spec fn member_lines(ms: Seq<FileSummaryView>) -> Seq<char>
    decreases ms.len(),
{
    if ms.len() == 0 {
        Seq::empty()
    } else {
        member_lines(ms.drop_last()) + "- purpose: "@ + ms.last().purpose + "\n  provides: "@
            + ms.last().provides + "\n"@
    }
}

/// Closing request of a subsystem prompt.
pub const SUBSYSTEM_PROMPT_REQUEST: &'static str = "\nIn 2-3 sentences, describe what this subsystem does and its role in the project.";

/// The user prompt of the call that summarises subsystem `top`.
pub open spec fn subsystem_prompt_of(top: Seq<char>, members: Seq<FileSummaryView>) -> Seq<char> {
    "Subsystem: "@ + top + "\nFiles:\n"@ + member_lines(first_n(members, SUBSYSTEM_FILE_CAP as nat))
        + SUBSYSTEM_PROMPT_REQUEST@
}

fn subsystem_prompt(top: &String, file_summaries: &Vec<(String, FileSummary)>) -> (r: String)
    ensures
        r@ == subsystem_prompt_of(top@, members_of(summary_views(file_summaries@), top@)),
{
    let ghost sv = summary_views(file_summaries@);
    let mut r = String::new();
    push_str(&mut r, "Subsystem: ");
    push_str(&mut r, top.as_str());
    push_str(&mut r, "\nFiles:\n");
    let ghost head = r@;
    let mut count: usize = 0;
    let mut j: usize = 0;
    while j < file_summaries.len()
        invariant
            j <= file_summaries@.len(),
            sv == summary_views(file_summaries@),
            count as nat == first_n(members_of(sv.take(j as int), top@), SUBSYSTEM_FILE_CAP as nat).len(),
            count <= SUBSYSTEM_FILE_CAP,
            r@ == head + member_lines(
                first_n(members_of(sv.take(j as int), top@), SUBSYSTEM_FILE_CAP as nat),
            ),
        decreases file_summaries.len() - j,
    {
        let seg = top_path_segment(file_summaries[j].0.as_str());
        let ghost before = members_of(sv.take(j as int), top@);
        proof {
            assert(sv.take(j + 1).drop_last() =~= sv.take(j as int));
            assert(sv.take(j + 1).last() == sv[j as int]);
            assert(sv[j as int].0 == file_summaries@[j as int].0@);
        }
        if crate::text::str_eq(seg.as_str(), top.as_str()) {
            let ghost after = before.push(sv[j as int].1);
            assert(members_of(sv.take(j + 1), top@) == after);
            if count < SUBSYSTEM_FILE_CAP {
                let e = &file_summaries[j].1;
                push_str(&mut r, "- purpose: ");
                push_str(&mut r, e.purpose.as_str());
                push_str(&mut r, "\n  provides: ");
                push_str(&mut r, e.provides.as_str());
                push_str(&mut r, "\n");
                proof {
                    assert(first_n(before, SUBSYSTEM_FILE_CAP as nat) == before);
                    assert(first_n(after, SUBSYSTEM_FILE_CAP as nat) == after);
                    assert(after.drop_last() =~= before);
                    reveal_strlit("- purpose: ");
                    reveal_strlit("\n  provides: ");
                    reveal_strlit("\n");
                }
                count += 1;
            } else {
                assert(first_n(after, SUBSYSTEM_FILE_CAP as nat) =~= first_n(
                    before,
                    SUBSYSTEM_FILE_CAP as nat,
                ));
            }
        } else {
            assert(members_of(sv.take(j + 1), top@) == before);
        }
        j += 1;
    }
    assert(sv.take(file_summaries@.len() as int) =~= sv);
    push_str(&mut r, SUBSYSTEM_PROMPT_REQUEST);
    proof {
        reveal_strlit("Subsystem: ");
        reveal_strlit("\nFiles:\n");
    }
    r
}

/// For each subsystem of the summarised files (see `subsystem_tops`), its name
/// and the prompt that asks for its summary.
pub fn subsystem_prompts(file_summaries: &Vec<(String, FileSummary)>) -> (r: Vec<(String, String)>)
    ensures
        r@.len() == subsystem_tops(summary_views(file_summaries@)).len(),
        forall|i: int|
            0 <= i < r@.len() ==> {
                let top = subsystem_tops(summary_views(file_summaries@))[i];
                &&& (#[trigger] r@[i]).0@ == top
                &&& r@[i].1@ == subsystem_prompt_of(
                    top,
                    members_of(summary_views(file_summaries@), top),
                )
            },
{
    let ghost sv = summary_views(file_summaries@);
    let mut segs: Vec<String> = Vec::new();
    let mut j: usize = 0;
    while j < file_summaries.len()
        invariant
            j <= file_summaries@.len(),
            sv == summary_views(file_summaries@),
            strs(segs@) == sv.take(j as int).map_values(
                |e: (Seq<char>, FileSummaryView)| top_segment(e.0),
            ),
        decreases file_summaries.len() - j,
    {
        let seg = top_path_segment(file_summaries[j].0.as_str());
        let ghost old_segs = segs@;
        segs.push(seg);
        proof {
            let f = |e: (Seq<char>, FileSummaryView)| top_segment(e.0);
            assert(sv[j as int].0 == file_summaries@[j as int].0@);
            assert(strs(segs@) =~= strs(old_segs).push(top_segment(sv[j as int].0)));
            assert(sv.take(j + 1) =~= sv.take(j as int).push(sv[j as int]));
            assert(sv.take(j as int).push(sv[j as int]).map_values(f) =~= sv.take(
                j as int,
            ).map_values(f).push(top_segment(sv[j as int].0)));
            assert(strs(segs@) =~= sv.take(j + 1).map_values(
                |e: (Seq<char>, FileSummaryView)| top_segment(e.0),
            ));
        }
        j += 1;
    }
    assert(sv.take(file_summaries@.len() as int) =~= sv);
    let mut tops: Vec<String> = Vec::new();
    assert(strs(tops@) =~= Seq::<Seq<char>>::empty());
    extend_unique(&mut tops, &segs);
    assert(strs(tops@) == subsystem_tops(sv));
    let mut out: Vec<(String, String)> = Vec::new();
    let mut i: usize = 0;
    while i < tops.len()
        invariant
            i <= tops@.len(),
            sv == summary_views(file_summaries@),
            strs(tops@) == subsystem_tops(sv),
            out@.len() == i,
            forall|k: int|
                0 <= k < i ==> {
                    let top = subsystem_tops(sv)[k];
                    &&& (#[trigger] out@[k]).0@ == top
                    &&& out@[k].1@ == subsystem_prompt_of(top, members_of(sv, top))
                },
        decreases tops.len() - i,
    {
        let prompt = subsystem_prompt(&tops[i], file_summaries);
        assert(strs(tops@)[i as int] == tops@[i as int]@);
        out.push((tops[i].clone(), prompt));
        i += 1;
    }
    out
}

/// Closing request of the whole-project prompt.
pub const PROJECT_PROMPT_REQUEST: &'static str = "\nWrite a single short paragraph describing the project as a whole, its architectural shape, and what a new hire should know first.";

/// One `## name` section per subsystem summary, each summary trimmed.
pub open spec fn subsystem_sections(entries: Seq<(Seq<char>, Seq<char>)>) -> Seq<char>
    decreases entries.len(),
{
    if entries.len() == 0 {
        Seq::empty()
    } else {
        subsystem_sections(entries.drop_last()) + "\n## "@ + entries.last().0 + "\n"@ + trim(
            entries.last().1,
        ) + "\n"@
    }
}

/// The user prompt of the whole-project call.
pub open spec fn project_prompt_of(subsystem_count: nat, entries: Seq<(Seq<char>, Seq<char>)>) -> Seq<
    char,
> {
    "Project subsystems ("@ + dec(subsystem_count) + "):\n"@ + subsystem_sections(entries)
        + PROJECT_PROMPT_REQUEST@
}

/// Builds the whole-project prompt from the subsystem replies (name, reply
/// text); `subsystem_count` is the number of configured subsystems.
pub fn project_prompt(subsystem_count: usize, replies: &Vec<(String, String)>) -> (r: String)
    ensures
        r@ == project_prompt_of(
            subsystem_count as nat,
            replies@.map_values(|e: (String, String)| (e.0@, e.1@)),
        ),
{
    let ghost ev = replies@.map_values(|e: (String, String)| (e.0@, e.1@));
    let mut r = String::new();
    push_str(&mut r, "Project subsystems (");
    let n = crate::text::u64_to_string(subsystem_count as u64);
    push_str(&mut r, n.as_str());
    push_str(&mut r, "):\n");
    let ghost head = r@;
    let mut i: usize = 0;
    while i < replies.len()
        invariant
            i <= replies@.len(),
            ev == replies@.map_values(|e: (String, String)| (e.0@, e.1@)),
            r@ == head + subsystem_sections(ev.take(i as int)),
        decreases replies.len() - i,
    {
        push_str(&mut r, "\n## ");
        push_str(&mut r, replies[i].0.as_str());
        push_str(&mut r, "\n");
        let t = trim_str(replies[i].1.as_str());
        push_str(&mut r, t.as_str());
        push_str(&mut r, "\n");
        proof {
            assert(ev.take(i + 1).drop_last() =~= ev.take(i as int));
            assert(ev.take(i + 1).last() == ev[i as int]);
            reveal_strlit("\n## ");
            reveal_strlit("\n");
        }
        i += 1;
    }
    assert(ev.take(replies@.len() as int) =~= ev);
    push_str(&mut r, PROJECT_PROMPT_REQUEST);
    proof {
        reveal_strlit("Project subsystems (");
        reveal_strlit("):\n");
    }
    r
}

} // verus!
