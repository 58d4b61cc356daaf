//! Linked-document references: recognising GitHub and Jira references,
//! their cache file names, request URLs and the text kept from a response.
use vstd::prelude::*;

use crate::patterns::{
    json_nested_members, json_nested_members_of, json_str_member, json_str_member_of, opt_view,
};
use crate::stages::{text_of, text_or_empty};
use crate::tour::TourConfig;
use crate::text::{
    chars_of, copy_str, is_digit, is_upper, join_path, path_join, push_str, string_from_range,
    take_chars, take_chars_str,
};

verus! {

broadcast use vstd::string::group_string_axioms;

/// Characters of a linked issue body or description that are kept.
pub const DOC_BODY_CHAR_CAP: usize = 3000;

/// The file-name spelling of one character of a reference.
pub open spec fn encode_char(c: char) -> Seq<char> {
    if c == '#' {
        "hash_"@
    } else if c == '/' {
        "_sl_"@
    } else if c == ':' {
        "_co_"@
    } else if c == ' ' {
        "_"@
    } else {
        seq![c]
    }
}

/// A reference spelled as a safe file-name component: `#` → `hash_`,
/// `/` → `_sl_`, `:` → `_co_`, space → `_`, other characters unchanged.
pub open spec fn encode_ref(s: Seq<char>) -> Seq<char>
    decreases s.len(),
{
    if s.len() == 0 {
        Seq::empty()
    } else {
        encode_ref(s.drop_last()) + encode_char(s.last())
    }
}

/// Encode a reference string to a safe filename component.
pub fn encode_ref_for_filename(ref_str: &str) -> (r: String)
    ensures
        r@ == encode_ref(ref_str@),
{
    let v = chars_of(ref_str);
    let mut r = String::new();
    let mut i: usize = 0;
    while i < v.len()
        invariant
            i <= v.len(),
            v@ == ref_str@,
            r@ == encode_ref(v@.take(i as int)),
        decreases v.len() - i,
    {
        assert(v@.take(i + 1).drop_last() =~= v@.take(i as int));
        assert(v@.take(i + 1).last() == v@[i as int]);
        let c = v[i];
        if c == '#' {
            push_str(&mut r, "hash_");
        } else if c == '/' {
            push_str(&mut r, "_sl_");
        } else if c == ':' {
            push_str(&mut r, "_co_");
        } else if c == ' ' {
            push_str(&mut r, "_");
        } else {
            r.push(c);
            assert(seq![c] =~= encode_char(c));
        }
        i += 1;
    }
    assert(v@.take(v@.len() as int) =~= v@);
    r
}

/// Cache file of a linked document under `cache_root`:
/// `<cache_root>/linked_docs/<encoded ref>.json`.
pub open spec fn linked_doc_path(cache_root: Seq<char>, ref_str: Seq<char>) -> Seq<char> {
    path_join(path_join(cache_root, "linked_docs"@), encode_ref(ref_str) + ".json"@)
}

pub fn linked_doc_cache_path(cache_root: &str, ref_str: &str) -> (r: String)
    ensures
        r@ == linked_doc_path(cache_root@, ref_str@),
{
    let dir = join_path(cache_root, "linked_docs");
    let mut name = encode_ref_for_filename(ref_str);
    push_str(&mut name, ".json");
    join_path(dir.as_str(), name.as_str())
}

/// `#` followed by one or more ASCII digits.
pub open spec fn github_ref(s: Seq<char>) -> bool {
    s.len() > 1 && s[0] == '#' && forall|k: int| 1 <= k < s.len() ==> is_digit(#[trigger] s[k])
}

/// Index of the first `-`, if any.
pub open spec fn first_dash(s: Seq<char>) -> Option<int> {
    if exists|k: int| 0 <= k < s.len() && s[k] == '-' {
        Some(
            choose|k: int|
                0 <= k < s.len() && s[k] == '-' && forall|j: int| 0 <= j < k ==> s[j] != '-',
        )
    } else {
        None
    }
}

/// A Jira issue key: 2 to 10 ASCII uppercase letters, the first `-`, then one
/// or more ASCII digits.
pub open spec fn jira_ref(s: Seq<char>) -> bool {
    match first_dash(s) {
        Some(d) => {
            &&& 2 <= d <= 10
            &&& forall|k: int| 0 <= k < d ==> is_upper(#[trigger] s[k])
            &&& d + 1 < s.len()
            &&& forall|k: int| d + 1 <= k < s.len() ==> is_digit(#[trigger] s[k])
        },
        None => false,
    }
}

/// Returns `true` if `ref_str` looks like a GitHub issue/PR reference (`#<digits>`).
pub fn is_github_ref(ref_str: &str) -> (r: bool)
    ensures
        r == github_ref(ref_str@),
{
    let v = chars_of(ref_str);
    if v.len() <= 1 || v[0] != '#' {
        return false;
    }
    let mut i: usize = 1;
    while i < v.len()
        invariant
            1 <= i <= v.len(),
            v@ == ref_str@,
            forall|k: int| 1 <= k < i ==> is_digit(#[trigger] v@[k]),
        decreases v.len() - i,
    {
        if !('0' <= v[i] && v[i] <= '9') {
            return false;
        }
        i += 1;
    }
    true
}

/// Returns `true` if `ref_str` looks like a Jira issue key (`[A-Z]{2,10}-\d+`).
pub fn is_jira_ref(ref_str: &str) -> (r: bool)
    ensures
        r == jira_ref(ref_str@),
{
    let v = chars_of(ref_str);
    let mut d: usize = 0;
    while d < v.len() && v[d] != '-'
        invariant
            d <= v.len(),
            v@ == ref_str@,
            forall|j: int| 0 <= j < d ==> v@[j] != '-',
        decreases v.len() - d,
    {
        d += 1;
    }
    if d == v.len() {
        assert(first_dash(v@) is None);
        return false;
    }
    assert(first_dash(v@) == Some(d as int)) by {
        let c = choose|k: int|
            0 <= k < v@.len() && v@[k] == '-' && forall|j: int| 0 <= j < k ==> v@[j] != '-';
        if c < d {
            assert(v@[c] != '-');
        }
        if c > d {
            assert(v@[d as int] != '-');
        }
    }
    if d < 2 || d > 10 {
        return false;
    }
    let mut i: usize = 0;
    while i < d
        invariant
            i <= d < v.len(),
            v@ == ref_str@,
            first_dash(v@) == Some(d as int),
            forall|k: int| 0 <= k < i ==> is_upper(#[trigger] v@[k]),
        decreases d - i,
    {
        if !('A' <= v[i] && v[i] <= 'Z') {
            return false;
        }
        i += 1;
    }
    if d + 1 >= v.len() {
        return false;
    }
    let mut j: usize = d + 1;
    while j < v.len()
        invariant
            d + 1 <= j <= v.len(),
            2 <= d <= 10,
            v@ == ref_str@,
            first_dash(v@) == Some(d as int),
            forall|k: int| 0 <= k < d ==> is_upper(#[trigger] v@[k]),
            forall|k: int| d + 1 <= k < j ==> is_digit(#[trigger] v@[k]),
        decreases v.len() - j,
    {
        if !('0' <= v[j] && v[j] <= '9') {
            return false;
        }
        j += 1;
    }
    true
}

/// Where a linked reference is fetched from.
#[derive(Debug, PartialEq, Eq)]
pub enum LinkedRef {
    /// A GitHub issue/PR, by number (the digits after `#`).
    GitHub(String),
    /// A Jira issue, by key.
    Jira(String),
    /// Neither format: nothing is fetched.
    Unrecognised,
}

/// How `fetch_linked_document` dispatches a reference: GitHub first, then Jira.
pub fn classify_ref(ref_str: &str) -> (r: LinkedRef)
    ensures
        github_ref(ref_str@) ==> (r matches LinkedRef::GitHub(n) && n@ == ref_str@.drop_first()),
        !github_ref(ref_str@) && jira_ref(ref_str@) ==> (r matches LinkedRef::Jira(k) && k@
            == ref_str@),
        !github_ref(ref_str@) && !jira_ref(ref_str@) ==> r == LinkedRef::Unrecognised,
{
    if is_github_ref(ref_str) {
        let v = chars_of(ref_str);
        let n = string_from_range(&v, 1, v.len());
        assert(v@.subrange(1, v@.len() as int) =~= ref_str@.drop_first());
        LinkedRef::GitHub(n)
    } else if is_jira_ref(ref_str) {
        LinkedRef::Jira(copy_str(ref_str))
    } else {
        LinkedRef::Unrecognised
    }
}

/// `https://api.github.com/repos/<slug>/issues/<number>`.
pub open spec fn github_issue_url_spec(repo_slug: Seq<char>, number: Seq<char>) -> Seq<char> {
    "https://api.github.com/repos/"@ + repo_slug + "/issues/"@ + number
}

pub fn github_issue_url(repo_slug: &str, number: &str) -> (r: String)
    ensures
        r@ == github_issue_url_spec(repo_slug@, number@),
{
    let mut r = copy_str("https://api.github.com/repos/");
    push_str(&mut r, repo_slug);
    push_str(&mut r, "/issues/");
    push_str(&mut r, number);
    r
}

/// `s` without its trailing `/` characters (what `trim_end_matches('/')` gives).
pub open spec fn trim_trailing_slashes(s: Seq<char>) -> Seq<char>
    decreases s.len(),
{
    if s.len() > 0 && s.last() == '/' {
        trim_trailing_slashes(s.drop_last())
    } else {
        s
    }
}

/// `<base without trailing slashes>/rest/api/3/issue/<key>`.
pub open spec fn jira_issue_url_spec(base: Seq<char>, key: Seq<char>) -> Seq<char> {
    trim_trailing_slashes(base) + "/rest/api/3/issue/"@ + key
}

pub fn jira_issue_url(base: &str, key: &str) -> (r: String)
    ensures
        r@ == jira_issue_url_spec(base@, key@),
{
    let v = chars_of(base);
    let mut j = v.len();
    assert(v@.subrange(0, v@.len() as int) =~= v@);
    while j > 0 && v[j - 1] == '/'
        invariant
            j <= v.len(),
            v@ == base@,
            trim_trailing_slashes(base@) == trim_trailing_slashes(v@.subrange(0, j as int)),
        decreases j,
    {
        assert(v@.subrange(0, j as int).drop_last() =~= v@.subrange(0, j - 1));
        j -= 1;
    }
    let mut r = string_from_range(&v, 0, j);
    push_str(&mut r, "/rest/api/3/issue/");
    push_str(&mut r, key);
    r
}

/// `[GitHub #<number>] <title>\n\n<first 3000 characters of the body>`.
pub open spec fn github_doc_spec(number: Seq<char>, title: Seq<char>, body: Seq<char>) -> Seq<char> {
    "[GitHub #"@ + number + "] "@ + title + "\n\n"@ + take_chars(body, DOC_BODY_CHAR_CAP as nat)
}

/// The text kept from a GitHub issue: title and at most 3000 body characters.
pub fn github_doc_text(number: &str, title: &str, body: &str) -> (r: String)
    ensures
        r@ == github_doc_spec(number@, title@, body@),
{
    let mut r = copy_str("[GitHub #");
    push_str(&mut r, number);
    push_str(&mut r, "] ");
    push_str(&mut r, title);
    push_str(&mut r, "\n\n");
    let b = take_chars_str(body, DOC_BODY_CHAR_CAP);
    push_str(&mut r, b.as_str());
    r
}

/// `[Jira <key>] <summary>\n\n<first 3000 characters of the description>`.
pub open spec fn jira_doc_spec(key: Seq<char>, summary: Seq<char>, description: Seq<char>) -> Seq<
    char,
> {
    "[Jira "@ + key + "] "@ + summary + "\n\n"@ + take_chars(description, DOC_BODY_CHAR_CAP as nat)
}

/// The text kept from a Jira issue: summary and at most 3000 description characters.
pub fn jira_doc_text(key: &str, summary: &str, description: &str) -> (r: String)
    ensures
        r@ == jira_doc_spec(key@, summary@, description@),
{
    let mut r = copy_str("[Jira ");
    push_str(&mut r, key);
    push_str(&mut r, "] ");
    push_str(&mut r, summary);
    push_str(&mut r, "\n\n");
    let d = take_chars_str(description, DOC_BODY_CHAR_CAP);
    push_str(&mut r, d.as_str());
    r
}

/// The text kept from a GitHub issue reply `body`: `None` when it is not JSON;
/// otherwise from its `title` and `body` members (a member that is missing or
/// not a string reads as empty).
pub fn github_doc_from_reply(number: &str, body: &str) -> (r: Option<String>)
    ensures
        match (json_str_member_of(body@, "title"@), json_str_member_of(body@, "body"@)) {
            (Some(t), Some(b)) => r is Some && r->0@ == github_doc_spec(
                number@,
                text_or_empty(t),
                text_or_empty(b),
            ),
            _ => r is None,
        },
{
    let t = json_str_member(body, "title");
    let b = json_str_member(body, "body");
    match (t, b) {
        (Some(t), Some(b)) => {
            let title = text_of(t);
            let text = text_of(b);
            Some(github_doc_text(number, title.as_str(), text.as_str()))
        },
        _ => None,
    }
}

/// The text kept from a Jira issue reply `body`: `None` when it is not JSON or
/// has no `fields` member; otherwise from the `summary` (empty unless a
/// string) and the `description` (its text, or its JSON spelling when it is not
/// a string; empty when missing) of `fields`.
pub fn jira_doc_from_reply(key: &str, body: &str) -> (r: Option<String>)
    ensures
        match json_nested_members_of(body@, "fields"@, "summary"@, "description"@) {
            Some(Some((s, d))) => r is Some && r->0@ == jira_doc_spec(
                key@,
                text_or_empty(s),
                text_or_empty(d),
            ),
            _ => r is None,
        },
{
    match json_nested_members(body, "fields", "summary", "description") {
        Some(Some((s, d))) => {
            let summary = text_of(s);
            let description = text_of(d);
            Some(jira_doc_text(key, summary.as_str(), description.as_str()))
        },
        _ => None,
    }
}

// ---------- cache location ----------

/// Directory name of this application under the cache root.
pub const APP_CACHE_DIR_NAME: &'static str = "onboarding-ghost";

/// The platform cache directory on Linux and other Unixes: `$XDG_CACHE_HOME`,
/// else `$HOME/.cache`.
pub fn unix_cache_dir(xdg_cache_home: Option<String>, home: Option<String>) -> (r: Option<String>)
    ensures
        match xdg_cache_home {
            Some(x) => r matches Some(d) && d@ == x@,
            None => match home {
                Some(h) => r matches Some(d) && d@ == path_join(h@, ".cache"@),
                None => r is None,
            },
        },
{
    match xdg_cache_home {
        Some(x) => Some(x),
        None => match home {
            Some(h) => Some(join_path(h.as_str(), ".cache")),
            None => None,
        },
    }
}

/// The application's cache root: `onboarding-ghost` under the override
/// directory (`GITLENS_CACHE_ROOT`) if set, else under the platform cache
/// directory, else under the temporary directory.
pub fn app_cache_root(override_root: Option<String>, platform_cache: Option<String>, temp_dir: &str) -> (r: String)
    ensures
        r@ == path_join(
            match override_root {
                Some(o) => o@,
                None => match platform_cache {
                    Some(p) => p@,
                    None => temp_dir@,
                },
            },
            APP_CACHE_DIR_NAME@,
        ),
{
    let base = match override_root {
        Some(o) => o,
        None => match platform_cache {
            Some(p) => p,
            None => copy_str(temp_dir),
        },
    };
    join_path(base.as_str(), APP_CACHE_DIR_NAME)
}

// ---------- requests ----------

/// Request timeout of a document fetch, in seconds.
pub const FETCH_TIMEOUT_SECS: u64 = 8;

/// `User-Agent` of GitHub requests.
pub const GITHUB_USER_AGENT: &'static str = "onboarding-ghost/0.1";

/// `Accept` of GitHub requests.
pub const GITHUB_ACCEPT: &'static str = "application/vnd.github+json";

/// `X-GitHub-Api-Version` of GitHub requests.
pub const GITHUB_API_VERSION: &'static str = "2022-11-28";

/// `Accept` of Jira requests.
pub const JIRA_ACCEPT: &'static str = "application/json";

/// Where a document request goes.
#[derive(Debug, Clone, Copy, PartialEq, Eq, Structural)]
pub enum DocSource {
    GitHub,
    Jira,
}

/// A document request to send: its source, the issue number or key, the URL
/// and the `Authorization` header.
#[derive(Debug)]
pub struct DocRequest {
    pub source: DocSource,
    pub id: String,
    pub url: String,
    pub authorization: String,
}

/// The request for `ref_str`, if one is made: a GitHub reference needs a token
/// and a repository slug, a Jira key needs a token and a base URL; any other
/// reference is skipped.
pub fn plan_doc_request(ref_str: &str, cfg: &TourConfig) -> (r: Option<DocRequest>)
    ensures
        github_ref(ref_str@) ==> match (cfg.github_token, cfg.repo_slug) {
            (Some(t), Some(slug)) => r matches Some(q) && q.source == DocSource::GitHub && q.id@
                == ref_str@.drop_first() && q.url@ == github_issue_url_spec(
                slug@,
                ref_str@.drop_first(),
            ) && q.authorization@ == "token "@ + t@,
            _ => r is None,
        },
        !github_ref(ref_str@) && jira_ref(ref_str@) ==> match (cfg.jira_token, cfg.jira_base_url) {
            (Some(t), Some(base)) => r matches Some(q) && q.source == DocSource::Jira && q.id@
                == ref_str@ && q.url@ == jira_issue_url_spec(base@, ref_str@) && q.authorization@
                == "Bearer "@ + t@,
            _ => r is None,
        },
        !github_ref(ref_str@) && !jira_ref(ref_str@) ==> r is None,
{
    match classify_ref(ref_str) {
        LinkedRef::GitHub(number) => {
            match (&cfg.github_token, &cfg.repo_slug) {
                (Some(t), Some(slug)) => {
                    let url = github_issue_url(slug.as_str(), number.as_str());
                    let mut auth = copy_str("token ");
                    push_str(&mut auth, t.as_str());
                    Some(DocRequest { source: DocSource::GitHub, id: number, url, authorization: auth })
                },
                _ => None,
            }
        },
        LinkedRef::Jira(key) => {
            match (&cfg.jira_token, &cfg.jira_base_url) {
                (Some(t), Some(base)) => {
                    let url = jira_issue_url(base.as_str(), key.as_str());
                    let mut auth = copy_str("Bearer ");
                    push_str(&mut auth, t.as_str());
                    Some(DocRequest { source: DocSource::Jira, id: key, url, authorization: auth })
                },
                _ => None,
            }
        },
        LinkedRef::Unrecognised => None,
    }
}

} // verus!
