//! Calls into the `regex` and `serde_json` crates and into std text routines
//! whose results are too large to state here, each behind a trusted wrapper whose result is named.
use vstd::prelude::*;

verus! {

/// Whether the regular expression `pattern` matches somewhere in `haystack`
/// (`regex::Regex::new(pattern)` then `Regex::is_match(haystack)`).
pub uninterp spec fn regex_is_match(pattern: Seq<char>, haystack: Seq<char>) -> bool;

/// The text captured by group `group` in the leftmost-first match of `pattern`
/// in `haystack` (`Regex::captures(haystack)` then `Captures::get(group)`);
/// `None` when there is no match or the group took no part in it.
pub uninterp spec fn regex_capture(pattern: Seq<char>, haystack: Seq<char>, group: nat) -> Option<
    Seq<char>,
>;

/// For each successive non-overlapping match of `pattern` in `haystack`
/// (`Regex::captures_iter(haystack)`), the text of capture groups 1 and 2,
/// each `None` when that group took no part in the match.
pub uninterp spec fn regex_capture_pairs(pattern: Seq<char>, haystack: Seq<char>) -> Seq<
    (Option<Seq<char>>, Option<Seq<char>>),
>;

/// `str::to_uppercase`: the Unicode uppercase mapping of every character.
pub uninterp spec fn upper(s: Seq<char>) -> Seq<char>;

/// The `Debug` rendering of a string (`format!("{:?}", s)`): quoted, with
/// escapes.
pub uninterp spec fn debug_str(s: Seq<char>) -> Seq<char>;

/// Calls `regex::Regex::new` and `Regex::is_match`. Claims only that the result
/// is the name `regex_is_match` of the pattern and the haystack: the same
/// strings always give the same answer. What the answer is (the regex
/// semantics) is not stated; a pattern that fails to compile yields `false`.
#[verifier::external_body]
pub fn regex_matches(pattern: &str, haystack: &str) -> (r: bool)
    ensures
        r == regex_is_match(pattern@, haystack@),
{
    match regex::Regex::new(pattern) {
        Ok(re) => re.is_match(haystack),
        Err(_) => false,
    }
}

/// Calls `regex::Regex::new`, `Regex::captures` and `Captures::get`. Claims only
/// that the result, as characters, is the name `regex_capture` of the
/// pattern, the haystack and the group number.
#[verifier::external_body]
pub fn regex_first_capture(pattern: &str, haystack: &str, group: usize) -> (r: Option<String>)
    ensures
        match r {
            Some(s) => regex_capture(pattern@, haystack@, group as nat) == Some(s@),
            None => regex_capture(pattern@, haystack@, group as nat) is None,
        },
{
    let re = match regex::Regex::new(pattern) {
        Ok(re) => re,
        Err(_) => return None,
    };
    match re.captures(haystack) {
        Some(caps) => match caps.get(group) {
            Some(m) => Some(m.as_str().to_string()),
            None => None,
        },
        None => None,
    }
}

pub open spec fn opt_view(o: Option<String>) -> Option<Seq<char>> {
    match o {
        Some(s) => Some(s@),
        None => None,
    }
}

/// Calls `regex::Regex::new`, `Regex::captures_iter` and `Captures::get` for
/// groups 1 and 2 of every match. Claims only that the list, as characters,
/// is the name `regex_capture_pairs` of the pattern and the haystack.
#[verifier::external_body]
pub fn regex_all_capture_pairs(pattern: &str, haystack: &str) -> (r: Vec<
    (Option<String>, Option<String>),
>)
    ensures
        r@.map_values(|p: (Option<String>, Option<String>)| (opt_view(p.0), opt_view(p.1)))
            == regex_capture_pairs(pattern@, haystack@),
{
    let re = match regex::Regex::new(pattern) {
        Ok(re) => re,
        Err(_) => return Vec::new(),
    };
    let mut out = Vec::new();
    for caps in re.captures_iter(haystack) {
        out.push((caps.get(1).map(|m| m.as_str().to_string()), caps.get(2).map(|m| m.as_str().to_string())));
    }
    out
}

/// Calls `str::to_uppercase`. Claims only that the result is the name `upper`
/// of the argument's characters.
#[verifier::external_body]
pub fn to_uppercase(s: &str) -> (r: String)
    ensures
        r@ == upper(s@),
{
    s.to_uppercase()
}

/// Formats `s` with `{:?}` (std's `Debug` for `str`). Claims that the result
/// is the name `debug_str` of the argument's characters and, as std documents
/// for `Debug` of `str` (each character through `char::escape_debug`, which
/// writes a line feed as `\n`), that it holds no line feed. The rest of the
/// escaping is not stated.
#[verifier::external_body]
pub fn debug_string(s: &str) -> (r: String)
    ensures
        r@ == debug_str(s@),
        forall|i: int| 0 <= i < r@.len() ==> r@[i] != '\n',
{
    format!("{:?}", s)
}

/// `String::from_utf8_lossy` of the bytes: invalid sequences become U+FFFD.
pub uninterp spec fn utf8_lossy(bytes: Seq<u8>) -> Seq<char>;

/// Calls `String::from_utf8_lossy`. Claims that the result is the name
/// `utf8_lossy` of the bytes, and, as std documents, that valid UTF-8 comes back
/// decoded unchanged. How invalid input is replaced is not stated.
#[verifier::external_body]
pub(crate) fn lossy_text(bytes: &[u8]) -> (r: String)
    ensures
        r@ == utf8_lossy(bytes@),
        vstd::utf8::valid_utf8(bytes@) ==> r@ == vstd::utf8::decode_utf8(bytes@),
{
    String::from_utf8_lossy(bytes).into_owned()
}

/// `text` read as JSON (`serde_json::from_str::<serde_json::Value>`): `None`
/// when it does not parse; otherwise the member `key` of the value when the
/// value is an object and that member is a string (`Value::get`, then
/// `Value::as_str`).
pub uninterp spec fn json_str_member_of(text: Seq<char>, key: Seq<char>) -> Option<
    Option<Seq<char>>,
>;

/// Parses `text` with `serde_json::from_str::<serde_json::Value>` and reads the
/// string member `key`. Claims only that the result, as characters, is the name
/// `json_str_member_of` of the text and the key: JSON syntax is not stated.
#[verifier::external_body]
pub fn json_str_member(text: &str, key: &str) -> (r: Option<Option<String>>)
    ensures
        match r {
            None => json_str_member_of(text@, key@) is None,
            Some(None) => json_str_member_of(text@, key@) == Some(None::<Seq<char>>),
            Some(Some(s)) => json_str_member_of(text@, key@) == Some(Some(s@)),
        },
{
    match serde_json::from_str::<serde_json::Value>(text) {
        Ok(v) => Some(v.get(key).and_then(|m| m.as_str()).map(|m| m.to_string())),
        Err(_) => None,
    }
}

/// `text` read as JSON (`serde_json::from_str::<serde_json::Value>`): `None`
/// when it does not parse; `Some(None)` when the value has no member `outer`
/// (`Value::get`); otherwise, of that member, the member `first` when it is a
/// string (`Value::as_str`), and the member `second` as its text when it is a
/// string, else as its JSON spelling (`Value::to_string`).
pub uninterp spec fn json_nested_members_of(
    text: Seq<char>,
    outer: Seq<char>,
    first: Seq<char>,
    second: Seq<char>,
) -> Option<Option<(Option<Seq<char>>, Option<Seq<char>>)>>;

/// Parses `text` with `serde_json::from_str::<serde_json::Value>` and reads two
/// members of its member `outer`. Claims only that the result, as characters,
/// is the name `json_nested_members_of` of the text and the three keys: JSON
/// syntax and spelling are not stated.
#[verifier::external_body]
pub fn json_nested_members(text: &str, outer: &str, first: &str, second: &str) -> (r: Option<
    Option<(Option<String>, Option<String>)>,
>)
    ensures
        json_nested_members_of(text@, outer@, first@, second@) == match r {
            None => None,
            Some(None) => Some(None),
            Some(Some((a, b))) => Some(Some((opt_view(a), opt_view(b)))),
        },
{
    let v = match serde_json::from_str::<serde_json::Value>(text) {
        Ok(v) => v,
        Err(_) => return None,
    };
    Some(v.get(outer).map(|o| (
        o.get(first).and_then(|m| m.as_str()).map(|m| m.to_string()),
        o.get(second).map(|m| match m.as_str() {
            Some(t) => t.to_string(),
            None => m.to_string(),
        }),
    )))
}

} // verus!
