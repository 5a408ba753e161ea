//! Recognizing the reply of a bot: a private message to this session that matches the pattern
//! of a DCC SEND offer, and the file name that the offer names.
use vstd::prelude::*;

use crate::text::{push_char, push_str_chars};

verus! {

/// `regex::Regex`, a compiled regular expression.
#[verifier::external_type_specification]
#[verifier::external_body]
pub struct ExRegex(regex::Regex);

/// `regex::Error`, the error of compiling a regular expression.
#[verifier::external_type_specification]
#[verifier::external_body]
pub struct ExRegexError(regex::Error);

/// Names whether the regex crate compiles `pattern`.
pub uninterp spec fn regex_valid(pattern: Seq<char>) -> bool;

/// Names whether the regular expression `pattern` matches somewhere in `text`, as the regex
/// crate decides.
pub uninterp spec fn regex_matches(pattern: Seq<char>, text: Seq<char>) -> bool;

/// Names the text of capture group `group` of the first match of `pattern` in `text`, as the
/// regex crate finds it: `None` when there is no match or the group takes no part in it.
pub uninterp spec fn regex_group(pattern: Seq<char>, text: Seq<char>, group: nat) -> Option<
    Seq<char>,
>;

/// Compiles `pattern` with `regex::Regex::new`. The contract claims only that compiling succeeds
/// or fails as a function of the pattern.
#[verifier::external_body]
fn compile_regex(pattern: &str) -> (r: Result<regex::Regex, regex::Error>)
    ensures
        r is Ok <==> regex_valid(pattern@),
{
    regex::Regex::new(pattern)
}

/// The pattern of a bot's DCC SEND offer: `SEND`, a file name that ends with a letter, then a
/// space and a digit, case-insensitive and with optional quotes around the name.
pub open spec fn send_pattern() -> Seq<char> {
    "(?:(?i)SEND\\s\"*)((?i).*[a-z])(?:(:?(?i)\"*)\\s[0-9])"@
}

/// The pattern of an offer, char by char: `SEND`, whitespace and optional quotes; then group 1,
/// a greedy `.*` up to a letter, so the file name runs to the last letter that is followed by
/// optional quotes, whitespace and a digit; all case-insensitive.
pub proof fn lemma_send_pattern_chars()
    ensures
        send_pattern() == seq!['(', '?', ':', '(', '?', 'i', ')', 'S', 'E', 'N', 'D', '\\', 's', '"', '*', ')', '(', '(', '?', 'i', ')', '.', '*', '[', 'a', '-', 'z', ']', ')', '(', '?', ':', '(', ':', '?', '(', '?', 'i', ')', '"', '*', ')', '\\', 's', '[', '0', '-', '9', ']', ')'],
{
    reveal_strlit("(?:(?i)SEND\\s\"*)((?i).*[a-z])(?:(:?(?i)\"*)\\s[0-9])");
    assert(send_pattern() =~= seq!['(', '?', ':', '(', '?', 'i', ')', 'S', 'E', 'N', 'D', '\\', 's', '"', '*', ')', '(', '(', '?', 'i', ')', '.', '*', '[', 'a', '-', 'z', ']', ')', '(', '?', ':', '(', ':', '?', '(', '?', 'i', ')', '"', '*', ')', '\\', 's', '[', '0', '-', '9', ']', ')']);
}

/// A regular expression together with the pattern it was compiled from.
pub struct ReplyMatcher {
    pattern: String,
    regex: regex::Regex,
}

impl View for ReplyMatcher {
    type V = Seq<char>;

    /// The pattern of the matcher.
    closed spec fn view(&self) -> Seq<char> {
        self.pattern@
    }
}

/// Why a matcher could not be built.
#[derive(Debug)]
pub enum MatcherError {
    /// The pattern does not compile.
    Pattern(regex::Error),
}

/// Whether the regular expression of `m` matches in `text`, with `regex::Regex::is_match`. The
/// contract claims that the result is the regex crate's decision for `m`'s pattern, which holds
/// as `ReplyMatcher::new` compiles the only regex of a matcher from its pattern.
#[verifier::external_body]
fn regex_is_match(m: &ReplyMatcher, text: &str) -> (r: bool)
    ensures
        r == regex_matches(m@, text@),
{
    m.regex.is_match(text)
}

/// The text of capture group `group` of the first match in `text`, with
/// `regex::Regex::captures` and `Captures::get`; the contract claims the same of `m` as
/// `regex_is_match`.
#[verifier::external_body]
fn regex_capture(m: &ReplyMatcher, text: &str, group: usize) -> (r: Option<String>)
    ensures
        r is Some <==> regex_group(m@, text@, group as nat) is Some,
        r matches Some(s) ==> s@ == regex_group(m@, text@, group as nat).unwrap(),
{
    match m.regex.captures(text) {
        Some(caps) => match caps.get(group) {
            Some(g) => Some(g.as_str().to_string()),
            None => None,
        },
        None => None,
    }
}

impl ReplyMatcher {
    /// Compiles `pattern`.
    pub fn new(pattern: &str) -> (r: Result<ReplyMatcher, MatcherError>)
        ensures
            r is Ok <==> regex_valid(pattern@),
            r matches Ok(m) ==> m@ == pattern@,
    {
        match compile_regex(pattern) {
            Ok(regex) => {
                let mut text = String::new();
                push_str_chars(&mut text, pattern);
                Ok(ReplyMatcher { pattern: text, regex })
            },
            Err(e) => Err(MatcherError::Pattern(e)),
        }
    }

    /// The matcher of a bot's DCC SEND offer.
    pub fn send_offer() -> (r: Result<ReplyMatcher, MatcherError>)
        ensures
            r is Ok <==> regex_valid(send_pattern()),
            r matches Ok(m) ==> m@ == send_pattern(),
    {
        ReplyMatcher::new("(?:(?i)SEND\\s\"*)((?i).*[a-z])(?:(:?(?i)\"*)\\s[0-9])")
    }

    /// Whether the pattern matches in `text`.
    pub fn is_match(&self, text: &str) -> (r: bool)
        ensures
            r == regex_matches(self@, text@),
    {
        regex_is_match(self, text)
    }
}

/// Whether a private message to `target` saying `text` is the reply that a session named
/// `name` waits for: it is addressed to the session and matches the pattern.
pub open spec fn reply_for(pattern: Seq<char>, name: Seq<char>, target: Seq<char>, text: Seq<char>) -> bool {
    target == name && regex_matches(pattern, text)
}

/// Whether a private message to `target` saying `text` is the reply that the session `name`
/// waits for.
pub fn is_reply(m: &ReplyMatcher, name: &String, target: &String, text: &String) -> (r: bool)
    ensures
        r == reply_for(m@, name@, target@, text@),
{
    *target == *name && m.is_match(text.as_str())
}

/// The name of the file that an offer names: the first capture group of the pattern, when the
/// pattern matches.
pub fn file_name(m: &ReplyMatcher, msg: &str) -> (r: Option<String>)
    ensures
        r is Some <==> regex_group(m@, msg@, 1) is Some,
        r matches Some(s) ==> s@ == regex_group(m@, msg@, 1).unwrap(),
{
    regex_capture(m, msg, 1)
}

/// Where a downloaded file is stored: the directory, a slash, and the file name.
pub fn download_path(dir: &String, file_name: &String) -> (p: String)
    ensures
        p@ == dir@ + seq!['/'] + file_name@,
{
    let mut p = String::new();
    push_str_chars(&mut p, dir.as_str());
    push_char(&mut p, '/');
    push_str_chars(&mut p, file_name.as_str());
    assert(p@ =~= dir@ + seq!['/'] + file_name@);
    p
}

} // verus!
