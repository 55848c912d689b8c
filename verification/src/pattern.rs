//! Regular expressions.

use vstd::prelude::*;

verus! {

/// A compiled regular expression of the crate `regex`.
#[verifier::external_type_specification]
#[verifier::external_body]
pub struct ExRegex(regex::Regex);

/// A match: the text before it, and the text of each group that took part,
/// where group 0 is the whole match.
#[derive(Debug)]
pub struct Match {
    pub before: String,
    pub groups: Vec<Option<String>>,
}

pub struct MatchModel {
    pub before: Seq<char>,
    pub groups: Seq<Option<Seq<char>>>,
}

pub open spec fn opt_text(s: Option<String>) -> Option<Seq<char>> {
    match s {
        Some(t) => Some(t@),
        None => None,
    }
}

impl View for Match {
    type V = MatchModel;

    open spec fn view(&self) -> MatchModel {
        MatchModel {
            before: self.before@,
            groups: Seq::new(self.groups@.len(), |i: int| opt_text(self.groups@[i])),
        }
    }
}

pub open spec fn opt_match(m: Option<Match>) -> Option<MatchModel> {
    match m {
        Some(x) => Some(x@),
        None => None,
    }
}

pub open spec fn match_models(s: Seq<Match>) -> Seq<MatchModel> {
    Seq::new(s.len(), |i: int| s[i]@)
}

/// What `Regex::as_str` returns: the pattern that the expression was made from.
pub uninterp spec fn regex_source(re: regex::Regex) -> Seq<char>;

/// Whether `Regex::new` accepts the pattern.
pub uninterp spec fn is_regex(pattern: Seq<char>) -> bool;

/// What `Regex::captures` finds in the text for the pattern.
pub uninterp spec fn regex_captures(pattern: Seq<char>, text: Seq<char>) -> Option<MatchModel>;

/// What `Regex::captures_iter` finds in the text for the pattern.
pub uninterp spec fn regex_captures_iter(pattern: Seq<char>, text: Seq<char>) -> Seq<MatchModel>;

/// `Regex::new`: the expression for the pattern, if the pattern is one.
#[verifier::external_body]
fn compiled(pattern: &str) -> (r: Option<regex::Regex>)
    ensures
        match r {
            Some(re) => is_regex(pattern@) && regex_source(re) == pattern@,
            None => !is_regex(pattern@),
        },
{
    regex::Regex::new(pattern).ok()
}

/// `Regex::captures`: the leftmost match, which depends on the pattern and the
/// text alone. `Match::start` and `Match::as_str` give its place and texts.
#[verifier::external_body]
fn captures(re: &regex::Regex, text: &str) -> (r: Option<Match>)
    ensures
        opt_match(r) == regex_captures(regex_source(*re), text@),
{
    re.captures(text).map(|c| Match {
        before: text[..c.get(0).map_or(0, |m| m.start())].to_string(),
        groups: c.iter().map(|g| g.map(|m| m.as_str().to_string())).collect(),
    })
}

/// `Regex::captures_iter`: the matches that follow one another, which depend on
/// the pattern and the text alone.
#[verifier::external_body]
fn captures_iter(re: &regex::Regex, text: &str) -> (r: Vec<Match>)
    ensures
        match_models(r@) == regex_captures_iter(regex_source(*re), text@),
{
    re.captures_iter(text).map(|c| Match {
        before: text[..c.get(0).map_or(0, |m| m.start())].to_string(),
        groups: c.iter().map(|g| g.map(|m| m.as_str().to_string())).collect(),
    }).collect()
}

/// The leftmost match of the pattern; none of something that is no pattern.
pub open spec fn found(pattern: Seq<char>, text: Seq<char>) -> Option<MatchModel> {
    if is_regex(pattern) {
        regex_captures(pattern, text)
    } else {
        None
    }
}

/// The matches of the pattern; none of something that is no pattern.
pub open spec fn found_all(pattern: Seq<char>, text: Seq<char>) -> Seq<MatchModel> {
    if is_regex(pattern) {
        regex_captures_iter(pattern, text)
    } else {
        Seq::empty()
    }
}

/// A pattern, ready to be looked for.
pub struct Searcher {
    re: Option<regex::Regex>,
}

impl Searcher {
    /// The pattern that is looked for.
    pub closed spec fn is_for(self, pattern: Seq<char>) -> bool {
        match self.re {
            Some(re) => is_regex(pattern) && regex_source(re) == pattern,
            None => !is_regex(pattern),
        }
    }

    pub fn new(pattern: &str) -> (r: Searcher)
        ensures
            r.is_for(pattern@),
    {
        Searcher { re: compiled(pattern) }
    }

    pub fn find(&self, text: &str) -> (r: Option<Match>)
        ensures
            forall|p: Seq<char>| #[trigger] self.is_for(p) ==> opt_match(r) == found(p, text@),
    {
        match &self.re {
            Some(re) => captures(re, text),
            None => None,
        }
    }

    pub fn find_all(&self, text: &str) -> (r: Vec<Match>)
        ensures
            forall|p: Seq<char>| #[trigger]
                self.is_for(p) ==> match_models(r@) == found_all(p, text@),
    {
        match &self.re {
            Some(re) => captures_iter(re, text),
            None => {
                let none: Vec<Match> = Vec::new();
                proof {
                    assert(match_models(none@) =~= Seq::empty());
                }
                none
            },
        }
    }
}

/// The text of group `k`, if there is such a group and it took part.
pub open spec fn group(m: MatchModel, k: int) -> Option<Seq<char>> {
    if 0 <= k < m.groups.len() {
        m.groups[k]
    } else {
        None
    }
}

pub fn group_text(m: &Match, k: usize) -> (r: Option<&str>)
    ensures
        match r {
            Some(s) => group(m@, k as int) == Some(s@),
            None => group(m@, k as int) is None,
        },
{
    if k < m.groups.len() {
        match &m.groups[k] {
            Some(s) => Some(s.as_str()),
            None => None,
        }
    } else {
        None
    }
}

} // verus!
