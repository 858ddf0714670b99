//! Regular expressions, compiled by the `regex` crate and kept with their
//! source text so that contracts can speak of what they match.
use vstd::prelude::*;
use crate::text::owned;

verus! {

/// The `regex` crate's compiled expression.
#[verifier::external_type_specification]
#[verifier::external_body]
pub struct ExRegex(regex::Regex);

/// The groups of the first match of `pattern` in `text` (group 0 being the
/// whole match, a group that took no part being `None`), or `None` when
/// nothing matches.
pub uninterp spec fn regex_captures(pattern: Seq<char>, text: Seq<char>) -> Option<Seq<Option<Seq<char>>>>;

/// The texts of the successive non-overlapping matches of `pattern` in `text`.
pub uninterp spec fn regex_find_all(pattern: Seq<char>, text: Seq<char>) -> Seq<Seq<char>>;

/// The message of the `regex` crate's error compiling `pattern`, or `None`
/// when it compiles.
pub uninterp spec fn regex_error(pattern: Seq<char>) -> Option<Seq<char>>;

/// The error of the first of `patterns` that does not compile, if any.
pub open spec fn first_regex_error(patterns: Seq<Seq<char>>) -> Option<Seq<char>>
    decreases patterns.len(),
{
    if patterns.len() == 0 {
        None
    } else {
        match regex_error(patterns[0]) {
            Some(m) => Some(m),
            None => first_regex_error(patterns.drop_first()),
        }
    }
}

/// View of captured groups.
pub open spec fn groups_view(r: Option<Vec<Option<String>>>) -> Option<Seq<Option<Seq<char>>>> {
    match r {
        Some(v) => Some(v@.map_values(|g: Option<String>| match g {
            Some(s) => Some(s@),
            None => None,
        })),
        None => None,
    }
}

/// Calls `regex::Regex::new`, which compiles `source` or reports why it
/// cannot; whether it compiles, and the message of the refusal, are claimed
/// to depend on the source alone.
#[verifier::external_body]
fn compile_regex(source: &str) -> (r: Result<regex::Regex, String>)
    ensures
        match r {
            Ok(_) => regex_error(source@) is None,
            Err(m) => regex_error(source@) == Some(m@),
        },
{
    match regex::Regex::new(source) {
        Ok(re) => Ok(re),
        Err(e) => Err(format!("{}", e)),
    }
}

/// A compiled regular expression and its source.
pub struct Pattern {
    regex: regex::Regex,
    source: String,
}

impl Pattern {
    /// The source text of the expression.
    pub closed spec fn source(&self) -> Seq<char> {
        self.source@
    }

    /// Compiles `source`; the error is the `regex` crate's message.
    pub fn new(source: &str) -> (r: Result<Pattern, String>)
        ensures
            match r {
                Ok(p) => regex_error(source@) is None && p.source() == source@,
                Err(m) => regex_error(source@) == Some(m@),
            },
    {
        match compile_regex(source) {
            Ok(regex) => Ok(Pattern { regex, source: owned(source) }),
            Err(e) => Err(e),
        }
    }

    /// Calls `regex::Regex::captures` on the expression, which this value
    /// only ever holds compiled from its source: the groups of the first
    /// match, which the documentation says always include the whole match.
    #[verifier::external_body]
    pub(crate) fn captures(&self, text: &str) -> (r: Option<Vec<Option<String>>>)
        ensures
            groups_view(r) == regex_captures(self.source(), text@),
            r matches Some(g) ==> g@.len() > 0 && g@[0] is Some,
    {
        self.regex.captures(text).map(|c| c.iter().map(|m| m.map(|m| m.as_str().to_string())).collect())
    }

    /// Calls `regex::Regex::is_match`, which the documentation says holds
    /// exactly when there is a match, that is when `captures` finds one.
    #[verifier::external_body]
    pub(crate) fn is_match(&self, text: &str) -> (r: bool)
        ensures
            r == regex_captures(self.source(), text@) is Some,
    {
        self.regex.is_match(text)
    }

    /// Calls `regex::Regex::find_iter`, collecting the matched texts in order.
    #[verifier::external_body]
    pub(crate) fn find_all(&self, text: &str) -> (r: Vec<String>)
        ensures
            r@.map_values(|s: String| s@) == regex_find_all(self.source(), text@),
    {
        self.regex.find_iter(text).map(|m| m.as_str().to_string()).collect()
    }
}

/// The text of group `i`, when it took part in the match.
pub open spec fn group(g: Seq<Option<Seq<char>>>, i: int) -> Option<Seq<char>> {
    if 0 <= i < g.len() {
        g[i]
    } else {
        None
    }
}

/// The text of group `i` of captured groups, when it took part in the match.
pub fn group_text(g: &Vec<Option<String>>, i: usize) -> (r: Option<String>)
    ensures
        match r {
            Some(s) => group(groups_view(Some(*g))->0, i as int) == Some(s@),
            None => group(groups_view(Some(*g))->0, i as int) is None,
        },
{
    if i < g.len() {
        match &g[i] {
            Some(s) => Some(s.clone()),
            None => None,
        }
    } else {
        None
    }
}

} // verus!
