//! Regular expressions, compiled and run by the `regex` crate.
use vstd::prelude::*;

verus! {

#[verifier::external_type_specification]
#[verifier::external_body]
pub struct ExRegex(regex::Regex);

/// The error text of `regex::Regex::new` for a pattern, or `None` where the
/// pattern compiles.
pub uninterp spec fn regex_error(pattern: Seq<char>) -> Option<Seq<char>>;

/// Whether the regex compiled from `pattern` matches somewhere in `text`
/// (`regex::Regex::is_match`).
pub uninterp spec fn regex_is_match(pattern: Seq<char>, text: Seq<char>) -> bool;

/// A compiled regular expression and the pattern it was compiled from.
pub struct CompiledRegex {
    source: String,
    compiled: regex::Regex,
}

impl CompiledRegex {
    /// The pattern.
    pub closed spec fn source(&self) -> Seq<char> {
        self.source@
    }
}

/// `regex::Regex::new`: the compiled pattern, or the error's text. Which
/// patterns compile, and the text of the error, are named, not described;
/// they depend on the pattern alone.
#[verifier::external_body]
pub(crate) fn compile_regex(pattern: &str) -> (r: Result<CompiledRegex, String>)
    ensures
        match r {
            Ok(c) => regex_error(pattern@) is None && c.source() == pattern@,
            Err(e) => regex_error(pattern@) == Some(e@),
        },
{
    match regex::Regex::new(pattern) {
        Ok(compiled) => Ok(CompiledRegex { source: pattern.to_string(), compiled }),
        Err(e) => Err(e.to_string()),
    }
}

/// `regex::Regex::is_match`. Whether it matches is named, not described; it
/// depends on the pattern and the text alone.
#[verifier::external_body]
pub(crate) fn regex_matches(re: &CompiledRegex, text: &str) -> (r: bool)
    ensures
        r == regex_is_match(re.source(), text@),
{
    re.compiled.is_match(text)
}

/// The text of group 1 of the first match of the regex compiled from
/// `pattern` in `text`; `None` where there is no match or the group takes no
/// part in it (`regex::Regex::captures`, then the group).
pub uninterp spec fn regex_group1(pattern: Seq<char>, text: Seq<char>) -> Option<Seq<char>>;

/// `regex::Regex::captures`, keeping group 1 of the match. What it finds is
/// named, not described; it depends on the pattern and the text alone.
#[verifier::external_body]
pub(crate) fn regex_capture1(re: &CompiledRegex, text: &str) -> (r: Option<String>)
    ensures
        match r {
            Some(g) => regex_group1(re.source(), text@) == Some(g@),
            None => regex_group1(re.source(), text@) is None,
        },
{
    match re.compiled.captures(text) {
        Some(c) => match c.get(1) {
            Some(m) => Some(m.as_str().to_string()),
            None => None,
        },
        None => None,
    }
}

} // verus!
