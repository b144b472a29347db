use vstd::prelude::*;

verus! {

use crate::text::seq_contains;
use crate::text::seq_ends_with;
use crate::text::seq_starts_with;
use crate::text::str_contains;
use crate::text::str_ends_with;
use crate::text::str_eq;
use crate::text::str_starts_with;

/// Whether `regex::Regex::new` accepts the pattern.
pub uninterp spec fn regex_valid(pattern: Seq<char>) -> bool;

/// Whether the compiled pattern matches somewhere in the text; meaningful
/// only for patterns that `regex_valid` accepts.
pub uninterp spec fn regex_match(pattern: Seq<char>, text: Seq<char>) -> bool;

/// Relies on regex::Regex::new, which compiles exactly the syntactically
/// valid patterns, and regex::Regex::is_match, whose outcome depends on the
/// pattern and the text alone.
#[verifier::external_body]
fn regex_is_match(pattern: &str, text: &str) -> (r: Option<bool>)
    ensures
        r is Some <==> regex_valid(pattern@),
        r matches Some(b) ==> b == regex_match(pattern@, text@),
{
    regex::Regex::new(pattern).ok().map(|re| re.is_match(text))
}

/// A predicate on strings, as a configuration declares it. `Regex` carries
/// the pattern text; `Filter::regex` checks it compiles.
#[derive(Debug, PartialEq)]
pub enum Filter {
    Contains(String),
    StartsWith(String),
    EndsWith(String),
    Equals(String),
    NotEquals(String),
    Regex(String),
}

impl Clone for Filter {
    fn clone(&self) -> (r: Self)
        ensures
            r == *self,
    {
        match self {
            Filter::Contains(v) => Filter::Contains(v.clone()),
            Filter::StartsWith(v) => Filter::StartsWith(v.clone()),
            Filter::EndsWith(v) => Filter::EndsWith(v.clone()),
            Filter::Equals(v) => Filter::Equals(v.clone()),
            Filter::NotEquals(v) => Filter::NotEquals(v.clone()),
            Filter::Regex(p) => Filter::Regex(p.clone()),
        }
    }
}

impl Filter {
    /// A filter is well formed when a `Regex` pattern actually compiles.
    pub open spec fn wf(self) -> bool {
        match self {
            Filter::Regex(p) => regex_valid(p@),
            _ => true,
        }
    }

    /// What a well-formed filter accepts.
    pub open spec fn accepts(self, s: Seq<char>) -> bool {
        match self {
            Filter::Contains(v) => seq_contains(s, v@),
            Filter::StartsWith(v) => seq_starts_with(s, v@),
            Filter::EndsWith(v) => seq_ends_with(s, v@),
            Filter::Equals(v) => s == v@,
            Filter::NotEquals(v) => s != v@,
            Filter::Regex(p) => regex_match(p@, s),
        }
    }

    /// Total evaluation: a filter whose pattern does not compile accepts nothing.
    pub open spec fn spec_eval(self, s: Seq<char>) -> bool {
        self.wf() && self.accepts(s)
    }

    /// Builds a regular-expression filter, exactly when the pattern compiles.
    pub fn regex(pattern: String) -> (r: Option<Filter>)
        ensures
            r is Some <==> regex_valid(pattern@),
            r matches Some(f) ==> f == Filter::Regex(pattern),
    {
        match regex_is_match(pattern.as_str(), "") {
            Some(_) => Some(Filter::Regex(pattern)),
            None => None,
        }
    }

    /// Evaluates the filter against a string.
    pub fn evaluate(&self, source: &str) -> (r: bool)
        ensures
            r == self.spec_eval(source@),
    {
        match self {
            Filter::Contains(v) => str_contains(source, v.as_str()),
            Filter::StartsWith(v) => str_starts_with(source, v.as_str()),
            Filter::EndsWith(v) => str_ends_with(source, v.as_str()),
            Filter::Equals(v) => str_eq(source, v.as_str()),
            Filter::NotEquals(v) => !str_eq(source, v.as_str()),
            Filter::Regex(p) => match regex_is_match(p.as_str(), source) {
                Some(b) => b,
                None => false,
            },
        }
    }
}

} // verus!
