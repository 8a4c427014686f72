//! Regular-expression filters, backed by the `regex` crate.
use vstd::prelude::*;

verus! {

#[verifier::external_type_specification]
#[verifier::external_body]
pub struct ExRegex(regex::Regex);

/// Whether `regex::Regex::new` accepts the pattern `p`.
pub uninterp spec fn regex_compiles(p: Seq<char>) -> bool;

/// Whether the regex compiled from `p` matches anywhere in `t`.
pub uninterp spec fn regex_finds(p: Seq<char>, t: Seq<char>) -> bool;

/// A compiled filter together with the pattern it was compiled from.
pub struct Pattern {
    source: String,
    re: regex::Regex,
}

impl Pattern {
    /// The pattern text this filter was compiled from.
    pub closed spec fn source(&self) -> Seq<char> {
        self.source@
    }
}

/// Relies on regex::Regex::new: it succeeds or fails depending on the
/// pattern text alone (default size limits).
#[verifier::external_body]
fn compile(p: String) -> (r: Option<Pattern>)
    ensures
        r.is_some() == regex_compiles(p@),
        r matches Some(c) ==> c.source() == p@,
{
    match regex::Regex::new(&p) {
        Ok(re) => Some(Pattern { source: p, re }),
        Err(_) => None,
    }
}

/// Relies on regex::Regex::is_match: true exactly when the compiled regex
/// matches somewhere in the haystack.
#[verifier::external_body]
fn is_match(c: &Pattern, t: &str) -> (r: bool)
    ensures
        r == regex_finds(c.source(), t@),
{
    c.re.is_match(t)
}

/// What searching a file name with a rule's filter gave.
#[derive(Clone, Copy, Debug, PartialEq, Eq, Structural)]
pub enum Search {
    /// The filter does not compile.
    Invalid,
    /// The filter compiles and matches the name somewhere.
    Found,
    /// The filter compiles and does not match the name.
    NotFound,
}

/// The outcome of searching `t` with the pattern `p`.
pub open spec fn search_spec(p: Seq<char>, t: Seq<char>) -> Search {
    if !regex_compiles(p) {
        Search::Invalid
    } else if regex_finds(p, t) {
        Search::Found
    } else {
        Search::NotFound
    }
}

/// Compiles `pattern` and searches `t` with it (unanchored).
pub fn search(pattern: &String, t: &str) -> (r: Search)
    ensures
        r == search_spec(pattern@, t@),
{
    match compile(pattern.clone()) {
        None => Search::Invalid,
        Some(c) => {
            if is_match(&c, t) {
                Search::Found
            } else {
                Search::NotFound
            }
        },
    }
}

} // verus!
