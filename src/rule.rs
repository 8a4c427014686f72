//! Rules: which files they accept, and what they launch for them.
use crate::pattern::{search, search_spec, Search};
use crate::template::{expand, expand_spec, Bindings};
use crate::text::{
    base_name, base_name_spec, ends_with, ends_with_spec, is_under, starts_with, starts_with_spec,
    under_root_spec,
};
use vstd::prelude::*;

verus! {

/// A named rule: predicates on the short file name, and an action.
pub struct Rule {
    /// The rule's identifier.
    pub name: String,
    /// The command to launch.
    pub cmd: String,
    /// Argument templates, in order.
    pub args: Vec<String>,
    /// Message template for the notification.
    pub msg: String,
    /// Optional notification icon.
    pub icon: Option<String>,
    /// The short file name must end with this, when set.
    pub ends_with: Option<String>,
    /// The short file name must start with this, when set.
    pub starts_with: Option<String>,
    /// A regular expression that must match somewhere in the short file name, when set.
    pub filter: Option<String>,
    /// Value of `{x}`.
    pub x: String,
    /// Value of `{y}`.
    pub y: String,
    /// Value of `{z}`.
    pub z: String,
    /// The directory tree the rule is limited to; `None` for every watched tree.
    pub root: Option<String>,
}

/// The text of an optional string.
pub open spec fn opt_view(o: Option<String>) -> Option<Seq<char>> {
    match o {
        Some(s) => Some(s@),
        None => None,
    }
}

/// A rule as plain text values.
pub ghost struct RuleView {
    pub name: Seq<char>,
    pub cmd: Seq<char>,
    pub args: Seq<Seq<char>>,
    pub msg: Seq<char>,
    pub icon: Option<Seq<char>>,
    pub ends_with: Option<Seq<char>>,
    pub starts_with: Option<Seq<char>>,
    pub filter: Option<Seq<char>>,
    pub x: Seq<char>,
    pub y: Seq<char>,
    pub z: Seq<char>,
    pub root: Option<Seq<char>>,
}

impl View for Rule {
    type V = RuleView;

    open spec fn view(&self) -> RuleView {
        RuleView {
            name: self.name@,
            cmd: self.cmd@,
            args: self.args@.map_values(|a: String| a@),
            msg: self.msg@,
            icon: opt_view(self.icon),
            ends_with: opt_view(self.ends_with),
            starts_with: opt_view(self.starts_with),
            filter: opt_view(self.filter),
            x: self.x@,
            y: self.y@,
            z: self.z@,
            root: opt_view(self.root),
        }
    }
}

/// Why a rule does or does not accept a file.
#[derive(Clone, Copy, Debug, PartialEq, Eq, Structural)]
pub enum Verdict {
    /// Every predicate that is set holds.
    Matches,
    /// The name does not end with the rule's suffix.
    SuffixMismatch,
    /// The name does not start with the rule's prefix.
    PrefixMismatch,
    /// The rule's filter is not a valid regular expression.
    InvalidPattern,
    /// The rule's filter does not match the name.
    PatternMismatch,
}

/// The verdict of rule `r` on the short name `short`, given what searching
/// `short` with the rule's filter gave (ignored when no filter is set or an
/// earlier predicate fails).
pub open spec fn verdict_spec(r: RuleView, short: Seq<char>, found: Search) -> Verdict {
    if r.ends_with is Some && !ends_with_spec(short, r.ends_with->0) {
        Verdict::SuffixMismatch
    } else if r.starts_with is Some && !starts_with_spec(short, r.starts_with->0) {
        Verdict::PrefixMismatch
    } else if r.filter is None {
        Verdict::Matches
    } else {
        match found {
            Search::Invalid => Verdict::InvalidPattern,
            Search::Found => Verdict::Matches,
            Search::NotFound => Verdict::PatternMismatch,
        }
    }
}

/// What searching `short` with an optional filter gives.
pub open spec fn filter_search(filter: Option<Seq<char>>, short: Seq<char>) -> Search {
    match filter {
        Some(f) => search_spec(f, short),
        None => Search::NotFound,
    }
}

/// The verdict of rule `r` on the short name `short`.
pub open spec fn rule_verdict(r: RuleView, short: Seq<char>) -> Verdict {
    verdict_spec(r, short, filter_search(r.filter, short))
}

/// The file at `path` lies where rule `r` applies.
pub open spec fn in_scope_spec(r: RuleView, path: Seq<char>) -> bool {
    match r.root {
        Some(root) => under_root_spec(root, path),
        None => true,
    }
}

/// Rule `r` accepts the file at `path`.
pub open spec fn accepts(r: RuleView, path: Seq<char>) -> bool {
    in_scope_spec(r, path) && rule_verdict(r, base_name_spec(path)) == Verdict::Matches
}

/// Whether the file at `path` lies where `rule` applies.
pub fn in_scope(rule: &Rule, path: &str) -> (r: bool)
    ensures
        r == in_scope_spec(rule@, path@),
{
    match &rule.root {
        Some(root) => is_under(root.as_str(), path),
        None => true,
    }
}

/// The verdict of `rule` on `short`, where `found` is what searching `short`
/// with the rule's filter gave.
pub fn verdict_given(rule: &Rule, short: &str, found: Search) -> (v: Verdict)
    ensures
        v == verdict_spec(rule@, short@, found),
{
    if let Some(suffix) = &rule.ends_with {
        if !ends_with(short, suffix.as_str()) {
            return Verdict::SuffixMismatch;
        }
    }
    if let Some(prefix) = &rule.starts_with {
        if !starts_with(short, prefix.as_str()) {
            return Verdict::PrefixMismatch;
        }
    }
    match &rule.filter {
        None => Verdict::Matches,
        Some(_) => match found {
            Search::Invalid => Verdict::InvalidPattern,
            Search::Found => Verdict::Matches,
            Search::NotFound => Verdict::PatternMismatch,
        },
    }
}

/// Whether the prefix and suffix predicates of `rule` hold of `short`.
fn affixes_hold(rule: &Rule, short: &str) -> (r: bool)
    ensures
        r == (verdict_spec(rule@, short@, Search::Found) != Verdict::SuffixMismatch
            && verdict_spec(rule@, short@, Search::Found) != Verdict::PrefixMismatch),
{
    if let Some(suffix) = &rule.ends_with {
        if !ends_with(short, suffix.as_str()) {
            return false;
        }
    }
    if let Some(prefix) = &rule.starts_with {
        if !starts_with(short, prefix.as_str()) {
            return false;
        }
    }
    true
}

/// Evaluates every predicate of `rule` on the short file name `short`. The
/// filter is compiled only when the suffix and prefix predicates hold. A
/// filter that does not compile is reported, and is never a match.
pub fn check_rule(rule: &Rule, short: &str) -> (v: Verdict)
    ensures
        v == rule_verdict(rule@, short@),
{
    let found = match &rule.filter {
        Some(f) => {
            if affixes_hold(rule, short) {
                search(f, short)
            } else {
                Search::NotFound
            }
        },
        None => Search::NotFound,
    };
    verdict_given(rule, short, found)
}

/// The values the placeholders take for the file at `path` under rule `r`.
pub open spec fn bindings_for(r: RuleView, path: Seq<char>) -> Bindings {
    Bindings { full: path, short: base_name_spec(path), x: r.x, y: r.y, z: r.z }
}

/// Expands `template` for the file at `path` under `rule`.
pub fn expand_for(rule: &Rule, path: &str, template: &str) -> (r: String)
    ensures
        r@ == expand_spec(template@, bindings_for(rule@, path@)),
{
    let short = base_name(path);
    expand(template, path, short, rule.x.as_str(), rule.y.as_str(), rule.z.as_str())
}

} // verus!
