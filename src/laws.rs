//! Properties that hold across calls of the engine, proved over the
//! specifications of its parts.
use crate::detector::{is_ready, next_pending, EventKind, EventView, Policy};
use crate::engine::{dispatch_spec, plan_from, plan_spec, DispatchView};
use crate::pattern::regex_compiles;
use crate::rule::{accepts, RuleView};
use crate::template::{expand_from, expand_spec, placeholder_at, token_here, tok_full, tok_short, tok_x, tok_y, tok_z, Bindings};
use vstd::prelude::*;

verus! {

/// How many dispatches in `ds` come from the rule at position `i`.
pub open spec fn count_rule(ds: Seq<DispatchView>, i: int) -> nat
    decreases ds.len(),
{
    if ds.len() == 0 {
        0
    } else {
        (if ds[0].rule == i { 1nat } else { 0nat }) + count_rule(ds.drop_first(), i)
    }
}

proof fn lemma_count_from(rules: Seq<RuleView>, path: Seq<char>, k: int, i: int)
    requires
        0 <= k,
    ensures
        count_rule(plan_from(rules, path, k), i) == (if k <= i < rules.len() && accepts(rules[i], path) { 1nat } else { 0nat }),
    decreases rules.len() - k,
{
    if k < rules.len() {
        lemma_count_from(rules, path, k + 1, i);
        if accepts(rules[k], path) {
            let d = dispatch_spec(k, rules[k], path);
            let rest = plan_from(rules, path, k + 1);
            assert((seq![d] + rest).drop_first() =~= rest);
        }
    }
}

proof fn lemma_entries_from(rules: Seq<RuleView>, path: Seq<char>, k: int)
    requires
        0 <= k,
    ensures
        forall|j: int| 0 <= j < plan_from(rules, path, k).len() ==> {
            let d = #[trigger] plan_from(rules, path, k)[j];
            &&& k <= d.rule < rules.len()
            &&& accepts(rules[d.rule], path)
            &&& d == dispatch_spec(d.rule, rules[d.rule], path)
        },
    decreases rules.len() - k,
{
    if k < rules.len() {
        lemma_entries_from(rules, path, k + 1);
        let rest = plan_from(rules, path, k + 1);
        if accepts(rules[k], path) {
            let d = dispatch_spec(k, rules[k], path);
            assert forall|j: int| 0 < j < plan_from(rules, path, k).len() implies #[trigger] plan_from(rules, path, k)[j] == rest[j - 1] by {
            }
        }
    }
}

/// Each rule that accepts a file gives exactly one dispatch of its command
/// for that file, and a rule that does not accept it gives none.
pub proof fn law_one_dispatch_per_accepting_rule(rules: Seq<RuleView>, path: Seq<char>, i: int)
    requires
        0 <= i < rules.len(),
    ensures
        count_rule(plan_spec(rules, path), i) == (if accepts(rules[i], path) { 1nat } else { 0nat }),
{
    lemma_count_from(rules, path, 0, i);
}

/// Every planned dispatch comes from a rule that accepts the file, and
/// launches that rule's command with its arguments expanded for the file.
pub proof fn law_dispatches_come_from_accepting_rules(rules: Seq<RuleView>, path: Seq<char>)
    ensures
        forall|j: int| 0 <= j < plan_spec(rules, path).len() ==> {
            let d = #[trigger] plan_spec(rules, path)[j];
            &&& 0 <= d.rule < rules.len()
            &&& accepts(rules[d.rule], path)
            &&& d.cmd == rules[d.rule].cmd
            &&& d == dispatch_spec(d.rule, rules[d.rule], path)
        },
{
    lemma_entries_from(rules, path, 0);
}

/// When no rule accepts a file, nothing is dispatched for it.
pub proof fn law_no_accepting_rule_no_dispatch(rules: Seq<RuleView>, path: Seq<char>)
    requires
        forall|i: int| 0 <= i < rules.len() ==> !accepts(#[trigger] rules[i], path),
    ensures
        plan_spec(rules, path).len() == 0,
{
    lemma_entries_from(rules, path, 0);
    if plan_spec(rules, path).len() > 0 {
        let d = plan_spec(rules, path)[0];
        assert(accepts(rules[d.rule], path));
    }
}

/// A create event for `path`.
pub open spec fn created(path: Seq<char>) -> EventView {
    EventView { path, kind: EventKind::Created, is_dir: false }
}

/// A close-after-write event for `path`.
pub open spec fn closed_write(path: Seq<char>) -> EventView {
    EventView { path, kind: EventKind::ClosedWrite, is_dir: false }
}

/// A create followed by a close-after-write makes the file ready exactly
/// once, at the close, whatever was pending before and under either policy;
/// afterwards the path is no longer pending.
pub proof fn law_write_cycle_ready_once(pending: Set<Seq<char>>, policy: Policy, path: Seq<char>)
    ensures
        !is_ready(pending, policy, created(path)),
        is_ready(next_pending(pending, created(path)), policy, closed_write(path)),
        !next_pending(next_pending(pending, created(path)), closed_write(path)).contains(path),
{
}

/// The same create and close-after-write pair fed twice makes the file ready
/// twice: write cycles are not deduplicated against each other.
pub proof fn law_repeated_cycles_dispatch_again(pending: Set<Seq<char>>, policy: Policy, path: Seq<char>)
    ensures
        ({
            let s1 = next_pending(pending, created(path));
            let s2 = next_pending(s1, closed_write(path));
            let s3 = next_pending(s2, created(path));
            is_ready(s1, policy, closed_write(path)) && is_ready(s3, policy, closed_write(path))
        }),
{
}

/// A close-after-write on a path that is not pending is ready under the
/// permissive policy and ignored under the strict one, and leaves the
/// pending paths as they were.
pub proof fn law_close_without_create(pending: Set<Seq<char>>, policy: Policy, path: Seq<char>)
    requires
        !pending.contains(path),
    ensures
        is_ready(pending, policy, closed_write(path)) == (policy == Policy::Permissive),
        next_pending(pending, closed_write(path)) == pending,
{
    assert(pending.remove(path) =~= pending);
}

proof fn lemma_token_starts(t: Seq<char>, i: int, tok: Seq<char>)
    ensures
        token_here(t, i, tok) ==> t[i] == tok[0],
{
    if token_here(t, i, tok) {
        assert(t.subrange(i, i + tok.len())[0] == t[i]);
    }
}

proof fn lemma_plain_from(t: Seq<char>, i: int, b: Bindings)
    requires
        0 <= i <= t.len(),
        forall|j: int| 0 <= j < t.len() ==> t[j] != '{',
    ensures
        expand_from(t, i, b) == t.subrange(i, t.len() as int),
    decreases t.len() - i,
{
    if i < t.len() {
        reveal_strlit("{filename}");
        reveal_strlit("{filename:short}");
        reveal_strlit("{x}");
        reveal_strlit("{y}");
        reveal_strlit("{z}");
        assert(tok_full()[0] == '{');
        assert(tok_short()[0] == '{');
        assert(tok_x()[0] == '{');
        assert(tok_y()[0] == '{');
        assert(tok_z()[0] == '{');
        lemma_token_starts(t, i, tok_full());
        lemma_token_starts(t, i, tok_short());
        lemma_token_starts(t, i, tok_x());
        lemma_token_starts(t, i, tok_y());
        lemma_token_starts(t, i, tok_z());
        assert(placeholder_at(t, i, b) is None);
        lemma_plain_from(t, i + 1, b);
        assert(t.subrange(i, t.len() as int) =~= seq![t[i]] + t.subrange(i + 1, t.len() as int));
    } else {
        assert(t.subrange(i, t.len() as int) =~= Seq::<char>::empty());
    }
}

/// A template without any `{` expands to itself.
pub proof fn law_plain_template_unchanged(t: Seq<char>, b: Bindings)
    requires
        forall|j: int| 0 <= j < t.len() ==> t[j] != '{',
    ensures
        expand_spec(t, b) == t,
{
    lemma_plain_from(t, 0, b);
    assert(t.subrange(0, t.len() as int) =~= t);
}

/// A rule whose filter does not compile accepts no file at all.
pub proof fn law_invalid_filter_accepts_nothing(r: RuleView, path: Seq<char>)
    requires
        r.filter is Some,
        !regex_compiles(r.filter->0),
    ensures
        !accepts(r, path),
{
}

} // verus!
