//! The dispatch engine: feeds raw events through completion detection and,
//! for each ready file, plans one dispatch per matching rule.
use crate::detector::{is_ready, next_pending, Detector, Policy, RawEvent};
use crate::rule::{accepts, bindings_for, check_rule, expand_for, in_scope, opt_view, Rule, RuleView, Verdict};
use crate::template::expand_spec;
use crate::text::base_name;
use vstd::prelude::*;

verus! {

/// One planned launch: the command of a matching rule, with its arguments
/// and its notification message expanded for one file.
pub struct Dispatch {
    /// Position of the rule in the rule list.
    pub rule: usize,
    /// Name of the rule.
    pub name: String,
    /// The command to launch.
    pub cmd: String,
    /// The expanded arguments.
    pub args: Vec<String>,
    /// The expanded notification message.
    pub message: String,
    /// The notification icon, if any.
    pub icon: Option<String>,
}

/// A dispatch as plain values.
pub ghost struct DispatchView {
    pub rule: int,
    pub name: Seq<char>,
    pub cmd: Seq<char>,
    pub args: Seq<Seq<char>>,
    pub message: Seq<char>,
    pub icon: Option<Seq<char>>,
}

impl View for Dispatch {
    type V = DispatchView;

    open spec fn view(&self) -> DispatchView {
        DispatchView {
            rule: self.rule as int,
            name: self.name@,
            cmd: self.cmd@,
            args: self.args@.map_values(|a: String| a@),
            message: self.message@,
            icon: opt_view(self.icon),
        }
    }
}

/// The views of a list of rules.
pub open spec fn rules_view(rules: Seq<Rule>) -> Seq<RuleView> {
    rules.map_values(|r: Rule| r@)
}

/// The views of a list of dispatches.
pub open spec fn dispatches_view(ds: Seq<Dispatch>) -> Seq<DispatchView> {
    ds.map_values(|d: Dispatch| d@)
}

/// The dispatch of rule `r`, at position `k`, for the file at `path`.
pub open spec fn dispatch_spec(k: int, r: RuleView, path: Seq<char>) -> DispatchView {
    DispatchView {
        rule: k,
        name: r.name,
        cmd: r.cmd,
        args: r.args.map_values(|a: Seq<char>| expand_spec(a, bindings_for(r, path))),
        message: expand_spec(r.msg, bindings_for(r, path)),
        icon: r.icon,
    }
}

/// The dispatches of the rules from position `k` on that accept `path`.
pub open spec fn plan_from(rules: Seq<RuleView>, path: Seq<char>, k: int) -> Seq<DispatchView>
    decreases rules.len() - k,
{
    if k < 0 || k >= rules.len() {
        Seq::empty()
    } else if accepts(rules[k], path) {
        seq![dispatch_spec(k, rules[k], path)] + plan_from(rules, path, k + 1)
    } else {
        plan_from(rules, path, k + 1)
    }
}

/// The dispatches for the file at `path`: one for each rule that accepts it,
/// in rule order.
pub open spec fn plan_spec(rules: Seq<RuleView>, path: Seq<char>) -> Seq<DispatchView> {
    plan_from(rules, path, 0)
}

/// The dispatch of `rule`, at position `k`, for the file at `path`.
pub fn dispatch_for(k: usize, rule: &Rule, path: &str) -> (d: Dispatch)
    ensures
        d@ == dispatch_spec(k as int, rule@, path@),
{
    let mut args: Vec<String> = Vec::new();
    let mut i: usize = 0;
    while i < rule.args.len()
        invariant
            i <= rule.args@.len(),
            args@.len() == i,
            forall|j: int| 0 <= j < i ==> (#[trigger] args@[j])@ == expand_spec(rule.args@[j]@, bindings_for(rule@, path@)),
        decreases rule.args@.len() - i,
    {
        let a = expand_for(rule, path, rule.args[i].as_str());
        args.push(a);
        i = i + 1;
    }
    let message = expand_for(rule, path, rule.msg.as_str());
    let d = Dispatch {
        rule: k,
        name: rule.name.clone(),
        cmd: rule.cmd.clone(),
        args,
        message,
        icon: rule.icon.clone(),
    };
    assert(d@.args =~= dispatch_spec(k as int, rule@, path@).args);
    d
}

/// Plans the dispatches for the ready file at `path`: every rule is checked,
/// and each one that accepts the file gives one dispatch, in rule order.
pub fn plan(rules: &Vec<Rule>, path: &str) -> (r: Vec<Dispatch>)
    ensures
        dispatches_view(r@) == plan_spec(rules_view(rules@), path@),
{
    let ghost rv = rules_view(rules@);
    let short = base_name(path);
    let mut out: Vec<Dispatch> = Vec::new();
    let mut k: usize = 0;
    while k < rules.len()
        invariant
            k <= rules@.len(),
            rv == rules_view(rules@),
            short@ == crate::text::base_name_spec(path@),
            dispatches_view(out@) + plan_from(rv, path@, k as int) == plan_spec(rv, path@),
        decreases rules@.len() - k,
    {
        let rule = &rules[k];
        assert(rv[k as int] == rule@);
        if in_scope(rule, path) && check_rule(rule, short) == Verdict::Matches {
            let d = dispatch_for(k, rule, path);
            let ghost before = out@;
            out.push(d);
            assert(dispatches_view(out@) =~= dispatches_view(before).push(d@));
            assert(dispatches_view(out@) + plan_from(rv, path@, k + 1) =~= dispatches_view(before) + plan_from(rv, path@, k as int));
        }
        k = k + 1;
    }
    assert(dispatches_view(out@) =~= dispatches_view(out@) + plan_from(rv, path@, k as int));
    out
}

/// Rules and completion state for one stream of filesystem events.
pub struct Engine {
    rules: Vec<Rule>,
    detector: Detector,
}

impl Engine {
    /// The engine's rules.
    pub closed spec fn rules_spec(&self) -> Seq<RuleView> {
        rules_view(self.rules@)
    }

    /// The paths created and not yet closed after writing.
    pub closed spec fn pending(&self) -> Set<Seq<char>> {
        self.detector@
    }

    /// The policy for a close-after-write without a preceding create.
    pub closed spec fn policy_spec(&self) -> Policy {
        self.detector.policy_spec()
    }

    /// An engine with the given rules and nothing pending.
    pub fn new(rules: Vec<Rule>, policy: Policy) -> (e: Engine)
        ensures
            e.rules_spec() == rules_view(rules@),
            e.pending() == Set::<Seq<char>>::empty(),
            e.policy_spec() == policy,
    {
        Engine { rules, detector: Detector::new(policy) }
    }

    /// The engine's rules.
    pub fn rules(&self) -> (r: &Vec<Rule>)
        ensures
            rules_view(r@) == self.rules_spec(),
    {
        &self.rules
    }

    /// The engine's policy.
    pub fn policy(&self) -> (p: Policy)
        ensures
            p == self.policy_spec(),
    {
        self.detector.policy()
    }

    /// Whether event `e` would make its file ready, without feeding it.
    pub fn is_ready_for(&self, e: &RawEvent) -> (r: bool)
        ensures
            r == is_ready(self.pending(), self.policy_spec(), e@),
    {
        self.detector.would_be_ready(e)
    }

    /// Feeds one raw event; returns the dispatches to carry out, which are
    /// those of [`plan`] when the event makes its file ready, and none
    /// otherwise.
    pub fn handle(&mut self, e: &RawEvent) -> (r: Vec<Dispatch>)
        ensures
            final(self).pending() == next_pending(old(self).pending(), e@),
            final(self).rules_spec() == old(self).rules_spec(),
            final(self).policy_spec() == old(self).policy_spec(),
            dispatches_view(r@) == (if is_ready(old(self).pending(), old(self).policy_spec(), e@) {
                plan_spec(old(self).rules_spec(), e@.path)
            } else {
                Seq::empty()
            }),
    {
        if self.detector.on_event(e) {
            plan(&self.rules, e.path.as_str())
        } else {
            let r: Vec<Dispatch> = Vec::new();
            assert(dispatches_view(r@) =~= Seq::<DispatchView>::empty());
            r
        }
    }
}

} // verus!
