//! The rule-set driver.
//!
//! The driver owns an ordered collection of rules. One pass walks a plan in
//! post-order: the children of a node are rewritten first, then each rule in
//! turn is offered the rebuilt node. Passes repeat until one of them fires
//! no rule, or until the pass limit is reached.

use vstd::prelude::*;
use crate::optimizer::plan_node::{PlanNode, PlanView};
use crate::optimizer::rule::Rule;

verus! {

/// The result of offering `plan` to each rule of `rules` in order, each rule
/// seeing what the ones before it left, and whether any rule fired.
pub open spec fn rules_applied<R: Rule + ?Sized>(rules: Seq<Box<R>>, plan: PlanView) -> (
    PlanView,
    bool,
)
    decreases rules.len(),
{
    if rules.len() == 0 {
        (plan, false)
    } else {
        let (before, fired) = rules_applied(rules.drop_last(), plan);
        match rules.last().rewritten(before) {
            Some(replacement) => (replacement, true),
            None => (before, fired),
        }
    }
}

/// The result of one post-order pass over `plan`, and whether any rule fired
/// anywhere in the tree.
pub open spec fn pass_applied<R: Rule + ?Sized>(rules: Seq<Box<R>>, plan: PlanView) -> (
    PlanView,
    bool,
)
    decreases plan,
{
    match plan {
        PlanView::Scan { schema } => rules_applied(rules, plan),
        PlanView::Project { input, exprs, aliases } => {
            let (new_input, below) = pass_applied(rules, *input);
            let (node, here) = rules_applied(
                rules,
                PlanView::Project { input: Box::new(new_input), exprs, aliases },
            );
            (node, below || here)
        },
        PlanView::Filter { input, predicate } => {
            let (new_input, below) = pass_applied(rules, *input);
            let (node, here) = rules_applied(
                rules,
                PlanView::Filter { input: Box::new(new_input), predicate },
            );
            (node, below || here)
        },
        PlanView::Join { left, right, join_type, on } => {
            let (new_left, below_left) = pass_applied(rules, *left);
            let (new_right, below_right) = pass_applied(rules, *right);
            let (node, here) = rules_applied(
                rules,
                PlanView::Join {
                    left: Box::new(new_left),
                    right: Box::new(new_right),
                    join_type,
                    on,
                },
            );
            (node, below_left || below_right || here)
        },
        PlanView::Apply { left, right, join_type, correlated } => {
            let (new_left, below_left) = pass_applied(rules, *left);
            let (new_right, below_right) = pass_applied(rules, *right);
            let (node, here) = rules_applied(
                rules,
                PlanView::Apply {
                    left: Box::new(new_left),
                    right: Box::new(new_right),
                    join_type,
                    correlated,
                },
            );
            (node, below_left || below_right || here)
        },
    }
}

/// The plan after passes are repeated until one fires no rule, at most
/// `passes` times.
pub open spec fn optimized<R: Rule + ?Sized>(
    rules: Seq<Box<R>>,
    passes: nat,
    plan: PlanView,
) -> PlanView
    decreases passes,
{
    if passes == 0 {
        plan
    } else {
        let (next, fired) = pass_applied(rules, plan);
        if fired {
            optimized(rules, (passes - 1) as nat, next)
        } else {
            next
        }
    }
}

/// Every rule of `rules` matches, at most, plans with an `Apply` at the
/// root. Decorrelation rules are of this kind.
pub open spec fn match_only_apply<R: Rule + ?Sized>(rules: Seq<Box<R>>) -> bool {
    forall|i: int, plan: PlanView|
        0 <= i < rules.len() && (#[trigger] rules[i].rewritten(plan)) is Some ==> plan is Apply
}

/// Where no rule fires on a node, the node is left as it is.
pub proof fn lemma_quiet_rules_change_nothing<R: Rule + ?Sized>(rules: Seq<Box<R>>, plan: PlanView)
    ensures
        !rules_applied(rules, plan).1 ==> rules_applied(rules, plan).0 == plan,
    decreases rules.len(),
{
    if rules.len() > 0 {
        lemma_quiet_rules_change_nothing(rules.drop_last(), plan);
    }
}

/// A pass that fires no rule returns the plan unchanged.
pub proof fn lemma_quiet_pass_changes_nothing<R: Rule + ?Sized>(rules: Seq<Box<R>>, plan: PlanView)
    ensures
        !pass_applied(rules, plan).1 ==> pass_applied(rules, plan).0 == plan,
    decreases plan,
{
    match plan {
        PlanView::Scan { schema } => {
            lemma_quiet_rules_change_nothing(rules, plan);
        },
        PlanView::Project { input, exprs, aliases } => {
            lemma_quiet_pass_changes_nothing(rules, *input);
            let new_input = pass_applied(rules, *input).0;
            lemma_quiet_rules_change_nothing(
                rules,
                PlanView::Project { input: Box::new(new_input), exprs, aliases },
            );
        },
        PlanView::Filter { input, predicate } => {
            lemma_quiet_pass_changes_nothing(rules, *input);
            let new_input = pass_applied(rules, *input).0;
            lemma_quiet_rules_change_nothing(
                rules,
                PlanView::Filter { input: Box::new(new_input), predicate },
            );
        },
        PlanView::Join { left, right, join_type, on } => {
            lemma_quiet_pass_changes_nothing(rules, *left);
            lemma_quiet_pass_changes_nothing(rules, *right);
            let new_left = pass_applied(rules, *left).0;
            let new_right = pass_applied(rules, *right).0;
            lemma_quiet_rules_change_nothing(
                rules,
                PlanView::Join {
                    left: Box::new(new_left),
                    right: Box::new(new_right),
                    join_type,
                    on,
                },
            );
        },
        PlanView::Apply { left, right, join_type, correlated } => {
            lemma_quiet_pass_changes_nothing(rules, *left);
            lemma_quiet_pass_changes_nothing(rules, *right);
            let new_left = pass_applied(rules, *left).0;
            let new_right = pass_applied(rules, *right).0;
            lemma_quiet_rules_change_nothing(
                rules,
                PlanView::Apply {
                    left: Box::new(new_left),
                    right: Box::new(new_right),
                    join_type,
                    correlated,
                },
            );
        },
    }
}

/// A plan on which a pass fires no rule is a fixpoint of the driver: running
/// the driver on it, with any pass limit, returns it unchanged. So a second
/// run on the result of a run that ended with a quiet pass changes nothing.
pub proof fn lemma_fixpoint_is_stable<R: Rule + ?Sized>(
    rules: Seq<Box<R>>,
    passes: nat,
    plan: PlanView,
)
    requires
        !pass_applied(rules, plan).1,
    ensures
        optimized(rules, passes, plan) == plan,
{
    lemma_quiet_pass_changes_nothing(rules, plan);
}

/// Rules that match only `Apply` roots do not fire on any other node.
pub proof fn lemma_rules_skip_other_nodes<R: Rule + ?Sized>(rules: Seq<Box<R>>, plan: PlanView)
    requires
        match_only_apply(rules),
        !(plan is Apply),
    ensures
        rules_applied(rules, plan) == (plan, false),
    decreases rules.len(),
{
    if rules.len() > 0 {
        let init = rules.drop_last();
        assert forall|i: int, other: PlanView|
            0 <= i < init.len() && (#[trigger] init[i].rewritten(other)) is Some implies other
            is Apply by {
            assert(init[i] == rules[i]);
        }
        lemma_rules_skip_other_nodes(init, plan);
        assert(rules.last() == rules[rules.len() - 1]);
    }
}

/// Rules that match only `Apply` roots fire nowhere in a plan that holds no
/// `Apply`, and a pass returns such a plan unchanged.
pub proof fn lemma_pass_skips_decorrelated_plan<R: Rule + ?Sized>(
    rules: Seq<Box<R>>,
    plan: PlanView,
)
    requires
        match_only_apply(rules),
        plan.apply_count() == 0,
    ensures
        pass_applied(rules, plan) == (plan, false),
    decreases plan,
{
    match plan {
        PlanView::Scan { schema } => {
            lemma_rules_skip_other_nodes(rules, plan);
        },
        PlanView::Project { input, exprs, aliases } => {
            lemma_pass_skips_decorrelated_plan(rules, *input);
            lemma_rules_skip_other_nodes(rules, plan);
        },
        PlanView::Filter { input, predicate } => {
            lemma_pass_skips_decorrelated_plan(rules, *input);
            lemma_rules_skip_other_nodes(rules, plan);
        },
        PlanView::Join { left, right, join_type, on } => {
            lemma_pass_skips_decorrelated_plan(rules, *left);
            lemma_pass_skips_decorrelated_plan(rules, *right);
            lemma_rules_skip_other_nodes(rules, plan);
        },
        PlanView::Apply { left, right, join_type, correlated } => {},
    }
}

/// Decorrelation is idempotent on decorrelated plans: with rules that match
/// only `Apply` roots, the driver returns a plan without `Apply` nodes
/// unchanged, so a second run returns what the first did.
pub proof fn lemma_decorrelated_plan_is_fixpoint<R: Rule + ?Sized>(
    rules: Seq<Box<R>>,
    first_limit: nat,
    second_limit: nat,
    plan: PlanView,
)
    requires
        match_only_apply(rules),
        plan.apply_count() == 0,
    ensures
        optimized(rules, first_limit, plan) == plan,
        optimized(rules, second_limit, optimized(rules, first_limit, plan)) == optimized(
            rules,
            first_limit,
            plan,
        ),
{
    lemma_pass_skips_decorrelated_plan(rules, plan);
}

/// Applies a set of rules to a plan until nothing changes.
pub struct HeuristicOptimizer<R: Rule + ?Sized> {
    pub rules: Vec<Box<R>>,
    pub max_passes: usize,
}

impl<R: Rule + ?Sized> HeuristicOptimizer<R> {
    /// A driver that offers `rules` in the given order and gives up after
    /// `max_passes` passes.
    pub fn new(rules: Vec<Box<R>>, max_passes: usize) -> (r: Self)
        ensures
            r.rules@ == rules@,
            r.max_passes == max_passes,
    {
        HeuristicOptimizer { rules, max_passes }
    }

    /// Offers `plan` to each rule in order. A rule that fires replaces the
    /// plan for the rules after it.
    pub fn optimize_node(&self, plan: PlanNode) -> (r: (PlanNode, bool))
        requires
            plan@.wf(),
        ensures
            (r.0@, r.1) == rules_applied(self.rules@, plan@),
            r.0@.wf(),
            r.0@.schema() == plan@.schema(),
    {
        let mut current = plan;
        let mut fired = false;
        let mut i: usize = 0;
        while i < self.rules.len()
            invariant
                i <= self.rules.len(),
                (current@, fired) == rules_applied(self.rules@.take(i as int), plan@),
                current@.wf(),
                current@.schema() == plan@.schema(),
            decreases self.rules.len() - i,
        {
            assert(self.rules@.take(i + 1).drop_last() =~= self.rules@.take(i as int));
            match self.rules[i].apply(&current) {
                Some(replacement) => {
                    current = *replacement;
                    fired = true;
                },
                None => {},
            }
            i += 1;
        }
        assert(self.rules@.take(i as int) =~= self.rules@);
        (current, fired)
    }

    /// Runs one post-order pass over `plan`: children first, then the node
    /// itself.
    pub fn optimize_pass(&self, plan: PlanNode) -> (r: (PlanNode, bool))
        requires
            plan@.wf(),
        ensures
            (r.0@, r.1) == pass_applied(self.rules@, plan@),
            r.0@.wf(),
            r.0@.schema() == plan@.schema(),
        decreases plan,
    {
        proof {
            reveal_with_fuel(PlanNode::to_view, 2);
        }
        match plan {
            PlanNode::Scan { schema } => self.optimize_node(PlanNode::Scan { schema }),
            PlanNode::Project { input, exprs, expr_alias } => {
                let (new_input, below) = self.optimize_pass(*input);
                let (node, here) = self.optimize_node(
                    PlanNode::Project { input: Box::new(new_input), exprs, expr_alias },
                );
                (node, below || here)
            },
            PlanNode::Filter { input, predicate } => {
                let (new_input, below) = self.optimize_pass(*input);
                let (node, here) = self.optimize_node(
                    PlanNode::Filter { input: Box::new(new_input), predicate },
                );
                (node, below || here)
            },
            PlanNode::Join { left, right, join_type, on } => {
                let (new_left, below_left) = self.optimize_pass(*left);
                let (new_right, below_right) = self.optimize_pass(*right);
                let (node, here) = self.optimize_node(
                    PlanNode::Join {
                        left: Box::new(new_left),
                        right: Box::new(new_right),
                        join_type,
                        on,
                    },
                );
                (node, below_left || below_right || here)
            },
            PlanNode::Apply { left, right, join_type, correlated_indices } => {
                let (new_left, below_left) = self.optimize_pass(*left);
                let (new_right, below_right) = self.optimize_pass(*right);
                let (node, here) = self.optimize_node(
                    PlanNode::Apply {
                        left: Box::new(new_left),
                        right: Box::new(new_right),
                        join_type,
                        correlated_indices,
                    },
                );
                (node, below_left || below_right || here)
            },
        }
    }

    /// Rewrites `plan` to a fixpoint of the rules, or as far as the pass
    /// limit allows. The result is well formed and has the schema of `plan`.
    pub fn optimize(&self, plan: PlanNode) -> (r: PlanNode)
        requires
            plan@.wf(),
        ensures
            r@ == optimized(self.rules@, self.max_passes as nat, plan@),
            r@.wf(),
            r@.schema() == plan@.schema(),
    {
        let mut current = plan;
        let mut remaining = self.max_passes;
        while remaining > 0
            invariant
                current@.wf(),
                current@.schema() == plan@.schema(),
                optimized(self.rules@, remaining as nat, current@) == optimized(
                    self.rules@,
                    self.max_passes as nat,
                    plan@,
                ),
            decreases remaining,
        {
            let (next, fired) = self.optimize_pass(current);
            current = next;
            if !fired {
                return current;
            }
            remaining -= 1;
        }
        current
    }
}

} // verus!
