//! Decorrelation of an `Apply` whose right side is a `Project`.
//!
//! For a left outer apply the projection is pulled above the apply; for a
//! left semi apply, which emits no right column, it is dropped. Other join
//! types are left alone.

use vstd::prelude::*;
use crate::expr::{ExprImpl, InputRef};
use crate::optimizer::plan_node::{
    alias_at,
    alias_views,
    all_refs_within,
    clone_aliases,
    default_name,
    project_field,
    project_schema,
    JoinType,
    PlanNode,
    PlanRef,
    PlanView,
};
use crate::optimizer::heuristic::{
    lemma_fixpoint_is_stable,
    lemma_quiet_pass_changes_nothing,
    match_only_apply,
    optimized,
    pass_applied,
    rules_applied,
};
use crate::optimizer::rule::Rule;
use crate::types::{FieldView, Schema};
use crate::utils::{lemma_shift_rewrites_every_ref, shift_map, ColIndexMapping};

verus! {

/// One reference per column of `schema`, in order, each typed as its column.
pub open spec fn passthrough_exprs(schema: Seq<FieldView>) -> Seq<ExprImpl> {
    Seq::new(
        schema.len(),
        |i: int|
            ExprImpl::InputRef(InputRef { index: i as usize, data_type: schema[i].data_type }),
    )
}

/// Every expression of `exprs` with `offset` added to its references.
pub open spec fn shifted_exprs(exprs: Seq<ExprImpl>, offset: nat) -> Seq<ExprImpl> {
    Seq::new(exprs.len(), |i: int| exprs[i].shifted(offset))
}

/// `n` absent aliases.
pub open spec fn no_aliases(n: nat) -> Seq<Option<Seq<char>>> {
    Seq::new(n, |i: int| None)
}

/// The apply with the projection removed from its right side.
pub open spec fn bare_apply(
    left: PlanView,
    input: PlanView,
    join_type: JoinType,
    correlated: Seq<usize>,
) -> PlanView {
    PlanView::Apply { left: Box::new(left), right: Box::new(input), join_type, correlated }
}

/// The projection pulled above a left outer apply: it passes the left
/// columns through under no alias, then computes the old expressions, moved
/// past the left columns, under their old aliases.
pub open spec fn pulled_up(
    left: PlanView,
    input: PlanView,
    exprs: Seq<ExprImpl>,
    aliases: Seq<Option<Seq<char>>>,
    correlated: Seq<usize>,
) -> PlanView {
    PlanView::Project {
        input: Box::new(bare_apply(left, input, JoinType::LeftOuter, correlated)),
        exprs: passthrough_exprs(left.schema()) + shifted_exprs(exprs, left.schema().len()),
        aliases: no_aliases(left.schema().len()) + aliases,
    }
}

/// What the rule makes of a plan.
///
/// It matches an `Apply` over a `Project`. A left semi apply loses the
/// projection. A left outer apply has it pulled up, provided that the row of
/// the rebuilt apply, the left columns followed by the projection's input
/// columns, can be addressed with `usize`. Every other plan is declined.
pub open spec fn decorrelated(plan: PlanView) -> Option<PlanView> {
    match plan {
        PlanView::Apply { left, right, join_type, correlated } => match *right {
            PlanView::Project { input, exprs, aliases } => match join_type {
                JoinType::LeftOuter => if left.schema().len() + input.schema().len()
                    <= usize::MAX {
                    Some(pulled_up(*left, *input, exprs, aliases, correlated))
                } else {
                    None
                },
                JoinType::LeftSemi => Some(bare_apply(*left, *input, join_type, correlated)),
                _ => None,
            },
            _ => None,
        },
        _ => None,
    }
}

/// Moving an expression past `offset` new leading columns keeps it within
/// the widened row.
pub proof fn lemma_shifted_within(expr: ExprImpl, width: nat, offset: nat)
    requires
        expr.refs_within(width),
        width + offset <= usize::MAX + 1,
    ensures
        expr.shifted(offset).refs_within(width + offset),
    decreases expr,
{
    match expr {
        ExprImpl::InputRef(_) => {},
        ExprImpl::Literal(_) => {},
        ExprImpl::Nullif(nullif) => {
            lemma_shifted_within(*nullif.left, width, offset);
            lemma_shifted_within(*nullif.right, width, offset);
        },
    }
}

/// A projection derives the same output column for an expression over
/// `input` as for the shifted expression over `input` with `lead` put in
/// front.
pub proof fn lemma_shifted_field(
    expr: ExprImpl,
    alias: Option<Seq<char>>,
    lead: Seq<FieldView>,
    input: Seq<FieldView>,
)
    requires
        expr.refs_within(input.len()),
        lead.len() + input.len() <= usize::MAX + 1,
    ensures
        project_field(expr.shifted(lead.len()), alias, lead + input) == project_field(
            expr,
            alias,
            input,
        ),
{
    match expr {
        ExprImpl::InputRef(input_ref) => {
            assert((lead + input)[input_ref.index + lead.len()] == input[input_ref.index as int]);
        },
        ExprImpl::Literal(_) => {},
        ExprImpl::Nullif(_) => {},
    }
}

/// Pulling the projection above a left outer apply keeps the output schema:
/// the new projection has one expression per left column and per old
/// expression, and its output schema is the left schema followed by the old
/// projection's output schema, which is the schema of the plan it replaces.
/// The new plan is well formed.
pub proof fn lemma_left_outer_keeps_schema(
    left: PlanView,
    input: PlanView,
    exprs: Seq<ExprImpl>,
    aliases: Seq<Option<Seq<char>>>,
    correlated: Seq<usize>,
)
    requires
        bare_apply(
            left,
            PlanView::Project { input: Box::new(input), exprs, aliases },
            JoinType::LeftOuter,
            correlated,
        ).wf(),
        left.schema().len() + input.schema().len() <= usize::MAX,
    ensures
        decorrelated(
            bare_apply(
                left,
                PlanView::Project { input: Box::new(input), exprs, aliases },
                JoinType::LeftOuter,
                correlated,
            ),
        ) == Some(pulled_up(left, input, exprs, aliases, correlated)),
        pulled_up(left, input, exprs, aliases, correlated) matches PlanView::Project {
            exprs: new_exprs,
            ..
        } && new_exprs.len() == left.schema().len() + exprs.len(),
        pulled_up(left, input, exprs, aliases, correlated).schema() == left.schema()
            + (PlanView::Project { input: Box::new(input), exprs, aliases }).schema(),
        pulled_up(left, input, exprs, aliases, correlated).schema() == bare_apply(
            left,
            PlanView::Project { input: Box::new(input), exprs, aliases },
            JoinType::LeftOuter,
            correlated,
        ).schema(),
        pulled_up(left, input, exprs, aliases, correlated).wf(),
{
    reveal_with_fuel(PlanView::wf, 3);
    reveal_with_fuel(PlanView::schema, 3);
    let lead = left.schema();
    let row = lead + input.schema();
    let n = lead.len();
    let new_exprs = passthrough_exprs(lead) + shifted_exprs(exprs, n);
    let new_aliases = no_aliases(n) + aliases;
    let old_project = PlanView::Project { input: Box::new(input), exprs, aliases };
    let new_plan = pulled_up(left, input, exprs, aliases, correlated);
    assert(bare_apply(left, input, JoinType::LeftOuter, correlated).schema() == row);
    assert forall|i: int| 0 <= i < new_exprs.len() implies (#[trigger] new_exprs[i]).refs_within(
        row.len(),
    ) by {
        if i >= n {
            assert(exprs[i - n].refs_within(input.schema().len()));
            lemma_shifted_within(exprs[i - n], input.schema().len(), n);
        }
    }
    assert(new_plan.wf());
    let new_schema = project_schema(new_exprs, new_aliases, row);
    let old_schema = lead + project_schema(exprs, aliases, input.schema());
    assert forall|i: int| 0 <= i < new_schema.len() implies new_schema[i] == old_schema[i] by {
        if i < n {
            assert(alias_at(new_aliases, i) is None);
            assert(default_name(new_exprs[i], row) == lead[i].name);
        } else {
            assert(exprs[i - n].refs_within(input.schema().len()));
            assert(alias_at(new_aliases, i) == alias_at(aliases, i - n));
            lemma_shifted_field(exprs[i - n], alias_at(aliases, i - n), lead, input.schema());
        }
    }
    assert(new_schema =~= old_schema);
}

/// Dropping the projection under a left semi apply keeps the output schema:
/// before and after, it is the left schema alone, whatever the projection
/// computed. If the old plan is well formed, so is the new one.
pub proof fn lemma_left_semi_keeps_schema(
    left: PlanView,
    input: PlanView,
    exprs: Seq<ExprImpl>,
    aliases: Seq<Option<Seq<char>>>,
    correlated: Seq<usize>,
)
    ensures
        decorrelated(
            bare_apply(
                left,
                PlanView::Project { input: Box::new(input), exprs, aliases },
                JoinType::LeftSemi,
                correlated,
            ),
        ) == Some(bare_apply(left, input, JoinType::LeftSemi, correlated)),
        bare_apply(left, input, JoinType::LeftSemi, correlated).schema() == left.schema(),
        bare_apply(
            left,
            PlanView::Project { input: Box::new(input), exprs, aliases },
            JoinType::LeftSemi,
            correlated,
        ).schema() == left.schema(),
        bare_apply(
            left,
            PlanView::Project { input: Box::new(input), exprs, aliases },
            JoinType::LeftSemi,
            correlated,
        ).wf() ==> bare_apply(left, input, JoinType::LeftSemi, correlated).wf(),
{
    reveal_with_fuel(PlanView::wf, 3);
    reveal_with_fuel(PlanView::schema, 3);
}

/// The rule matches nothing but an `Apply` at the root, so any set of
/// copies of it leaves plans without `Apply` nodes alone.
pub proof fn lemma_matches_only_apply(rules: Seq<Box<ApplyProjectRule>>)
    ensures
        forall|plan: PlanView| decorrelated(plan) is Some ==> plan is Apply,
        match_only_apply(rules),
{
}

/// The work that is left for the rule in a plan: for every `Apply`, the
/// number of `Project` nodes below its right side. Each firing of the rule
/// moves one projection out from under an apply, so this number bounds how
/// often the rule can fire.
pub open spec fn pending(plan: PlanView) -> nat
    decreases plan,
{
    match plan {
        PlanView::Scan { schema } => 0,
        PlanView::Project { input, exprs, aliases } => pending(*input),
        PlanView::Filter { input, predicate } => pending(*input),
        PlanView::Join { left, right, join_type, on } => pending(*left) + pending(*right),
        PlanView::Apply { left, right, join_type, correlated } => pending(*left) + pending(*right)
            + right.project_count(),
    }
}

/// A firing of the rule leaves less work and no more projections.
pub proof fn lemma_rule_makes_progress(plan: PlanView)
    requires
        decorrelated(plan) is Some,
    ensures
        pending(decorrelated(plan).unwrap()) < pending(plan),
        decorrelated(plan).unwrap().project_count() <= plan.project_count(),
        decorrelated(plan).unwrap().apply_count() == plan.apply_count(),
{
    reveal_with_fuel(pending, 3);
    reveal_with_fuel(PlanView::project_count, 3);
    reveal_with_fuel(PlanView::apply_count, 3);
}

/// Offering a node to copies of the rule never adds work or projections, and
/// removes work when a copy fires.
pub proof fn lemma_rules_make_progress(rules: Seq<Box<ApplyProjectRule>>, plan: PlanView)
    ensures
        pending(rules_applied(rules, plan).0) <= pending(plan),
        rules_applied(rules, plan).0.project_count() <= plan.project_count(),
        rules_applied(rules, plan).1 ==> pending(rules_applied(rules, plan).0) < pending(plan),
    decreases rules.len(),
{
    if rules.len() > 0 {
        lemma_rules_make_progress(rules.drop_last(), plan);
        let before = rules_applied(rules.drop_last(), plan).0;
        if decorrelated(before) is Some {
            lemma_rule_makes_progress(before);
        }
    }
}

/// A pass with copies of the rule never adds work or projections, and
/// removes work when a copy fires anywhere.
pub proof fn lemma_pass_makes_progress(rules: Seq<Box<ApplyProjectRule>>, plan: PlanView)
    ensures
        pending(pass_applied(rules, plan).0) <= pending(plan),
        pass_applied(rules, plan).0.project_count() <= plan.project_count(),
        pass_applied(rules, plan).1 ==> pending(pass_applied(rules, plan).0) < pending(plan),
    decreases plan,
{
    match plan {
        PlanView::Scan { schema } => {
            lemma_rules_make_progress(rules, plan);
        },
        PlanView::Project { input, exprs, aliases } => {
            lemma_pass_makes_progress(rules, *input);
            let new_input = pass_applied(rules, *input).0;
            lemma_rules_make_progress(
                rules,
                PlanView::Project { input: Box::new(new_input), exprs, aliases },
            );
        },
        PlanView::Filter { input, predicate } => {
            lemma_pass_makes_progress(rules, *input);
            let new_input = pass_applied(rules, *input).0;
            lemma_rules_make_progress(
                rules,
                PlanView::Filter { input: Box::new(new_input), predicate },
            );
        },
        PlanView::Join { left, right, join_type, on } => {
            lemma_pass_makes_progress(rules, *left);
            lemma_pass_makes_progress(rules, *right);
            let new_left = pass_applied(rules, *left).0;
            let new_right = pass_applied(rules, *right).0;
            lemma_rules_make_progress(
                rules,
                PlanView::Join {
                    left: Box::new(new_left),
                    right: Box::new(new_right),
                    join_type,
                    on,
                },
            );
        },
        PlanView::Apply { left, right, join_type, correlated } => {
            lemma_pass_makes_progress(rules, *left);
            lemma_pass_makes_progress(rules, *right);
            let new_left = pass_applied(rules, *left).0;
            let new_right = pass_applied(rules, *right).0;
            lemma_rules_make_progress(
                rules,
                PlanView::Apply {
                    left: Box::new(new_left),
                    right: Box::new(new_right),
                    join_type,
                    correlated,
                },
            );
        },
    }
}

/// The driver reaches a fixpoint of the rule before a pass limit that
/// exceeds the work pending in the plan: on the result no copy of the rule
/// fires, and a second run, under any limit, returns the result of the first.
pub proof fn lemma_driver_reaches_fixpoint(
    rules: Seq<Box<ApplyProjectRule>>,
    first_limit: nat,
    second_limit: nat,
    plan: PlanView,
)
    requires
        first_limit > pending(plan),
    ensures
        !pass_applied(rules, optimized(rules, first_limit, plan)).1,
        optimized(rules, second_limit, optimized(rules, first_limit, plan)) == optimized(
            rules,
            first_limit,
            plan,
        ),
    decreases first_limit,
{
    let (next, fired) = pass_applied(rules, plan);
    lemma_pass_makes_progress(rules, plan);
    lemma_quiet_pass_changes_nothing(rules, plan);
    if fired {
        lemma_driver_reaches_fixpoint(rules, (first_limit - 1) as nat, second_limit, next);
    }
    lemma_fixpoint_is_stable(rules, second_limit, optimized(rules, first_limit, plan));
}

/// The rule that removes a `Project` from under an `Apply`.
pub struct ApplyProjectRule {}

impl Rule for ApplyProjectRule {
    open spec fn rewritten(&self, plan: PlanView) -> Option<PlanView> {
        decorrelated(plan)
    }

    fn apply(&self, plan: &PlanNode) -> (r: Option<PlanRef>) {
        proof {
            reveal_with_fuel(PlanNode::to_view, 3);
            reveal_with_fuel(PlanView::wf, 3);
        }
        let (left, right, join_type, correlated_indices) = match plan {
            PlanNode::Apply { left, right, join_type, correlated_indices } => (
                left,
                right,
                *join_type,
                correlated_indices,
            ),
            _ => { return None; },
        };
        let (input, exprs, expr_alias) = match &**right {
            PlanNode::Project { input, exprs, expr_alias } => (input, exprs, expr_alias),
            _ => { return None; },
        };
        match join_type {
            JoinType::LeftOuter => {
                let left_schema = left.schema();
                let left_len = left_schema.len();
                let input_len = input.schema().len();
                if left_len.checked_add(input_len).is_none() {
                    return None;
                }
                proof {
                    lemma_left_outer_keeps_schema(
                        left@,
                        input@,
                        exprs@,
                        alias_views(expr_alias@),
                        correlated_indices@,
                    );
                }
                let lifted_exprs = lift_exprs(&left_schema, exprs, input_len);
                let lifted_alias = lift_aliases(left_len, expr_alias);
                let new_apply = PlanNode::Apply {
                    left: Box::new((&**left).clone()),
                    right: Box::new((&**input).clone()),
                    join_type,
                    correlated_indices: correlated_indices.clone(),
                };
                let lifted_project = PlanNode::Project {
                    input: Box::new(new_apply),
                    exprs: lifted_exprs,
                    expr_alias: lifted_alias,
                };
                Some(Box::new(lifted_project))
            },
            JoinType::LeftSemi => {
                proof {
                    lemma_left_semi_keeps_schema(
                        left@,
                        input@,
                        exprs@,
                        alias_views(expr_alias@),
                        correlated_indices@,
                    );
                }
                let new_apply = PlanNode::Apply {
                    left: Box::new((&**left).clone()),
                    right: Box::new((&**input).clone()),
                    join_type,
                    correlated_indices: correlated_indices.clone(),
                };
                Some(Box::new(new_apply))
            },
            _ => None,
        }
    }
}

/// The expression list of the pulled-up projection: a reference to each
/// column of `left_schema`, then each of `exprs`, which read an input of
/// `input_len` columns, moved past the left columns.
fn lift_exprs(left_schema: &Schema, exprs: &Vec<ExprImpl>, input_len: usize) -> (r: Vec<ExprImpl>)
    requires
        input_len + left_schema@.len() <= usize::MAX,
        all_refs_within(exprs@, input_len as nat),
    ensures
        r@ == passthrough_exprs(left_schema@) + shifted_exprs(exprs@, left_schema@.len()),
{
    let left_len = left_schema.len();
    // Each reference of the old projection moves up by the number of left columns.
    let shift = ColIndexMapping::with_shift_offset(input_len, left_len);
    let ghost lead = passthrough_exprs(left_schema@);
    let mut lifted: Vec<ExprImpl> = Vec::new();
    let mut i: usize = 0;
    while i < left_len
        invariant
            i <= left_len,
            left_len == left_schema@.len(),
            lead == passthrough_exprs(left_schema@),
            lifted@ == lead.take(i as int),
        decreases left_len - i,
    {
        lifted.push(ExprImpl::InputRef(InputRef::new(i, left_schema.fields[i].data_type)));
        assert(lifted@ =~= lead.take(i + 1));
        i += 1;
    }
    assert(lead.take(i as int) =~= lead);
    let ghost moved = shifted_exprs(exprs@, left_len as nat);
    let mut k: usize = 0;
    while k < exprs.len()
        invariant
            k <= exprs.len(),
            left_len == left_schema@.len(),
            shift@ == shift_map(input_len as nat, left_len as nat),
            input_len + left_len <= usize::MAX,
            all_refs_within(exprs@, input_len as nat),
            moved == shifted_exprs(exprs@, left_len as nat),
            lifted@ == lead + moved.take(k as int),
        decreases exprs.len() - k,
    {
        proof {
            lemma_shift_rewrites_every_ref(exprs@[k as int], input_len as nat, left_len as nat);
        }
        match shift.rewrite_expr(&exprs[k]) {
            Ok(expr) => {
                lifted.push(expr);
            },
            Err(_) => {
                // The shift has an entry for every column that `exprs` reads.
                assert(false);
            },
        }
        assert(lifted@ =~= lead + moved.take(k + 1));
        k += 1;
    }
    assert(moved.take(k as int) =~= moved);
    lifted
}

/// The alias list of the pulled-up projection: no alias for each of the
/// `left_len` left columns, then the old aliases.
fn lift_aliases(left_len: usize, expr_alias: &Vec<Option<String>>) -> (r: Vec<Option<String>>)
    ensures
        alias_views(r@) == no_aliases(left_len as nat) + alias_views(expr_alias@),
{
    let mut lifted: Vec<Option<String>> = Vec::new();
    let mut i: usize = 0;
    while i < left_len
        invariant
            i <= left_len,
            lifted@.len() == i,
            alias_views(lifted@) == no_aliases(i as nat),
        decreases left_len - i,
    {
        let ghost before = lifted@;
        lifted.push(None);
        assert forall|j: int| 0 <= j < i + 1 implies alias_views(lifted@)[j] == no_aliases(
            (i + 1) as nat,
        )[j] by {
            if j < i {
                assert(alias_views(before)[j] == no_aliases(i as nat)[j]);
            }
        }
        assert(alias_views(lifted@) =~= no_aliases((i + 1) as nat));
        i += 1;
    }
    let mut old_aliases = clone_aliases(expr_alias);
    let ghost lead = lifted@;
    let ghost tail = old_aliases@;
    lifted.append(&mut old_aliases);
    assert(alias_views(lifted@) =~= alias_views(lead) + alias_views(tail));
    lifted
}

impl ApplyProjectRule {
    /// The rule, ready to be registered with a driver.
    pub fn create() -> (r: Box<ApplyProjectRule>)
        ensures
            forall|plan: PlanView| (#[trigger] r.rewritten(plan)) == decorrelated(plan),
    {
        Box::new(ApplyProjectRule {})
    }
}

} // verus!
