//! Rewrite rules.
//!
//! A rule looks at the root of a plan, and sometimes one level below it, and
//! either offers a replacement for the whole subtree or declines. It never
//! changes the plan it is given and never searches deeper for a match: the
//! driver walks the tree.

pub mod apply_project;

use vstd::prelude::*;
use crate::optimizer::plan_node::{PlanNode, PlanRef, PlanView};

verus! {

/// A stateless plan transformation.
pub trait Rule {
    /// The replacement that the rule offers for `plan`, or `None` when the
    /// rule does not match.
    spec fn rewritten(&self, plan: PlanView) -> Option<PlanView>;

    /// Applies the rule to the root of `plan`.
    ///
    /// A replacement is a new tree. It is well formed and has the output
    /// schema of the plan it replaces, so it can take that plan's place
    /// under any parent.
    fn apply(&self, plan: &PlanNode) -> (r: Option<PlanRef>)
        requires
            plan@.wf(),
        ensures
            match r {
                Some(replacement) => {
                    &&& self.rewritten(plan@) == Some(replacement@)
                    &&& replacement@.wf()
                    &&& replacement@.schema() == plan@.schema()
                },
                None => self.rewritten(plan@) is None,
            },
    ;
}

/// A rule behind a pointer, as the driver holds it.
pub type BoxedRule = Box<dyn Rule>;

} // verus!
