//! Logical plan trees.
//!
//! A plan is an immutable tree of relational operators. Every node owns its
//! children and derives its output schema from them and from its own
//! parameters. Expressions inside a node address the columns of the node's
//! input by position, so a plan is well formed only when every such position
//! exists.

use vstd::prelude::*;
use crate::expr::ExprImpl;
use crate::types::{Field, FieldView, Schema};

verus! {

/// The join flavours of `Join` and `Apply`.
#[derive(Clone, Copy, Debug, PartialEq, Eq, Structural)]
pub enum JoinType {
    Inner,
    LeftOuter,
    RightOuter,
    FullOuter,
    LeftSemi,
    LeftAnti,
}

impl JoinType {
    /// Whether the right side's columns appear in the output. Semi and anti
    /// joins only test for a match and emit the left side alone.
    pub open spec fn keeps_right(self) -> bool {
        !(self is LeftSemi || self is LeftAnti)
    }

    /// Exec form of [`Self::keeps_right`].
    pub fn emits_right(&self) -> (r: bool)
        ensures
            r == self.keeps_right(),
    {
        match self {
            JoinType::LeftSemi => false,
            JoinType::LeftAnti => false,
            _ => true,
        }
    }
}

/// The mathematical value of a plan: the same tree with sequences in place
/// of vectors and strings.
pub enum PlanView {
    Scan { schema: Seq<FieldView> },
    Project { input: Box<PlanView>, exprs: Seq<ExprImpl>, aliases: Seq<Option<Seq<char>>> },
    Filter { input: Box<PlanView>, predicate: ExprImpl },
    Join { left: Box<PlanView>, right: Box<PlanView>, join_type: JoinType, on: ExprImpl },
    Apply {
        left: Box<PlanView>,
        right: Box<PlanView>,
        join_type: JoinType,
        correlated: Seq<usize>,
    },
}

/// The name of an output column that has neither an alias nor a source
/// column to take a name from.
pub open spec fn unnamed() -> Seq<char> {
    "?column?"@
}

/// The name a projection gives to an expression without an alias: a bare
/// column reference keeps the name of the column it reads, anything else is
/// unnamed.
pub open spec fn default_name(expr: ExprImpl, input: Seq<FieldView>) -> Seq<char> {
    match expr {
        ExprImpl::InputRef(input_ref) => if input_ref.index < input.len() {
            input[input_ref.index as int].name
        } else {
            unnamed()
        },
        _ => unnamed(),
    }
}

/// The output column of a projection for one expression: named by the alias
/// if there is one, typed by the expression.
pub open spec fn project_field(
    expr: ExprImpl,
    alias: Option<Seq<char>>,
    input: Seq<FieldView>,
) -> FieldView {
    FieldView {
        name: match alias {
            Some(name) => name,
            None => default_name(expr, input),
        },
        data_type: expr.return_type_of(),
    }
}

/// The alias at position `i`, or none when the list is too short.
pub open spec fn alias_at(aliases: Seq<Option<Seq<char>>>, i: int) -> Option<Seq<char>> {
    if 0 <= i < aliases.len() {
        aliases[i]
    } else {
        None
    }
}

/// The output schema of a projection over an input with schema `input`.
pub open spec fn project_schema(
    exprs: Seq<ExprImpl>,
    aliases: Seq<Option<Seq<char>>>,
    input: Seq<FieldView>,
) -> Seq<FieldView> {
    Seq::new(exprs.len(), |i: int| project_field(exprs[i], alias_at(aliases, i), input))
}

/// The output schema of a join or apply: the left columns, followed by the
/// right columns unless the join type drops them.
pub open spec fn joined_schema(
    join_type: JoinType,
    left: Seq<FieldView>,
    right: Seq<FieldView>,
) -> Seq<FieldView> {
    if join_type.keeps_right() {
        left + right
    } else {
        left
    }
}

/// Every expression of `exprs` refers only to columns below `width`.
pub open spec fn all_refs_within(exprs: Seq<ExprImpl>, width: nat) -> bool {
    forall|i: int| 0 <= i < exprs.len() ==> (#[trigger] exprs[i]).refs_within(width)
}

/// Every index of `indices` is below `width`.
pub open spec fn all_below(indices: Seq<usize>, width: nat) -> bool {
    forall|i: int| 0 <= i < indices.len() ==> (#[trigger] indices[i]) < width
}

impl PlanView {
    /// The output schema that the node derives.
    pub open spec fn schema(self) -> Seq<FieldView>
        decreases self,
    {
        match self {
            PlanView::Scan { schema } => schema,
            PlanView::Project { input, exprs, aliases } => project_schema(
                exprs,
                aliases,
                input.schema(),
            ),
            PlanView::Filter { input, predicate } => input.schema(),
            PlanView::Join { left, right, join_type, on } => joined_schema(
                join_type,
                left.schema(),
                right.schema(),
            ),
            PlanView::Apply { left, right, join_type, correlated } => joined_schema(
                join_type,
                left.schema(),
                right.schema(),
            ),
        }
    }

    /// The plan is well formed: throughout the tree, a projection has one
    /// alias slot per expression, every column reference points into the
    /// schema of the input that its node reads, and an apply's correlated
    /// columns are columns of its left side.
    pub open spec fn wf(self) -> bool
        decreases self,
    {
        match self {
            PlanView::Scan { schema } => true,
            PlanView::Project { input, exprs, aliases } => {
                &&& input.wf()
                &&& exprs.len() == aliases.len()
                &&& all_refs_within(exprs, input.schema().len())
            },
            PlanView::Filter { input, predicate } => {
                &&& input.wf()
                &&& predicate.refs_within(input.schema().len())
            },
            PlanView::Join { left, right, join_type, on } => {
                &&& left.wf()
                &&& right.wf()
                &&& on.refs_within(left.schema().len() + right.schema().len())
            },
            PlanView::Apply { left, right, join_type, correlated } => {
                &&& left.wf()
                &&& right.wf()
                &&& all_below(correlated, left.schema().len())
            },
        }
    }

    /// The number of `Project` nodes in the tree.
    pub open spec fn project_count(self) -> nat
        decreases self,
    {
        match self {
            PlanView::Scan { schema } => 0,
            PlanView::Project { input, exprs, aliases } => 1 + input.project_count(),
            PlanView::Filter { input, predicate } => input.project_count(),
            PlanView::Join { left, right, join_type, on } => left.project_count()
                + right.project_count(),
            PlanView::Apply { left, right, join_type, correlated } => left.project_count()
                + right.project_count(),
        }
    }

    /// The number of `Apply` nodes in the tree.
    pub open spec fn apply_count(self) -> nat
        decreases self,
    {
        match self {
            PlanView::Scan { schema } => 0,
            PlanView::Project { input, exprs, aliases } => input.apply_count(),
            PlanView::Filter { input, predicate } => input.apply_count(),
            PlanView::Join { left, right, join_type, on } => left.apply_count()
                + right.apply_count(),
            PlanView::Apply { left, right, join_type, correlated } => 1 + left.apply_count()
                + right.apply_count(),
        }
    }
}

/// A logical plan.
#[derive(Debug, PartialEq, Eq)]
pub enum PlanNode {
    /// A base relation with the given columns.
    Scan { schema: Schema },
    /// One output column per expression, each computed from a row of `input`.
    Project { input: PlanRef, exprs: Vec<ExprImpl>, expr_alias: Vec<Option<String>> },
    /// The rows of `input` that satisfy `predicate`.
    Filter { input: PlanRef, predicate: ExprImpl },
    /// A join of two independent inputs. `on` reads the left columns followed
    /// by the right columns.
    Join { left: PlanRef, right: PlanRef, join_type: JoinType, on: ExprImpl },
    /// A correlated subquery: `right` is run for each row of `left` and may
    /// read the columns of `left` listed in `correlated_indices`.
    Apply { left: PlanRef, right: PlanRef, join_type: JoinType, correlated_indices: Vec<usize> },
}

/// A plan as a child of another node.
pub type PlanRef = Box<PlanNode>;

/// The view of an optional alias.
pub open spec fn alias_view(alias: Option<String>) -> Option<Seq<char>> {
    match alias {
        Some(name) => Some(name@),
        None => None,
    }
}

/// The views of a vector of aliases, in order.
pub open spec fn alias_views(aliases: Seq<Option<String>>) -> Seq<Option<Seq<char>>> {
    Seq::new(aliases.len(), |i: int| alias_view(aliases[i]))
}

impl PlanNode {
    /// The mathematical value of the plan.
    pub open spec fn to_view(self) -> PlanView
        decreases self,
    {
        match self {
            PlanNode::Scan { schema } => PlanView::Scan { schema: schema@ },
            PlanNode::Project { input, exprs, expr_alias } => PlanView::Project {
                input: Box::new(input.to_view()),
                exprs: exprs@,
                aliases: alias_views(expr_alias@),
            },
            PlanNode::Filter { input, predicate } => PlanView::Filter {
                input: Box::new(input.to_view()),
                predicate,
            },
            PlanNode::Join { left, right, join_type, on } => PlanView::Join {
                left: Box::new(left.to_view()),
                right: Box::new(right.to_view()),
                join_type,
                on,
            },
            PlanNode::Apply { left, right, join_type, correlated_indices } => PlanView::Apply {
                left: Box::new(left.to_view()),
                right: Box::new(right.to_view()),
                join_type,
                correlated: correlated_indices@,
            },
        }
    }
}

impl View for PlanNode {
    type V = PlanView;

    open spec fn view(&self) -> PlanView {
        self.to_view()
    }
}

/// A reference that points past every `usize` is impossible, so any
/// expression stays within a width that no `usize` reaches.
pub proof fn lemma_refs_within_unbounded(expr: ExprImpl, width: nat)
    requires
        width > usize::MAX,
    ensures
        expr.refs_within(width),
    decreases expr,
{
    match expr {
        ExprImpl::InputRef(_) => {},
        ExprImpl::Literal(_) => {},
        ExprImpl::Nullif(nullif) => {
            lemma_refs_within_unbounded(*nullif.left, width);
            lemma_refs_within_unbounded(*nullif.right, width);
        },
    }
}

/// Copies a list of expressions.
pub fn clone_exprs(exprs: &Vec<ExprImpl>) -> (r: Vec<ExprImpl>)
    ensures
        r@ == exprs@,
{
    let mut copy: Vec<ExprImpl> = Vec::with_capacity(exprs.len());
    let mut i: usize = 0;
    while i < exprs.len()
        invariant
            i <= exprs.len(),
            copy@ == exprs@.take(i as int),
        decreases exprs.len() - i,
    {
        copy.push(exprs[i].clone());
        i += 1;
    }
    assert(exprs@.take(i as int) =~= exprs@);
    copy
}

/// Copies a list of aliases.
pub fn clone_aliases(aliases: &Vec<Option<String>>) -> (r: Vec<Option<String>>)
    ensures
        alias_views(r@) == alias_views(aliases@),
{
    let mut copy: Vec<Option<String>> = Vec::with_capacity(aliases.len());
    let mut i: usize = 0;
    while i < aliases.len()
        invariant
            i <= aliases.len(),
            copy@.len() == i,
            forall|j: int| 0 <= j < i ==> alias_view(copy@[j]) == alias_view(aliases@[j]),
        decreases aliases.len() - i,
    {
        let alias = match &aliases[i] {
            Some(name) => Some(name.clone()),
            None => None,
        };
        copy.push(alias);
        i += 1;
    }
    assert(alias_views(copy@) =~= alias_views(aliases@));
    copy
}

impl Clone for PlanNode {
    fn clone(&self) -> (r: Self)
        ensures
            r@ == self@,
        decreases self,
    {
        match self {
            PlanNode::Scan { schema } => PlanNode::Scan { schema: schema.clone() },
            PlanNode::Project { input, exprs, expr_alias } => PlanNode::Project {
                input: Box::new((&**input).clone()),
                exprs: clone_exprs(exprs),
                expr_alias: clone_aliases(expr_alias),
            },
            PlanNode::Filter { input, predicate } => PlanNode::Filter {
                input: Box::new((&**input).clone()),
                predicate: predicate.clone(),
            },
            PlanNode::Join { left, right, join_type, on } => PlanNode::Join {
                left: Box::new((&**left).clone()),
                right: Box::new((&**right).clone()),
                join_type: *join_type,
                on: on.clone(),
            },
            PlanNode::Apply { left, right, join_type, correlated_indices } => PlanNode::Apply {
                left: Box::new((&**left).clone()),
                right: Box::new((&**right).clone()),
                join_type: *join_type,
                correlated_indices: correlated_indices.clone(),
            },
        }
    }
}

/// The output column that a projection over `input` derives for `expr`
/// under `alias`.
fn derive_field(expr: &ExprImpl, alias: &Option<String>, input: &Schema) -> (r: Field)
    ensures
        r@ == project_field(*expr, alias_view(*alias), input@),
{
    let name = match alias {
        Some(name) => name.clone(),
        None => match expr {
            ExprImpl::InputRef(input_ref) => {
                if input_ref.index < input.fields.len() {
                    input.fields[input_ref.index].name.clone()
                } else {
                    "?column?".to_owned()
                }
            },
            _ => "?column?".to_owned(),
        },
    };
    Field::new(name, expr.return_type())
}

/// The columns of `left` followed by those of `right`.
fn concat_schemas(left: Schema, right: Schema) -> (r: Schema)
    ensures
        r@ == left@ + right@,
{
    let mut fields = left.fields;
    let mut rest = right.fields;
    fields.append(&mut rest);
    let r = Schema { fields };
    assert(r@ =~= left@ + right@);
    r
}

/// Tells whether every expression refers only to columns below `width`.
pub fn exprs_have_refs_within(exprs: &Vec<ExprImpl>, width: usize) -> (r: bool)
    ensures
        r == all_refs_within(exprs@, width as nat),
{
    let mut i: usize = 0;
    while i < exprs.len()
        invariant
            i <= exprs.len(),
            forall|j: int| 0 <= j < i ==> (#[trigger] exprs@[j]).refs_within(width as nat),
        decreases exprs.len() - i,
    {
        if !exprs[i].has_refs_within(width) {
            return false;
        }
        i += 1;
    }
    true
}

/// Tells whether every index is below `width`.
pub fn indices_below(indices: &Vec<usize>, width: usize) -> (r: bool)
    ensures
        r == all_below(indices@, width as nat),
{
    let mut i: usize = 0;
    while i < indices.len()
        invariant
            i <= indices.len(),
            forall|j: int| 0 <= j < i ==> (#[trigger] indices@[j]) < width,
        decreases indices.len() - i,
    {
        if indices[i] >= width {
            return false;
        }
        i += 1;
    }
    true
}

impl PlanNode {
    /// The output schema of the plan.
    pub fn schema(&self) -> (r: Schema)
        ensures
            r@ == self@.schema(),
        decreases self,
    {
        match self {
            PlanNode::Scan { schema } => schema.clone(),
            PlanNode::Project { input, exprs, expr_alias } => {
                let input_schema = input.schema();
                let no_alias: Option<String> = None;
                let mut fields: Vec<Field> = Vec::with_capacity(exprs.len());
                let mut i: usize = 0;
                while i < exprs.len()
                    invariant
                        i <= exprs.len(),
                        fields@.len() == i,
                        no_alias is None,
                        forall|j: int|
                            0 <= j < i ==> (#[trigger] fields@[j])@ == project_field(
                                exprs@[j],
                                alias_at(alias_views(expr_alias@), j),
                                input_schema@,
                            ),
                    decreases exprs.len() - i,
                {
                    let alias = if i < expr_alias.len() {
                        &expr_alias[i]
                    } else {
                        &no_alias
                    };
                    fields.push(derive_field(&exprs[i], alias, &input_schema));
                    i += 1;
                }
                let r = Schema { fields };
                assert(r@ =~= self@.schema());
                r
            },
            PlanNode::Filter { input, predicate } => input.schema(),
            PlanNode::Join { left, right, join_type, on } => {
                if join_type.emits_right() {
                    concat_schemas(left.schema(), right.schema())
                } else {
                    left.schema()
                }
            },
            PlanNode::Apply { left, right, join_type, correlated_indices } => {
                if join_type.emits_right() {
                    concat_schemas(left.schema(), right.schema())
                } else {
                    left.schema()
                }
            },
        }
    }

    /// Tells whether the plan is well formed.
    pub fn is_well_formed(&self) -> (r: bool)
        ensures
            r == self@.wf(),
        decreases self,
    {
        match self {
            PlanNode::Scan { schema } => true,
            PlanNode::Project { input, exprs, expr_alias } => {
                if !input.is_well_formed() || exprs.len() != expr_alias.len() {
                    return false;
                }
                exprs_have_refs_within(exprs, input.schema().len())
            },
            PlanNode::Filter { input, predicate } => {
                input.is_well_formed() && predicate.has_refs_within(input.schema().len())
            },
            PlanNode::Join { left, right, join_type, on } => {
                if !left.is_well_formed() || !right.is_well_formed() {
                    return false;
                }
                match left.schema().len().checked_add(right.schema().len()) {
                    Some(width) => on.has_refs_within(width),
                    None => {
                        proof {
                            lemma_refs_within_unbounded(
                                *on,
                                left@.schema().len() + right@.schema().len(),
                            );
                        }
                        true
                    },
                }
            },
            PlanNode::Apply { left, right, join_type, correlated_indices } => {
                if !left.is_well_formed() || !right.is_well_formed() {
                    return false;
                }
                indices_below(correlated_indices, left.schema().len())
            },
        }
    }

    /// Tells whether an `Apply` is left anywhere in the plan, that is,
    /// whether the plan still has to be decorrelated.
    pub fn has_apply(&self) -> (r: bool)
        ensures
            r == (self@.apply_count() > 0),
        decreases self,
    {
        match self {
            PlanNode::Scan { schema } => false,
            PlanNode::Project { input, exprs, expr_alias } => input.has_apply(),
            PlanNode::Filter { input, predicate } => input.has_apply(),
            PlanNode::Join { left, right, join_type, on } => left.has_apply() || right.has_apply(),
            PlanNode::Apply { left, right, join_type, correlated_indices } => true,
        }
    }
}

} // verus!
