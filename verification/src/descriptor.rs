//! Plan descriptors: the serialised form in which expressions arrive.
//!
//! A descriptor is a tree of nodes. Each node carries a kind tag, the type it
//! declares for its result, and a body whose shape depends on the kind.
//! Nothing here is validated; the builders in [`crate::expr`] do that.

use vstd::prelude::*;
use crate::types::{DataType, Datum};

verus! {

/// The kind tag of a descriptor node.
#[derive(Clone, Copy, Debug, PartialEq, Eq, Structural)]
pub enum ExprType {
    InputRef,
    ConstantValue,
    Nullif,
}

/// Body of a column reference.
#[derive(Debug)]
pub struct InputRefExpr {
    pub column_idx: usize,
}

/// Body of a constant.
#[derive(Debug)]
pub struct ConstantValue {
    pub body: Datum,
}

/// Body of a function call: the descriptors of its arguments, in order.
#[derive(Debug)]
pub struct FunctionCall {
    pub children: Vec<ExprNode>,
}

/// The body of a descriptor node.
#[derive(Debug)]
pub enum RexNode {
    InputRef(InputRefExpr),
    Constant(ConstantValue),
    FuncCall(FunctionCall),
}

/// One node of a descriptor tree. The declared type and the body are optional
/// on the wire, so either may be absent.
#[derive(Debug)]
pub struct ExprNode {
    pub expr_type: ExprType,
    pub return_type: Option<DataType>,
    pub rex_node: Option<RexNode>,
}

impl ExprNode {
    /// The argument descriptors of a function-call node, or `None` when the
    /// body is absent or is not a function call.
    pub open spec fn call_children(self) -> Option<Seq<ExprNode>> {
        match self.rex_node {
            Some(RexNode::FuncCall(call)) => Some(call.children@),
            _ => None,
        }
    }

    /// Exec form of [`Self::call_children`].
    pub fn get_call_children(&self) -> (r: Option<&Vec<ExprNode>>)
        ensures
            match r {
                Some(children) => self.call_children() == Some(children@),
                None => self.call_children() is None,
            },
    {
        match &self.rex_node {
            Some(RexNode::FuncCall(call)) => Some(&call.children),
            _ => None,
        }
    }
}

} // verus!
