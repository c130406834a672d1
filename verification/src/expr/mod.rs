//! Typed expression trees and their evaluation over batches.
//!
//! An expression is a column reference, a literal or a function call. The
//! tree is immutable once built. Evaluation takes a batch and yields one
//! column with a row per row of the batch; nulls follow three-valued logic
//! as each node defines it.

pub mod expr_nullif;

use vstd::prelude::*;
use crate::array::{ArrayBuilder, ArrayImpl, ArrayView, ChunkView, DataChunk};
use crate::descriptor::{ExprNode, ExprType, RexNode};
use crate::error::ErrorCode;
use crate::expr::expr_nullif::{nullif_row, NullifExpression};
use crate::types::{datum_fits, fits, DataType, Datum};

verus! {

/// A reference to column `index` of the input, declared to have type
/// `data_type`.
#[derive(Debug, PartialEq, Eq)]
pub struct InputRef {
    pub index: usize,
    pub data_type: DataType,
}

/// A constant of type `data_type`.
#[derive(Debug, PartialEq, Eq)]
pub struct Literal {
    pub value: Datum,
    pub data_type: DataType,
}

/// An expression tree.
#[derive(Debug, PartialEq, Eq)]
pub enum ExprImpl {
    InputRef(InputRef),
    Literal(Literal),
    Nullif(NullifExpression),
}

/// An expression as a child of another node.
pub type BoxedExpression = Box<ExprImpl>;

impl InputRef {
    pub fn new(index: usize, data_type: DataType) -> (r: InputRef)
        ensures
            r == (InputRef { index, data_type }),
    {
        InputRef { index, data_type }
    }

    /// What [`Self::eval`] returns on a batch: the referenced column, if the
    /// batch has it and it has the declared type.
    pub open spec fn spec_eval(self, chunk: ChunkView) -> Result<ArrayView, ErrorCode> {
        if self.index < chunk.columns.len() && chunk.columns[self.index as int].data_type
            == self.data_type {
            Ok(chunk.columns[self.index as int])
        } else {
            Err(ErrorCode::TypeMismatch)
        }
    }

    /// Reads the referenced column of `input`.
    pub fn eval(&self, input: &DataChunk) -> (r: Result<ArrayImpl, ErrorCode>)
        ensures
            match r {
                Ok(a) => {
                    &&& self.spec_eval(input@) == Ok::<ArrayView, ErrorCode>(a@)
                    &&& a@.values.len() == input@.cardinality
                    &&& a@.data_type == self.data_type
                    &&& a@.well_typed()
                },
                Err(e) => self.spec_eval(input@) == Err::<ArrayView, ErrorCode>(e),
            },
    {
        match input.column_at(self.index) {
            Some(column) => {
                if column.data_type() == self.data_type {
                    Ok(column.clone())
                } else {
                    Err(ErrorCode::TypeMismatch)
                }
            },
            None => Err(ErrorCode::TypeMismatch),
        }
    }

    /// The column reference that `node` describes, or the reason why it
    /// describes none.
    pub open spec fn decoded(node: ExprNode) -> Result<InputRef, ErrorCode> {
        match (node.expr_type, node.return_type, node.rex_node) {
            (ExprType::InputRef, Some(data_type), Some(RexNode::InputRef(body))) => Ok(
                InputRef { index: body.column_idx, data_type },
            ),
            _ => Err(ErrorCode::MalformedDescriptor),
        }
    }

    /// Builds a column reference from its descriptor. Fails with
    /// `MalformedDescriptor` unless the node is tagged as a column reference,
    /// declares a type and has a column-reference body.
    pub fn try_from(node: &ExprNode) -> (r: Result<InputRef, ErrorCode>)
        ensures
            r == Self::decoded(*node),
    {
        match (node.expr_type, node.return_type, &node.rex_node) {
            (ExprType::InputRef, Some(data_type), Some(RexNode::InputRef(body))) => Ok(
                InputRef { index: body.column_idx, data_type },
            ),
            _ => Err(ErrorCode::MalformedDescriptor),
        }
    }
}

impl Literal {
    pub fn new(value: Datum, data_type: DataType) -> (r: Literal)
        ensures
            r == (Literal { value, data_type }),
    {
        Literal { value, data_type }
    }

    /// What [`Self::eval`] returns on a batch: the value once per row, if
    /// the value fits the declared type.
    pub open spec fn spec_eval(self, chunk: ChunkView) -> Result<ArrayView, ErrorCode> {
        if datum_fits(self.value, self.data_type) {
            Ok(
                ArrayView {
                    data_type: self.data_type,
                    values: Seq::new(chunk.cardinality, |i: int| self.value),
                },
            )
        } else {
            Err(ErrorCode::TypeMismatch)
        }
    }

    /// A column that holds the literal in every row of `input`.
    pub fn eval(&self, input: &DataChunk) -> (r: Result<ArrayImpl, ErrorCode>)
        ensures
            match r {
                Ok(a) => {
                    &&& self.spec_eval(input@) == Ok::<ArrayView, ErrorCode>(a@)
                    &&& a@.values.len() == input@.cardinality
                    &&& a@.data_type == self.data_type
                    &&& a@.well_typed()
                },
                Err(e) => self.spec_eval(input@) == Err::<ArrayView, ErrorCode>(e),
            },
    {
        if !fits(&self.value, self.data_type) {
            return Err(ErrorCode::TypeMismatch);
        }
        let cardinality = input.cardinality();
        let mut builder = ArrayBuilder::new(self.data_type, cardinality);
        let mut i: usize = 0;
        while i < cardinality
            invariant
                i <= cardinality,
                builder.wf(),
                datum_fits(self.value, self.data_type),
                builder@.data_type == self.data_type,
                builder@.values == Seq::new(i as nat, |j: int| self.value),
            decreases cardinality - i,
        {
            let _ = builder.append_datum(&self.value);
            assert(builder@.values =~= Seq::new((i + 1) as nat, |j: int| self.value));
            i += 1;
        }
        Ok(builder.finish())
    }

    /// The literal that `node` describes, or the reason why it describes
    /// none.
    pub open spec fn decoded(node: ExprNode) -> Result<Literal, ErrorCode> {
        match (node.expr_type, node.return_type, node.rex_node) {
            (ExprType::ConstantValue, Some(data_type), Some(RexNode::Constant(body))) => {
                if datum_fits(body.body, data_type) {
                    Ok(Literal { value: body.body, data_type })
                } else {
                    Err(ErrorCode::TypeMismatch)
                }
            },
            _ => Err(ErrorCode::MalformedDescriptor),
        }
    }

    /// Builds a literal from its descriptor. Fails with `MalformedDescriptor`
    /// unless the node is tagged as a constant, declares a type and has a
    /// constant body, and with `TypeMismatch` when the constant is a scalar
    /// of another type than the declared one.
    pub fn try_from(node: &ExprNode) -> (r: Result<Literal, ErrorCode>)
        ensures
            r == Self::decoded(*node),
    {
        match (node.expr_type, node.return_type, &node.rex_node) {
            (ExprType::ConstantValue, Some(data_type), Some(RexNode::Constant(body))) => {
                if fits(&body.body, data_type) {
                    Ok(Literal { value: body.body, data_type })
                } else {
                    Err(ErrorCode::TypeMismatch)
                }
            },
            _ => Err(ErrorCode::MalformedDescriptor),
        }
    }
}

impl Clone for ExprImpl {
    fn clone(&self) -> (r: Self)
        ensures
            r == *self,
        decreases self,
    {
        match self {
            ExprImpl::InputRef(input_ref) => ExprImpl::InputRef(
                InputRef { index: input_ref.index, data_type: input_ref.data_type },
            ),
            ExprImpl::Literal(literal) => ExprImpl::Literal(
                Literal { value: literal.value, data_type: literal.data_type },
            ),
            ExprImpl::Nullif(nullif) => ExprImpl::Nullif(
                NullifExpression {
                    return_type: nullif.return_type,
                    left: Box::new((&*nullif.left).clone()),
                    right: Box::new((&*nullif.right).clone()),
                },
            ),
        }
    }
}

impl ExprImpl {
    /// The kind of the root node, as a descriptor tags it.
    pub open spec fn kind_of(self) -> ExprType {
        match self {
            ExprImpl::InputRef(_) => ExprType::InputRef,
            ExprImpl::Literal(_) => ExprType::ConstantValue,
            ExprImpl::Nullif(_) => ExprType::Nullif,
        }
    }

    pub fn kind(&self) -> (k: ExprType)
        ensures
            k == self.kind_of(),
    {
        match self {
            ExprImpl::InputRef(_) => ExprType::InputRef,
            ExprImpl::Literal(_) => ExprType::ConstantValue,
            ExprImpl::Nullif(_) => ExprType::Nullif,
        }
    }

    /// The type that the expression declares for its result.
    pub open spec fn return_type_of(self) -> DataType {
        match self {
            ExprImpl::InputRef(input_ref) => input_ref.data_type,
            ExprImpl::Literal(literal) => literal.data_type,
            ExprImpl::Nullif(nullif) => nullif.return_type,
        }
    }

    pub fn return_type(&self) -> (t: DataType)
        ensures
            t == self.return_type_of(),
    {
        match self {
            ExprImpl::InputRef(input_ref) => input_ref.data_type,
            ExprImpl::Literal(literal) => literal.data_type,
            ExprImpl::Nullif(nullif) => nullif.return_type(),
        }
    }

    /// The tree is well typed: every literal fits its declared type, and
    /// both arguments of every comparator are declared to have the type that
    /// the comparator declares for its result.
    pub open spec fn well_typed(self) -> bool
        decreases self,
    {
        match self {
            ExprImpl::InputRef(_) => true,
            ExprImpl::Literal(literal) => datum_fits(literal.value, literal.data_type),
            ExprImpl::Nullif(nullif) => {
                &&& nullif.left.well_typed()
                &&& nullif.right.well_typed()
                &&& nullif.left.return_type_of() == nullif.return_type
                &&& nullif.right.return_type_of() == nullif.return_type
            },
        }
    }

    /// Tells whether the tree is well typed.
    pub fn is_well_typed(&self) -> (r: bool)
        ensures
            r == self.well_typed(),
        decreases self,
    {
        match self {
            ExprImpl::InputRef(_) => true,
            ExprImpl::Literal(literal) => fits(&literal.value, literal.data_type),
            ExprImpl::Nullif(nullif) => {
                nullif.left.is_well_typed() && nullif.right.is_well_typed()
                    && nullif.left.return_type() == nullif.return_type
                    && nullif.right.return_type() == nullif.return_type
            },
        }
    }

    /// Every column reference of the tree names a column of the batch that
    /// has the type the reference declares.
    pub open spec fn bound_to(self, chunk: ChunkView) -> bool
        decreases self,
    {
        match self {
            ExprImpl::InputRef(input_ref) => {
                &&& input_ref.index < chunk.columns.len()
                &&& chunk.columns[input_ref.index as int].data_type == input_ref.data_type
            },
            ExprImpl::Literal(_) => true,
            ExprImpl::Nullif(nullif) => nullif.left.bound_to(chunk) && nullif.right.bound_to(chunk),
        }
    }

    /// The result of evaluating the expression over a batch.
    pub open spec fn spec_eval(self, chunk: ChunkView) -> Result<ArrayView, ErrorCode>
        decreases self,
    {
        match self {
            ExprImpl::InputRef(input_ref) => input_ref.spec_eval(chunk),
            ExprImpl::Literal(literal) => literal.spec_eval(chunk),
            ExprImpl::Nullif(nullif) => nullif.spec_eval(chunk),
        }
    }

    /// Evaluates the expression over every row of `input` at once.
    ///
    /// The result has one row per row of `input` and the declared type.
    pub fn eval(&self, input: &DataChunk) -> (r: Result<ArrayImpl, ErrorCode>)
        ensures
            match r {
                Ok(a) => {
                    &&& self.spec_eval(input@) == Ok::<ArrayView, ErrorCode>(a@)
                    &&& a@.values.len() == input@.cardinality
                    &&& a@.data_type == self.return_type_of()
                    &&& a@.well_typed()
                },
                Err(e) => self.spec_eval(input@) == Err::<ArrayView, ErrorCode>(e),
            },
        decreases self,
    {
        match self {
            ExprImpl::InputRef(input_ref) => input_ref.eval(input),
            ExprImpl::Literal(literal) => literal.eval(input),
            ExprImpl::Nullif(nullif) => nullif.eval(input),
        }
    }

    /// The expression that a descriptor tree describes, or the first reason,
    /// in the order in which the tree is read, why it describes none.
    pub open spec fn decoded(node: ExprNode) -> Result<ExprImpl, ErrorCode>
        decreases node,
    {
        match node.expr_type {
            ExprType::InputRef => match InputRef::decoded(node) {
                Ok(input_ref) => Ok(ExprImpl::InputRef(input_ref)),
                Err(e) => Err(e),
            },
            ExprType::ConstantValue => match Literal::decoded(node) {
                Ok(literal) => Ok(ExprImpl::Literal(literal)),
                Err(e) => Err(e),
            },
            ExprType::Nullif => match NullifExpression::decoded(node) {
                Ok(nullif) => Ok(ExprImpl::Nullif(nullif)),
                Err(e) => Err(e),
            },
        }
    }
}

/// Builds the expression that a descriptor tree describes, choosing the
/// constructor by the root's kind tag. An expression that is built has the
/// kind and the type that its descriptor declares.
pub fn build_from_descriptor(node: &ExprNode) -> (r: Result<BoxedExpression, ErrorCode>)
    ensures
        match r {
            Ok(expr) => {
                &&& ExprImpl::decoded(*node) == Ok::<ExprImpl, ErrorCode>(*expr)
                &&& expr.kind_of() == node.expr_type
                &&& node.return_type == Some(expr.return_type_of())
            },
            Err(e) => ExprImpl::decoded(*node) == Err::<ExprImpl, ErrorCode>(e),
        },
    decreases node,
{
    proof {
        if ExprImpl::decoded(*node) is Ok {
            lemma_decoded_is_well_typed(*node);
        }
    }
    match node.expr_type {
        ExprType::InputRef => match InputRef::try_from(node) {
            Ok(input_ref) => Ok(Box::new(ExprImpl::InputRef(input_ref))),
            Err(e) => Err(e),
        },
        ExprType::ConstantValue => match Literal::try_from(node) {
            Ok(literal) => Ok(Box::new(ExprImpl::Literal(literal))),
            Err(e) => Err(e),
        },
        ExprType::Nullif => match NullifExpression::try_from(node) {
            Ok(nullif) => Ok(Box::new(ExprImpl::Nullif(nullif))),
            Err(e) => Err(e),
        },
    }
}

/// Evaluation of a well-typed tree does not fail: over a batch whose columns
/// are well typed and as long as the batch, and which has every column that
/// the tree refers to, under the type that the reference declares, the tree
/// evaluates to a column.
pub proof fn lemma_well_typed_eval_succeeds(expr: ExprImpl, chunk: ChunkView)
    requires
        expr.well_typed(),
        expr.bound_to(chunk),
        chunk.wf(),
    ensures
        expr.spec_eval(chunk) is Ok,
    decreases expr,
{
    match expr {
        ExprImpl::InputRef(_) => {},
        ExprImpl::Literal(_) => {},
        ExprImpl::Nullif(nullif) => {
            lemma_well_typed_eval_succeeds(*nullif.left, chunk);
            lemma_well_typed_eval_succeeds(*nullif.right, chunk);
            lemma_eval_keeps_cardinality(*nullif.left, chunk);
            lemma_eval_keeps_cardinality(*nullif.right, chunk);
            let left = nullif.left.spec_eval(chunk)->Ok_0;
            let right = nullif.right.spec_eval(chunk)->Ok_0;
            assert forall|i: int| 0 <= i < left.values.len() implies datum_fits(
                #[trigger] nullif_row(left.values[i], right.values[i]),
                nullif.return_type,
            ) by {
                assert(datum_fits(left.values[i], left.data_type));
            }
        },
    }
}

/// A tree that is built from a descriptor is well typed, and has the kind
/// and the type that the descriptor's root declares.
pub proof fn lemma_decoded_is_well_typed(node: ExprNode)
    requires
        ExprImpl::decoded(node) is Ok,
    ensures
        ExprImpl::decoded(node) matches Ok(expr) && {
            &&& expr.well_typed()
            &&& expr.kind_of() == node.expr_type
            &&& node.return_type == Some(expr.return_type_of())
        },
    decreases node,
{
    match node.expr_type {
        ExprType::InputRef => {},
        ExprType::ConstantValue => {},
        ExprType::Nullif => {
            let children = node.call_children().unwrap();
            lemma_decoded_is_well_typed(children[0]);
            lemma_decoded_is_well_typed(children[1]);
        },
    }
}

/// Evaluation keeps the shape of the batch: over a batch whose columns are
/// well typed and as long as the batch, a successful evaluation yields a
/// well-typed column of the declared type with one row per row of the batch.
pub proof fn lemma_eval_keeps_cardinality(expr: ExprImpl, chunk: ChunkView)
    requires
        chunk.wf(),
        expr.spec_eval(chunk) is Ok,
    ensures
        expr.spec_eval(chunk) matches Ok(result) && {
            &&& result.values.len() == chunk.cardinality
            &&& result.data_type == expr.return_type_of()
            &&& result.well_typed()
        },
{
    match expr {
        ExprImpl::InputRef(input_ref) => {},
        ExprImpl::Literal(literal) => {},
        ExprImpl::Nullif(nullif) => {
            let left = nullif.left.spec_eval(chunk)->Ok_0;
            let right = nullif.right.spec_eval(chunk)->Ok_0;
            let result = expr.spec_eval(chunk)->Ok_0;
            assert forall|i: int| 0 <= i < result.values.len() implies datum_fits(
                #[trigger] result.values[i],
                result.data_type,
            ) by {
                assert(datum_fits(nullif_row(left.values[i], right.values[i]), nullif.return_type));
            }
        },
    }
}

} // verus!
