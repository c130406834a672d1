//! The null-coalescing comparator: `NULLIF(left, right)`.
//!
//! Row by row the result is the left value where the two sides differ, and
//! null where they are equal. Two nulls are equal; a null and a scalar are
//! not.

use vstd::prelude::*;
use itertools::Itertools;
use crate::array::{ArrayBuilder, ArrayImpl, ArrayView, ChunkView, DataChunk};
use crate::descriptor::{ExprNode, ExprType};
use crate::error::ErrorCode;
use crate::expr::{build_from_descriptor, BoxedExpression, ExprImpl};
use crate::types::{datum_eq, datum_fits, DataType, Datum};

verus! {

/// The comparator applied to one row.
pub open spec fn nullif_row(left: Datum, right: Datum) -> Datum {
    if left != right {
        left
    } else {
        None
    }
}

/// The comparator applied to two columns, row by row. The result has the
/// length of `left`.
pub open spec fn nullif_rows(left: Seq<Datum>, right: Seq<Datum>) -> Seq<Datum> {
    Seq::new(left.len(), |i: int| nullif_row(left[i], right[i]))
}

/// Every row that the comparator yields on the two columns fits `data_type`.
pub open spec fn nullif_fits(left: Seq<Datum>, right: Seq<Datum>, data_type: DataType) -> bool {
    forall|i: int|
        0 <= i < left.len() ==> datum_fits(#[trigger] nullif_row(left[i], right[i]), data_type)
}

/// Pairs the rows of two columns of equal length, in order, with
/// `Itertools::zip_eq`. That iterator panics when one side ends before the
/// other, so the lengths must agree; it then yields the pair of the `i`-th
/// items of both sides as its `i`-th item.
#[verifier::external_body]
fn zip_eq(left: &Vec<Datum>, right: &Vec<Datum>) -> (pairs: Vec<(Datum, Datum)>)
    requires
        left@.len() == right@.len(),
    ensures
        pairs@.len() == left@.len(),
        forall|i: int| 0 <= i < pairs@.len() ==> pairs@[i] == (left@[i], right@[i]),
{
    left.iter().copied().zip_eq(right.iter().copied()).collect()
}

/// Applies the comparator to two columns and collects the result in a column
/// of type `return_type`.
///
/// Fails with `TypeMismatch` when the columns differ in length, or when a row
/// of the result would be a scalar of another type than `return_type`.
pub fn nullif_arrays(left: &ArrayImpl, right: &ArrayImpl, return_type: DataType) -> (r: Result<
    ArrayImpl,
    ErrorCode,
>)
    ensures
        match r {
            Ok(a) => {
                &&& left@.values.len() == right@.values.len()
                &&& nullif_fits(left@.values, right@.values, return_type)
                &&& a@ == (ArrayView {
                    data_type: return_type,
                    values: nullif_rows(left@.values, right@.values),
                })
                &&& a@.well_typed()
            },
            Err(e) => {
                &&& e == ErrorCode::TypeMismatch
                &&& (left@.values.len() != right@.values.len() || !nullif_fits(
                    left@.values,
                    right@.values,
                    return_type,
                ))
            },
        },
{
    if left.len() != right.len() {
        return Err(ErrorCode::TypeMismatch);
    }
    let pairs = zip_eq(left.values(), right.values());
    let mut builder = ArrayBuilder::new(return_type, pairs.len());
    let ghost rows = nullif_rows(left@.values, right@.values);
    let mut i: usize = 0;
    while i < pairs.len()
        invariant
            i <= pairs.len(),
            pairs@.len() == left@.values.len(),
            left@.values.len() == right@.values.len(),
            forall|j: int|
                0 <= j < pairs@.len() ==> pairs@[j] == (left@.values[j], right@.values[j]),
            rows == nullif_rows(left@.values, right@.values),
            builder.wf(),
            builder@.data_type == return_type,
            builder@.values == rows.take(i as int),
        decreases pairs.len() - i,
    {
        let (c, d) = pairs[i];
        if !datum_eq(&c, &d) {
            match builder.append_datum(&c) {
                Ok(_) => {},
                Err(e) => {
                    assert(!datum_fits(
                        nullif_row(left@.values[i as int], right@.values[i as int]),
                        return_type,
                    ));
                    return Err(e);
                },
            }
        } else {
            builder.append_null();
        }
        assert(builder@.values =~= rows.take(i + 1));
        i += 1;
    }
    assert(rows.take(i as int) =~= rows);
    assert forall|j: int| 0 <= j < left@.values.len() implies datum_fits(
        #[trigger] nullif_row(left@.values[j], right@.values[j]),
        return_type,
    ) by {
        assert(builder@.values[j] == nullif_row(left@.values[j], right@.values[j]));
    }
    Ok(builder.finish())
}

/// `NULLIF(left, right)`, declared to yield `return_type`.
#[derive(Debug, PartialEq, Eq)]
pub struct NullifExpression {
    pub return_type: DataType,
    pub left: BoxedExpression,
    pub right: BoxedExpression,
}

impl NullifExpression {
    pub fn new(return_type: DataType, left: BoxedExpression, right: BoxedExpression) -> (r: Self)
        ensures
            r == (NullifExpression { return_type, left, right }),
    {
        NullifExpression { return_type, left, right }
    }

    pub fn return_type(&self) -> (t: DataType)
        ensures
            t == self.return_type,
    {
        self.return_type
    }

    /// What [`Self::eval`] returns on a batch.
    ///
    /// The left child is evaluated first and its failure wins. Both results
    /// must have one row per row of the batch. Then the comparator runs row
    /// by row, and fails on the first row whose result does not fit the
    /// declared type.
    pub open spec fn spec_eval(self, chunk: ChunkView) -> Result<ArrayView, ErrorCode>
        decreases self,
    {
        match self.left.spec_eval(chunk) {
            Err(e) => Err(e),
            Ok(left) => match self.right.spec_eval(chunk) {
                Err(e) => Err(e),
                Ok(right) => {
                    if left.values.len() != chunk.cardinality || right.values.len()
                        != chunk.cardinality {
                        Err(ErrorCode::TypeMismatch)
                    } else if !nullif_fits(left.values, right.values, self.return_type) {
                        Err(ErrorCode::TypeMismatch)
                    } else {
                        Ok(
                            ArrayView {
                                data_type: self.return_type,
                                values: nullif_rows(left.values, right.values),
                            },
                        )
                    }
                },
            },
        }
    }

    /// Evaluates both children over `input` and applies the comparator to
    /// their columns.
    pub fn eval(&self, input: &DataChunk) -> (r: Result<ArrayImpl, ErrorCode>)
        ensures
            match r {
                Ok(a) => {
                    &&& self.spec_eval(input@) == Ok::<ArrayView, ErrorCode>(a@)
                    &&& a@.values.len() == input@.cardinality
                    &&& a@.data_type == self.return_type
                    &&& a@.well_typed()
                },
                Err(e) => self.spec_eval(input@) == Err::<ArrayView, ErrorCode>(e),
            },
        decreases self,
    {
        let left = match self.left.eval(input) {
            Ok(a) => a,
            Err(e) => { return Err(e); },
        };
        let right = match self.right.eval(input) {
            Ok(a) => a,
            Err(e) => { return Err(e); },
        };
        if left.len() != input.cardinality() || right.len() != input.cardinality() {
            return Err(ErrorCode::TypeMismatch);
        }
        nullif_arrays(&left, &right, self.return_type)
    }

    /// The comparator that `node` describes, or the first reason why it
    /// describes none: a wrong kind tag, an absent type or body, a body that
    /// is no function call (all `MalformedDescriptor`), a number of children
    /// other than two (`ArityError`), then the left child's failure, then the
    /// right child's, then a child that is declared to have another type
    /// than the comparator declares for its result (`TypeMismatch`).
    pub open spec fn decoded(node: ExprNode) -> Result<NullifExpression, ErrorCode>
        decreases node, 0nat,
    {
        if node.expr_type != ExprType::Nullif {
            Err(ErrorCode::MalformedDescriptor)
        } else if node.return_type is None {
            Err(ErrorCode::MalformedDescriptor)
        } else if node.call_children() is None {
            Err(ErrorCode::MalformedDescriptor)
        } else if node.call_children().unwrap().len() != 2 {
            Err(ErrorCode::ArityError)
        } else {
            let children = node.call_children().unwrap();
            match ExprImpl::decoded(children[0]) {
                Err(e) => Err(e),
                Ok(left) => match ExprImpl::decoded(children[1]) {
                    Err(e) => Err(e),
                    Ok(right) => {
                        let return_type = node.return_type.unwrap();
                        if left.return_type_of() != return_type || right.return_type_of()
                            != return_type {
                            Err(ErrorCode::TypeMismatch)
                        } else {
                            Ok(
                                NullifExpression {
                                    return_type,
                                    left: Box::new(left),
                                    right: Box::new(right),
                                },
                            )
                        }
                    },
                },
            }
        }
    }

    /// Builds the comparator from its descriptor.
    pub fn try_from(node: &ExprNode) -> (r: Result<Self, ErrorCode>)
        ensures
            r == Self::decoded(*node),
        decreases node, 0nat,
    {
        if node.expr_type != ExprType::Nullif {
            return Err(ErrorCode::MalformedDescriptor);
        }
        let ret_type = match node.return_type {
            Some(t) => t,
            None => { return Err(ErrorCode::MalformedDescriptor); },
        };
        let children = match node.get_call_children() {
            Some(children) => children,
            None => { return Err(ErrorCode::MalformedDescriptor); },
        };
        if children.len() != 2 {
            return Err(ErrorCode::ArityError);
        }
        let left = match build_from_descriptor(&children[0]) {
            Ok(expr) => expr,
            Err(e) => { return Err(e); },
        };
        let right = match build_from_descriptor(&children[1]) {
            Ok(expr) => expr,
            Err(e) => { return Err(e); },
        };
        if left.return_type() != ret_type || right.return_type() != ret_type {
            return Err(ErrorCode::TypeMismatch);
        }
        Ok(NullifExpression::new(ret_type, left, right))
    }
}

/// The comparator is correct row by row: where both children evaluate to
/// columns with one row per row of the batch, and the left column is a well
/// typed column of the declared type, evaluation succeeds, and row `i` of the
/// result is the left value if the two sides differ in row `i`, and null if
/// they are equal.
pub proof fn lemma_nullif_row_by_row(
    nullif: NullifExpression,
    chunk: ChunkView,
    left: ArrayView,
    right: ArrayView,
)
    requires
        nullif.left.spec_eval(chunk) == Ok::<ArrayView, ErrorCode>(left),
        nullif.right.spec_eval(chunk) == Ok::<ArrayView, ErrorCode>(right),
        left.values.len() == chunk.cardinality,
        right.values.len() == chunk.cardinality,
        left.data_type == nullif.return_type,
        left.well_typed(),
    ensures
        nullif.spec_eval(chunk) matches Ok(result) && {
            &&& result.data_type == nullif.return_type
            &&& result.values.len() == chunk.cardinality
            &&& forall|i: int|
                0 <= i < chunk.cardinality ==> #[trigger] result.values[i] == if left.values[i]
                    != right.values[i] {
                    left.values[i]
                } else {
                    None
                }
        },
{
    assert(nullif_fits(left.values, right.values, nullif.return_type)) by {
        assert forall|i: int| 0 <= i < left.values.len() implies datum_fits(
            #[trigger] nullif_row(left.values[i], right.values[i]),
            nullif.return_type,
        ) by {
            assert(datum_fits(left.values[i], left.data_type));
        }
    }
}

/// The comparator takes exactly two arguments: a descriptor that is tagged
/// as the comparator, declares a type and has a function-call body is
/// refused with `ArityError` when it has any other number of children, and
/// is accepted when it has two that can be built themselves and yield the
/// declared type.
pub proof fn lemma_nullif_arity(node: ExprNode)
    requires
        node.expr_type == ExprType::Nullif,
        node.return_type is Some,
        node.call_children() is Some,
    ensures
        node.call_children().unwrap().len() != 2 ==> NullifExpression::decoded(node) == Err::<
            NullifExpression,
            ErrorCode,
        >(ErrorCode::ArityError),
        node.call_children().unwrap().len() == 2 ==> (NullifExpression::decoded(node) is Ok <==> {
            &&& ExprImpl::decoded(node.call_children().unwrap()[0]) matches Ok(left)
            &&& ExprImpl::decoded(node.call_children().unwrap()[1]) matches Ok(right)
            &&& node.return_type == Some(left.return_type_of())
            &&& node.return_type == Some(right.return_type_of())
        }),
{
}

} // verus!
