use plan_rewrite::array::{ArrayBuilder, ArrayImpl, DataChunk};
use plan_rewrite::descriptor::{
    ConstantValue, ExprNode, ExprType, FunctionCall, InputRefExpr, RexNode,
};
use plan_rewrite::error::ErrorCode;
use plan_rewrite::expr::expr_nullif::{nullif_arrays, NullifExpression};
use plan_rewrite::expr::{build_from_descriptor, ExprImpl, InputRef, Literal};
use plan_rewrite::types::{datum_eq, fits, DataType, Datum, ScalarImpl};

fn make_input_ref(idx: usize, ret: DataType) -> ExprNode {
    ExprNode {
        expr_type: ExprType::InputRef,
        return_type: Some(ret),
        rex_node: Some(RexNode::InputRef(InputRefExpr { column_idx: idx })),
    }
}

fn make_constant(value: Datum, ret: DataType) -> ExprNode {
    ExprNode {
        expr_type: ExprType::ConstantValue,
        return_type: Some(ret),
        rex_node: Some(RexNode::Constant(ConstantValue { body: value })),
    }
}

fn make_nullif_function(children: Vec<ExprNode>, ret: DataType) -> ExprNode {
    ExprNode {
        expr_type: ExprType::Nullif,
        return_type: Some(ret),
        rex_node: Some(RexNode::FuncCall(FunctionCall { children })),
    }
}

fn int32s(values: &[Option<i32>]) -> ArrayImpl {
    let data: Vec<Datum> = values.iter().map(|v| v.map(ScalarImpl::Int32)).collect();
    ArrayImpl::new(DataType::Int32, data).unwrap()
}

fn int64s(values: &[Option<i64>]) -> ArrayImpl {
    let data: Vec<Datum> = values.iter().map(|v| v.map(ScalarImpl::Int64)).collect();
    ArrayImpl::new(DataType::Int64, data).unwrap()
}

fn rows(array: &ArrayImpl) -> Vec<Datum> {
    (0..array.len()).map(|i| array.datum_at(i)).collect()
}

fn input_ref(index: usize, data_type: DataType) -> Box<ExprImpl> {
    Box::new(ExprImpl::InputRef(InputRef::new(index, data_type)))
}

#[test]
fn test_nullif_expr() {
    let input_node1 = make_input_ref(0, DataType::Int32);
    let input_node2 = make_input_ref(1, DataType::Int32);

    let col1 = int32s(&[Some(2), Some(2), Some(4), Some(3)]);
    let col2 = int32s(&[Some(1), Some(3), Some(4), Some(3)]);

    let data_chunk = DataChunk::new(vec![col1, col2], 4).unwrap();

    let nullif_expr = NullifExpression::try_from(&make_nullif_function(
        vec![input_node1, input_node2],
        DataType::Int32,
    ))
    .unwrap();
    let res = nullif_expr.eval(&data_chunk).unwrap();
    assert_eq!(res.datum_at(0), Some(ScalarImpl::Int32(2)));
    assert_eq!(res.datum_at(1), Some(ScalarImpl::Int32(2)));
    assert_eq!(res.datum_at(2), None);
    assert_eq!(res.datum_at(3), None);
}

#[test]
fn nullif_result_has_batch_length_and_declared_type() {
    let chunk = DataChunk::new(
        vec![int32s(&[Some(7), None, Some(9)]), int32s(&[Some(7), None, Some(8)])],
        3,
    )
    .unwrap();
    let expr = NullifExpression::new(
        DataType::Int32,
        input_ref(0, DataType::Int32),
        input_ref(1, DataType::Int32),
    );
    assert_eq!(expr.return_type(), DataType::Int32);
    let res = expr.eval(&chunk).unwrap();
    assert_eq!(res.len(), 3);
    assert_eq!(res.data_type(), DataType::Int32);
    assert_eq!(rows(&res), vec![None, None, Some(ScalarImpl::Int32(9))]);
}

#[test]
fn nullif_of_two_nulls_is_null() {
    let left = int32s(&[None]);
    let right = int32s(&[None]);
    let res = nullif_arrays(&left, &right, DataType::Int32).unwrap();
    assert_eq!(rows(&res), vec![None]);
}

#[test]
fn nullif_of_null_and_value_keeps_the_left_side() {
    let left = int32s(&[None, Some(5)]);
    let right = int32s(&[Some(5), None]);
    let res = nullif_arrays(&left, &right, DataType::Int32).unwrap();
    assert_eq!(rows(&res), vec![None, Some(ScalarImpl::Int32(5))]);
}

#[test]
fn nullif_pairs_rows_in_order() {
    // The result depends on which right row meets which left row: with the
    // right column reversed the equal rows would differ.
    let left = int32s(&[Some(1), Some(2), Some(3)]);
    let right = int32s(&[Some(3), Some(2), Some(1)]);
    let res = nullif_arrays(&left, &right, DataType::Int32).unwrap();
    assert_eq!(rows(&res), vec![Some(ScalarImpl::Int32(1)), None, Some(ScalarImpl::Int32(3))]);
    let res = nullif_arrays(&right, &left, DataType::Int32).unwrap();
    assert_eq!(rows(&res), vec![Some(ScalarImpl::Int32(3)), None, Some(ScalarImpl::Int32(1))]);
}

#[test]
fn nullif_of_empty_columns_is_empty() {
    let res = nullif_arrays(&int32s(&[]), &int32s(&[]), DataType::Int32).unwrap();
    assert_eq!(res.len(), 0);
    assert_eq!(res.data_type(), DataType::Int32);
}

#[test]
fn nullif_refuses_columns_of_different_length() {
    let left = int32s(&[Some(1), Some(2)]);
    let right = int32s(&[Some(1)]);
    assert_eq!(nullif_arrays(&left, &right, DataType::Int32), Err(ErrorCode::TypeMismatch));
}

#[test]
fn nullif_refuses_a_row_of_another_type_than_declared() {
    let left = int32s(&[Some(1), Some(2)]);
    let right = int32s(&[Some(1), Some(3)]);
    assert_eq!(nullif_arrays(&left, &right, DataType::Int64), Err(ErrorCode::TypeMismatch));
}

#[test]
fn nullif_never_appends_a_row_that_is_suppressed() {
    // Every left value equals its right value, so no left value reaches the
    // result and the declared type is never put to the test.
    let left = int32s(&[Some(1), None]);
    let right = int32s(&[Some(1), None]);
    let res = nullif_arrays(&left, &right, DataType::Int64).unwrap();
    assert_eq!(rows(&res), vec![None, None]);
    assert_eq!(res.data_type(), DataType::Int64);
}

#[test]
fn nullif_compares_values_of_different_types_as_unequal() {
    let left = int32s(&[Some(4)]);
    let right = int64s(&[Some(4)]);
    let res = nullif_arrays(&left, &right, DataType::Int32).unwrap();
    assert_eq!(rows(&res), vec![Some(ScalarImpl::Int32(4))]);
}

#[test]
fn nullif_with_one_child_is_an_arity_error() {
    let node = make_nullif_function(vec![make_input_ref(0, DataType::Int32)], DataType::Int32);
    assert_eq!(NullifExpression::try_from(&node), Err(ErrorCode::ArityError));
}

#[test]
fn nullif_with_three_children_is_an_arity_error() {
    let node = make_nullif_function(
        vec![
            make_input_ref(0, DataType::Int32),
            make_input_ref(1, DataType::Int32),
            make_input_ref(2, DataType::Int32),
        ],
        DataType::Int32,
    );
    assert_eq!(NullifExpression::try_from(&node), Err(ErrorCode::ArityError));
}

#[test]
fn nullif_with_no_children_is_an_arity_error() {
    let node = make_nullif_function(vec![], DataType::Int32);
    assert_eq!(NullifExpression::try_from(&node), Err(ErrorCode::ArityError));
}

#[test]
fn nullif_with_two_children_is_built() {
    let node = make_nullif_function(
        vec![make_input_ref(3, DataType::Int64), make_constant(None, DataType::Int64)],
        DataType::Int64,
    );
    let expected = NullifExpression::new(
        DataType::Int64,
        input_ref(3, DataType::Int64),
        Box::new(ExprImpl::Literal(Literal::new(None, DataType::Int64))),
    );
    assert_eq!(NullifExpression::try_from(&node), Ok(expected));
}

#[test]
fn nullif_refuses_a_descriptor_of_another_kind() {
    let node = make_input_ref(0, DataType::Int32);
    assert_eq!(NullifExpression::try_from(&node), Err(ErrorCode::MalformedDescriptor));
}

#[test]
fn nullif_refuses_a_descriptor_without_a_type() {
    let mut node = make_nullif_function(
        vec![make_input_ref(0, DataType::Int32), make_input_ref(1, DataType::Int32)],
        DataType::Int32,
    );
    node.return_type = None;
    assert_eq!(NullifExpression::try_from(&node), Err(ErrorCode::MalformedDescriptor));
}

#[test]
fn nullif_refuses_a_descriptor_without_a_body() {
    let mut node = make_nullif_function(vec![], DataType::Int32);
    node.rex_node = None;
    assert_eq!(NullifExpression::try_from(&node), Err(ErrorCode::MalformedDescriptor));
}

#[test]
fn nullif_refuses_a_body_that_is_no_function_call() {
    let mut node = make_nullif_function(vec![], DataType::Int32);
    node.rex_node = Some(RexNode::InputRef(InputRefExpr { column_idx: 0 }));
    assert_eq!(NullifExpression::try_from(&node), Err(ErrorCode::MalformedDescriptor));
}

#[test]
fn nullif_checks_the_kind_before_the_arity() {
    let mut node = make_nullif_function(vec![], DataType::Int32);
    node.expr_type = ExprType::ConstantValue;
    assert_eq!(NullifExpression::try_from(&node), Err(ErrorCode::MalformedDescriptor));
}

#[test]
fn nullif_reports_the_left_child_first() {
    let bad_left = make_nullif_function(vec![], DataType::Int32);
    let mut bad_right = make_input_ref(0, DataType::Int32);
    bad_right.rex_node = None;
    let node = make_nullif_function(vec![bad_left, bad_right], DataType::Int32);
    assert_eq!(NullifExpression::try_from(&node), Err(ErrorCode::ArityError));

    let good_left = make_input_ref(0, DataType::Int32);
    let mut bad_right = make_input_ref(0, DataType::Int32);
    bad_right.rex_node = None;
    let node = make_nullif_function(vec![good_left, bad_right], DataType::Int32);
    assert_eq!(NullifExpression::try_from(&node), Err(ErrorCode::MalformedDescriptor));
}

#[test]
fn build_from_descriptor_chooses_by_kind() {
    let built = build_from_descriptor(&make_input_ref(2, DataType::Int16)).unwrap();
    assert_eq!(*built, ExprImpl::InputRef(InputRef::new(2, DataType::Int16)));

    let constant = make_constant(Some(ScalarImpl::Bool(true)), DataType::Boolean);
    let built = build_from_descriptor(&constant).unwrap();
    assert_eq!(
        *built,
        ExprImpl::Literal(Literal::new(Some(ScalarImpl::Bool(true)), DataType::Boolean))
    );

    let nested = make_nullif_function(
        vec![
            make_nullif_function(
                vec![make_input_ref(0, DataType::Int32), make_input_ref(1, DataType::Int32)],
                DataType::Int32,
            ),
            make_constant(Some(ScalarImpl::Int32(2)), DataType::Int32),
        ],
        DataType::Int32,
    );
    let built = build_from_descriptor(&nested).unwrap();
    let inner = NullifExpression::new(
        DataType::Int32,
        input_ref(0, DataType::Int32),
        input_ref(1, DataType::Int32),
    );
    let outer = NullifExpression::new(
        DataType::Int32,
        Box::new(ExprImpl::Nullif(inner)),
        Box::new(ExprImpl::Literal(Literal::new(Some(ScalarImpl::Int32(2)), DataType::Int32))),
    );
    assert_eq!(*built, ExprImpl::Nullif(outer));
    assert_eq!(built.return_type(), DataType::Int32);
    assert_eq!(built.kind(), ExprType::Nullif);
    assert_eq!(input_ref(0, DataType::Int32).kind(), ExprType::InputRef);
    let literal = ExprImpl::Literal(Literal::new(None, DataType::Int32));
    assert_eq!(literal.kind(), ExprType::ConstantValue);
}

#[test]
fn build_from_descriptor_refuses_a_body_of_another_kind() {
    let mut node = make_input_ref(0, DataType::Int32);
    node.rex_node = Some(RexNode::Constant(ConstantValue { body: None }));
    assert_eq!(build_from_descriptor(&node), Err(ErrorCode::MalformedDescriptor));

    let mut node = make_constant(None, DataType::Int32);
    node.return_type = None;
    assert_eq!(build_from_descriptor(&node), Err(ErrorCode::MalformedDescriptor));

    assert_eq!(
        InputRef::try_from(&make_constant(None, DataType::Int32)),
        Err(ErrorCode::MalformedDescriptor)
    );
    assert_eq!(
        Literal::try_from(&make_input_ref(0, DataType::Int32)),
        Err(ErrorCode::MalformedDescriptor)
    );
}

#[test]
fn nested_nullif_evaluates_children_first() {
    // NULLIF(NULLIF(a, b), 2) over a = [2, 2, 4, 3], b = [1, 3, 4, 3]:
    // the inner call gives [2, 2, NULL, NULL], the outer one suppresses the 2s.
    let chunk = DataChunk::new(
        vec![
            int32s(&[Some(2), Some(2), Some(4), Some(3)]),
            int32s(&[Some(1), Some(3), Some(4), Some(3)]),
        ],
        4,
    )
    .unwrap();
    let inner = NullifExpression::new(
        DataType::Int32,
        input_ref(0, DataType::Int32),
        input_ref(1, DataType::Int32),
    );
    let outer = ExprImpl::Nullif(NullifExpression::new(
        DataType::Int32,
        Box::new(ExprImpl::Nullif(inner)),
        Box::new(ExprImpl::Literal(Literal::new(Some(ScalarImpl::Int32(2)), DataType::Int32))),
    ));
    let res = outer.eval(&chunk).unwrap();
    assert_eq!(rows(&res), vec![None, None, None, None]);

    let against_null = ExprImpl::Nullif(NullifExpression::new(
        DataType::Int32,
        input_ref(0, DataType::Int32),
        Box::new(ExprImpl::Literal(Literal::new(None, DataType::Int32))),
    ));
    let res = against_null.eval(&chunk).unwrap();
    assert_eq!(
        rows(&res),
        vec![
            Some(ScalarImpl::Int32(2)),
            Some(ScalarImpl::Int32(2)),
            Some(ScalarImpl::Int32(4)),
            Some(ScalarImpl::Int32(3))
        ]
    );
}

#[test]
fn input_ref_reads_its_column() {
    let chunk =
        DataChunk::new(vec![int32s(&[Some(1), None]), int64s(&[None, Some(8)])], 2).unwrap();
    let res = InputRef::new(1, DataType::Int64).eval(&chunk).unwrap();
    assert_eq!(res.data_type(), DataType::Int64);
    assert_eq!(rows(&res), vec![None, Some(ScalarImpl::Int64(8))]);
}

#[test]
fn input_ref_past_the_last_column_is_a_type_mismatch() {
    let chunk = DataChunk::new(vec![int32s(&[Some(1)])], 1).unwrap();
    assert_eq!(InputRef::new(1, DataType::Int32).eval(&chunk), Err(ErrorCode::TypeMismatch));
}

#[test]
fn input_ref_of_another_type_is_a_type_mismatch() {
    let chunk = DataChunk::new(vec![int32s(&[Some(1)])], 1).unwrap();
    assert_eq!(InputRef::new(0, DataType::Int64).eval(&chunk), Err(ErrorCode::TypeMismatch));
}

#[test]
fn nullif_passes_on_the_failure_of_a_child() {
    let chunk = DataChunk::new(vec![int32s(&[Some(1)])], 1).unwrap();
    let expr = NullifExpression::new(
        DataType::Int32,
        input_ref(0, DataType::Int32),
        input_ref(5, DataType::Int32),
    );
    assert_eq!(expr.eval(&chunk), Err(ErrorCode::TypeMismatch));
}

#[test]
fn literal_fills_every_row() {
    let chunk = DataChunk::new(vec![], 3).unwrap();
    let res = Literal::new(Some(ScalarImpl::Int16(-4)), DataType::Int16).eval(&chunk).unwrap();
    assert_eq!(res.data_type(), DataType::Int16);
    assert_eq!(rows(&res), vec![Some(ScalarImpl::Int16(-4)); 3]);

    let res = Literal::new(None, DataType::Boolean).eval(&chunk).unwrap();
    assert_eq!(rows(&res), vec![None; 3]);
}

#[test]
fn literal_of_another_type_is_a_type_mismatch() {
    let chunk = DataChunk::new(vec![], 0).unwrap();
    assert_eq!(
        Literal::new(Some(ScalarImpl::Int16(1)), DataType::Int32).eval(&chunk),
        Err(ErrorCode::TypeMismatch)
    );
}

#[test]
fn array_refuses_a_value_of_another_type() {
    let values = vec![Some(ScalarImpl::Int32(1)), Some(ScalarImpl::Int64(1))];
    assert_eq!(ArrayImpl::new(DataType::Int32, values), Err(ErrorCode::TypeMismatch));
    let values = vec![None, Some(ScalarImpl::Bool(false))];
    let array = ArrayImpl::new(DataType::Boolean, values).unwrap();
    assert_eq!(array.values(), &vec![None, Some(ScalarImpl::Bool(false))]);
    assert_eq!(array.clone(), array);
}

#[test]
fn chunk_refuses_a_column_of_another_length() {
    let columns = vec![int32s(&[Some(1), Some(2)]), int32s(&[Some(1)])];
    assert_eq!(DataChunk::new(columns, 2), Err(ErrorCode::TypeMismatch));
    let chunk = DataChunk::new(vec![int32s(&[Some(1), Some(2)])], 2).unwrap();
    assert_eq!(chunk.cardinality(), 2);
    assert_eq!(chunk.dimension(), 1);
    assert_eq!(chunk.column_at(0), Some(&int32s(&[Some(1), Some(2)])));
    assert_eq!(chunk.column_at(1), None);
}

#[test]
fn builder_keeps_only_rows_of_its_type() {
    let mut builder = ArrayBuilder::new(DataType::Int32, 4);
    assert_eq!(builder.append_datum(&Some(ScalarImpl::Int32(1))), Ok(()));
    assert_eq!(builder.append_datum(&Some(ScalarImpl::Int64(2))), Err(ErrorCode::TypeMismatch));
    builder.append_null();
    assert_eq!(builder.append_datum(&None), Ok(()));
    let array = builder.finish();
    assert_eq!(rows(&array), vec![Some(ScalarImpl::Int32(1)), None, None]);
    assert_eq!(array.data_type(), DataType::Int32);
}

#[test]
fn datum_equality_treats_null_as_a_value() {
    assert!(datum_eq(&None, &None));
    assert!(!datum_eq(&None, &Some(ScalarImpl::Int32(0))));
    assert!(!datum_eq(&Some(ScalarImpl::Int32(0)), &None));
    assert!(datum_eq(&Some(ScalarImpl::Int32(3)), &Some(ScalarImpl::Int32(3))));
    assert!(!datum_eq(&Some(ScalarImpl::Int32(3)), &Some(ScalarImpl::Int32(4))));
    assert!(!datum_eq(&Some(ScalarImpl::Int32(3)), &Some(ScalarImpl::Int64(3))));
    assert!(fits(&None, DataType::Int16));
    assert!(fits(&Some(ScalarImpl::Int16(3)), DataType::Int16));
    assert!(!fits(&Some(ScalarImpl::Int16(3)), DataType::Boolean));
    assert_eq!(ScalarImpl::Bool(true).data_type(), DataType::Boolean);
    assert_eq!(ScalarImpl::Int64(1).data_type(), DataType::Int64);
}

#[test]
fn nullif_refuses_a_child_of_another_type_than_declared() {
    let node = make_nullif_function(
        vec![make_input_ref(0, DataType::Int32), make_input_ref(1, DataType::Int64)],
        DataType::Int32,
    );
    assert_eq!(NullifExpression::try_from(&node), Err(ErrorCode::TypeMismatch));
    let node = make_nullif_function(
        vec![make_input_ref(0, DataType::Int64), make_input_ref(1, DataType::Int32)],
        DataType::Int32,
    );
    assert_eq!(NullifExpression::try_from(&node), Err(ErrorCode::TypeMismatch));
    let node = make_nullif_function(
        vec![make_input_ref(0, DataType::Int32), make_input_ref(1, DataType::Int32)],
        DataType::Boolean,
    );
    assert_eq!(build_from_descriptor(&node), Err(ErrorCode::TypeMismatch));
}

#[test]
fn nullif_reports_a_child_that_cannot_be_built_before_its_type() {
    let mut bad_right = make_input_ref(1, DataType::Int32);
    bad_right.return_type = None;
    let node = make_nullif_function(
        vec![make_input_ref(0, DataType::Int64), bad_right],
        DataType::Int32,
    );
    assert_eq!(NullifExpression::try_from(&node), Err(ErrorCode::MalformedDescriptor));
}

#[test]
fn literal_descriptor_of_another_type_is_a_type_mismatch() {
    let node = make_constant(Some(ScalarImpl::Int32(1)), DataType::Int64);
    assert_eq!(Literal::try_from(&node), Err(ErrorCode::TypeMismatch));
    assert_eq!(build_from_descriptor(&node), Err(ErrorCode::TypeMismatch));
    let node = make_constant(Some(ScalarImpl::Int64(1)), DataType::Int64);
    assert_eq!(
        Literal::try_from(&node),
        Ok(Literal::new(Some(ScalarImpl::Int64(1)), DataType::Int64))
    );
}

#[test]
fn well_typed_trees_are_told_from_others() {
    let good = ExprImpl::Nullif(NullifExpression::new(
        DataType::Int32,
        input_ref(0, DataType::Int32),
        Box::new(ExprImpl::Literal(Literal::new(Some(ScalarImpl::Int32(2)), DataType::Int32))),
    ));
    assert!(good.is_well_typed());
    let bad_child = ExprImpl::Nullif(NullifExpression::new(
        DataType::Int32,
        input_ref(0, DataType::Int64),
        input_ref(1, DataType::Int32),
    ));
    assert!(!bad_child.is_well_typed());
    let bad_literal = ExprImpl::Nullif(NullifExpression::new(
        DataType::Int32,
        input_ref(0, DataType::Int32),
        Box::new(ExprImpl::Literal(Literal::new(Some(ScalarImpl::Int64(2)), DataType::Int32))),
    ));
    assert!(!bad_literal.is_well_typed());
    let nested = ExprImpl::Nullif(NullifExpression::new(
        DataType::Int32,
        Box::new(bad_child),
        input_ref(1, DataType::Int32),
    ));
    assert!(!nested.is_well_typed());
}
