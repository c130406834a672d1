use plan_rewrite::error::ErrorCode;
use plan_rewrite::expr::expr_nullif::NullifExpression;
use plan_rewrite::expr::{ExprImpl, InputRef, Literal};
use plan_rewrite::types::{DataType, ScalarImpl};
use plan_rewrite::utils::ColIndexMapping;

fn input_ref(index: usize, data_type: DataType) -> ExprImpl {
    ExprImpl::InputRef(InputRef::new(index, data_type))
}

fn int_literal(value: i32) -> ExprImpl {
    ExprImpl::Literal(Literal::new(Some(ScalarImpl::Int32(value)), DataType::Int32))
}

fn nullif(left: ExprImpl, right: ExprImpl) -> ExprImpl {
    ExprImpl::Nullif(NullifExpression::new(DataType::Int32, Box::new(left), Box::new(right)))
}

#[test]
fn shift_maps_each_position_up_by_the_offset() {
    let mapping = ColIndexMapping::with_shift_offset(3, 2);
    assert_eq!(mapping.source_size(), 3);
    assert_eq!(mapping.try_map(0), Some(2));
    assert_eq!(mapping.try_map(1), Some(3));
    assert_eq!(mapping.try_map(2), Some(4));
    assert_eq!(mapping.try_map(3), None);
    assert_eq!(mapping.map(2), 4);
    assert_eq!(mapping, ColIndexMapping::new(vec![Some(2), Some(3), Some(4)]));
}

#[test]
fn shift_by_zero_is_the_identity() {
    let mapping = ColIndexMapping::with_shift_offset(2, 0);
    assert_eq!(mapping.try_map(0), Some(0));
    assert_eq!(mapping.try_map(1), Some(1));
    let expr = nullif(input_ref(1, DataType::Int32), input_ref(0, DataType::Int32));
    assert_eq!(mapping.rewrite_expr(&expr), Ok(expr));
}

#[test]
fn shift_drops_positions_that_would_overflow() {
    let mapping = ColIndexMapping::with_shift_offset(3, usize::MAX - 1);
    assert_eq!(mapping.try_map(0), Some(usize::MAX - 1));
    assert_eq!(mapping.try_map(1), Some(usize::MAX));
    assert_eq!(mapping.try_map(2), None);
    assert_eq!(
        mapping.rewrite_expr(&input_ref(2, DataType::Int32)),
        Err(ErrorCode::RuleApplicationError)
    );
}

#[test]
fn shift_rewrites_an_input_ref_to_index_plus_offset() {
    let mapping = ColIndexMapping::with_shift_offset(5, 7);
    assert_eq!(
        mapping.rewrite_expr(&input_ref(4, DataType::Int64)),
        Ok(input_ref(11, DataType::Int64))
    );
}

#[test]
fn rewrite_reaches_every_reference_and_keeps_literals() {
    let mapping = ColIndexMapping::with_shift_offset(3, 10);
    let expr = nullif(
        nullif(input_ref(0, DataType::Int32), int_literal(5)),
        nullif(input_ref(2, DataType::Int32), input_ref(1, DataType::Int32)),
    );
    let expected = nullif(
        nullif(input_ref(10, DataType::Int32), int_literal(5)),
        nullif(input_ref(12, DataType::Int32), input_ref(11, DataType::Int32)),
    );
    assert_eq!(mapping.rewrite_expr(&expr), Ok(expected));
    assert_eq!(mapping.rewrite_expr(&int_literal(9)), Ok(int_literal(9)));
}

#[test]
fn rewrite_fails_on_a_reference_without_an_entry() {
    let mapping = ColIndexMapping::with_shift_offset(2, 1);
    let expr = nullif(input_ref(0, DataType::Int32), input_ref(2, DataType::Int32));
    assert_eq!(mapping.rewrite_expr(&expr), Err(ErrorCode::RuleApplicationError));
}

#[test]
fn explicit_table_prunes_and_reorders() {
    let mapping = ColIndexMapping::new(vec![Some(1), None, Some(0)]);
    assert_eq!(mapping.try_map(0), Some(1));
    assert_eq!(mapping.try_map(1), None);
    assert_eq!(mapping.try_map(2), Some(0));
    let expr = nullif(input_ref(2, DataType::Int32), input_ref(0, DataType::Int32));
    let expected = nullif(input_ref(0, DataType::Int32), input_ref(1, DataType::Int32));
    assert_eq!(mapping.rewrite_expr(&expr), Ok(expected));
    assert_eq!(
        mapping.rewrite_expr(&input_ref(1, DataType::Int32)),
        Err(ErrorCode::RuleApplicationError)
    );
}

#[test]
fn has_refs_within_looks_at_every_reference() {
    let expr = nullif(
        nullif(input_ref(0, DataType::Int32), int_literal(5)),
        input_ref(3, DataType::Int32),
    );
    assert!(expr.has_refs_within(4));
    assert!(!expr.has_refs_within(3));
    assert!(int_literal(1).has_refs_within(0));
    assert_eq!(expr.clone(), expr);
}
