use rustic_sql::query::structs::comparator::ExpressionComparator;
use rustic_sql::query::structs::expression::{ExpressionOperator, ExpressionResult};
use std::cmp::Ordering;

#[test]
fn test_compare_ints() {
    assert_eq!(
        ExpressionComparator::compare_ints(5, 5, &ExpressionOperator::Equals).unwrap(),
        ExpressionResult::Bool(true)
    );
    assert_eq!(
        ExpressionComparator::compare_ints(5, 4, &ExpressionOperator::NotEquals).unwrap(),
        ExpressionResult::Bool(true)
    );
    assert_eq!(
        ExpressionComparator::compare_ints(5, 4, &ExpressionOperator::GreaterThan).unwrap(),
        ExpressionResult::Bool(true)
    );
    assert_eq!(
        ExpressionComparator::compare_ints(4, 5, &ExpressionOperator::LessThan).unwrap(),
        ExpressionResult::Bool(true)
    );
    assert_eq!(
        ExpressionComparator::compare_ints(5, 5, &ExpressionOperator::GreaterOrEqual).unwrap(),
        ExpressionResult::Bool(true)
    );
    assert_eq!(
        ExpressionComparator::compare_ints(4, 5, &ExpressionOperator::LessOrEqual).unwrap(),
        ExpressionResult::Bool(true)
    );
}

#[test]
fn test_compare_ints_invalid() {
    assert!(ExpressionComparator::compare_ints(5, 5, &ExpressionOperator::And).is_err());
}

#[test]
fn test_compare_str() {
    assert_eq!(
        ExpressionComparator::compare_str("a", "a", &ExpressionOperator::Equals).unwrap(),
        ExpressionResult::Bool(true)
    );
    assert_eq!(
        ExpressionComparator::compare_str("a", "b", &ExpressionOperator::NotEquals).unwrap(),
        ExpressionResult::Bool(true)
    );
    assert_eq!(
        ExpressionComparator::compare_str("b", "a", &ExpressionOperator::GreaterThan).unwrap(),
        ExpressionResult::Bool(true)
    );
    assert_eq!(
        ExpressionComparator::compare_str("a", "b", &ExpressionOperator::LessThan).unwrap(),
        ExpressionResult::Bool(true)
    );
    assert_eq!(
        ExpressionComparator::compare_str("a", "a", &ExpressionOperator::GreaterOrEqual).unwrap(),
        ExpressionResult::Bool(true)
    );
    assert_eq!(
        ExpressionComparator::compare_str("a", "b", &ExpressionOperator::LessOrEqual).unwrap(),
        ExpressionResult::Bool(true)
    );
}

#[test]
fn test_compare_str_invalid() {
    assert!(ExpressionComparator::compare_str("a", "a", &ExpressionOperator::And).is_err());
}

#[test]
fn test_compare_bools() {
    assert_eq!(
        ExpressionComparator::compare_bools(true, false, &ExpressionOperator::And).unwrap(),
        ExpressionResult::Bool(false)
    );
    assert_eq!(
        ExpressionComparator::compare_bools(true, false, &ExpressionOperator::Or).unwrap(),
        ExpressionResult::Bool(true)
    );
    assert_eq!(
        ExpressionComparator::compare_bools(true, false, &ExpressionOperator::Not).unwrap(),
        ExpressionResult::Bool(false)
    );
}

#[test]
fn test_compare_bools_invalid() {
    assert!(ExpressionComparator::compare_bools(true, false, &ExpressionOperator::Equals).is_err());
}

#[test]
fn test_compare_ordering_ints() {
    assert_eq!(
        ExpressionComparator::compare_ordering(&ExpressionResult::Int(5), &ExpressionResult::Int(5))
            .unwrap(),
        Ordering::Equal
    );
    assert_eq!(
        ExpressionComparator::compare_ordering(&ExpressionResult::Int(5), &ExpressionResult::Int(4))
            .unwrap(),
        Ordering::Greater
    );
    assert_eq!(
        ExpressionComparator::compare_ordering(&ExpressionResult::Int(4), &ExpressionResult::Int(5))
            .unwrap(),
        Ordering::Less
    );
}

#[test]
fn test_compare_ordering_strs() {
    assert_eq!(
        ExpressionComparator::compare_ordering(
            &ExpressionResult::Str("a".to_string()),
            &ExpressionResult::Str("a".to_string())
        )
        .unwrap(),
        Ordering::Equal
    );
    assert_eq!(
        ExpressionComparator::compare_ordering(
            &ExpressionResult::Str("b".to_string()),
            &ExpressionResult::Str("a".to_string())
        )
        .unwrap(),
        Ordering::Greater
    );
    assert_eq!(
        ExpressionComparator::compare_ordering(
            &ExpressionResult::Str("a".to_string()),
            &ExpressionResult::Str("b".to_string())
        )
        .unwrap(),
        Ordering::Less
    );
}

#[test]
fn test_compare_ordering_invalid() {
    assert!(ExpressionComparator::compare_ordering(
        &ExpressionResult::Int(5),
        &ExpressionResult::Str("a".to_string())
    )
    .is_err());
}

use rustic_sql::query::structs::comparator::Comparison;
use rustic_sql::utils::errors::Errored;

#[test]
fn comparisons_give_both_answers() {
    let cases = [
        (ExpressionOperator::Equals, [false, true, false]),
        (ExpressionOperator::NotEquals, [true, false, true]),
        (ExpressionOperator::GreaterThan, [false, false, true]),
        (ExpressionOperator::LessThan, [true, false, false]),
        (ExpressionOperator::GreaterOrEqual, [false, true, true]),
        (ExpressionOperator::LessOrEqual, [true, true, false]),
    ];
    for (operator, expected) in cases {
        let ints = [(1, 2), (2, 2), (3, 2)];
        let strs = [("a", "b"), ("b", "b"), ("ba", "b")];
        for k in 0..3 {
            assert_eq!(
                ExpressionComparator::compare_ints(ints[k].0, ints[k].1, &operator).unwrap(),
                ExpressionResult::Bool(expected[k])
            );
            assert_eq!(
                ExpressionComparator::compare_str(strs[k].0, strs[k].1, &operator).unwrap(),
                ExpressionResult::Bool(expected[k])
            );
        }
    }
    assert_eq!(
        ExpressionComparator::compare_ints(i64::MIN, i64::MAX, &ExpressionOperator::LessThan)
            .unwrap(),
        ExpressionResult::Bool(true)
    );
}

#[test]
fn an_operator_of_the_wrong_kind_is_named_in_the_error() {
    match ExpressionComparator::compare_ints(1, 2, &ExpressionOperator::Or) {
        Err(Errored::Syntax(message)) => assert_eq!(message, "invalid comparison for ints: Or"),
        other => panic!("expected a syntax error, got {:?}", other),
    }
    match ExpressionComparator::compare_str("a", "b", &ExpressionOperator::Not) {
        Err(Errored::Syntax(message)) => assert_eq!(message, "invalid comparison for str: Not"),
        other => panic!("expected a syntax error, got {:?}", other),
    }
    match ExpressionComparator::compare_bools(true, true, &ExpressionOperator::LessOrEqual) {
        Err(Errored::Syntax(message)) => {
            assert_eq!(message, "invalid comparison for bool: LessOrEqual")
        }
        other => panic!("expected a syntax error, got {:?}", other),
    }
}

#[test]
fn values_of_two_types_have_no_order() {
    let result = ExpressionComparator::compare_ordering(
        &ExpressionResult::Int(-5),
        &ExpressionResult::Str("a".to_string()),
    );
    match result {
        Err(Errored::Syntax(message)) => assert_eq!(
            message,
            "Cannot compare different types: Int(-5) and Str(\"a\")"
        ),
        other => panic!("expected a syntax error, got {:?}", other),
    }
    assert_eq!(
        ExpressionComparator::compare_values(
            &ExpressionResult::Bool(true),
            &ExpressionResult::Int(1)
        ),
        Comparison::Equal
    );
}

#[test]
fn booleans_are_ordered_false_first() {
    let f = ExpressionResult::Bool(false);
    let t = ExpressionResult::Bool(true);
    assert_eq!(
        ExpressionComparator::compare_ordering(&f, &t).unwrap(),
        Ordering::Less
    );
    assert_eq!(
        ExpressionComparator::compare_ordering(&t, &f).unwrap(),
        Ordering::Greater
    );
    assert_eq!(
        ExpressionComparator::compare_ordering(&t, &t).unwrap(),
        Ordering::Equal
    );
    assert_eq!(
        ExpressionComparator::compare_values(&f, &t),
        Comparison::Less
    );
    assert_eq!(
        ExpressionComparator::compare_values(&t, &f),
        Comparison::Greater
    );
}
