use rustic_sql::query::structs::expression::{
    ExpressionNode, ExpressionOperator, ExpressionResult,
};
use rustic_sql::query::structs::token::{Token, TokenKind};
use vstd::hash_map::StringHashMap;

#[test]
fn test_evaluate_empty_node() {
    let node = ExpressionNode::Empty;
    assert_eq!(
        node.evaluate(&StringHashMap::new()).unwrap(),
        ExpressionResult::Bool(true)
    );
}

#[test]
fn test_evaluate_leaf_identifier() {
    let mut values = StringHashMap::new();
    values.insert("id_cliente".to_string(), "123".to_string());
    let node = ExpressionNode::Leaf(Token {
        kind: TokenKind::Identifier,
        value: "id_cliente".to_string(),
    });
    assert_eq!(node.evaluate(&values).unwrap(), ExpressionResult::Int(123));
}

#[test]
fn test_evaluate_leaf_string() {
    let node = ExpressionNode::Leaf(Token {
        kind: TokenKind::String,
        value: "buenaaaaas".to_string(),
    });
    assert_eq!(
        node.evaluate(&StringHashMap::new()).unwrap(),
        ExpressionResult::Str("buenaaaaas".to_string())
    );
}

#[test]
fn test_evaluate_leaf_number() {
    let node = ExpressionNode::Leaf(Token {
        kind: TokenKind::Number,
        value: "360".to_string(),
    });
    assert_eq!(
        node.evaluate(&StringHashMap::new()).unwrap(),
        ExpressionResult::Int(360)
    );
}

#[test]
fn test_evaluate_invalid_token() {
    let node = ExpressionNode::Leaf(Token {
        kind: TokenKind::Keyword,
        value: "".to_string(),
    });
    assert_eq!(
        node.evaluate(&StringHashMap::new()).unwrap(),
        ExpressionResult::Bool(false)
    );
}

#[test]
fn test_evaluate_statement_equal_int() {
    let left = ExpressionNode::Leaf(Token {
        kind: TokenKind::Number,
        value: "360".to_string(),
    });
    let right = ExpressionNode::Leaf(Token {
        kind: TokenKind::Number,
        value: "360".to_string(),
    });
    let node = ExpressionNode::Statement {
        operator: ExpressionOperator::Equals,
        left: Box::new(left),
        right: Box::new(right),
    };
    assert_eq!(
        node.evaluate(&StringHashMap::new()).unwrap(),
        ExpressionResult::Bool(true)
    );
}

#[test]
fn test_evaluate_statement_not_equal_str() {
    let left = ExpressionNode::Leaf(Token {
        kind: TokenKind::String,
        value: "rust".to_string(),
    });
    let right = ExpressionNode::Leaf(Token {
        kind: TokenKind::String,
        value: "gleam".to_string(),
    });
    let node = ExpressionNode::Statement {
        operator: ExpressionOperator::NotEquals,
        left: Box::new(left),
        right: Box::new(right),
    };
    assert_eq!(
        node.evaluate(&StringHashMap::new()).unwrap(),
        ExpressionResult::Bool(true)
    );
}

#[test]
fn test_get_variable_value_existing() {
    let mut values = StringHashMap::new();
    values.insert("id_cliente".to_string(), "789".to_string());
    let token = Token {
        kind: TokenKind::Identifier,
        value: "id_cliente".to_string(),
    };
    assert_eq!(
        ExpressionNode::get_variable_value(&values, &token).unwrap(),
        ExpressionResult::Int(789)
    );
}

#[test]
fn test_get_variable_value_non_existing() {
    let values = StringHashMap::new();
    let token = Token {
        kind: TokenKind::Identifier,
        value: "id".to_string(),
    };
    assert!(ExpressionNode::get_variable_value(&values, &token).is_err());
}

#[test]
fn test_as_leaf_tuple_valid() {
    let left = ExpressionNode::Leaf(Token {
        kind: TokenKind::Identifier,
        value: "id_cliente".to_string(),
    });
    let right = ExpressionNode::Leaf(Token {
        kind: TokenKind::Identifier,
        value: "360".to_string(),
    });
    let node = ExpressionNode::Statement {
        operator: ExpressionOperator::Equals,
        left: Box::new(left),
        right: Box::new(right),
    };
    let (l, r) = node.as_leaf_tuple().unwrap();
    assert_eq!(l.value, "id_cliente");
    assert_eq!(r.value, "360");
}

#[test]
fn test_as_leaf_tuple_invalid() {
    let left = ExpressionNode::Statement {
        operator: ExpressionOperator::Equals,
        left: Box::new(ExpressionNode::Empty),
        right: Box::new(ExpressionNode::Empty),
    };
    let right = ExpressionNode::Leaf(Token {
        kind: TokenKind::Identifier,
        value: "col1".to_string(),
    });
    let node = ExpressionNode::Statement {
        operator: ExpressionOperator::Equals,
        left: Box::new(left),
        right: Box::new(right),
    };
    assert!(node.as_leaf_tuple().is_err());
}

use rustic_sql::utils::errors::Errored;

fn leaf(kind: TokenKind, value: &str) -> Box<ExpressionNode> {
    Box::new(ExpressionNode::Leaf(Token {
        kind,
        value: value.to_string(),
    }))
}

fn statement(
    operator: ExpressionOperator,
    left: Box<ExpressionNode>,
    right: Box<ExpressionNode>,
) -> ExpressionNode {
    ExpressionNode::Statement {
        operator,
        left,
        right,
    }
}

#[test]
fn a_number_and_a_text_cannot_be_compared() {
    let values = StringHashMap::new();
    for operator in [
        ExpressionOperator::Equals,
        ExpressionOperator::NotEquals,
        ExpressionOperator::LessThan,
        ExpressionOperator::And,
    ] {
        for (left, right) in [
            (leaf(TokenKind::Number, "5"), leaf(TokenKind::String, "5")),
            (leaf(TokenKind::String, "a"), leaf(TokenKind::Number, "1")),
        ] {
            match statement(operator, left, right).evaluate(&values) {
                Err(Errored::Syntax(message)) => {
                    assert_eq!(message, "expression members must match in type.")
                }
                other => panic!("expected a syntax error, got {:?}", other),
            }
        }
    }
}

#[test]
fn equal_numbers_and_different_texts() {
    let values = StringHashMap::new();
    let five = statement(
        ExpressionOperator::Equals,
        leaf(TokenKind::Number, "5"),
        leaf(TokenKind::Number, "5"),
    );
    assert_eq!(five.evaluate(&values).unwrap(), ExpressionResult::Bool(true));
    let texts = statement(
        ExpressionOperator::NotEquals,
        leaf(TokenKind::String, "a"),
        leaf(TokenKind::String, "b"),
    );
    assert_eq!(texts.evaluate(&values).unwrap(), ExpressionResult::Bool(true));
}

#[test]
fn a_column_is_a_number_where_its_text_reads_as_one() {
    let mut values = StringHashMap::new();
    values.insert("a".to_string(), "-12".to_string());
    values.insert("b".to_string(), "12x".to_string());
    values.insert("c".to_string(), "".to_string());
    values.insert("d".to_string(), "9223372036854775808".to_string());
    let value = |name: &str| leaf(TokenKind::Identifier, name).evaluate(&values).unwrap();
    assert_eq!(value("a"), ExpressionResult::Int(-12));
    assert_eq!(value("b"), ExpressionResult::Str("12x".to_string()));
    assert_eq!(value("c"), ExpressionResult::Str("".to_string()));
    assert_eq!(
        value("d"),
        ExpressionResult::Str("9223372036854775808".to_string())
    );
    match leaf(TokenKind::Identifier, "e").evaluate(&values) {
        Err(Errored::Column(message)) => assert_eq!(message, "column e does not exist"),
        other => panic!("expected a column error, got {:?}", other),
    }
}

#[test]
fn a_number_literal_has_to_fit() {
    let values = StringHashMap::new();
    match leaf(TokenKind::Number, "9223372036854775808").evaluate(&values) {
        Err(Errored::Default(message)) => assert_eq!(
            message,
            "PARSE_INT - 9223372036854775808 does not fit a 64-bit integer"
        ),
        other => panic!("expected a generic error, got {:?}", other),
    }
}

#[test]
fn connectives_work_on_booleans_and_the_left_error_wins() {
    let values = StringHashMap::new();
    let truth = || {
        Box::new(statement(
            ExpressionOperator::Equals,
            leaf(TokenKind::Number, "1"),
            leaf(TokenKind::Number, "1"),
        ))
    };
    let not = statement(ExpressionOperator::Not, truth(), Box::new(ExpressionNode::Empty));
    assert_eq!(not.evaluate(&values).unwrap(), ExpressionResult::Bool(false));
    let both = statement(ExpressionOperator::And, truth(), Box::new(not));
    assert_eq!(both.evaluate(&values).unwrap(), ExpressionResult::Bool(false));
    let greater = statement(ExpressionOperator::GreaterThan, truth(), truth());
    assert!(matches!(greater.evaluate(&values), Err(Errored::Syntax(_))));
    let failing = statement(
        ExpressionOperator::Or,
        leaf(TokenKind::Identifier, "x"),
        leaf(TokenKind::Number, "99999999999999999999"),
    );
    assert!(matches!(failing.evaluate(&values), Err(Errored::Column(_))));
}

#[test]
fn an_assignment_is_equals_over_two_leaves() {
    let greater = statement(
        ExpressionOperator::GreaterThan,
        leaf(TokenKind::Identifier, "a"),
        leaf(TokenKind::Number, "1"),
    );
    match greater.as_leaf_tuple() {
        Err(Errored::Default(message)) => {
            assert_eq!(message, "expected an assignment with the operator Equals.")
        }
        other => panic!("expected a generic error, got {:?}", other),
    }
    assert!(matches!(
        ExpressionNode::Empty.as_leaf_tuple(),
        Err(Errored::Default(_))
    ));
    assert!(matches!(
        leaf(TokenKind::Identifier, "a").as_leaf_tuple(),
        Err(Errored::Default(_))
    ));
    assert_eq!(ExpressionNode::default(), ExpressionNode::Empty);
    assert_eq!(ExpressionOperator::default(), ExpressionOperator::Nothing);
}
