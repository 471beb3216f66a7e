use rustic_sql::query::structs::expression::{ExpressionNode, ExpressionOperator};
use rustic_sql::query::structs::operation::Operation;
use rustic_sql::query::structs::query::Query;
use rustic_sql::query::structs::token::{Token, TokenKind};
use rustic_sql::query::tokenizer::Tokenizer;

fn tokenize(sql: &str) -> Vec<Token> {
    let mut tokenizer = Tokenizer::new();
    tokenizer.tokenize(sql).unwrap()
}

fn to_token(value: &str, kind: TokenKind) -> Token {
    Token {
        value: value.to_string(),
        kind,
    }
}

#[test]
fn test_update_simple() {
    let sql = "UPDATE ordenes SET id = 5";
    let tokens = tokenize(sql);
    let query = Query::from(tokens).unwrap();

    assert_eq!(query.operation, Operation::Update);
    assert_eq!(query.table, "ordenes");
    assert_eq!(
        query.updates,
        vec![ExpressionNode::Statement {
            operator: ExpressionOperator::Equals,
            left: Box::new(ExpressionNode::Leaf(to_token("id", TokenKind::Identifier))),
            right: Box::new(ExpressionNode::Leaf(to_token("5", TokenKind::Number))),
        }]
    );
    assert_eq!(query.conditions, ExpressionNode::Empty);
}

#[test]
fn test_update_with_conditions() {
    let sql = "UPDATE ordenes SET cantidad = 5 WHERE id = 1";
    let tokens = tokenize(sql);
    let query = Query::from(tokens).unwrap();

    assert_eq!(query.operation, Operation::Update);
    assert_eq!(query.table, "ordenes");
    assert_eq!(
        query.updates,
        vec![ExpressionNode::Statement {
            operator: ExpressionOperator::Equals,
            left: Box::new(ExpressionNode::Leaf(to_token(
                "cantidad",
                TokenKind::Identifier
            ))),
            right: Box::new(ExpressionNode::Leaf(to_token("5", TokenKind::Number))),
        }]
    );
    assert_ne!(query.conditions, ExpressionNode::Empty);
}

#[test]
fn test_update_invalid_keyword() {
    let sql = "UPDATE ordenes SET quantity = 5 ORDER BY id";
    let tokens = tokenize(sql);
    let result = Query::from(tokens);

    assert!(result.is_err());
    assert!(result.unwrap_err().to_string().contains("ORDER BY"));
}

#[test]
fn test_update_missing_set() {
    let sql = "UPDATE ordenes quantity = 5";
    let tokens = tokenize(sql);
    let result = Query::from(tokens);

    assert!(result.is_err());
    assert!(result.unwrap_err().to_string().contains("SET"));
}

#[test]
fn an_update_ends_with_its_condition() {
    let result = Query::from(tokenize("UPDATE ordenes SET id = 5 WHERE id = 1 2"));
    assert!(result
        .unwrap_err()
        .to_string()
        .contains("expected end of query"));
}

#[test]
fn an_update_may_hold_several_assignments() {
    let query = Query::from(tokenize("UPDATE t SET a = 1, b = 'x', c = d")).unwrap();
    assert_eq!(query.updates.len(), 3);
    let (field, value) = query.updates[2].as_leaf_tuple().unwrap();
    assert_eq!(field.value, "c");
    assert_eq!(value.value, "d");
}
