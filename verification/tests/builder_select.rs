use rustic_sql::query::structs::expression::ExpressionNode;
use rustic_sql::query::structs::operation::Operation;
use rustic_sql::query::structs::ordering::{OrderBy, OrderKind};
use rustic_sql::query::structs::query::Query;
use rustic_sql::query::structs::token::{Token, TokenKind};
use rustic_sql::query::tokenizer::Tokenizer;

fn tokenize(sql: &str) -> Vec<Token> {
    let mut tokenizer = Tokenizer::new();
    tokenizer.tokenize(sql).unwrap()
}

fn to_token(value: &str, kind: TokenKind) -> Token {
    Token {
        value: value.to_string(),
        kind,
    }
}

#[test]
fn test_select_basic() {
    let sql = "SELECT id, producto FROM ordenes";
    let tokens = tokenize(sql);
    let query = Query::from(tokens).unwrap();

    assert_eq!(query.operation, Operation::Select);
    assert_eq!(
        query.columns,
        vec![
            to_token("id", TokenKind::Identifier),
            to_token("producto", TokenKind::Identifier),
        ]
    );
    assert_eq!(query.table, "ordenes");
    assert_eq!(query.conditions, ExpressionNode::Empty);
    assert!(query.ordering.is_empty());
}

#[test]
fn test_select_with_conditions() {
    let sql = "SELECT id, producto, cantidad FROM ordenes WHERE cantidad > 30";
    let tokens = tokenize(sql);
    let query = Query::from(tokens).unwrap();

    assert_eq!(query.operation, Operation::Select);
    assert_eq!(
        query.columns,
        vec![
            to_token("id", TokenKind::Identifier),
            to_token("producto", TokenKind::Identifier),
            to_token("cantidad", TokenKind::Identifier),
        ]
    );
    assert_eq!(query.table, "ordenes");
    assert_ne!(query.conditions, ExpressionNode::Empty);
    assert!(query.ordering.is_empty());
}

#[test]
fn test_select_with_ordering() {
    let sql = "SELECT id, producto FROM ordenes ORDER BY id DESC, producto";
    let tokens = tokenize(sql);
    let query = Query::from(tokens).unwrap();

    assert_eq!(query.operation, Operation::Select);
    assert_eq!(
        query.columns,
        vec![
            to_token("id", TokenKind::Identifier),
            to_token("producto", TokenKind::Identifier),
        ]
    );
    assert_eq!(query.table, "ordenes");
    assert_eq!(query.conditions, ExpressionNode::Empty);
    assert_eq!(query.ordering.len(), 2);
    assert_eq!(
        query.ordering[0],
        OrderBy {
            field: to_token("id", TokenKind::Identifier),
            kind: OrderKind::Desc,
        }
    );
    assert_eq!(
        query.ordering[1],
        OrderBy {
            field: to_token("producto", TokenKind::Identifier),
            kind: OrderKind::Asc,
        }
    );
}

#[test]
fn test_select_invalid_keyword() {
    let sql = "SELECT id, name FROM users ORDER BY id DESC VALUES";
    let tokens = tokenize(sql);
    let result = Query::from(tokens);

    assert!(result.is_err());
    assert!(result.unwrap_err().to_string().contains("VALUES"));
}

#[test]
fn test_select_missing_from() {
    let sql = "SELECT id, name users";
    let tokens = tokenize(sql);
    let result = Query::from(tokens);

    assert!(result.is_err());
    assert!(result.unwrap_err().to_string().contains("FROM"));
}

#[test]
fn a_star_stands_for_all_columns() {
    let query = Query::from(tokenize("SELECT * FROM ordenes")).unwrap();
    assert!(query.columns.is_empty());
    assert_eq!(query.table, "ordenes");
}

#[test]
fn a_selection_needs_columns_or_a_star() {
    let result = Query::from(tokenize("SELECT FROM ordenes"));
    assert_eq!(
        result.unwrap_err().to_string(),
        "[INVALID_SYNTAX]: read FROM without any * or fields in query."
    );
}

#[test]
fn a_selection_ends_with_its_last_clause() {
    for sql in [
        "SELECT id FROM ordenes id",
        "SELECT id FROM ordenes WHERE id = 1 id",
        "SELECT id FROM ordenes ORDER BY id 1",
        "SELECT id FROM ordenes ORDER BY id WHERE id = 1",
        "SELECT id FROM ordenes ORDER BY id DESC ASC",
    ] {
        assert!(Query::from(tokenize(sql)).is_err(), "for {:?}", sql);
    }
}

#[test]
fn sort_keys_default_to_ascending() {
    let query =
        Query::from(tokenize("SELECT * FROM t WHERE a = 1 ORDER BY a, b DESC, c ASC")).unwrap();
    let kinds: Vec<OrderKind> = query.ordering.iter().map(|o| o.kind).collect();
    assert_eq!(kinds, vec![OrderKind::Asc, OrderKind::Desc, OrderKind::Asc]);
    assert_eq!(OrderBy::default().kind, OrderKind::Asc);
}
