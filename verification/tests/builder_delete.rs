use rustic_sql::query::structs::expression::ExpressionNode;
use rustic_sql::query::structs::operation::Operation;
use rustic_sql::query::structs::query::Query;
use rustic_sql::query::structs::token::Token;
use rustic_sql::query::tokenizer::Tokenizer;

fn tokenize(sql: &str) -> Vec<Token> {
    let mut tokenizer = Tokenizer::new();
    tokenizer.tokenize(sql).unwrap()
}

#[test]
fn test_delete_simple() {
    let sql = "DELETE FROM ordenes";
    let tokens = tokenize(sql);
    let query = Query::from(tokens).unwrap();

    assert_eq!(query.operation, Operation::Delete);
    assert_eq!(query.table, "ordenes");
    assert_eq!(query.conditions, ExpressionNode::Empty);
}

#[test]
fn test_delete_with_conditions() {
    let sql = "DELETE FROM ordenes WHERE id = 1";
    let tokens = tokenize(sql);
    let query = Query::from(tokens).unwrap();

    assert_eq!(query.operation, Operation::Delete);
    assert_eq!(query.table, "ordenes");
    assert_ne!(query.conditions, ExpressionNode::Empty);
}

#[test]
fn test_delete_invalid_keyword() {
    let sql = "DELETE FROM ordenes ORDER BY id";
    let tokens = tokenize(sql);
    let result = Query::from(tokens);

    assert!(result.is_err());
    assert!(result.unwrap_err().to_string().contains("ORDER BY"));
}

#[test]
fn test_delete_missing_table() {
    let sql = "DELETE WHERE id = 1";
    let tokens = tokenize(sql);
    let result = Query::from(tokens);

    assert!(result.is_err());
    assert!(result.unwrap_err().to_string().contains("FROM"));
}

#[test]
fn a_deletion_ends_with_its_condition() {
    for sql in [
        "DELETE FROM ordenes WHERE id = 1 producto",
        "DELETE FROM ordenes WHERE id = 1)",
        "DELETE FROM ordenes id",
        "DELETE FROM ordenes WHERE NOT id = 1",
    ] {
        let tokens = match Tokenizer::new().tokenize(sql) {
            Ok(tokens) => tokens,
            Err(_) => continue,
        };
        assert!(Query::from(tokens).is_err(), "for {:?}", sql);
    }
    let query = Query::from(tokenize("DELETE FROM ordenes WHERE")).unwrap();
    assert_eq!(query.conditions, ExpressionNode::Empty);
}

#[test]
fn the_table_of_a_deletion_has_to_be_an_identifier() {
    let result = Query::from(tokenize("DELETE FROM 'ordenes'"));
    assert!(result.unwrap_err().to_string().contains("TABLE"));
    let result = Query::from(tokenize("DELETE FROM"));
    assert_eq!(
        result.unwrap_err().to_string(),
        "[INVALID_SYNTAX]: could not find table identifier."
    );
}
