use rustic_sql::query::structs::query::Query;
use rustic_sql::query::structs::token::Token;
use rustic_sql::utils::errors::Errored;

#[test]
fn test_invalid_query() {
    let tokens = vec![Token::default()];
    let result = Query::from(tokens);
    assert!(
        result.is_err(),
        "debería dar error con un token desconocido."
    );
    match result {
        Err(Errored::Syntax(msg)) => assert!(msg.contains("operación válida")),
        _ => panic!("se esperaba un error de sintaxis para el primer token de la consulta."),
    }
}

use rustic_sql::query::builder::get_kind;
use rustic_sql::query::structs::operation::Operation;
use rustic_sql::query::structs::token::TokenKind;
use rustic_sql::query::tokenizer::Tokenizer;

#[test]
fn the_first_token_names_the_operation() {
    for (word, operation) in [
        ("SELECT", Operation::Select),
        ("INSERT INTO", Operation::Insert),
        ("UPDATE", Operation::Update),
        ("DELETE", Operation::Delete),
        ("select", Operation::Unknown),
        ("FROM", Operation::Unknown),
    ] {
        let token = Token {
            value: word.to_string(),
            kind: TokenKind::Keyword,
        };
        assert_eq!(get_kind(Some(token)), operation);
    }
    assert_eq!(get_kind(None), Operation::Unknown);
}

#[test]
fn a_query_without_tokens_names_no_operation() {
    assert!(matches!(Query::from(vec![]), Err(Errored::Syntax(_))));
    let tokens = Tokenizer::new().tokenize("FROM t SELECT a").unwrap();
    assert!(matches!(Query::from(tokens), Err(Errored::Syntax(_))));
}

#[test]
fn the_default_query_is_empty() {
    let query = Query::default();
    assert_eq!(query.operation, Operation::Unknown);
    assert_eq!(query.table, "");
    assert!(query.columns.is_empty() && query.inserts.is_empty());
    assert!(query.updates.is_empty() && query.ordering.is_empty());
}
