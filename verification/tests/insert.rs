use rustic_sql::query::executor::{Executor, Outcome};
use rustic_sql::query::structs::query::Query;
use rustic_sql::query::tokenizer::Tokenizer;
use rustic_sql::query::validate_query_string;
use rustic_sql::utils::errors::Errored;
use rustic_sql::utils::files::table_file_name;

/// A directory of tables that is held in memory: each table by the name
/// of its file, as its lines.
pub struct RusticSQLTest {
    tables: Vec<(String, Vec<String>)>,
}

fn lines(text: &[&str]) -> Vec<String> {
    text.iter().map(|l| l.to_string()).collect()
}

impl RusticSQLTest {
    pub fn assert_row(&mut self, query: &str, expected_row: &[&str]) {
        let expected_row_str = expected_row.join(",");
        let select_result = self.run_and_get_rows(query.to_string());
        if select_result.len() == 1 {
            assert_eq!("", expected_row_str);
        } else {
            assert_eq!(select_result[1], expected_row_str);
        }
    }

    fn read_table_to_string(&self, table: &String) -> String {
        let mut content = String::new();
        for (name, lines) in &self.tables {
            if name == table {
                for line in lines {
                    content.push_str(line);
                    content.push('\n');
                }
            }
        }
        content
    }

    pub fn verify_no_changes(&mut self, table: String, query: &str) {
        let before_query = self.read_table_to_string(&table);
        let result = self.run_for(query.to_string());
        if result.is_err() {
            panic!("error executing query");
        }
        let after_query = self.read_table_to_string(&table);
        assert_eq!(before_query, after_query)
    }

    /// Runs one query as the program does and returns what it prints.
    fn execute(&mut self, query: String) -> Result<Vec<String>, Errored> {
        validate_query_string(&query)?;
        let tokens = Tokenizer::new().tokenize(&query)?;
        let query = Query::from(tokens)?;
        let file = table_file_name(&query.table);
        let position = match self.tables.iter().position(|(name, _)| *name == file) {
            Some(position) => position,
            None => {
                return Err(Errored::Default(format!(
                    "table {} does not exist in directory: memory",
                    query.table
                )))
            }
        };
        match Executor::run(&self.tables[position].1, query)? {
            Outcome::Printed(lines) => Ok(lines),
            Outcome::Replaced(lines) => {
                self.tables[position].1 = lines;
                Ok(vec![])
            }
            Outcome::Appended(lines) => {
                self.tables[position].1.extend(lines);
                Ok(vec![])
            }
        }
    }

    pub fn run_for(&mut self, query: String) -> Result<(), Errored> {
        self.execute(query).map(|_| ())
    }

    pub fn run_and_get_rows(&mut self, query: String) -> Vec<String> {
        match self.execute(query) {
            Ok(lines) => lines,
            Err(e) => vec![e.to_string()],
        }
    }
}

impl Default for RusticSQLTest {
    fn default() -> Self {
        let pokemon = lines(&[
            "id,name,type,level",
            "1,Pikachu,Electric,25",
            "2,Charmander,Fire,12",
            "3,Squirtle,Water,10",
            "4,Bulbasaur,Grass,11",
            "5,Jolteon,Electric,36",
            "6,Vulpix,Fire,18",
            "7,Psyduck,Water,20",
            "8,Oddish,Grass,9",
            "9,Gengar,Ghost,45",
            "10,Onix,Rock,30",
        ]);
        let users = lines(&[
            "user_id,name,email,age",
            "1,John Doe,john.doe@example.com,28",
            "2,Jane Smith,jane.smith@example.com,34",
            "3,Alice Johnson,alice.johnson@example.com,25",
            "4,Bob Brown,bob.brown@example.com,45",
            "5,Charlie Davis,charlie.davis@example.com,31",
            "6,Diana Evans,diana.evans@example.com,22",
            "7,Eve Adams,eve.adams@example.com,33",
            "8,Frank Miller,frank.miller@example.com,40",
            "9,Grace Wilson,grace.wilson@example.com,29",
            "10,Henry Clark,henry.clark@example.com,38",
        ]);
        let people = lines(&["id,name,surname", "1,Ada,Lovelace", "2,Alan,Turing"]);
        RusticSQLTest {
            tables: vec![
                ("pokemon.csv".to_string(), pokemon),
                ("users.csv".to_string(), users),
                ("people.csv".to_string(), people),
            ],
        }
    }
}

#[test]
fn test_insert_user_all_fields() {
    let mut test = RusticSQLTest::default();
    let query = "INSERT INTO users (user_id, name, email, age) VALUES (14, 'Solidus Snake', 'solidus.snake@mgs.com', 40)";
    let result = test.run_for(query.to_string());
    assert!(result.is_ok());
    let select_query = "SELECT * FROM users WHERE user_id = 14";
    test.assert_row(
        select_query,
        &["14", "Solidus Snake", "solidus.snake@mgs.com", "40"],
    )
}

#[test]
fn test_insert_nothing() {
    let mut test = RusticSQLTest::default();
    let query = "INSERT INTO users VALUES (14, 'Solidus Snake', 'solidus.snake@mgs.com', 40)";
    let result = test.run_for(query.to_string());
    println!("{:?}", &result);
    assert!(result.is_err());
}

#[test]
fn test_insert_multiple_rows() {
    let mut test = RusticSQLTest::default();
    let insert_query = "INSERT INTO users (user_id, name, email, age) VALUES (15, 'Raiden', 'raiden@mgs.com', 33), (16, 'Big Boss', 'big.boss@mgs.com', 45)";
    let result = test.run_for(insert_query.to_string());
    assert!(result.is_ok());
    let select_query = "SELECT * FROM users WHERE user_id = 15";
    test.assert_row(select_query, &["15", "Raiden", "raiden@mgs.com", "33"]);
    let select_query = "SELECT * FROM users WHERE user_id = 16";
    test.assert_row(select_query, &["16", "Big Boss", "big.boss@mgs.com", "45"]);
}

#[test]
fn test_insert_missing_user_id_and_name() {
    let mut test = RusticSQLTest::default();
    let insert_query = "INSERT INTO users (email, age) VALUES ('liquid.snake@mgs.com', 35)";
    let result = test.run_for(insert_query.to_string());
    assert!(result.is_ok());
    let select_query = "SELECT * FROM users WHERE email = 'liquid.snake@mgs.com'";
    test.assert_row(select_query, &["", "", "liquid.snake@mgs.com", "35"]);
}

#[test]
fn insert_test_insert_invalid_column() {
    let mut test = RusticSQLTest::default();
    let insert_query = "INSERT INTO users (user_id, name, email, age, extra_column) VALUES (20, 'Raiden', 'raiden@mgs.com', 33, 'extra')";
    let result = test.run_for(insert_query.to_string());
    assert!(result.is_err_and(|e| e.to_string().contains("exist")));
}

#[test]
fn test_insert_invalid_table() {
    let mut test = RusticSQLTest::default();
    let insert_query =
        "INSERT INTO kojima (user_id, name, email, age) VALUES (21, 'Quiet', 'quiet@mgs.com', 27)";
    let result = test.run_for(insert_query.to_string());
    assert!(result.is_err_and(|e| e.to_string().contains("table")));
}

#[test]
fn insert_leaves_the_columns_that_are_not_named_empty() {
    let table = vec!["user_id,name,email,age".to_string()];
    let tokens = Tokenizer::new()
        .tokenize("INSERT INTO users (user_id, name) VALUES (1, 'Ana')")
        .unwrap();
    let query = Query::from(tokens).unwrap();
    assert_eq!(
        Executor::run(&table, query).unwrap(),
        Outcome::Appended(vec!["1,Ana,,".to_string()])
    );
}

#[test]
fn insert_adds_one_line_for_each_row_in_the_order_of_the_header() {
    let table = vec!["a, b ,c".to_string(), "1,2,3".to_string()];
    let tokens = Tokenizer::new()
        .tokenize("INSERT INTO t (c, a) VALUES (30, 10), ('z', 'x')")
        .unwrap();
    let query = Query::from(tokens).unwrap();
    assert_eq!(
        Executor::run(&table, query).unwrap(),
        Outcome::Appended(vec!["10,,30".to_string(), "x,,z".to_string()])
    );
}

#[test]
fn an_insert_with_too_few_or_too_many_literals_is_rejected() {
    for sql in [
        "INSERT INTO users (user_id, name) VALUES (1)",
        "INSERT INTO users (user_id, name) VALUES (1, 'Ana', 3)",
        "INSERT INTO users (user_id, name) VALUES (1, 'Ana'), ()",
    ] {
        let tokens = Tokenizer::new().tokenize(sql).unwrap();
        match Query::from(tokens) {
            Err(Errored::Syntax(message)) => assert!(message.contains("columns")),
            other => panic!("expected a syntax error, got {:?}", other),
        }
    }
    let tokens = Tokenizer::new()
        .tokenize("INSERT INTO users (user_id, name) VALUES (1, 'Ana', 3)")
        .unwrap();
    assert_eq!(
        Query::from(tokens).unwrap_err().to_string(),
        "[INVALID_SYNTAX]: expected 2 columns but insert has:\n[\"1\", \"Ana\", \"3\"]"
    );
}
