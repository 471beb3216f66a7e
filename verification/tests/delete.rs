use rustic_sql::query::executor::{Executor, Outcome};
use rustic_sql::query::structs::query::Query;
use rustic_sql::query::tokenizer::Tokenizer;
use rustic_sql::query::validate_query_string;
use rustic_sql::utils::errors::Errored;
use rustic_sql::utils::files::table_file_name;

/// A directory of tables that is held in memory: each table by the name
/// of its file, as its lines.
pub struct RusticSQLTest {
    tables: Vec<(String, Vec<String>)>,
}

fn lines(text: &[&str]) -> Vec<String> {
    text.iter().map(|l| l.to_string()).collect()
}

impl RusticSQLTest {
    pub fn assert_row(&mut self, query: &str, expected_row: &[&str]) {
        let expected_row_str = expected_row.join(",");
        let select_result = self.run_and_get_rows(query.to_string());
        if select_result.len() == 1 {
            assert_eq!("", expected_row_str);
        } else {
            assert_eq!(select_result[1], expected_row_str);
        }
    }

    fn read_table_to_string(&self, table: &String) -> String {
        let mut content = String::new();
        for (name, lines) in &self.tables {
            if name == table {
                for line in lines {
                    content.push_str(line);
                    content.push('\n');
                }
            }
        }
        content
    }

    pub fn verify_no_changes(&mut self, table: String, query: &str) {
        let before_query = self.read_table_to_string(&table);
        let result = self.run_for(query.to_string());
        if result.is_err() {
            panic!("error executing query");
        }
        let after_query = self.read_table_to_string(&table);
        assert_eq!(before_query, after_query)
    }

    /// Runs one query as the program does and returns what it prints.
    fn execute(&mut self, query: String) -> Result<Vec<String>, Errored> {
        validate_query_string(&query)?;
        let tokens = Tokenizer::new().tokenize(&query)?;
        let query = Query::from(tokens)?;
        let file = table_file_name(&query.table);
        let position = match self.tables.iter().position(|(name, _)| *name == file) {
            Some(position) => position,
            None => {
                return Err(Errored::Default(format!(
                    "table {} does not exist in directory: memory",
                    query.table
                )))
            }
        };
        match Executor::run(&self.tables[position].1, query)? {
            Outcome::Printed(lines) => Ok(lines),
            Outcome::Replaced(lines) => {
                self.tables[position].1 = lines;
                Ok(vec![])
            }
            Outcome::Appended(lines) => {
                self.tables[position].1.extend(lines);
                Ok(vec![])
            }
        }
    }

    pub fn run_for(&mut self, query: String) -> Result<(), Errored> {
        self.execute(query).map(|_| ())
    }

    pub fn run_and_get_rows(&mut self, query: String) -> Vec<String> {
        match self.execute(query) {
            Ok(lines) => lines,
            Err(e) => vec![e.to_string()],
        }
    }
}

impl Default for RusticSQLTest {
    fn default() -> Self {
        let pokemon = lines(&[
            "id,name,type,level",
            "1,Pikachu,Electric,25",
            "2,Charmander,Fire,12",
            "3,Squirtle,Water,10",
            "4,Bulbasaur,Grass,11",
            "5,Jolteon,Electric,36",
            "6,Vulpix,Fire,18",
            "7,Psyduck,Water,20",
            "8,Oddish,Grass,9",
            "9,Gengar,Ghost,45",
            "10,Onix,Rock,30",
        ]);
        let users = lines(&[
            "user_id,name,email,age",
            "1,John Doe,john.doe@example.com,28",
            "2,Jane Smith,jane.smith@example.com,34",
            "3,Alice Johnson,alice.johnson@example.com,25",
            "4,Bob Brown,bob.brown@example.com,45",
            "5,Charlie Davis,charlie.davis@example.com,31",
            "6,Diana Evans,diana.evans@example.com,22",
            "7,Eve Adams,eve.adams@example.com,33",
            "8,Frank Miller,frank.miller@example.com,40",
            "9,Grace Wilson,grace.wilson@example.com,29",
            "10,Henry Clark,henry.clark@example.com,38",
        ]);
        let people = lines(&["id,name,surname", "1,Ada,Lovelace", "2,Alan,Turing"]);
        RusticSQLTest {
            tables: vec![
                ("pokemon.csv".to_string(), pokemon),
                ("users.csv".to_string(), users),
                ("people.csv".to_string(), people),
            ],
        }
    }
}

#[test]
fn test_delete_single_row() {
    let mut test = RusticSQLTest::default();
    let delete_query = "DELETE FROM pokemon WHERE id = 1";
    let result = test.run_for(delete_query.to_string());
    assert!(result.is_ok());
    let select_query = "SELECT * FROM pokemon WHERE id = 1";
    test.assert_row(select_query, &[]);
}

#[test]
fn test_delete_multiple_rows() {
    let mut test = RusticSQLTest::default();
    let delete_query = "DELETE FROM pokemon WHERE type != 'Electric'";
    let result = test.run_for(delete_query.to_string());
    assert!(result.is_ok());
    let select_query = "SELECT * FROM pokemon WHERE type != 'Electric'";
    test.assert_row(select_query, &[]);
}

#[test]
fn test_delete_all() {
    let mut test = RusticSQLTest::default();
    let delete_query = "DELETE FROM pokemon";
    let result = test.run_for(delete_query.to_string());
    assert!(result.is_ok());
    let select_query = "SELECT * FROM pokemon'";
    test.assert_row(select_query, &[]);
}

#[test]
fn test_delete_none() {
    let mut test = RusticSQLTest::default();
    let delete_query = "DELETE FROM pokemon WHERE type = 'Sound'";
    test.verify_no_changes("pokemon.csv".to_string(), delete_query);
}

#[test]
fn delete_keeps_the_other_records_as_they_are_written() {
    let mut test = RusticSQLTest::default();
    test.run_for("DELETE FROM pokemon WHERE level > 15".to_string())
        .unwrap();
    assert_eq!(
        test.run_and_get_rows("SELECT * FROM pokemon".to_string()),
        vec![
            "id,name,type,level",
            "2,Charmander,Fire,12",
            "3,Squirtle,Water,10",
            "4,Bulbasaur,Grass,11",
            "8,Oddish,Grass,9",
        ]
    );
}

#[test]
fn delete_of_one_record_leaves_the_header_only() {
    let table = vec![
        "id,name,type,level".to_string(),
        "1,Pikachu,Electric,25".to_string(),
    ];
    let tokens = Tokenizer::new()
        .tokenize("DELETE FROM pokemon WHERE id = 1")
        .unwrap();
    let query = Query::from(tokens).unwrap();
    let table = match Executor::run(&table, query).unwrap() {
        Outcome::Replaced(lines) => lines,
        other => panic!("expected new lines for the table, got {:?}", other),
    };
    assert_eq!(table, vec!["id,name,type,level"]);
    let tokens = Tokenizer::new()
        .tokenize("SELECT * FROM pokemon WHERE id = 1")
        .unwrap();
    let query = Query::from(tokens).unwrap();
    assert_eq!(
        Executor::run(&table, query).unwrap(),
        Outcome::Printed(vec!["id,name,type,level".to_string()])
    );
}

#[test]
fn a_failing_delete_leaves_the_table_as_it_is() {
    let mut test = RusticSQLTest::default();
    let before = test.run_and_get_rows("SELECT * FROM pokemon".to_string());
    let result = test.run_for("DELETE FROM pokemon WHERE hp = 1".to_string());
    assert!(matches!(result, Err(Errored::Column(_))));
    let after = test.run_and_get_rows("SELECT * FROM pokemon".to_string());
    assert_eq!(before, after);
}

#[test]
fn a_record_of_the_wrong_length_is_a_table_error() {
    let table = vec!["id,name".to_string(), "1,Ana".to_string(), "2".to_string()];
    let tokens = Tokenizer::new().tokenize("DELETE FROM t WHERE id = 1").unwrap();
    let query = Query::from(tokens).unwrap();
    match Executor::run(&table, query) {
        Err(Errored::Table(message)) => {
            assert_eq!(message, "new row has (1) fields but table needs (2).")
        }
        other => panic!("expected a table error, got {:?}", other),
    }
}

#[test]
fn a_deletion_keeps_the_header_line_as_it_is_written() {
    let run = |table: &[&str], sql: &str| {
        let tokens = Tokenizer::new().tokenize(sql).unwrap();
        Executor::run(&lines(table), Query::from(tokens).unwrap()).unwrap()
    };
    assert_eq!(
        run(&["a, b"], "DELETE FROM t"),
        Outcome::Replaced(lines(&["a, b"]))
    );
    assert_eq!(
        run(&[" id ,name", "1, x", "2,y"], "DELETE FROM t WHERE id = 2"),
        Outcome::Replaced(lines(&[" id ,name", "1, x"]))
    );
    assert_eq!(run(&[], "DELETE FROM t"), Outcome::Replaced(vec![]));
}

#[test]
fn a_deletion_on_an_unknown_column_is_a_column_error() {
    let table = lines(&["id,name", "1,Ana"]);
    for sql in [
        "DELETE FROM t WHERE hp = 1",
        "DELETE FROM t WHERE id = 1 AND hp = 1",
        "DELETE FROM t WHERE id = 2 OR (name = 'x' AND hp > 3)",
    ] {
        let tokens = Tokenizer::new().tokenize(sql).unwrap();
        let result = Executor::run(&table, Query::from(tokens).unwrap());
        assert!(matches!(result, Err(Errored::Column(_))), "for {:?}", sql);
    }
    // another part of the condition fails first: the deletion fails all the same
    let tokens = Tokenizer::new()
        .tokenize("DELETE FROM t WHERE id = 'x' AND hp = 1")
        .unwrap();
    let result = Executor::run(&table, Query::from(tokens).unwrap());
    assert!(matches!(result, Err(Errored::Syntax(_))));
    // without a record nothing is tested
    let tokens = Tokenizer::new().tokenize("DELETE FROM t WHERE hp = 1").unwrap();
    let result = Executor::run(&lines(&["id,name"]), Query::from(tokens).unwrap());
    assert_eq!(result.unwrap(), Outcome::Replaced(lines(&["id,name"])));
}
