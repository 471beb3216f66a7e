use rustic_sql::query::executor::{Executor, Outcome};
use rustic_sql::query::structs::query::Query;
use rustic_sql::query::tokenizer::Tokenizer;
use rustic_sql::query::validate_query_string;
use rustic_sql::utils::errors::Errored;
use rustic_sql::utils::files::table_file_name;

/// A directory of tables that is held in memory: each table by the name
/// of its file, as its lines.
pub struct RusticSQLTest {
    tables: Vec<(String, Vec<String>)>,
}

fn lines(text: &[&str]) -> Vec<String> {
    text.iter().map(|l| l.to_string()).collect()
}

impl RusticSQLTest {
    pub fn assert_row(&mut self, query: &str, expected_row: &[&str]) {
        let expected_row_str = expected_row.join(",");
        let select_result = self.run_and_get_rows(query.to_string());
        if select_result.len() == 1 {
            assert_eq!("", expected_row_str);
        } else {
            assert_eq!(select_result[1], expected_row_str);
        }
    }

    fn read_table_to_string(&self, table: &String) -> String {
        let mut content = String::new();
        for (name, lines) in &self.tables {
            if name == table {
                for line in lines {
                    content.push_str(line);
                    content.push('\n');
                }
            }
        }
        content
    }

    pub fn verify_no_changes(&mut self, table: String, query: &str) {
        let before_query = self.read_table_to_string(&table);
        let result = self.run_for(query.to_string());
        if result.is_err() {
            panic!("error executing query");
        }
        let after_query = self.read_table_to_string(&table);
        assert_eq!(before_query, after_query)
    }

    /// Runs one query as the program does and returns what it prints.
    fn execute(&mut self, query: String) -> Result<Vec<String>, Errored> {
        validate_query_string(&query)?;
        let tokens = Tokenizer::new().tokenize(&query)?;
        let query = Query::from(tokens)?;
        let file = table_file_name(&query.table);
        let position = match self.tables.iter().position(|(name, _)| *name == file) {
            Some(position) => position,
            None => {
                return Err(Errored::Default(format!(
                    "table {} does not exist in directory: memory",
                    query.table
                )))
            }
        };
        match Executor::run(&self.tables[position].1, query)? {
            Outcome::Printed(lines) => Ok(lines),
            Outcome::Replaced(lines) => {
                self.tables[position].1 = lines;
                Ok(vec![])
            }
            Outcome::Appended(lines) => {
                self.tables[position].1.extend(lines);
                Ok(vec![])
            }
        }
    }

    pub fn run_for(&mut self, query: String) -> Result<(), Errored> {
        self.execute(query).map(|_| ())
    }

    pub fn run_and_get_rows(&mut self, query: String) -> Vec<String> {
        match self.execute(query) {
            Ok(lines) => lines,
            Err(e) => vec![e.to_string()],
        }
    }
}

impl Default for RusticSQLTest {
    fn default() -> Self {
        let pokemon = lines(&[
            "id,name,type,level",
            "1,Pikachu,Electric,25",
            "2,Charmander,Fire,12",
            "3,Squirtle,Water,10",
            "4,Bulbasaur,Grass,11",
            "5,Jolteon,Electric,36",
            "6,Vulpix,Fire,18",
            "7,Psyduck,Water,20",
            "8,Oddish,Grass,9",
            "9,Gengar,Ghost,45",
            "10,Onix,Rock,30",
        ]);
        let users = lines(&[
            "user_id,name,email,age",
            "1,John Doe,john.doe@example.com,28",
            "2,Jane Smith,jane.smith@example.com,34",
            "3,Alice Johnson,alice.johnson@example.com,25",
            "4,Bob Brown,bob.brown@example.com,45",
            "5,Charlie Davis,charlie.davis@example.com,31",
            "6,Diana Evans,diana.evans@example.com,22",
            "7,Eve Adams,eve.adams@example.com,33",
            "8,Frank Miller,frank.miller@example.com,40",
            "9,Grace Wilson,grace.wilson@example.com,29",
            "10,Henry Clark,henry.clark@example.com,38",
        ]);
        let people = lines(&["id,name,surname", "1,Ada,Lovelace", "2,Alan,Turing"]);
        RusticSQLTest {
            tables: vec![
                ("pokemon.csv".to_string(), pokemon),
                ("users.csv".to_string(), users),
                ("people.csv".to_string(), people),
            ],
        }
    }
}

#[test]
fn test_update_pokemon_with_empty_name() {
    let mut test = RusticSQLTest::default();
    let update_query = "UPDATE pokemon SET name = '' WHERE id = 1";
    let result = test.run_for(update_query.to_string());
    assert!(result.is_ok());
    let select_query = "SELECT * FROM pokemon WHERE id = 1";
    let expected_row = ["1", "", "Electric", "25"];
    test.assert_row(select_query, &expected_row);
}

#[test]
fn test_update_all_pokemon_to_same_level() {
    let mut test = RusticSQLTest::default();
    let update_query = "UPDATE pokemon SET level = 50, name = '', type = ''";
    let result = test.run_for(update_query.to_string());
    assert!(result.is_ok());
    for id in 1..=10 {
        let select_query = format!("SELECT * FROM pokemon WHERE id = {}", id);
        let expected_row = [&id.to_string(), "", "", "50"];
        test.assert_row(&select_query, &expected_row);
    }
}

#[test]
fn test_update_non_existent_type() {
    let mut test = RusticSQLTest::default();
    let update_query = "UPDATE pokemon SET level = 50 WHERE type = 'Mythical'";
    test.verify_no_changes("pokemon.csv".to_string(), update_query);
}

#[test]
fn test_missing_set_in_query() {
    let mut test = RusticSQLTest::default();
    let update_query = "UPDATE pokemon level = 50'";
    let result = test.run_for(update_query.to_string());
    assert!(result.is_err());
}

#[test]
fn test_update_invalid_column() {
    let mut test = RusticSQLTest::default();
    let update_query = "UPDATE pokemon SET hp = 80 WHERE type = 'Fire'";
    let result = test.run_for(update_query.to_string());
    assert!(result.is_err_and(|e| e.to_string().contains("hp")));
}

#[test]
fn update_writes_matching_records_anew_and_keeps_the_others() {
    let table = lines(&["id,name,level", "1,  Pikachu ,25", "2,  Onix ,30"]);
    let tokens = Tokenizer::new()
        .tokenize("UPDATE pokemon SET level = 26 WHERE id = 1")
        .unwrap();
    let query = Query::from(tokens).unwrap();
    assert_eq!(
        Executor::run(&table, query).unwrap(),
        Outcome::Replaced(lines(&["id,name,level", "1,Pikachu,26", "2,  Onix ,30"]))
    );
}

#[test]
fn a_failing_update_leaves_the_table_as_it_is() {
    let mut test = RusticSQLTest::default();
    let before = test.run_and_get_rows("SELECT * FROM pokemon".to_string());
    let result = test.run_for("UPDATE pokemon SET hp = 80 WHERE type = 'Fire'".to_string());
    assert!(matches!(result, Err(Errored::Column(_))));
    let result = test.run_for("UPDATE pokemon SET level = 1 WHERE hp = 1".to_string());
    assert!(matches!(result, Err(Errored::Column(_))));
    let after = test.run_and_get_rows("SELECT * FROM pokemon".to_string());
    assert_eq!(before, after);
}

#[test]
fn an_update_needs_assignments_of_values_to_columns() {
    for sql in [
        "UPDATE pokemon SET",
        "UPDATE pokemon SET WHERE id = 1",
        "UPDATE pokemon SET level",
        "UPDATE pokemon SET level > 5",
        "UPDATE pokemon SET level = (a = 1)",
    ] {
        let tokens = Tokenizer::new().tokenize(sql).unwrap();
        assert!(
            matches!(Query::from(tokens), Err(Errored::Syntax(_))),
            "for {:?}",
            sql
        );
    }
}

#[test]
fn an_update_keeps_the_header_line_as_it_is_written() {
    let table = lines(&[" id , name", "1, x", "2, y"]);
    let tokens = Tokenizer::new()
        .tokenize("UPDATE t SET name = 'z' WHERE id = 2")
        .unwrap();
    assert_eq!(
        Executor::run(&table, Query::from(tokens).unwrap()).unwrap(),
        Outcome::Replaced(lines(&[" id , name", "1, x", "2,z"]))
    );
    let tokens = Tokenizer::new().tokenize("UPDATE t SET a = 1").unwrap();
    assert_eq!(
        Executor::run(&vec![], Query::from(tokens).unwrap()).unwrap(),
        Outcome::Replaced(vec![])
    );
}

#[test]
fn an_update_on_an_unknown_column_is_a_column_error() {
    let table = lines(&["id,type", "1,Fire", "2,Water"]);
    for sql in [
        "UPDATE t SET type = 'x' WHERE hp = 1",
        "UPDATE t SET hp = 80 WHERE type = 'Fire'",
        "UPDATE t SET type = 'x', hp = 80",
    ] {
        let tokens = Tokenizer::new().tokenize(sql).unwrap();
        let result = Executor::run(&table, Query::from(tokens).unwrap());
        assert!(matches!(result, Err(Errored::Column(_))), "for {:?}", sql);
    }
    // no record meets the condition: nothing is set, nothing fails
    let tokens = Tokenizer::new()
        .tokenize("UPDATE t SET hp = 80 WHERE type = 'Rock'")
        .unwrap();
    assert_eq!(
        Executor::run(&table, Query::from(tokens).unwrap()).unwrap(),
        Outcome::Replaced(table.clone())
    );
}
