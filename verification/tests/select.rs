use rustic_sql::query::executor::{Executor, Outcome};
use rustic_sql::query::structs::query::Query;
use rustic_sql::query::structs::row::Row;
use rustic_sql::query::tokenizer::Tokenizer;
use rustic_sql::query::validate_query_string;
use rustic_sql::utils::errors::Errored;
use rustic_sql::utils::files::table_file_name;

/// A directory of tables that is held in memory: each table by the name
/// of its file, as its lines.
pub struct RusticSQLTest {
    tables: Vec<(String, Vec<String>)>,
}

fn lines(text: &[&str]) -> Vec<String> {
    text.iter().map(|l| l.to_string()).collect()
}

impl RusticSQLTest {
    pub fn assert_row(&mut self, query: &str, expected_row: &[&str]) {
        let expected_row_str = expected_row.join(",");
        let select_result = self.run_and_get_rows(query.to_string());
        if select_result.len() == 1 {
            assert_eq!("", expected_row_str);
        } else {
            assert_eq!(select_result[1], expected_row_str);
        }
    }

    fn read_table_to_string(&self, table: &String) -> String {
        let mut content = String::new();
        for (name, lines) in &self.tables {
            if name == table {
                for line in lines {
                    content.push_str(line);
                    content.push('\n');
                }
            }
        }
        content
    }

    pub fn verify_no_changes(&mut self, table: String, query: &str) {
        let before_query = self.read_table_to_string(&table);
        let result = self.run_for(query.to_string());
        if result.is_err() {
            panic!("error executing query");
        }
        let after_query = self.read_table_to_string(&table);
        assert_eq!(before_query, after_query)
    }

    /// Runs one query as the program does and returns what it prints.
    fn execute(&mut self, query: String) -> Result<Vec<String>, Errored> {
        validate_query_string(&query)?;
        let tokens = Tokenizer::new().tokenize(&query)?;
        let query = Query::from(tokens)?;
        let file = table_file_name(&query.table);
        let position = match self.tables.iter().position(|(name, _)| *name == file) {
            Some(position) => position,
            None => {
                return Err(Errored::Default(format!(
                    "table {} does not exist in directory: memory",
                    query.table
                )))
            }
        };
        match Executor::run(&self.tables[position].1, query)? {
            Outcome::Printed(lines) => Ok(lines),
            Outcome::Replaced(lines) => {
                self.tables[position].1 = lines;
                Ok(vec![])
            }
            Outcome::Appended(lines) => {
                self.tables[position].1.extend(lines);
                Ok(vec![])
            }
        }
    }

    pub fn run_for(&mut self, query: String) -> Result<(), Errored> {
        self.execute(query).map(|_| ())
    }

    pub fn run_and_get_rows(&mut self, query: String) -> Vec<String> {
        match self.execute(query) {
            Ok(lines) => lines,
            Err(e) => vec![e.to_string()],
        }
    }
}

impl Default for RusticSQLTest {
    fn default() -> Self {
        let pokemon = lines(&[
            "id,name,type,level",
            "1,Pikachu,Electric,25",
            "2,Charmander,Fire,12",
            "3,Squirtle,Water,10",
            "4,Bulbasaur,Grass,11",
            "5,Jolteon,Electric,36",
            "6,Vulpix,Fire,18",
            "7,Psyduck,Water,20",
            "8,Oddish,Grass,9",
            "9,Gengar,Ghost,45",
            "10,Onix,Rock,30",
        ]);
        let users = lines(&[
            "user_id,name,email,age",
            "1,John Doe,john.doe@example.com,28",
            "2,Jane Smith,jane.smith@example.com,34",
            "3,Alice Johnson,alice.johnson@example.com,25",
            "4,Bob Brown,bob.brown@example.com,45",
            "5,Charlie Davis,charlie.davis@example.com,31",
            "6,Diana Evans,diana.evans@example.com,22",
            "7,Eve Adams,eve.adams@example.com,33",
            "8,Frank Miller,frank.miller@example.com,40",
            "9,Grace Wilson,grace.wilson@example.com,29",
            "10,Henry Clark,henry.clark@example.com,38",
        ]);
        let people = lines(&["id,name,surname", "1,Ada,Lovelace", "2,Alan,Turing"]);
        RusticSQLTest {
            tables: vec![
                ("pokemon.csv".to_string(), pokemon),
                ("users.csv".to_string(), users),
                ("people.csv".to_string(), people),
            ],
        }
    }
}

#[test]
fn select_test_empty_query() {
    let mut test = RusticSQLTest::default();
    let result = test.run_for("".to_string());
    assert!(result.is_err_and(|e| e.to_string().contains("empty")));
}

#[test]
fn select_test_select_no_where() {
    let mut test = RusticSQLTest::default();
    let query = "SELECT * FROM users";
    let expected_rows = 11; //with header
    let result = test.run_and_get_rows(query.to_string());
    assert_eq!(expected_rows, result.len());
}

#[test]
fn test_select_where_with_order_by() {
    let mut test = RusticSQLTest::default();
    let query = "SELECT name, email FROM users WHERE age > 30 ORDER BY age DESC";

    let expected_rows: Vec<String> = [
        vec!["Bob Brown", "bob.brown@example.com"],
        vec!["Frank Miller", "frank.miller@example.com"],
        vec!["Henry Clark", "henry.clark@example.com"],
        vec!["Jane Smith", "jane.smith@example.com"],
        vec!["Eve Adams", "eve.adams@example.com"],
        vec!["Charlie Davis", "charlie.davis@example.com"],
    ]
    .iter()
    .map(|r| r.join(","))
    .collect();
    let expected_header: String = ["name", "email"].join(",");
    let result = test.run_and_get_rows(query.to_string());

    assert_eq!(expected_header, result[0]);
    assert_eq!(expected_rows, result[1..]);
}

#[test]
fn test_select_with_nested_where() {
    let mut test = RusticSQLTest::default();
    let query = "SELECT user_id, name FROM users WHERE age > 30 AND (user_id < 8 OR name = 'Henry Clark') ORDER BY name";

    let expected_rows: Vec<String> = [
        vec!["4", "Bob Brown"],
        vec!["5", "Charlie Davis"],
        vec!["7", "Eve Adams"],
        vec!["10", "Henry Clark"],
        vec!["2", "Jane Smith"],
    ]
    .iter()
    .map(|r| r.join(","))
    .collect();
    let expected_header: String = ["user_id", "name"].join(",");

    let result = test.run_and_get_rows(query.to_string());
    assert_eq!(expected_header, result[0]);
    assert_eq!(expected_rows, result[1..]);
}

#[test]
fn test_select_with_invalid_order_field() {
    let mut test = RusticSQLTest::default();
    let query = "SELECT user_id, name FROM users ORDER BY psn_id";
    let result = test.run_for(query.to_string());
    assert!(result.is_err_and(|x| x.to_string().contains("exist")))
}

#[test]
fn test_select_with_where_with_invalid_field() {
    let mut test = RusticSQLTest::default();
    let query = "SELECT user_id, name FROM users WHERE psn_id = 5";
    let result = test.run_for(query.to_string());
    assert!(result.is_err_and(|x| x.to_string().contains("exist")))
}

#[test]
fn test_select_with_invalid_table() {
    let mut test = RusticSQLTest::default();
    let query = "SELECT user_id, name FROM users2 WHERE user_id = 5";
    let result = test.run_for(query.to_string());
    assert!(result.is_err_and(|x| x.to_string().contains("exist")))
}

fn select(table: &[&str], sql: &str) -> Result<Vec<String>, Errored> {
    let tokens = Tokenizer::new().tokenize(sql)?;
    let query = Query::from(tokens)?;
    match Executor::run(&lines(table), query)? {
        Outcome::Printed(lines) => Ok(lines),
        other => panic!("expected lines to show, got {:?}", other),
    }
}

#[test]
fn sorting_takes_the_keys_in_turn_and_is_stable() {
    let table = ["col1,col2", "1,b", "2,a", "3,b"];
    assert_eq!(
        select(&table, "SELECT * FROM t ORDER BY col2 ASC, col1 DESC").unwrap(),
        vec!["col1,col2", "2,a", "3,b", "1,b"]
    );
    assert_eq!(
        select(&table, "SELECT * FROM t ORDER BY col2").unwrap(),
        vec!["col1,col2", "2,a", "1,b", "3,b"]
    );
    assert_eq!(
        select(&table, "SELECT * FROM t ORDER BY col2 DESC").unwrap(),
        vec!["col1,col2", "1,b", "3,b", "2,a"]
    );
    assert_eq!(
        select(&table, "SELECT * FROM t ORDER BY").unwrap(),
        vec!["col1,col2", "1,b", "2,a", "3,b"]
    );
}

#[test]
fn numbers_sort_by_value_and_texts_by_character() {
    let table = ["n,s", "10,10", "9,9x", "-3,b", "100,a"];
    assert_eq!(
        select(&table, "SELECT n FROM t ORDER BY n").unwrap(),
        vec!["n", "-3", "9", "10", "100"]
    );
    assert_eq!(
        select(&table, "SELECT s FROM t ORDER BY s").unwrap(),
        vec!["s", "10", "9x", "a", "b"]
    );
}

#[test]
fn values_of_two_types_count_as_equal_when_sorting() {
    // A number and a text in one column have no order between them: by that
    // key the two records are equal, and the next key or the order in the
    // table decides.
    let table = ["k,n", "x,2", "5,1", "y,0"];
    assert_eq!(
        select(&table, "SELECT * FROM t ORDER BY k").unwrap(),
        vec!["k,n", "x,2", "5,1", "y,0"]
    );
    let table = ["k,n", "x,2", "6,1", "5,0"];
    assert_eq!(
        select(&table, "SELECT * FROM t ORDER BY k, n").unwrap(),
        vec!["k,n", "5,0", "6,1", "x,2"]
    );
}

#[test]
fn select_shows_the_named_columns_in_their_order() {
    let table = ["id, name ,age", "1, Ana , 30", "2,Luis,25"];
    assert_eq!(
        select(&table, "SELECT age, id FROM t WHERE NOT name = 'Luis'").unwrap(),
        vec!["age,id", "30,1"]
    );
    assert_eq!(
        select(&table, "SELECT * FROM t").unwrap(),
        vec!["id,name,age", "1,Ana,30", "2,Luis,25"]
    );
}

#[test]
fn select_of_a_column_that_the_table_lacks_is_a_column_error() {
    let table = ["id,name", "1,Ana"];
    match select(&table, "SELECT id, email FROM t") {
        Err(Errored::Column(message)) => {
            assert_eq!(message, "column email in projection does not exist in table.")
        }
        other => panic!("expected a column error, got {:?}", other),
    }
    match select(&table, "SELECT id FROM t ORDER BY email") {
        Err(Errored::Column(message)) => {
            assert_eq!(message, "order by failed, column email does not exist")
        }
        other => panic!("expected a column error, got {:?}", other),
    }
}

#[test]
fn comparing_a_number_with_a_text_is_a_syntax_error() {
    let table = ["id,name", "1,Ana"];
    match select(&table, "SELECT * FROM t WHERE id = 'Ana'") {
        Err(Errored::Syntax(message)) => {
            assert_eq!(message, "expression members must match in type.")
        }
        other => panic!("expected a syntax error, got {:?}", other),
    }
    assert!(matches!(
        select(&table, "SELECT * FROM t WHERE name = 1"),
        Err(Errored::Syntax(_))
    ));
    assert_eq!(
        select(&table, "SELECT id FROM t WHERE 5 = 5 AND 'a' != 'b'").unwrap(),
        vec!["id", "1"]
    );
}

#[test]
fn a_number_that_does_not_fit_is_a_generic_error() {
    let table = ["id", "1"];
    match select(&table, "SELECT * FROM t WHERE id = 99999999999999999999") {
        Err(Errored::Default(message)) => assert!(message.starts_with("PARSE_INT - ")),
        other => panic!("expected a generic error, got {:?}", other),
    }
}

#[test]
fn a_table_without_lines_has_one_column_without_a_name() {
    assert_eq!(select(&[], "SELECT * FROM t").unwrap(), vec![""]);
}

#[test]
fn a_query_of_unknown_operation_is_not_run() {
    let result = Executor::run(&lines(&["id"]), Query::default());
    match result {
        Err(Errored::Syntax(message)) => {
            assert_eq!(message, "unknown operation trying to be executed.")
        }
        other => panic!("expected a syntax error, got {:?}", other),
    }
}

#[test]
fn rows_can_be_sorted_on_their_own() {
    let header = lines(&["k", "n"]);
    let sort = |sql: &str, records: &[&str]| -> Result<Vec<String>, Errored> {
        let tokens = Tokenizer::new().tokenize(sql)?;
        let executor = Executor::new(Query::from(tokens)?);
        let mut rows = vec![];
        for record in records {
            let (row, _) = executor.read_row(&header, record)?;
            rows.push(row);
        }
        executor.sort_rows(&mut rows, &header)?;
        Ok(rows.iter().map(|row: &Row| row.as_csv_row()).collect())
    };
    let records = ["b,1", "a,2", "b,3", "a,4"];
    assert_eq!(
        sort("SELECT * FROM t ORDER BY k", &records).unwrap(),
        vec!["a,2", "a,4", "b,1", "b,3"]
    );
    assert_eq!(
        sort("SELECT * FROM t", &records).unwrap(),
        vec!["b,1", "a,2", "b,3", "a,4"]
    );
    assert_eq!(
        sort("SELECT * FROM t ORDER BY k DESC, n DESC", &records).unwrap(),
        vec!["b,3", "b,1", "a,4", "a,2"]
    );
    assert!(matches!(
        sort("SELECT * FROM t ORDER BY x", &records),
        Err(Errored::Column(_))
    ));
}
