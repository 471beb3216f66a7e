//! A small SQL-like query engine over CSV tables.
//!
//! A query string is split into tokens, the tokens are parsed into a
//! [`query::structs::query::Query`], and the query is executed against the
//! lines of one table. Reading and writing the table files is left to the
//! caller: every function here works on plain values.
pub mod query;
pub mod utils;
