//! The data model: tokens, expressions, queries and rows.
pub mod comparator;
pub mod expression;
pub mod operation;
pub mod ordering;
pub mod query;
pub mod row;
pub mod token;
