//! Shared helpers: the error type, text handling and the CSV line format.
pub mod errors;
pub mod files;
pub mod text;
