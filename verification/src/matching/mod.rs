//! Correlation of source findings with the findings of destination products.
pub mod engine;
pub mod keys;
pub mod models;
