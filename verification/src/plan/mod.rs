//! The migration plan, its builder, and the decision file derived from it.
pub mod models;
pub mod files;
pub mod builder;
