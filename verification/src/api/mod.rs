//! The DefectDojo API: its records, and the parts of the client that decide.
pub mod models;
pub mod client;
