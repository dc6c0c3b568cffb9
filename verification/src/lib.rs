//! Verified core of a tool that transfers triage state between matching
//! DefectDojo findings of different products.
pub mod text;
pub mod api;
pub mod ids;
pub mod matching;
pub mod config;
pub mod plan;
pub mod dry_run;
pub mod error;
pub mod weburl;
pub mod execution;
pub mod cli;
