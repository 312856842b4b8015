//! Static-analysis substrate for CI workflow definitions.
//!
//! The crate parses the template expression language embedded in workflow
//! files, classifies expressions for attacker-controllability, resolves
//! structural routes into concrete source spans, and aggregates the findings
//! of independent audit rules.

pub mod audit;
pub mod document;
pub mod expr;
pub mod finding;
pub mod github_api;
pub mod locate;
pub mod models;
pub mod registry;
pub mod text;
pub mod utils;
