//! Static complexity analysis for TypeScript and JavaScript sources.

pub mod text;
pub mod exit_codes;
pub mod kinds;
pub mod paths;
pub mod syntax;
pub mod parser;
pub mod cyclomatic;
pub mod lines;
pub mod structural;
pub mod cognitive;
pub mod halstead;
pub mod naming;
pub mod analysis;
pub mod tokens;
pub mod intervals;
pub mod duplication;
pub mod report;
pub mod pipeline;
pub mod records;
pub mod config;
pub mod json_model;
pub mod laws;
pub mod rules;
pub mod ordering;
pub mod violations;
