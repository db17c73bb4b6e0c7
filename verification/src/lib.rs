//! Verified core of `rdump`, a code-aware file search tool: request shaping,
//! limits, content classification, path predicates, language profiles,
//! preset resolution and report rendering.

pub mod text;
pub mod contracts;
pub mod content;
pub mod model;
pub mod request;
pub mod backend;
pub mod config;
pub mod profiles;
pub mod predicates;
pub mod docs;
pub mod cli;
pub mod report;
pub mod semantic;
pub mod support_matrix;
pub mod mcp;
pub mod engine;
