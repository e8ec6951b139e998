//! Evaluation toolkit for AI agent skills: suite configuration, schema
//! checks, layered runtime settings, gate linting, running and grading
//! evals, and the per-skill suite flow.
pub mod cli;
pub mod config;
pub mod document;
pub mod error;
pub mod eval;
pub mod gate;
pub mod json;
pub mod runtime;
pub mod schema;
pub mod suite;
pub mod text;
