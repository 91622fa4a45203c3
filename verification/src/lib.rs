//! Resolution, validation and reconciliation of per-service deployment manifests.
pub mod builder;
pub mod engine;
pub mod env;
pub mod error;
pub mod ids;
pub mod keyed;
pub mod kong;
pub mod manifest;
pub mod merge;
pub mod namedlist;
pub mod patterns;
pub mod quantity;
pub mod region;
pub mod resolver;
pub mod secrets;
pub mod state;
pub mod text;
pub mod validation;
pub mod vault;
pub mod versions;
pub mod watch;
pub mod webhook;
