//! Decision logic of a read-only Grafana monitoring assistant.
pub mod json;
pub mod text;
pub mod samples;
pub mod monitor;
pub mod ai;
pub mod retry;
pub mod mcp;
pub mod installer;
pub mod keychain;
pub mod credentials;
pub mod settings;
pub mod discovery;
pub mod diagnose;
pub mod schedule;
pub mod report;
