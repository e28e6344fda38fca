//! Ingestion and persistence core of a factor-model service.
//!
//! The crate plans the requests sent to a metrics provider and to an exchange
//! provider, normalises what comes back into tables, and frames the
//! append-only run log. Every function carries a contract that Verus checks.

pub mod api;
pub mod config;
pub mod data;
pub mod error;
pub mod logger;
pub mod models;
pub mod text;

pub use config::Config;
pub use error::Error;
