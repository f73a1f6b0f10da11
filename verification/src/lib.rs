//! Verified core of a game-hero statistics service: a pure builder that
//! turns optional filters into a parameterized query, and a batch ingestor
//! with per-row upsert semantics over a modelled record store.

pub mod config;
pub mod error;
pub mod model;
pub mod ingest;
pub mod query;
pub mod store;
