//! Catalog of a local music library: reconciliation of scanned files against a
//! persistent store, selection of acoustic-identification results, and the
//! supporting models.
//!
//! The decision logic of the pipeline lives here, fully verified; the
//! surrounding drivers (directory walking, the store's wire protocol, the
//! identification service's transport) perform the outside work and feed their
//! results back into the verified state machine.

pub mod acoustid;
pub mod basic_types;
pub mod catalog;
pub mod config;
pub mod file_processor;
pub mod json;
pub mod models;
pub mod processor;
pub mod rate_limit;
