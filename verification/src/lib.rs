//! A package-manager core: index merging and parsing, request resolution,
//! a claim-based worker pool, archive handling, script lifecycle decisions,
//! and result aggregation.

pub mod archive;
pub mod claims;
pub mod download;
pub mod errors;
pub mod index;
pub mod install;
pub mod pool;
pub mod queue;
pub mod scripts;
pub mod servers;
pub mod text;
pub mod update;
