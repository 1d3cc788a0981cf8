//! Synchronisation and compliance-aggregation engine for a cache of kernel
//! repositories: the cache layout's naming scheme and readiness rules, the
//! build-variant identifier, the download retry and batch policy, the
//! reconciliation against the compliant-variant matrix, and the verdicts that
//! are built from per-binary policy results.
//!
//! Everything that touches the disk, the network or a parsed binary is done
//! by the caller, which hands plain values to the functions here.

pub mod cli;
pub mod compliance;
pub mod error;
pub mod fetch;
pub mod layout;
pub mod matrix;
pub mod process;
pub mod report;
pub mod text;
pub mod variant;
pub mod version;
