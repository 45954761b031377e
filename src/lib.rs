//! Longitudinal benchmark sweeps over a repository's history: cache keys,
//! the persisted record formats, the sweep's decisions and the aggregation
//! of cached results into plot rows.

pub mod key;
pub mod sweep;
pub mod record;
pub mod aggregate;
pub mod git;
pub mod config;
