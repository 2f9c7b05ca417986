//! The safekeeper: backup of the write-ahead log and metrics.
pub mod election;
pub mod metrics;
pub mod wal_backup;
