//! Directory listing with per-entry metadata: byte counts in binary units,
//! symlink-safe directory size aggregation, and one record per direct child
//! with a fallback for every entry that cannot be read.
pub mod listing;
pub mod units;
pub mod walk;
