//! Time-windowed queries over monthly partitions of taxi trip records.

pub mod calendar;
pub mod download;
pub mod error;
pub mod fake;
pub mod instant;
pub mod partition;
pub mod pipeline;
pub mod random;
pub mod rows;
pub mod scan;
pub mod store;
pub mod text;
pub mod trip;
pub mod window;
