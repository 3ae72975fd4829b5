//! Metrics as the reporting side of the pipeline sees them.

pub mod file;
pub mod metric;
pub mod registry;
