//! The signal analyzers.

pub mod churn;
pub mod complexity;
pub mod coupling;
pub mod coverage;
pub mod import_graph;
pub mod imports;
pub mod knowledge;
pub mod smells;
pub mod staleness;
pub mod summary;
