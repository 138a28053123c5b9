//! A scoring engine for technical debt.
//!
//! Eight analyzers each turn what is known of a source file, from its text
//! and from the history of its workspace, into a score from 0 to 100. The
//! aggregator weighs the eight scores into one composite score per file, the
//! cache keeps it fresh as single files change, and the heatmap folds the
//! scores of all files into the tree of their directories.
//!
//! Scores, weights and ratios are fixed-point numbers with six fractional
//! digits; see `fixed`.

pub mod analysis;
pub mod cache;
pub mod couplings;
pub mod fixed;
pub mod heatmap;
pub mod language;
pub mod models;
pub mod paths;
pub mod scoring;
pub mod settings;
pub mod store;
pub mod table;
pub mod text;
