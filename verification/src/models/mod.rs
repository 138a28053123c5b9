//! The data that the engine produces and keeps.

pub mod file_score;
pub mod workspace;
