//! The stage-and-commit workflow's command-line surface.

pub mod cli;
