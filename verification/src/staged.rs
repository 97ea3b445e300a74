//! The commit-staged workflow's command-line surface.

pub mod cli;
