//! The Git credential helper: which requests of Git it answers, where it has
//! its own token from, and what it hands to Git.

pub mod config;
pub mod credential;
pub mod token_source;
