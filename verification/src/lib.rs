//! Task dispatcher core: configuration merging, profile matching against a
//! directory tree, and fail-fast sequential command dispatch.

pub mod config;
pub mod dispatch;
pub mod paths;
pub mod probe;
pub mod runner;
pub mod search;
pub mod tokenize;
pub mod views;
