//! Loading repositories and running git operations over them.

pub mod exec;
pub mod repo;
pub mod repo_operations;
pub mod repositories;
