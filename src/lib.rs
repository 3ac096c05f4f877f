//! Discovery of git repositories below a directory, the line-oriented file that
//! carries their paths between invocations, and batches of git operations over
//! the repositories found.

pub mod text;
pub mod exec;
pub mod options;
pub mod scan;
