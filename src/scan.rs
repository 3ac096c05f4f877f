//! Looking for repositories below a directory, and saving the paths found.

pub mod scan;
