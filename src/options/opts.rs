//! The options of the two commands, `scan` and `exec`, as plain values.

use vstd::prelude::*;

verus! {

/// All options: how verbose to be, and which command to run.
pub struct Opts {
    /// 0 warnings, 1 info, 2 debug, 3 and more trace.
    pub verbosity: i32,
    pub subcmd: SubCommand,
}

pub enum SubCommand {
    Scan(ScanOpts),
    Exec(ExecOpts),
}

/// Options of `scan`, which looks for repositories below the current directory.
#[derive(Debug)]
pub struct ScanOpts {
    /// The deepest level of directories to look at.
    pub max_depth: usize,
    /// The first level of directories to look at; 0 is the current directory.
    pub min_depth: usize,
    /// Where to save the paths found: absent, to standard output; present
    /// without a path, to the default file; present with one, to that file.
    pub save_to_file: Option<Option<String>>,
    /// Whether paths are written relative to the current directory.
    pub relative: bool,
}

/// Options of `exec`, which runs git operations on the repositories listed by
/// a `scan`.
#[derive(Debug)]
pub struct ExecOpts {
    /// Where the paths are read from: absent, standard input; present without
    /// a path, the default file; present with one, that file.
    pub source_file: Option<Option<String>>,
    /// Show `git status --porcelain` where it is not empty.
    pub porcelain: bool,
    /// Name the repositories whose reflog mentions a cherry-pick.
    pub find_cherry_picks: bool,
    /// Print the reflog lines that mention a cherry-pick.
    pub print_cherry_picks: bool,
    /// Print the lines of the last `number` commits that mention an author:
    /// the one given, or the current git user when none is.
    pub with_author: Option<Option<String>>,
    /// How many of the last commits the log operations look at.
    pub number: u32,
    /// A git command to run on every repository.
    pub cmd: Option<String>,
}

} // verus!
