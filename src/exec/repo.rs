//! A single repository.

use vstd::prelude::*;

use super::repo_operations::{BatchRun, Operation, RepoOperations, strings_view};

verus! {

/// Relies on git2's `Repository::open`: whether `path` opens as a repository.
/// The answer depends on what is on disk, so nothing is promised of it.
#[verifier::external_body]
pub(crate) fn opens_as_repository(path: &str) -> (r: bool) {
    git2::Repository::open(path).is_ok()
}

/// A repository, known by the path it was found at.
#[derive(Debug, PartialEq, Eq)]
pub struct Repo {
    path: String,
}

impl View for Repo {
    type V = Seq<char>;

    closed spec fn view(&self) -> Seq<char> {
        self.path@
    }
}

impl Repo {
    /// The repository at `path`, when git2 opens it as one.
    pub fn new(path: &str) -> (r: Option<Repo>)
        ensures
            r matches Some(repo) ==> repo@ == path@,
    {
        if opens_as_repository(path) {
            Some(Repo { path: path.to_owned() })
        } else {
            None
        }
    }

    /// The repository at `path`, which the probe has already accepted.
    pub(crate) fn probed(path: String) -> (r: Repo)
        ensures
            r@ == path@,
    {
        Repo { path }
    }

    pub fn path(&self) -> (r: &String)
        ensures
            r@ == self@,
    {
        &self.path
    }

    /// The batch that runs `op` on this repository alone, with no title.
    fn single(&self, op: Operation) -> (r: BatchRun)
        ensures
            r.wf(),
            r.operation() == op,
            r.paths() == seq![self@],
            !r.titled(),
            r.position() == 0,
            !r.failed(),
    {
        let mut paths: Vec<String> = Vec::new();
        paths.push(self.path.clone());
        assert(strings_view(paths@) =~= seq![self@]);
        BatchRun::new(op, paths, false)
    }
}

impl RepoOperations for Repo {
    fn custom_cmd(&self, cmd: String) -> (r: BatchRun)
        ensures
            r.paths() == seq![self@],
            !r.titled(),
    {
        self.single(Operation::CustomCmd(cmd))
    }

    fn porcelain(&self) -> (r: BatchRun)
        ensures
            r.paths() == seq![self@],
            !r.titled(),
    {
        self.single(Operation::Porcelain)
    }

    fn find_cherry_picks(&self) -> (r: BatchRun)
        ensures
            r.paths() == seq![self@],
            !r.titled(),
    {
        self.single(Operation::FindCherryPicks)
    }

    fn print_cherry_picks(&self) -> (r: BatchRun)
        ensures
            r.paths() == seq![self@],
            !r.titled(),
    {
        self.single(Operation::PrintCherryPicks)
    }

    fn print_commits_with_author(&self, number: u32, author: &str) -> (r: BatchRun)
        ensures
            r.paths() == seq![self@],
            !r.titled(),
    {
        self.single(Operation::CommitsWithAuthor(number, author.to_owned()))
    }
}

} // verus!
