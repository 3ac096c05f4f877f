//! An ordered collection of repositories.

use vstd::prelude::*;

use super::repo::Repo;
use super::repo_operations::{BatchRun, Operation, RepoOperations, strings_view};

verus! {

/// The entries of `paths` whose probe succeeded, in their order.
pub open spec fn kept(paths: Seq<Seq<char>>, probes: Seq<bool>) -> Seq<Seq<char>>
    decreases paths.len(),
{
    if paths.len() == 0 {
        seq![]
    } else {
        let rest = kept(paths.drop_last(), probes);
        if probes[paths.len() - 1] {
            rest.push(paths.last())
        } else {
            rest
        }
    }
}

/// `x` is one of `paths` whose probe succeeded.
pub open spec fn accepted(paths: Seq<Seq<char>>, probes: Seq<bool>, x: Seq<char>) -> bool {
    exists|i: int| 0 <= i < paths.len() && probes[i] && paths[i] == x
}

/// Probe rejection: every kept path is one whose probe succeeded, and every
/// path whose probe succeeded is kept.
pub proof fn lemma_kept_only_probed(paths: Seq<Seq<char>>, probes: Seq<bool>)
    requires
        probes.len() >= paths.len(),
    ensures
        forall|j: int|
            0 <= j < kept(paths, probes).len() ==> accepted(
                paths,
                probes,
                #[trigger] kept(paths, probes)[j],
            ),
        forall|i: int|
            0 <= i < paths.len() && probes[i] ==> #[trigger] kept(paths, probes).contains(paths[i]),
    decreases paths.len(),
{
    if paths.len() > 0 {
        let front = paths.drop_last();
        let rest = kept(front, probes);
        let k = kept(paths, probes);
        let last = paths.len() - 1;
        lemma_kept_only_probed(front, probes);
        assert forall|j: int| 0 <= j < k.len() implies accepted(paths, probes, #[trigger] k[j]) by {
            if j < rest.len() {
                assert(accepted(front, probes, rest[j]));
                let i = choose|i: int| 0 <= i < front.len() && probes[i] && front[i] == rest[j];
                assert(paths[i] == k[j]);
            } else {
                assert(paths[last] == k[j]);
            }
        }
        assert forall|i: int| 0 <= i < paths.len() && probes[i] implies #[trigger] k.contains(
            paths[i],
        ) by {
            if i < last {
                assert(rest.contains(front[i]));
                let j = choose|j: int| 0 <= j < rest.len() && rest[j] == front[i];
                assert(k[j] == paths[i]);
            } else {
                assert(k[k.len() - 1] == paths[i]);
            }
        }
    }
}

/// Those of `paths` whose probe in `probes` succeeded, in their order.
pub fn keep_probed(paths: Vec<String>, probes: &Vec<bool>) -> (r: Vec<String>)
    requires
        probes@.len() == paths@.len(),
    ensures
        strings_view(r@) == kept(strings_view(paths@), probes@),
{
    let mut r: Vec<String> = Vec::new();
    let ghost all = strings_view(paths@);
    let n: usize = paths.len();
    let mut i: usize = 0;
    assert(strings_view(r@) =~= kept(all.take(0), probes@));
    while i < n
        invariant
            n == paths@.len(),
            n == probes@.len(),
            i <= n,
            all == strings_view(paths@),
            strings_view(r@) == kept(all.take(i as int), probes@),
        decreases n - i,
    {
        assert(all.take(i + 1).drop_last() =~= all.take(i as int));
        if probes[i] {
            let ghost before = r@;
            r.push(paths[i].clone());
            assert(strings_view(r@) =~= strings_view(before).push(all[i as int]));
        }
        i = i + 1;
    }
    assert(all.take(n as int) =~= all);
    r
}

/// The repositories that an operation runs over, in order; the same path may
/// appear more than once.
pub struct Repositories {
    pub repos: Vec<Repo>,
}

impl View for Repositories {
    type V = Seq<Seq<char>>;

    open spec fn view(&self) -> Seq<Seq<char>> {
        self.repos@.map_values(|r: Repo| r@)
    }
}

impl Repositories {
    /// An empty collection.
    pub fn new() -> (r: Repositories)
        ensures
            r@ == Seq::<Seq<char>>::empty(),
    {
        let r = Repositories { repos: Vec::new() };
        assert(r@ =~= Seq::<Seq<char>>::empty());
        r
    }

    /// The repositories at those of `paths` whose probe in `probes` succeeded.
    pub fn from_probed(paths: Vec<String>, probes: &Vec<bool>) -> (r: Repositories)
        requires
            probes@.len() == paths@.len(),
        ensures
            r@ == kept(strings_view(paths@), probes@),
    {
        let found = keep_probed(paths, probes);
        let mut r = Repositories::new();
        let mut i: usize = 0;
        while i < found.len()
            invariant
                i <= found@.len(),
                r@ == strings_view(found@).take(i as int),
            decreases found@.len() - i,
        {
            let ghost before = r@;
            r.repos.push(Repo::probed(found[i].clone()));
            assert(r@ =~= before.push(found@[i as int]@));
            assert(strings_view(found@).take(i + 1) =~= strings_view(found@).take(i as int).push(
                found@[i as int]@,
            ));
            i = i + 1;
        }
        assert(strings_view(found@).take(found@.len() as int) =~= strings_view(found@));
        r
    }

    /// The batch that runs `op` on every repository in order, under one title.
    pub fn batch(&self, op: Operation) -> (r: BatchRun)
        ensures
            r.wf(),
            r.operation() == op,
            r.paths() == self@,
            r.titled(),
            r.position() == 0,
            !r.failed(),
    {
        let mut paths: Vec<String> = Vec::new();
        let mut i: usize = 0;
        while i < self.repos.len()
            invariant
                i <= self.repos@.len(),
                strings_view(paths@) == self@.take(i as int),
            decreases self.repos@.len() - i,
        {
            let p = self.repos[i].path().clone();
            let ghost before = paths@;
            paths.push(p);
            assert(strings_view(paths@) =~= strings_view(before).push(self@[i as int]));
            assert(self@.take(i + 1) =~= self@.take(i as int).push(self@[i as int]));
            i = i + 1;
        }
        assert(self@.take(self.repos@.len() as int) =~= self@);
        BatchRun::new(op, paths, true)
    }
}

impl RepoOperations for Repositories {
    fn custom_cmd(&self, cmd: String) -> (r: BatchRun)
        ensures
            r.paths() == self@,
            r.titled(),
    {
        self.batch(Operation::CustomCmd(cmd))
    }

    fn porcelain(&self) -> (r: BatchRun)
        ensures
            r.paths() == self@,
            r.titled(),
    {
        self.batch(Operation::Porcelain)
    }

    fn find_cherry_picks(&self) -> (r: BatchRun)
        ensures
            r.paths() == self@,
            r.titled(),
    {
        self.batch(Operation::FindCherryPicks)
    }

    fn print_cherry_picks(&self) -> (r: BatchRun)
        ensures
            r.paths() == self@,
            r.titled(),
    {
        self.batch(Operation::PrintCherryPicks)
    }

    fn print_commits_with_author(&self, number: u32, author: &str) -> (r: BatchRun)
        ensures
            r.paths() == self@,
            r.titled(),
    {
        self.batch(Operation::CommitsWithAuthor(number, author.to_owned()))
    }
}

} // verus!
