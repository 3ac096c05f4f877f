//! Reading the list of repositories, and planning the `exec` command.

use vstd::prelude::*;
use vstd::utf8::{decode_utf8, valid_utf8};

use crate::options::opts::ExecOpts;
use crate::text::{lines_of, split_lines, string_from_utf8, trim_str, trimmed, views_of};

use super::repo::opens_as_repository;
use super::repo_operations::{Operation, OperationView, strings_view};
use super::repositories::{Repositories, kept};

verus! {

/// Why a list of repository paths could not be read.
#[derive(Debug, PartialEq, Eq)]
pub enum LoadError {
    /// The line at this index (counting from 0) is not valid UTF-8.
    InvalidLine(usize),
}

/// The text of each line.
pub open spec fn decoded(lines: Seq<Seq<u8>>) -> Seq<Seq<char>> {
    lines.map_values(|l: Seq<u8>| decode_utf8(l))
}

/// The first line that is not valid UTF-8 is at index `k`.
pub open spec fn first_invalid(lines: Seq<Seq<u8>>, k: int) -> bool {
    &&& 0 <= k < lines.len()
    &&& !valid_utf8(lines[k])
    &&& forall|j: int| 0 <= j < k ==> valid_utf8(#[trigger] lines[j])
}

/// The path each line names: its text, trimmed of surrounding whitespace
/// when `trim` holds.
pub open spec fn line_paths(lines: Seq<Seq<u8>>, trim: bool) -> Seq<Seq<char>> {
    if trim {
        decoded(lines).map_values(|p: Seq<char>| trimmed(p))
    } else {
        decoded(lines)
    }
}

/// What reading `text` as a list of paths gives: the error for its first line
/// that is not valid UTF-8, or the repositories at the paths of its lines
/// (see `line_paths`) whose probe succeeded, in order, where an empty path is
/// never probed.
pub open spec fn read_outcome(text: Seq<u8>, trim: bool, r: Result<Repositories, LoadError>) -> bool {
    &&& r is Err <==> exists|k: int| first_invalid(split_lines(text), k)
    &&& r matches Err(LoadError::InvalidLine(k)) ==> first_invalid(split_lines(text), k as int)
    &&& r matches Ok(repos) ==> exists|probes: Seq<bool>|
        {
            &&& probes.len() == split_lines(text).len()
            &&& forall|i: int|
                0 <= i < probes.len() && line_paths(split_lines(text), trim)[i].len() == 0
                    ==> !#[trigger] probes[i]
            &&& repos@ == kept(line_paths(split_lines(text), trim), probes)
        }
}

fn read_lines(text: &[u8], trim: bool) -> (r: Result<Repositories, LoadError>)
    ensures
        read_outcome(text@, trim, r),
{
    let lines = lines_of(text);
    let ghost ls = split_lines(text@);
    let ghost ps = line_paths(ls, trim);
    let mut paths: Vec<String> = Vec::new();
    let mut probes: Vec<bool> = Vec::new();
    let mut i: usize = 0;
    while i < lines.len()
        invariant
            ls == split_lines(text@),
            ps == line_paths(ls, trim),
            views_of(lines@) == ls,
            i <= ls.len(),
            strings_view(paths@) == ps.take(i as int),
            probes@.len() == i,
            forall|j: int| 0 <= j < i ==> valid_utf8(#[trigger] ls[j]),
            forall|j: int| 0 <= j < i && ps[j].len() == 0 ==> !#[trigger] probes@[j],
        decreases ls.len() - i,
    {
        assert(lines@[i as int]@ == ls[i as int]);
        let ghost before = paths@;
        match string_from_utf8(lines[i].clone()) {
            None => {
                assert(first_invalid(ls, i as int));
                return Err(LoadError::InvalidLine(i));
            },
            Some(text_of_line) => {
                let path = if trim {
                    trim_str(text_of_line.as_str())
                } else {
                    text_of_line
                };
                assert(path@ == ps[i as int]);
                let found = if path.as_str().is_empty() {
                    false
                } else {
                    opens_as_repository(path.as_str())
                };
                paths.push(path);
                probes.push(found);
            },
        }
        assert(strings_view(paths@) =~= strings_view(before).push(ps[i as int]));
        assert(ps.take(i + 1) =~= ps.take(i as int).push(ps[i as int]));
        i = i + 1;
    }
    assert(ps.take(ls.len() as int) =~= ps);
    assert(forall|k: int| !first_invalid(ls, k));
    let repos = Repositories::from_probed(paths, &probes);
    assert(probes@.len() == ls.len());
    Ok(repos)
}

/// The repositories listed in the file text `text`, one path per line, as
/// `read_outcome` describes them; lines are taken as they stand.
pub fn read_repositories_from_file(text: &[u8]) -> (r: Result<Repositories, LoadError>)
    ensures
        read_outcome(text@, false, r),
{
    read_lines(text, false)
}

/// The repositories listed in `text`, read from standard input, one path per
/// line, as `read_outcome` describes them; each line is trimmed of
/// surrounding whitespace.
pub fn read_repositories_from_stdin(text: &[u8]) -> (r: Result<Repositories, LoadError>)
    ensures
        read_outcome(text@, true, r),
{
    read_lines(text, true)
}

/// Where a list of repository paths is read from or written to.
#[derive(Debug, PartialEq, Eq)]
pub enum PathsLocation {
    Standard,
    DefaultFile,
    File(String),
}

pub enum PathsLocationView {
    Standard,
    DefaultFile,
    File(Seq<char>),
}

impl View for PathsLocation {
    type V = PathsLocationView;

    open spec fn view(&self) -> PathsLocationView {
        match self {
            PathsLocation::Standard => PathsLocationView::Standard,
            PathsLocation::DefaultFile => PathsLocationView::DefaultFile,
            PathsLocation::File(p) => PathsLocationView::File(p@),
        }
    }
}

/// The location that an option of the form "absent, present without a path,
/// present with a path" names.
pub open spec fn location_of(o: Option<Option<String>>) -> PathsLocationView {
    match o {
        None => PathsLocationView::Standard,
        Some(None) => PathsLocationView::DefaultFile,
        Some(Some(p)) => PathsLocationView::File(p@),
    }
}

pub fn location(o: &Option<Option<String>>) -> (r: PathsLocation)
    ensures
        r@ == location_of(*o),
{
    match o {
        None => PathsLocation::Standard,
        Some(None) => PathsLocation::DefaultFile,
        Some(Some(p)) => PathsLocation::File(p.clone()),
    }
}

/// What `exec` does: read the repositories from `source`, then run each of
/// `operations` over all of them, in order.
pub struct ExecPlan {
    pub source: PathsLocation,
    pub operations: Vec<Operation>,
}

pub open spec fn operations_view(v: Seq<Operation>) -> Seq<OperationView> {
    v.map_values(|o: Operation| o@)
}

pub open spec fn when(b: bool, o: OperationView) -> Seq<OperationView> {
    if b {
        seq![o]
    } else {
        seq![]
    }
}

/// The operations that `opts` asks for, in the order they run; `user` is the
/// author looked for when the author option names none.
pub open spec fn planned(opts: ExecOpts, user: Seq<char>) -> Seq<OperationView> {
    when(opts.porcelain, OperationView::Porcelain) + when(
        opts.find_cherry_picks,
        OperationView::FindCherryPicks,
    ) + when(opts.print_cherry_picks, OperationView::PrintCherryPicks) + match opts.with_author {
        None => seq![],
        Some(None) => seq![OperationView::CommitsWithAuthor(opts.number, user)],
        Some(Some(a)) => seq![OperationView::CommitsWithAuthor(opts.number, a@)],
    } + match opts.cmd {
        None => seq![],
        Some(c) => seq![OperationView::CustomCmd(c@)],
    }
}

/// Plans the `exec` command: where the paths come from, and which batches
/// run in which order. `user` is the current git user's name.
pub fn run(opts: &ExecOpts, user: &str) -> (r: ExecPlan)
    ensures
        r.source@ == location_of(opts.source_file),
        operations_view(r.operations@) == planned(*opts, user@),
{
    let source = location(&opts.source_file);
    let mut operations: Vec<Operation> = Vec::new();
    if opts.porcelain {
        operations.push(Operation::Porcelain);
    }
    if opts.find_cherry_picks {
        operations.push(Operation::FindCherryPicks);
    }
    if opts.print_cherry_picks {
        operations.push(Operation::PrintCherryPicks);
    }
    match &opts.with_author {
        None => {},
        Some(None) => {
            operations.push(Operation::CommitsWithAuthor(opts.number, user.to_owned()));
        },
        Some(Some(a)) => {
            operations.push(Operation::CommitsWithAuthor(opts.number, a.clone()));
        },
    }
    match &opts.cmd {
        None => {},
        Some(c) => {
            operations.push(Operation::CustomCmd(c.clone()));
        },
    }
    assert(operations_view(operations@) =~= planned(*opts, user@));
    ExecPlan { source, operations }
}

} // verus!
