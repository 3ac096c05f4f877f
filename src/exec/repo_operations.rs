//! The operations that can be run on repositories, and the batch that runs one
//! operation over a sequence of repositories.
//!
//! Running git is left to the caller: a batch hands out one [`Invocation`] at a
//! time, takes back its [`Outcome`], and answers with the lines to print.

use vstd::prelude::*;
use vstd::string::StringExecFns;
use vstd::utf8::{encode_utf8, valid_utf8};

use crate::text::{
    contains_bytes, has_infix, lines_containing, lines_of, lines_with, split_lines, string_from_utf8, words,
    views_of,
};

verus! {

/// An operation over repositories.
#[derive(Debug, PartialEq, Eq)]
pub enum Operation {
    /// A git command given as one string of whitespace-separated words.
    CustomCmd(String),
    /// `git status --porcelain`, shown only for repositories with changes.
    Porcelain,
    /// Repositories whose reflog mentions a cherry-pick.
    FindCherryPicks,
    /// The reflog lines that mention a cherry-pick.
    PrintCherryPicks,
    /// The lines of the last `n` commits of the log that mention an author.
    CommitsWithAuthor(u32, String),
}

pub enum OperationView {
    CustomCmd(Seq<char>),
    Porcelain,
    FindCherryPicks,
    PrintCherryPicks,
    CommitsWithAuthor(u32, Seq<char>),
}

impl View for Operation {
    type V = OperationView;

    open spec fn view(&self) -> OperationView {
        match self {
            Operation::CustomCmd(c) => OperationView::CustomCmd(c@),
            Operation::Porcelain => OperationView::Porcelain,
            Operation::FindCherryPicks => OperationView::FindCherryPicks,
            Operation::PrintCherryPicks => OperationView::PrintCherryPicks,
            Operation::CommitsWithAuthor(n, a) => OperationView::CommitsWithAuthor(*n, a@),
        }
    }
}

/// One run of git: in directory `dir`, with arguments `args`; its standard
/// output is captured when `capture` holds and passed through otherwise.
#[derive(Debug, PartialEq, Eq)]
pub struct Invocation {
    pub dir: String,
    pub args: Vec<String>,
    pub capture: bool,
}

/// What came of an invocation.
#[derive(Debug, PartialEq, Eq)]
pub enum Outcome {
    /// git ran (whatever its exit status); the captured standard output,
    /// empty when nothing was captured.
    Completed(Vec<u8>),
    /// git could not be started.
    NotLaunched,
}

/// A line of output: a banner that names a repository, or text.
#[derive(Debug, PartialEq, Eq)]
pub enum Line {
    Banner(String),
    Text(Vec<u8>),
}

pub enum LineView {
    Banner(Seq<char>),
    Text(Seq<u8>),
}

impl View for Line {
    type V = LineView;

    open spec fn view(&self) -> LineView {
        match self {
            Line::Banner(p) => LineView::Banner(p@),
            Line::Text(t) => LineView::Text(t@),
        }
    }
}

/// Why an operation failed on a repository, with the repository's path.
#[derive(Debug, PartialEq, Eq)]
pub enum ExecError {
    /// git could not be started.
    NotLaunched(String),
    /// git's output was not valid UTF-8 where text was expected.
    InvalidOutput(String),
}

pub enum ExecErrorView {
    NotLaunched(Seq<char>),
    InvalidOutput(Seq<char>),
}

impl View for ExecError {
    type V = ExecErrorView;

    open spec fn view(&self) -> ExecErrorView {
        match self {
            ExecError::NotLaunched(p) => ExecErrorView::NotLaunched(p@),
            ExecError::InvalidOutput(p) => ExecErrorView::InvalidOutput(p@),
        }
    }
}

pub open spec fn lines_view(v: Seq<Line>) -> Seq<LineView> {
    v.map_values(|l: Line| l@)
}

pub open spec fn strings_view(v: Seq<String>) -> Seq<Seq<char>> {
    v.map_values(|s: String| s@)
}

pub open spec fn result_view(r: Result<Vec<Line>, ExecError>) -> Result<Seq<LineView>, ExecErrorView> {
    match r {
        Ok(v) => Ok(lines_view(v@)),
        Err(e) => Err(e@),
    }
}

/// The bytes of `cherry-pick`, the reflog's word for a cherry-pick.
pub open spec fn cherry_pick_marker() -> Seq<u8> {
    seq![99u8, 104u8, 101u8, 114u8, 114u8, 121u8, 45u8, 112u8, 105u8, 99u8, 107u8]
}

pub open spec fn texts(ls: Seq<Seq<u8>>) -> Seq<LineView> {
    ls.map_values(|l: Seq<u8>| LineView::Text(l))
}

/// A banner for `path` followed by `ls`, or nothing when `ls` is empty.
pub open spec fn section(path: Seq<char>, ls: Seq<Seq<u8>>) -> Seq<LineView> {
    if ls.len() == 0 {
        seq![]
    } else {
        seq![LineView::Banner(path)] + texts(ls)
    }
}

/// What `op` prints for the repository at `path` once git has produced `out`.
pub open spec fn report(op: Operation, path: Seq<char>, out: Seq<u8>) -> Result<
    Seq<LineView>,
    ExecErrorView,
> {
    match op {
        Operation::CustomCmd(_) => Ok(seq![]),
        Operation::Porcelain => if out.len() == 0 {
            Ok(seq![])
        } else {
            Ok(seq![LineView::Banner(path), LineView::Text(out)])
        },
        Operation::FindCherryPicks => if has_infix(out, cherry_pick_marker()) {
            Ok(seq![LineView::Banner(path)])
        } else {
            Ok(seq![])
        },
        Operation::PrintCherryPicks => Ok(
            section(path, lines_with(split_lines(out), cherry_pick_marker())),
        ),
        Operation::CommitsWithAuthor(_, author) => if valid_utf8(out) {
            Ok(section(path, lines_with(split_lines(out), encode_utf8(author@))))
        } else {
            Err(ExecErrorView::InvalidOutput(path))
        },
    }
}

/// What is printed for the repository at `path` before git runs.
pub open spec fn preface(op: Operation, path: Seq<char>) -> Seq<LineView> {
    match op {
        Operation::CustomCmd(_) => seq![LineView::Banner(path)],
        _ => seq![],
    }
}

/// What an invocation of `op` on the repository at `path` that ended in
/// `outcome` prints, or how the operation fails there.
pub open spec fn outcome_report(op: Operation, path: Seq<char>, outcome: Outcome) -> Result<
    Seq<LineView>,
    ExecErrorView,
> {
    match outcome {
        Outcome::Completed(out) => report(op, path, out@),
        Outcome::NotLaunched => Err(ExecErrorView::NotLaunched(path)),
    }
}

/// The decimal digits of `n`, without leading zeros.
pub open spec fn decimal(n: nat) -> Seq<char>
    decreases n,
{
    if n < 10 {
        seq![digit(n)]
    } else {
        decimal(n / 10) + seq![digit(n % 10)]
    }
}

pub open spec fn digit(d: nat) -> char {
    if d == 0 {
        '0'
    } else if d == 1 {
        '1'
    } else if d == 2 {
        '2'
    } else if d == 3 {
        '3'
    } else if d == 4 {
        '4'
    } else if d == 5 {
        '5'
    } else if d == 6 {
        '6'
    } else if d == 7 {
        '7'
    } else if d == 8 {
        '8'
    } else {
        '9'
    }
}

/// The arguments that git gets for `op`.
pub open spec fn args_of(op: Operation) -> Seq<Seq<char>> {
    match op {
        Operation::CustomCmd(cmd) => words(cmd@),
        Operation::Porcelain => seq!["status"@, "--porcelain"@],
        Operation::FindCherryPicks => seq!["reflog"@],
        Operation::PrintCherryPicks => seq!["reflog"@],
        Operation::CommitsWithAuthor(n, _) => seq![
            "log"@,
            "--graph"@,
            "--pretty=%h -%d %s (%cr) <%an>"@,
            "--abbrev-commit"@,
            seq!['-'] + decimal(n as nat),
        ],
    }
}

/// Whether git's standard output is captured for `op`.
pub open spec fn captures(op: Operation) -> bool {
    !(op is CustomCmd)
}

/// Relies on `str::split_whitespace`: the maximal runs of `s` without
/// White_Space characters, in order.
#[verifier::external_body]
pub(crate) fn split_words(s: &str) -> (r: Vec<String>)
    ensures
        strings_view(r@) == words(s@),
{
    s.split_whitespace().map(String::from).collect()
}

/// The decimal digit `d`, as a string.
fn digit_str(d: u32) -> (r: &'static str)
    requires
        d < 10,
    ensures
        r@ == seq![digit(d as nat)],
{
    proof {
        reveal_strlit("0");
        reveal_strlit("1");
        reveal_strlit("2");
        reveal_strlit("3");
        reveal_strlit("4");
        reveal_strlit("5");
        reveal_strlit("6");
        reveal_strlit("7");
        reveal_strlit("8");
        reveal_strlit("9");
    }
    if d == 0 {
        "0"
    } else if d == 1 {
        "1"
    } else if d == 2 {
        "2"
    } else if d == 3 {
        "3"
    } else if d == 4 {
        "4"
    } else if d == 5 {
        "5"
    } else if d == 6 {
        "6"
    } else if d == 7 {
        "7"
    } else if d == 8 {
        "8"
    } else {
        "9"
    }
}

/// The decimal digits of `n`.
pub fn decimal_string(n: u32) -> (r: String)
    ensures
        r@ == decimal(n as nat),
    decreases n,
{
    if n < 10 {
        digit_str(n).to_owned()
    } else {
        let mut s = decimal_string(n / 10);
        s.append(digit_str(n % 10));
        s
    }
}

/// The argument that limits git's log to the last `n` commits: `-` and the
/// digits of `n`.
fn count_arg(n: u32) -> (r: String)
    ensures
        r@ == seq!['-'] + decimal(n as nat),
{
    let mut s = "-".to_owned();
    proof {
        reveal_strlit("-");
    }
    let d = decimal_string(n);
    s.append(d.as_str());
    s
}

/// The title of a batch that runs `op`.
pub open spec fn title_of(op: Operation) -> Seq<char> {
    match op {
        Operation::CustomCmd(cmd) => "git "@ + cmd@,
        Operation::Porcelain => "git status --porcelain"@,
        Operation::FindCherryPicks => "repositories with cherry-picks in git reflog"@,
        Operation::PrintCherryPicks => "repositories with cherry-picks in git reflog"@,
        Operation::CommitsWithAuthor(n, author) => "repositories with author "@ + author@
            + " in last "@ + decimal(n as nat) + " commits"@,
    }
}

fn title_text(op: &Operation) -> (r: String)
    ensures
        r@ == title_of(*op),
{
    match op {
        Operation::CustomCmd(cmd) => {
            let mut t = "git ".to_owned();
            t.append(cmd.as_str());
            t
        },
        Operation::Porcelain => "git status --porcelain".to_owned(),
        Operation::FindCherryPicks => "repositories with cherry-picks in git reflog".to_owned(),
        Operation::PrintCherryPicks => "repositories with cherry-picks in git reflog".to_owned(),
        Operation::CommitsWithAuthor(n, author) => {
            let mut t = "repositories with author ".to_owned();
            t.append(author.as_str());
            t.append(" in last ");
            let d = decimal_string(*n);
            t.append(d.as_str());
            t.append(" commits");
            t
        },
    }
}

fn cherry_pick_bytes() -> (r: Vec<u8>)
    ensures
        r@ == cherry_pick_marker(),
{
    let r: Vec<u8> = vec![99u8, 104u8, 101u8, 114u8, 114u8, 121u8, 45u8, 112u8, 105u8, 99u8, 107u8];
    assert(r@ =~= cherry_pick_marker());
    r
}

/// The reflog `reflog` itself when it mentions a cherry-pick, and nothing
/// otherwise.
pub fn cherry_picks_in(reflog: &Vec<u8>) -> (r: Option<Vec<u8>>)
    ensures
        r is Some <==> has_infix(reflog@, cherry_pick_marker()),
        r matches Some(t) ==> t@ == reflog@,
{
    let marker = cherry_pick_bytes();
    if contains_bytes(reflog.as_slice(), marker.as_slice()) {
        Some(reflog.clone())
    } else {
        None
    }
}

/// The invocation of git that `op` makes in the repository at `path`.
pub fn invocation(path: &String, op: &Operation) -> (r: Invocation)
    ensures
        r.dir@ == path@,
        strings_view(r.args@) == args_of(*op),
        r.capture == captures(*op),
{
    let mut args: Vec<String> = Vec::new();
    match op {
        Operation::CustomCmd(cmd) => {
            args = split_words(cmd.as_str());
        },
        Operation::Porcelain => {
            args.push("status".to_owned());
            args.push("--porcelain".to_owned());
        },
        Operation::FindCherryPicks => {
            args.push("reflog".to_owned());
        },
        Operation::PrintCherryPicks => {
            args.push("reflog".to_owned());
        },
        Operation::CommitsWithAuthor(n, _) => {
            args.push("log".to_owned());
            args.push("--graph".to_owned());
            args.push("--pretty=%h -%d %s (%cr) <%an>".to_owned());
            args.push("--abbrev-commit".to_owned());
            args.push(count_arg(*n));
        },
    }
    assert(strings_view(args@) =~= args_of(*op));
    let capture = match op {
        Operation::CustomCmd(_) => false,
        _ => true,
    };
    Invocation { dir: path.clone(), args, capture }
}

/// What `op` prints for the repository at `path` before git runs.
pub fn preface_lines(path: &String, op: &Operation) -> (r: Vec<Line>)
    ensures
        lines_view(r@) == preface(*op, path@),
{
    let mut r: Vec<Line> = Vec::new();
    match op {
        Operation::CustomCmd(_) => {
            r.push(Line::Banner(path.clone()));
        },
        _ => {},
    }
    assert(lines_view(r@) =~= preface(*op, path@));
    r
}

/// A banner for `path` followed by the lines `ls`, or nothing when there are none.
fn section_lines(path: &String, ls: Vec<Vec<u8>>) -> (r: Vec<Line>)
    ensures
        lines_view(r@) == section(path@, views_of(ls@)),
{
    let mut r: Vec<Line> = Vec::new();
    if ls.len() == 0 {
        assert(lines_view(r@) =~= section(path@, views_of(ls@)));
        return r;
    }
    r.push(Line::Banner(path.clone()));
    let mut i: usize = 0;
    while i < ls.len()
        invariant
            i <= ls@.len(),
            ls@.len() > 0,
            lines_view(r@) =~= seq![LineView::Banner(path@)] + texts(views_of(ls@).take(i as int)),
        decreases ls@.len() - i,
    {
        let ghost before = r@;
        r.push(Line::Text(ls[i].clone()));
        assert(lines_view(r@) =~= lines_view(before).push(LineView::Text(ls@[i as int]@)));
        assert(texts(views_of(ls@).take(i + 1)) =~= texts(views_of(ls@).take(i as int)).push(
            LineView::Text(ls@[i as int]@),
        ));
        i = i + 1;
    }
    assert(views_of(ls@).take(ls@.len() as int) =~= views_of(ls@));
    r
}

/// What `op` prints for the repository at `path` once git has produced `out`,
/// or why it fails there.
pub fn report_lines(path: &String, op: &Operation, out: &Vec<u8>) -> (r: Result<
    Vec<Line>,
    ExecError,
>)
    ensures
        result_view(r) == report(*op, path@, out@),
{
    match op {
        Operation::CustomCmd(_) => {
            let r: Vec<Line> = Vec::new();
            assert(lines_view(r@) =~= seq![]);
            Ok(r)
        },
        Operation::Porcelain => {
            let mut r: Vec<Line> = Vec::new();
            if out.len() > 0 {
                r.push(Line::Banner(path.clone()));
                r.push(Line::Text(out.clone()));
            }
            assert(lines_view(r@) =~= report(*op, path@, out@)->Ok_0);
            Ok(r)
        },
        Operation::FindCherryPicks => {
            let mut r: Vec<Line> = Vec::new();
            if cherry_picks_in(out).is_some() {
                r.push(Line::Banner(path.clone()));
            }
            assert(lines_view(r@) =~= report(*op, path@, out@)->Ok_0);
            Ok(r)
        },
        Operation::PrintCherryPicks => {
            let marker = cherry_pick_bytes();
            let lines = lines_of(out.as_slice());
            let found = lines_containing(&lines, marker.as_slice());
            Ok(section_lines(path, found))
        },
        Operation::CommitsWithAuthor(_, author) => {
            match string_from_utf8(out.clone()) {
                None => Err(ExecError::InvalidOutput(path.clone())),
                Some(_) => {
                    let lines = lines_of(out.as_slice());
                    let found = lines_containing(&lines, author.as_str().as_bytes());
                    Ok(section_lines(path, found))
                },
            }
        },
    }
}

/// One operation run over a sequence of repositories, one at a time and in
/// their order, stopping at the first failure.
pub struct BatchRun {
    op: Operation,
    paths: Vec<String>,
    titled: bool,
    position: usize,
    failed: bool,
}

impl BatchRun {
    pub closed spec fn operation(&self) -> Operation {
        self.op
    }

    /// The paths of the repositories, in the order they are visited.
    pub closed spec fn paths(&self) -> Seq<Seq<char>> {
        strings_view(self.paths@)
    }

    /// Whether the batch opens with a title that names its operation.
    pub closed spec fn titled(&self) -> bool {
        self.titled
    }

    /// How many repositories have had their outcome recorded.
    pub closed spec fn position(&self) -> nat {
        self.position as nat
    }

    /// Whether an outcome has failed.
    pub closed spec fn failed(&self) -> bool {
        self.failed
    }

    pub closed spec fn wf(&self) -> bool {
        self.position <= self.paths@.len()
    }

    pub open spec fn finished(&self) -> bool {
        self.failed() || self.position() >= self.paths().len()
    }

    /// The path of the repository that comes next.
    pub open spec fn current(&self) -> Seq<char> {
        self.paths()[self.position() as int]
    }

    /// `next` is the state after `outcome` was recorded for the current repository.
    pub open spec fn advanced(&self, next: BatchRun, outcome: Outcome) -> bool {
        &&& next.wf()
        &&& next.operation() == self.operation()
        &&& next.paths() == self.paths()
        &&& next.titled() == self.titled()
        &&& next.position() == self.position() + 1
        &&& next.failed() == outcome_report(self.operation(), self.current(), outcome) is Err
    }

    pub fn new(op: Operation, paths: Vec<String>, titled: bool) -> (r: BatchRun)
        ensures
            r.wf(),
            r.operation() == op,
            r.paths() == strings_view(paths@),
            r.titled() == titled,
            r.position() == 0,
            !r.failed(),
    {
        BatchRun { op, paths, titled, position: 0, failed: false }
    }

    pub fn op(&self) -> (r: &Operation)
        ensures
            *r == self.operation(),
    {
        &self.op
    }

    pub fn has_title(&self) -> (r: bool)
        ensures
            r == self.titled(),
    {
        self.titled
    }

    /// The title text of the batch's operation.
    pub fn title(&self) -> (r: String)
        ensures
            r@ == title_of(self.operation()),
    {
        title_text(&self.op)
    }

    /// What to print before git runs in the next repository, and how to run
    /// it; nothing once the batch is finished.
    pub fn next_invocation(&self) -> (r: Option<(Vec<Line>, Invocation)>)
        requires
            self.wf(),
        ensures
            r is None <==> self.finished(),
            r matches Some(step) ==> lines_view(step.0@) == preface(
                self.operation(),
                self.current(),
            ),
            r matches Some(step) ==> step.1.dir@ == self.current(),
            r matches Some(step) ==> strings_view(step.1.args@) == args_of(self.operation()),
            r matches Some(step) ==> step.1.capture == captures(self.operation()),
    {
        if self.failed || self.position >= self.paths.len() {
            return None;
        }
        let path = &self.paths[self.position];
        Some((preface_lines(path, &self.op), invocation(path, &self.op)))
    }

    /// Takes the outcome of the current repository's invocation and answers
    /// with what to print, or with the failure that ends the batch.
    pub fn record(&mut self, outcome: Outcome) -> (r: Result<Vec<Line>, ExecError>)
        requires
            old(self).wf(),
            !old(self).finished(),
        ensures
            old(self).advanced(*final(self), outcome),
            result_view(r) == outcome_report(old(self).operation(), old(self).current(), outcome),
    {
        let n: usize = self.paths.len();
        assert(self.position < n);
        let r = match &outcome {
            Outcome::Completed(out) => report_lines(&self.paths[self.position], &self.op, out),
            Outcome::NotLaunched => Err(ExecError::NotLaunched(self.paths[self.position].clone())),
        };
        self.position = self.position + 1;
        self.failed = r.is_err();
        r
    }
}

/// A batch stops at the first repository where its operation fails: once
/// that outcome is recorded the batch is finished, so no later repository is
/// run, while what earlier repositories printed stands.
pub proof fn lemma_fail_fast(b: BatchRun, next: BatchRun, outcome: Outcome)
    requires
        b.wf(),
        !b.finished(),
        b.advanced(next, outcome),
        outcome_report(b.operation(), b.current(), outcome) is Err,
    ensures
        next.finished(),
        next.position() == b.position() + 1,
{
}

/// A repository with a clean working tree, where `git status --porcelain`
/// prints nothing, shows nothing: no banner and no text.
pub proof fn lemma_clean_status_is_silent(path: Seq<char>, out: Seq<u8>)
    requires
        out.len() == 0,
    ensures
        report(Operation::Porcelain, path, out) == Ok::<Seq<LineView>, ExecErrorView>(seq![]),
{
}

/// A repository with changes shows its banner once, then the status exactly
/// as git printed it.
pub proof fn lemma_changed_status_is_shown(path: Seq<char>, out: Seq<u8>)
    requires
        out.len() > 0,
    ensures
        report(Operation::Porcelain, path, out) == Ok::<Seq<LineView>, ExecErrorView>(
            seq![LineView::Banner(path), LineView::Text(out)],
        ),
{
}

/// A repository that cannot start git fails its batch there.
pub proof fn lemma_not_launched_fails(op: Operation, path: Seq<char>)
    ensures
        outcome_report(op, path, Outcome::NotLaunched) == Err::<Seq<LineView>, ExecErrorView>(
            ExecErrorView::NotLaunched(path),
        ),
{
}

/// The operations that can be run on one repository or on a collection of
/// them; each gives the batch that runs it.
pub trait RepoOperations {
    /// Runs a git command given as one string of words.
    fn custom_cmd(&self, cmd: String) -> (r: BatchRun)
        ensures
            r.wf(),
            r.operation() == Operation::CustomCmd(cmd),
            r.position() == 0,
            !r.failed(),
    ;

    /// Shows `git status --porcelain` where it is not empty.
    fn porcelain(&self) -> (r: BatchRun)
        ensures
            r.wf(),
            r.operation() == Operation::Porcelain,
            r.position() == 0,
            !r.failed(),
    ;

    /// Names the repositories whose reflog mentions a cherry-pick.
    fn find_cherry_picks(&self) -> (r: BatchRun)
        ensures
            r.wf(),
            r.operation() == Operation::FindCherryPicks,
            r.position() == 0,
            !r.failed(),
    ;

    /// Prints the reflog lines that mention a cherry-pick.
    fn print_cherry_picks(&self) -> (r: BatchRun)
        ensures
            r.wf(),
            r.operation() == Operation::PrintCherryPicks,
            r.position() == 0,
            !r.failed(),
    ;

    /// Prints the lines of the last `number` commits that mention `author`.
    fn print_commits_with_author(&self, number: u32, author: &str) -> (r: BatchRun)
        ensures
            r.wf(),
            r.operation() matches Operation::CommitsWithAuthor(n, a) && n == number && a@
                == author@,
            r.position() == 0,
            !r.failed(),
    ;
}

} // verus!
