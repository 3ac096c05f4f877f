use git2::Repository;
use rgit::exec::exec::read_repositories_from_file;
use rgit::exec::repo::Repo;
use rgit::exec::repo_operations::{
    cherry_picks_in, decimal_string, invocation, report_lines, ExecError, Invocation, Line,
    Operation, Outcome, RepoOperations,
};
use rgit::exec::repositories::{keep_probed, Repositories};
use rgit::text::{contains_bytes, lines_containing, lines_of};
use tempfile::TempDir;

fn owned(v: &[&str]) -> Vec<String> {
    v.iter().map(|s| s.to_string()).collect()
}

#[test]
fn repo_provide_path_without_git_repository() {
    let path = TempDir::new().unwrap();

    match Repo::new(path.path().to_str().unwrap()) {
        Some(_) => panic!("Oops, repository doesn't exist, repo should not be created"),
        None => {}
    }
}

#[test]
fn repo_provide_path_with_git_repository() {
    let path = TempDir::new().unwrap();

    let _ = Repository::init(path.path()).unwrap();

    match Repo::new(path.path().to_str().unwrap()) {
        Some(repo) => assert_eq!(repo.path(), path.path().to_str().unwrap()),
        None => panic!("Oops, repository exist, repo should be created"),
    }
}

#[test]
fn clean_status_prints_nothing() {
    let r = report_lines(&"/r".to_string(), &Operation::Porcelain, &vec![]);
    assert_eq!(r, Ok(vec![]));
}

#[test]
fn changed_status_prints_banner_and_status_verbatim() {
    let out = b" M src/lib.rs\n?? new.txt\n".to_vec();
    let r = report_lines(&"/r".to_string(), &Operation::Porcelain, &out);
    assert_eq!(r, Ok(vec![Line::Banner("/r".to_string()), Line::Text(out.clone())]));
}

#[test]
fn commits_with_author_filters_lines_in_log_order() {
    let log = b"* a1 - (HEAD) one (2 days ago) <alice>\n\
* b2 - two (3 days ago) <bob>\n\
* a3 - three (4 days ago) <alice>\n\
* c4 - four (5 days ago) <carol>\n\
* b5 - five (6 days ago) <bob>\n\
* c6 - six (7 days ago) <carol>\n\
* b7 - seven (8 days ago) <bob>\n\
* c8 - eight (9 days ago) <carol>\n\
* b9 - nine (10 days ago) <bob>\n\
* c0 - ten (11 days ago) <carol>\n"
        .to_vec();
    let op = Operation::CommitsWithAuthor(10, "alice".to_string());
    let r = report_lines(&"/r".to_string(), &op, &log);
    assert_eq!(
        r,
        Ok(vec![
            Line::Banner("/r".to_string()),
            Line::Text(b"* a1 - (HEAD) one (2 days ago) <alice>".to_vec()),
            Line::Text(b"* a3 - three (4 days ago) <alice>".to_vec()),
        ])
    );
}

#[test]
fn commits_with_author_without_match_prints_nothing() {
    let op = Operation::CommitsWithAuthor(10, "dave".to_string());
    let r = report_lines(&"/r".to_string(), &op, &b"* a1 - one <alice>\n".to_vec());
    assert_eq!(r, Ok(vec![]));
}

#[test]
fn commits_with_author_rejects_invalid_utf8() {
    let op = Operation::CommitsWithAuthor(10, "alice".to_string());
    let r = report_lines(&"/r".to_string(), &op, &b"* a1 \xff <alice>\n".to_vec());
    assert_eq!(r, Err(ExecError::InvalidOutput("/r".to_string())));
}

#[test]
fn cherry_picks_found_and_printed() {
    let reflog = b"abc HEAD@{0}: cherry-pick: fix it\r\ndef HEAD@{1}: commit: work\nfed HEAD@{2}: cherry-pick: more\n".to_vec();
    let path = "/r".to_string();

    let found = report_lines(&path, &Operation::FindCherryPicks, &reflog);
    assert_eq!(found, Ok(vec![Line::Banner(path.clone())]));

    let printed = report_lines(&path, &Operation::PrintCherryPicks, &reflog);
    assert_eq!(
        printed,
        Ok(vec![
            Line::Banner(path.clone()),
            Line::Text(b"abc HEAD@{0}: cherry-pick: fix it".to_vec()),
            Line::Text(b"fed HEAD@{2}: cherry-pick: more".to_vec()),
        ])
    );

    let quiet = b"def HEAD@{1}: commit: work\n".to_vec();
    assert_eq!(report_lines(&path, &Operation::FindCherryPicks, &quiet), Ok(vec![]));
    assert_eq!(report_lines(&path, &Operation::PrintCherryPicks, &quiet), Ok(vec![]));
}

#[test]
fn custom_command_prints_only_its_banner_first() {
    let path = "/r".to_string();
    let op = Operation::CustomCmd("  log   --oneline\t-3 ".to_string());
    let inv = invocation(&path, &op);
    assert_eq!(
        inv,
        Invocation { dir: path.clone(), args: owned(&["log", "--oneline", "-3"]), capture: false }
    );
    assert_eq!(report_lines(&path, &op, &vec![]), Ok(vec![]));
}

#[test]
fn invocations_of_fixed_queries() {
    let path = "/r".to_string();
    assert_eq!(invocation(&path, &Operation::Porcelain).args, owned(&["status", "--porcelain"]));
    assert!(invocation(&path, &Operation::Porcelain).capture);
    assert_eq!(invocation(&path, &Operation::FindCherryPicks).args, owned(&["reflog"]));
    assert_eq!(
        invocation(&path, &Operation::CommitsWithAuthor(12, "x".to_string())).args,
        owned(&["log", "--graph", "--pretty=%h -%d %s (%cr) <%an>", "--abbrev-commit", "-12"])
    );
}

fn three_repositories() -> Repositories {
    let repos = read_repositories_from_file(b"").unwrap();
    assert_eq!(repos.repos.len(), 0);
    Repositories::from_probed(owned(&["/one", "/two", "/three"]), &vec![true, true, true])
}

#[test]
fn batch_fails_fast_at_second_repository() {
    let repos = three_repositories();
    let mut batch = repos.custom_cmd("status".to_string());
    assert!(batch.has_title());
    assert_eq!(batch.op(), &Operation::CustomCmd("status".to_string()));

    let (pre, inv) = batch.next_invocation().unwrap();
    assert_eq!(pre, vec![Line::Banner("/one".to_string())]);
    assert_eq!(inv.dir, "/one");
    assert_eq!(batch.record(Outcome::Completed(vec![])), Ok(vec![]));

    let (pre, inv) = batch.next_invocation().unwrap();
    assert_eq!(pre, vec![Line::Banner("/two".to_string())]);
    assert_eq!(inv.dir, "/two");
    assert_eq!(batch.record(Outcome::NotLaunched), Err(ExecError::NotLaunched("/two".to_string())));

    assert!(batch.next_invocation().is_none());
}

#[test]
fn batch_visits_every_repository_in_order() {
    let repos = three_repositories();
    let mut batch = repos.porcelain();
    let mut printed = Vec::new();
    while let Some((pre, inv)) = batch.next_invocation() {
        printed.extend(pre);
        let out = if inv.dir == "/two" { b"M x\n".to_vec() } else { vec![] };
        printed.extend(batch.record(Outcome::Completed(out)).unwrap());
    }
    assert_eq!(printed, vec![Line::Banner("/two".to_string()), Line::Text(b"M x\n".to_vec())]);
}

#[test]
fn single_repository_batch_has_no_title() {
    let dir = TempDir::new().unwrap();
    let _ = Repository::init(dir.path()).unwrap();
    let repo = Repo::new(dir.path().to_str().unwrap()).unwrap();
    let mut batch = repo.print_commits_with_author(3, "alice");
    assert!(!batch.has_title());
    assert_eq!(batch.op(), &Operation::CommitsWithAuthor(3, "alice".to_string()));
    let (pre, inv) = batch.next_invocation().unwrap();
    assert!(pre.is_empty());
    assert!(inv.capture);
    assert_eq!(batch.record(Outcome::Completed(vec![])), Ok(vec![]));
    assert!(batch.next_invocation().is_none());
}

#[test]
fn probes_filter_paths_and_keep_duplicates() {
    let kept = keep_probed(owned(&["/a", "/b", "/a", "/c"]), &vec![true, false, true, false]);
    assert_eq!(kept, owned(&["/a", "/a"]));
    let repos = Repositories::from_probed(owned(&["/a", "/b"]), &vec![false, true]);
    assert_eq!(repos.repos.len(), 1);
    assert_eq!(repos.repos[0].path(), "/b");
    assert_eq!(Repositories::new().repos.len(), 0);
}

#[test]
fn text_helpers() {
    assert_eq!(lines_of(b"a\r\n\nb"), vec![b"a".to_vec(), vec![], b"b".to_vec()]);
    assert_eq!(lines_of(b""), Vec::<Vec<u8>>::new());
    assert!(contains_bytes(b"a cherry-pick", b"cherry-pick"));
    assert!(!contains_bytes(b"cherry", b"cherry-pick"));
    assert!(contains_bytes(b"", b""));
    let lines = vec![b"xa".to_vec(), b"b".to_vec(), b"a".to_vec()];
    assert_eq!(lines_containing(&lines, b"a"), vec![b"xa".to_vec(), b"a".to_vec()]);
}

#[test]
fn cherry_picks_in_returns_the_reflog() {
    let reflog = b"abc HEAD@{0}: cherry-pick: fix\n".to_vec();
    assert_eq!(cherry_picks_in(&reflog), Some(reflog.clone()));
    assert_eq!(cherry_picks_in(&b"abc HEAD@{0}: commit: x\n".to_vec()), None);
}

#[test]
fn batch_titles_and_decimals() {
    let repos = three_repositories();
    assert_eq!(repos.custom_cmd("fetch --all".to_string()).title(), "git fetch --all");
    assert_eq!(repos.porcelain().title(), "git status --porcelain");
    assert_eq!(
        repos.find_cherry_picks().title(),
        "repositories with cherry-picks in git reflog"
    );
    assert_eq!(
        repos.print_commits_with_author(10, "alice").title(),
        "repositories with author alice in last 10 commits"
    );
    assert_eq!(decimal_string(0), "0");
    assert_eq!(decimal_string(4294967295), "4294967295");
}
