use git2::Repository;
use rgit::exec::exec::{
    read_repositories_from_file, read_repositories_from_stdin, run, ExecPlan, LoadError,
    PathsLocation,
};
use rgit::exec::repo_operations::Operation;
use rgit::options::opts::{ExecOpts, ScanOpts};
use rgit::scan::scan::{
    destination, get_repo_paths, paths_file_contents, select_candidates, walk_enters,
    DiscoveryError, WalkEntry,
};
use rgit::text::lines_of;
use tempfile::{tempfile_in, TempDir};

fn path_of(dir: &TempDir) -> String {
    dir.path().to_str().unwrap().to_string()
}

#[test]
fn get_repo_paths_one_dir() {
    let root = TempDir::new().unwrap();
    let repo_dir = TempDir::new_in(&root).unwrap();
    let _ = Repository::init(repo_dir.path()).unwrap();

    let res = get_repo_paths(&path_of(&root), 0, 3, None).unwrap();

    println!("{:?}", res);

    assert_eq!(res.len(), 1);
    assert_eq!(res[0], path_of(&repo_dir));
}

#[test]
fn get_repo_paths_multiple_dirs() {
    let root = TempDir::new().unwrap();

    let dir_lvl_1_1 = TempDir::new_in(&root).unwrap();
    let _ = Repository::init(dir_lvl_1_1.path()).unwrap();

    let dir_lvl_1_2 = TempDir::new_in(&root).unwrap();
    let dir_lvl_1_3 = TempDir::new_in(&root).unwrap();

    let _ = TempDir::new_in(&dir_lvl_1_2).unwrap();
    let dir_lvl_2_2 = TempDir::new_in(&dir_lvl_1_2).unwrap();
    let _ = Repository::init(dir_lvl_2_2.path()).unwrap();
    let dir_lvl_2_3 = TempDir::new_in(&dir_lvl_1_2).unwrap();
    let _ = Repository::init(dir_lvl_2_3.path()).unwrap();

    let dir_lvl_2_4 = TempDir::new_in(&dir_lvl_1_3).unwrap();
    let dir_lvl_3_1 = TempDir::new_in(&dir_lvl_2_4).unwrap();
    let dir_lvl_4_1 = TempDir::new_in(&dir_lvl_3_1).unwrap();
    let _ = Repository::init(dir_lvl_4_1.path()).unwrap();

    let res = get_repo_paths(&path_of(&root), 0, 3, None).unwrap();

    println!("{:?}", res);

    assert_eq!(res.len(), 3);
    assert!(res.contains(&path_of(&dir_lvl_1_1)));
    assert!(res.contains(&path_of(&dir_lvl_2_2)));
    assert!(res.contains(&path_of(&dir_lvl_2_3)));
    assert!(!res.contains(&path_of(&dir_lvl_4_1)));
}

#[test]
fn get_repo_paths_files_and_dirs_inside_repos() {
    let root = TempDir::new().unwrap();

    let dir_1 = TempDir::new_in(&root).unwrap();
    let _ = Repository::init(dir_1.path()).unwrap();

    let _ = TempDir::new_in(&dir_1).unwrap();
    let _ = TempDir::new_in(&dir_1).unwrap();
    let _ = tempfile_in(&dir_1).unwrap();
    let _ = tempfile_in(&dir_1).unwrap();
    let dir_1_1 = TempDir::new_in(&dir_1).unwrap();
    let _ = tempfile_in(&dir_1_1).unwrap();
    let _ = tempfile_in(&dir_1_1).unwrap();

    let dir_2 = TempDir::new_in(&root).unwrap();
    let _ = Repository::init(dir_2.path()).unwrap();

    let _ = tempfile_in(&dir_2).unwrap();
    let _ = tempfile_in(&dir_2).unwrap();

    let res = get_repo_paths(&path_of(&root), 0, 3, None).unwrap();

    println!("{:?}", res);

    assert_eq!(res.len(), 2);
}

#[test]
fn get_repo_paths_depth_range_excludes_shallow_repositories() {
    let root = TempDir::new().unwrap();
    let top = TempDir::new_in(&root).unwrap();
    let _ = Repository::init(top.path()).unwrap();
    let middle = TempDir::new_in(&root).unwrap();
    let deep = TempDir::new_in(&middle).unwrap();
    let _ = Repository::init(deep.path()).unwrap();

    let res = get_repo_paths(&path_of(&root), 2, 3, None).unwrap();

    assert_eq!(res, vec![path_of(&deep)]);
}

#[test]
fn get_repo_paths_root_itself_is_a_repository() {
    let root = TempDir::new().unwrap();
    let _ = Repository::init(root.path()).unwrap();

    let res = get_repo_paths(&path_of(&root), 0, 3, None).unwrap();

    assert_eq!(res, vec![path_of(&root)]);
}

#[test]
fn get_repo_paths_not_relative_is_an_error() {
    let root = TempDir::new().unwrap();
    let other = TempDir::new().unwrap();

    let res = get_repo_paths(&path_of(&root), 0, 1, Some(path_of(&other).as_str()));

    assert_eq!(res, Err(DiscoveryError::NotRelative(path_of(&root))));
}

#[test]
fn get_repo_paths_missing_root_is_a_walk_error() {
    let root = TempDir::new().unwrap();
    let missing = format!("{}/does-not-exist", path_of(&root));

    let res = get_repo_paths(&missing, 0, 3, None);

    assert!(matches!(res, Err(DiscoveryError::Walk(_))));
}

#[test]
fn get_repo_paths_plain_directories_are_not_repositories() {
    let root = TempDir::new().unwrap();
    let _ = TempDir::new_in(&root).unwrap();
    let _ = TempDir::new_in(&root).unwrap();

    let res = get_repo_paths(&path_of(&root), 0, 3, None).unwrap();

    assert!(res.is_empty());
}

#[test]
fn select_candidates_skips_metadata_dirs_and_rewrites() {
    let entry = |p: &str, depth: usize| WalkEntry { path: Some(p.to_string()), depth };
    let entries = vec![
        entry("/w", 0),
        entry("/w/a", 1),
        entry("/w/a/.git", 2),
        entry("/w/b.git", 1),
        WalkEntry { path: None, depth: 1 },
        entry("/w/.git", 1),
    ];

    let same = select_candidates(&entries, 0, None).unwrap();
    assert_eq!(same, vec!["/w".to_string(), "/w/a".to_string(), "/w/b.git".to_string()]);

    let deeper = select_candidates(&entries, 1, None).unwrap();
    assert_eq!(deeper, vec!["/w/a".to_string(), "/w/b.git".to_string()]);

    let relative = select_candidates(&entries, 0, Some("/w")).unwrap();
    assert_eq!(relative, vec!["".to_string(), "a".to_string(), "b.git".to_string()]);

    let outside = select_candidates(&entries, 0, Some("/v"));
    assert_eq!(outside, Err(DiscoveryError::NotRelative("/w".to_string())));
}

#[test]
fn walk_enters_skips_git_below_root_only() {
    assert!(walk_enters(0, Some(".git")));
    assert!(!walk_enters(1, Some(".git")));
    assert!(walk_enters(2, Some(".gitignore")));
    assert!(walk_enters(3, None));
}

#[test]
fn get_repo_paths_does_not_enter_git_directories() {
    let root = TempDir::new().unwrap();
    let repo_dir = TempDir::new_in(&root).unwrap();
    let _ = Repository::init(repo_dir.path()).unwrap();
    let nested = repo_dir.path().join(".git").join("modules").join("sub");
    let _ = Repository::init(&nested).unwrap();

    let res = get_repo_paths(&path_of(&root), 0, 6, None).unwrap();

    assert_eq!(res, vec![path_of(&repo_dir)]);
}

#[test]
fn get_repo_paths_empty_when_max_below_min() {
    let root = TempDir::new().unwrap();
    let repo_dir = TempDir::new_in(&root).unwrap();
    let _ = Repository::init(repo_dir.path()).unwrap();

    assert_eq!(get_repo_paths(&path_of(&root), 2, 1, None), Ok(vec![]));
}

#[test]
fn read_repositories_from_stdin_trims_lines() {
    let repo_dir = TempDir::new().unwrap();
    let _ = Repository::init(repo_dir.path()).unwrap();
    let text = format!("  {}\t\n   \n", path_of(&repo_dir));

    let from_stdin = read_repositories_from_stdin(text.as_bytes()).unwrap();
    assert_eq!(from_stdin.repos.len(), 1);
    assert_eq!(from_stdin.repos[0].path(), &path_of(&repo_dir));

    let from_file = read_repositories_from_file(text.as_bytes()).unwrap();
    assert_eq!(from_file.repos.len(), 0);
}

#[test]
fn print_paths_to_file_ok() {
    let vec = vec!["/some".to_string(), "/random".to_string(), "/vector".to_string()];

    let contents = paths_file_contents(&vec);

    let res: Vec<String> =
        lines_of(&contents).into_iter().map(|l| String::from_utf8(l).unwrap()).collect();

    assert_eq!(res[0], "/some");
    assert_eq!(res[1], "/random");
    assert_eq!(res[2], "/vector");
    assert_eq!(contents, b"/some\n/random\n/vector\n".to_vec());
}

#[test]
fn paths_file_contents_empty_and_unicode() {
    assert_eq!(paths_file_contents(&vec![]), Vec::<u8>::new());
    assert_eq!(paths_file_contents(&vec!["/ä".to_string()]), "/ä\n".as_bytes().to_vec());
}

#[test]
fn read_repositories_from_file_test() {
    let repo_1_dir = TempDir::new().unwrap();
    let repo_2_dir = TempDir::new().unwrap();
    let no_repo_dir = TempDir::new().unwrap();

    let _ = Repository::init(repo_1_dir.path()).unwrap();
    let _ = Repository::init(repo_2_dir.path()).unwrap();

    let mut text = Vec::new();
    text.extend_from_slice(path_of(&repo_1_dir).as_bytes());
    text.extend_from_slice(b"\n");
    text.extend_from_slice(path_of(&repo_2_dir).as_bytes());
    text.extend_from_slice(b"\n");
    text.extend_from_slice(path_of(&no_repo_dir).as_bytes());
    text.extend_from_slice(b"\n");

    let repositories = read_repositories_from_file(&text).unwrap();

    assert_eq!(repositories.repos.len(), 2);
}

#[test]
fn persist_then_load_keeps_repositories_in_order() {
    let repo_1_dir = TempDir::new().unwrap();
    let no_repo_dir = TempDir::new().unwrap();
    let repo_2_dir = TempDir::new().unwrap();
    let _ = Repository::init(repo_1_dir.path()).unwrap();
    let _ = Repository::init(repo_2_dir.path()).unwrap();

    let paths = vec![path_of(&repo_2_dir), path_of(&no_repo_dir), path_of(&repo_1_dir), path_of(&repo_2_dir)];
    let repositories = read_repositories_from_file(&paths_file_contents(&paths)).unwrap();

    let loaded: Vec<String> = repositories.repos.iter().map(|r| r.path().clone()).collect();
    assert_eq!(loaded, vec![path_of(&repo_2_dir), path_of(&repo_1_dir), path_of(&repo_2_dir)]);
}

#[test]
fn read_repositories_empty_input_and_blank_lines() {
    assert_eq!(read_repositories_from_file(b"").unwrap().repos.len(), 0);
    assert_eq!(read_repositories_from_file(b"\n\n").unwrap().repos.len(), 0);

    let repo_dir = TempDir::new().unwrap();
    let _ = Repository::init(repo_dir.path()).unwrap();
    let text = format!("\n{}\r\n", path_of(&repo_dir));
    let repositories = read_repositories_from_file(text.as_bytes()).unwrap();
    assert_eq!(repositories.repos.len(), 1);
    assert_eq!(repositories.repos[0].path(), &path_of(&repo_dir));
}

#[test]
fn read_repositories_invalid_utf8_line() {
    let res = read_repositories_from_file(b"/a\n/b\xff\n/c\n");
    assert!(matches!(res, Err(LoadError::InvalidLine(1))));
}

#[test]
fn exec_plan_follows_options() {
    let opts = ExecOpts {
        source_file: Some(None),
        porcelain: true,
        find_cherry_picks: false,
        print_cherry_picks: true,
        with_author: Some(None),
        number: 7,
        cmd: Some("fetch --all".to_string()),
    };

    let ExecPlan { source, operations } = run(&opts, "alice");

    assert_eq!(source, PathsLocation::DefaultFile);
    assert_eq!(
        operations,
        vec![
            Operation::Porcelain,
            Operation::PrintCherryPicks,
            Operation::CommitsWithAuthor(7, "alice".to_string()),
            Operation::CustomCmd("fetch --all".to_string()),
        ]
    );
}

#[test]
fn exec_plan_named_author_and_source() {
    let opts = ExecOpts {
        source_file: Some(Some("/tmp/list".to_string())),
        porcelain: false,
        find_cherry_picks: true,
        print_cherry_picks: false,
        with_author: Some(Some("bob".to_string())),
        number: 10,
        cmd: None,
    };

    let plan = run(&opts, "alice");

    assert_eq!(plan.source, PathsLocation::File("/tmp/list".to_string()));
    assert_eq!(
        plan.operations,
        vec![Operation::FindCherryPicks, Operation::CommitsWithAuthor(10, "bob".to_string())]
    );

    let none = ExecOpts { source_file: None, porcelain: false, find_cherry_picks: false, print_cherry_picks: false, with_author: None, number: 10, cmd: None };
    let plan = run(&none, "alice");
    assert_eq!(plan.source, PathsLocation::Standard);
    assert!(plan.operations.is_empty());
}

#[test]
fn scan_destination_follows_options() {
    let mut opts = ScanOpts { max_depth: 3, min_depth: 0, save_to_file: None, relative: false };
    assert_eq!(destination(&opts), PathsLocation::Standard);
    opts.save_to_file = Some(None);
    assert_eq!(destination(&opts), PathsLocation::DefaultFile);
    opts.save_to_file = Some(Some("out".to_string()));
    assert_eq!(destination(&opts), PathsLocation::File("out".to_string()));
}
