use devspace::discovery::{is_git_dir, list_git_dirs, DirTree};
use devspace::strings::join_path;

const ROOT: &str = "/tmp/scan";

/// Builds the snapshot that a scan of `root` reads when the directories in
/// `dirs` exist (each given relative to `root`, created with its parents), in the
/// way a directory listing would: entries sorted by name, and no reading below a
/// directory that holds `.git`.
fn snapshot(root: &str, dirs: &[&str]) -> DirTree {
    let mut all: Vec<Vec<String>> = Vec::new();
    for d in dirs {
        let parts: Vec<String> = d
            .split('/')
            .filter(|p| !p.is_empty())
            .map(|p| p.to_string())
            .collect();
        all.push(parts);
    }
    build(root.to_string(), &all, &[])
}

fn build(path: String, all: &Vec<Vec<String>>, prefix: &[String]) -> DirTree {
    let mut names: Vec<String> = Vec::new();
    for parts in all {
        if parts.len() > prefix.len() && parts[..prefix.len()] == *prefix {
            let name = parts[prefix.len()].clone();
            if !names.contains(&name) {
                names.push(name);
            }
        }
    }
    names.sort();
    let mut subdirs = Vec::new();
    if !is_git_dir(&names) {
        for name in &names {
            let mut p = prefix.to_vec();
            p.push(name.clone());
            subdirs.push(build(join_path(&path, name), all, &p));
        }
    }
    DirTree::new(path, names, subdirs)
}

const LAYOUT: [&str; 4] = [
    "first_git_dir/.git",
    "second_git_dir/.git",
    "third_git_dir/subdir/subdir/",
    "fourth_git_dir/subdir/subdir/.git",
];

fn check_listed(expected: &[&str]) {
    let found = list_git_dirs(&snapshot(ROOT, &LAYOUT));
    for path in expected {
        let expected_dir = join_path(ROOT, path.trim_end_matches('/'));
        assert!(
            found.iter().any(|dir| *dir == expected_dir),
            "Expected {} to be listed in the git subdirectories, but it was not included",
            expected_dir
        );
    }
}

fn check_not_git_dir() {
    let empty = snapshot(ROOT, &[]);
    assert!(
        !is_git_dir(&empty.entries),
        "Expected is_git_dir to be false, but it was true"
    );
}

fn check_git_dir() {
    let with_git = snapshot(ROOT, &[".git"]);
    assert!(
        is_git_dir(&with_git.entries),
        "Expected is_git_dir to be true, but it was false"
    );
}

#[test]
fn devspace_test_not_git_dir() {
    check_not_git_dir();
}

#[test]
fn devspace_test_git_dir() {
    check_git_dir();
}

#[test]
fn devspace_test_get_gitsubdirs() {
    check_listed(&["first_git_dir/", "second_git_dir", "fourth_git_dir/subdir/subdir"]);
}

#[test]
fn devspace_test_list() {
    check_listed(&["first_git_dir", "second_git_dir", "fourth_git_dir/subdir/subdir"]);
}

#[test]
fn git_test_not_git_dir() {
    check_not_git_dir();
}

#[test]
fn git_test_git_dir() {
    check_git_dir();
}

#[test]
fn git_test_get_gitsubdirs() {
    check_listed(&["first_git_dir/", "second_git_dir", "fourth_git_dir/subdir/subdir"]);
}

#[test]
fn git_test_list() {
    check_listed(&["first_git_dir", "second_git_dir", "fourth_git_dir/subdir/subdir"]);
}

#[test]
fn repository_test_not_git_dir() {
    check_not_git_dir();
}

#[test]
fn repository_test_git_dir() {
    check_git_dir();
}

#[test]
fn repository_test_list() {
    check_listed(&["first_git_dir", "second_git_dir", "fourth_git_dir/subdir/subdir"]);
}

#[test]
fn scan_lists_only_repository_roots() {
    let found = list_git_dirs(&snapshot(ROOT, &LAYOUT));
    assert_eq!(
        found,
        vec![
            "/tmp/scan/first_git_dir".to_string(),
            "/tmp/scan/fourth_git_dir/subdir/subdir".to_string(),
            "/tmp/scan/second_git_dir".to_string(),
        ]
    );
}

#[test]
fn nested_repository_is_found_but_not_its_parent() {
    let tree = snapshot("/r", &["a/.git", "b/.git", "c/sub/.git"]);
    let mut found = list_git_dirs(&tree);
    found.sort();
    assert_eq!(
        found,
        vec!["/r/a".to_string(), "/r/b".to_string(), "/r/c/sub".to_string()]
    );
}

#[test]
fn root_that_is_a_repository_is_the_only_result() {
    let tree = snapshot("/r/proj", &[".git", "vendor/lib/.git", "src"]);
    assert_eq!(list_git_dirs(&tree), vec!["/r/proj".to_string()]);
}

#[test]
fn empty_or_missing_root_gives_nothing() {
    let tree = snapshot("/nowhere", &[]);
    assert!(list_git_dirs(&tree).is_empty());
}

#[test]
fn git_file_marks_a_worktree_checkout_as_root() {
    let entries = vec!["README".to_string(), ".git".to_string()];
    assert!(is_git_dir(&entries));
    let entries = vec![".gitignore".to_string(), "git".to_string(), ".gi".to_string()];
    assert!(!is_git_dir(&entries));
}
