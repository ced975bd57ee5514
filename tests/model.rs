use devspace::app::{App, Args, Focus};
use devspace::components::Command;
use devspace::git::{name_from_git_path, worktrees_of_repositories, Repository, Worktree};
use devspace::keys::{EventState, KeyCode, KeyEvent, KeyModifiers};
use devspace::strings::{contains_text, join_path, lex_less};

#[test]
fn repository_name_strips_git_dir() {
    assert_eq!(name_from_git_path("/home/u/src/proj/.git/"), "proj");
    assert_eq!(name_from_git_path("/home/u/src/proj"), "proj");
    assert_eq!(name_from_git_path("proj/.git/"), "proj");
    assert_eq!(name_from_git_path("/srv/bare.git/"), "");
    let r = Repository::from_path("/x/proj/.git/".to_string());
    assert_eq!(r.name(), "proj");
    assert_eq!(r.path(), "/x/proj/.git/");
}

#[test]
fn new_worktree_goes_under_repository_name() {
    let r = Repository::from_path("/src/proj/.git/".to_string());
    assert_eq!(r.worktrees_dir("/worktrees"), "/worktrees/proj");
    assert_eq!(r.new_worktree_path("feature-x", "/worktrees"), "/worktrees/proj/feature-x");
    assert_eq!(r.new_worktree_path("feature-x", "/worktrees/"), "/worktrees/proj/feature-x");
}

#[test]
fn join_follows_path_rules() {
    assert_eq!(join_path("/a", "b"), "/a/b");
    assert_eq!(join_path("/a/", "b"), "/a/b");
    assert_eq!(join_path("", "b"), "b");
    assert_eq!(join_path("/a", "/b"), "/b");
}

#[test]
fn substring_and_order() {
    assert!(contains_text("alpha/x-branch", "x"));
    assert!(contains_text("abc", ""));
    assert!(!contains_text("beta/y-branch", "x"));
    assert!(!contains_text("ab", "abc"));
    assert!(lex_less("a", "b"));
    assert!(lex_less("ab", "abc"));
    assert!(!lex_less("abc", "abc"));
    assert!(lex_less("Z", "a"));
    assert!(lex_less("z", "é"));
}

#[test]
fn worktree_lists_are_joined_in_order() {
    let w = |p: &str| Worktree::new(p.to_string(), p.to_string(), true);
    let joined = worktrees_of_repositories(vec![vec![w("a"), w("b")], vec![], vec![w("c")]]);
    let paths: Vec<&str> = joined.iter().map(|x| x.path()).collect();
    assert_eq!(paths, vec!["a", "b", "c"]);
    assert!(joined[0].has_remote_branch);
}

fn key(code: KeyCode) -> KeyEvent {
    KeyEvent::new(code, KeyModifiers::NoModifier)
}

fn ctrl(c: char) -> KeyEvent {
    KeyEvent::new(KeyCode::Char(c), KeyModifiers::Control)
}

fn app() -> App {
    App::new(
        Args { worktrees_dir: "/wt".to_string(), repos_dir: "/src".to_string() },
        vec![Repository::from_path("/src/proj/.git/".to_string())],
        vec![Worktree::new("/wt/proj/main".to_string(), "main".to_string(), true)],
    )
}

#[test]
fn creating_a_worktree_from_the_keyboard() {
    let mut a = app();
    assert_eq!(a.current_focus(), Focus::Worktrees);
    assert_eq!(a.handle_key(ctrl('d')).0, EventState::Consumed);
    assert_eq!(a.current_focus(), Focus::Repositories);
    assert_eq!(a.handle_key(key(KeyCode::Enter)).0, EventState::Consumed);
    assert_eq!(a.current_focus(), Focus::CreateWorktree);
    for c in "feature-x".chars() {
        a.handle_key(key(KeyCode::Char(c)));
    }
    assert_eq!(a.create_worktree_dialog().new_worktree_name(), "feature-x");
    let (state, command) = a.handle_key(key(KeyCode::Enter));
    assert_eq!(state, EventState::Consumed);
    assert_eq!(a.current_focus(), Focus::Worktrees);
    match command {
        Command::CreateWorktree(req) => {
            assert_eq!(req.repository_path, "/src/proj/.git/");
            assert_eq!(req.branch, "feature-x");
            assert_eq!(req.repository_worktrees_dir, "/wt/proj");
            assert_eq!(req.worktree_path, "/wt/proj/feature-x");
            a.add_worktree(Worktree::new(req.worktree_path, req.branch, false));
        }
        _ => panic!("expected a worktree to be requested"),
    }
    let shown: Vec<String> = a
        .worktrees_panel()
        .filtered_items()
        .iter()
        .map(|w| w.path().to_string())
        .collect();
    assert_eq!(shown, vec!["/wt/proj/feature-x", "/wt/proj/main"]);
    assert_eq!(
        a.worktrees_panel().selected_worktree_path(),
        Some("/wt/proj/feature-x".to_string())
    );
}

#[test]
fn added_worktree_shown_under_matching_filter() {
    let mut a = app();
    for c in "proj/f".chars() {
        a.handle_key(key(KeyCode::Char(c)));
    }
    a.add_worktree(Worktree::new("/wt/proj/feature-x".to_string(), "feature-x".to_string(), false));
    assert_eq!(
        a.worktrees_panel().selected_worktree_path(),
        Some("/wt/proj/feature-x".to_string())
    );
}

#[test]
fn empty_name_or_escape_requests_nothing() {
    let mut a = app();
    a.handle_key(ctrl('d'));
    a.handle_key(ctrl('d'));
    assert_eq!(a.current_focus(), Focus::CreateWorktree);
    let (_, command) = a.handle_key(key(KeyCode::Enter));
    assert!(matches!(command, Command::Nothing));
    assert_eq!(a.current_focus(), Focus::Worktrees);
    a.handle_key(ctrl('d'));
    a.handle_key(key(KeyCode::Esc));
    assert_eq!(a.current_focus(), Focus::Worktrees);
    assert_eq!(a.handle_key(key(KeyCode::Esc)).0, EventState::NotConsumed);
    assert_eq!(a.handle_key(ctrl('c')).0, EventState::Exit);
    assert_eq!(a.handle_key(key(KeyCode::Home)).0, EventState::NotConsumed);
    assert_eq!(a.repositories_panel().selected_index(), Some(0));
}
