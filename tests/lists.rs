use devspace::components::{Command, RepositoriesComponent, WorktreesComponent};
use devspace::git::{Repository, Worktree};
use devspace::keys::{EventState, KeyCode, KeyEvent, KeyModifiers};
use devspace::list::ItemOrder;

fn wt(path: &str) -> Worktree {
    let name = path.rsplit('/').next().unwrap().to_string();
    Worktree::new(path.to_string(), name, false)
}

fn key(code: KeyCode) -> KeyEvent {
    KeyEvent::new(code, KeyModifiers::NoModifier)
}

fn shown(panel: &WorktreesComponent) -> Vec<String> {
    panel
        .filtered_items()
        .iter()
        .map(|w| w.path().to_string())
        .collect()
}

#[test]
fn worktrees_are_shown_sorted_by_path() {
    let panel = WorktreesComponent::new(vec![wt("/w/b"), wt("/w/c"), wt("/w/a")]);
    assert_eq!(shown(&panel), vec!["/w/a", "/w/b", "/w/c"]);
    assert_eq!(panel.selected_index(), Some(0));
    assert_eq!(panel.selected_worktree_path(), Some("/w/a".to_string()));
}

#[test]
fn equal_keys_keep_their_order() {
    let panel = WorktreesComponent::new(vec![
        Worktree::new("/w/x".to_string(), "one".to_string(), false),
        Worktree::new("/w/x".to_string(), "two".to_string(), true),
    ]);
    let names: Vec<String> = panel
        .filtered_items()
        .iter()
        .map(|w| w.name().to_string())
        .collect();
    assert_eq!(names, vec!["one", "two"]);
}

#[test]
fn filter_then_non_matching_char_empties_view() {
    let mut panel = WorktreesComponent::new(vec![wt("alpha/x-branch"), wt("beta/y-branch")]);
    assert_eq!(panel.handle_key(key(KeyCode::Char('x'))).0, EventState::Consumed);
    assert_eq!(shown(&panel), vec!["alpha/x-branch"]);
    assert_eq!(panel.selected_index(), Some(0));
    panel.handle_key(key(KeyCode::Char('q')));
    assert!(shown(&panel).is_empty());
    assert_eq!(panel.selected_index(), None);
    panel.handle_key(key(KeyCode::Backspace));
    assert_eq!(shown(&panel), vec!["alpha/x-branch"]);
    assert_eq!(panel.selected_index(), None);
}

#[test]
fn selection_follows_its_entry_or_is_cleared() {
    let mut panel = WorktreesComponent::new(vec![wt("/a/one"), wt("/b/two"), wt("/c/twin")]);
    panel.handle_key(key(KeyCode::Down));
    panel.handle_key(key(KeyCode::Down));
    assert_eq!(panel.selected_worktree_path(), Some("/c/twin".to_string()));
    panel.handle_key(key(KeyCode::Char('t')));
    assert_eq!(shown(&panel), vec!["/b/two", "/c/twin"]);
    assert_eq!(panel.selected_index(), Some(1));
    assert_eq!(panel.selected_worktree_path(), Some("/c/twin".to_string()));
    panel.handle_key(key(KeyCode::Char('w')));
    panel.handle_key(key(KeyCode::Char('o')));
    assert_eq!(shown(&panel), vec!["/b/two"]);
    assert_eq!(panel.selected_index(), None);
}

#[test]
fn next_wraps_around_the_view() {
    let mut panel = WorktreesComponent::new(vec![wt("/a"), wt("/b"), wt("/c")]);
    let start = panel.selected_index();
    for _ in 0..3 {
        panel.handle_key(key(KeyCode::Down));
    }
    assert_eq!(panel.selected_index(), start);
    panel.handle_key(key(KeyCode::Up));
    assert_eq!(panel.selected_index(), Some(2));
    panel.handle_key(key(KeyCode::Down));
    assert_eq!(panel.selected_index(), Some(0));
}

#[test]
fn list_focus_moves() {
    let mut panel = WorktreesComponent::new(vec![wt("/a"), wt("/b"), wt("/c")]);
    assert_eq!(panel.handle_key(key(KeyCode::Tab)).0, EventState::Consumed);
    panel.handle_key(key(KeyCode::Char('G')));
    assert_eq!(panel.selected_index(), Some(2));
    panel.handle_key(key(KeyCode::Char('j')));
    assert_eq!(panel.selected_index(), Some(0));
    panel.handle_key(key(KeyCode::Char('k')));
    assert_eq!(panel.selected_index(), Some(2));
    panel.handle_key(key(KeyCode::Home));
    assert_eq!(panel.selected_index(), Some(0));
    let (state, command) = panel.handle_key(key(KeyCode::Enter));
    assert_eq!(state, EventState::NotConsumed);
    assert!(matches!(command, Command::CopyToClipboard(ref p) if p == "/a"));
    assert_eq!(panel.handle_key(key(KeyCode::Char('x'))).0, EventState::NotConsumed);
    assert_eq!(panel.filter_value(), "");
}

#[test]
fn enter_in_filter_copies_selected_path() {
    let mut panel = WorktreesComponent::new(vec![wt("/a"), wt("/b")]);
    panel.handle_key(KeyEvent::new(KeyCode::Char('n'), KeyModifiers::Control));
    let (state, command) = panel.handle_key(key(KeyCode::Enter));
    assert_eq!(state, EventState::Consumed);
    assert!(matches!(command, Command::CopyToClipboard(ref p) if p == "/b"));
    let mut empty = WorktreesComponent::new(vec![]);
    assert_eq!(empty.selected_index(), None);
    let (_, command) = empty.handle_key(key(KeyCode::Enter));
    assert!(matches!(command, Command::Nothing));
    empty.handle_key(key(KeyCode::Down));
    assert_eq!(empty.selected_index(), None);
}

#[test]
fn added_worktree_is_selected_when_shown() {
    let mut panel = WorktreesComponent::new(vec![wt("/w/proj/main")]);
    panel.add(wt("/w/proj/feature-x"));
    assert_eq!(shown(&panel), vec!["/w/proj/feature-x", "/w/proj/main"]);
    assert_eq!(panel.selected_worktree_path(), Some("/w/proj/feature-x".to_string()));
    panel.handle_key(key(KeyCode::Char('m')));
    panel.add(wt("/w/other/topic"));
    assert_eq!(panel.selected_index(), None);
    assert_eq!(shown(&panel), vec!["/w/proj/main"]);
}

#[test]
fn deleting_removes_the_selected_worktree() {
    let mut panel = WorktreesComponent::new(vec![wt("/gone/a"), wt("/kept/b")]);
    let removed = panel.delete_selected_worktree();
    assert_eq!(removed.map(|w| w.path), Some("/gone/a".to_string()));
    assert_eq!(shown(&panel), vec!["/kept/b"]);
    assert_eq!(panel.selected_index(), None);
    assert!(panel.delete_selected_worktree().is_none());
    assert_eq!(shown(&panel), vec!["/kept/b"]);
}

fn repo(path: &str) -> Repository {
    Repository::from_path(path.to_string())
}

fn names(panel: &RepositoriesComponent) -> Vec<String> {
    panel.filtered_items().iter().map(|r| r.name()).collect()
}

#[test]
fn repositories_sorted_by_name_and_filter_selects_first() {
    let mut panel = RepositoriesComponent::new(vec![
        repo("/src/zeta/.git/"),
        repo("/src/alpha/.git/"),
        repo("/src/beta/.git/"),
    ]);
    assert_eq!(names(&panel), vec!["alpha", "beta", "zeta"]);
    panel.handle_key(KeyEvent::new(KeyCode::Char('p'), KeyModifiers::Control));
    assert_eq!(panel.selected_index(), Some(2));
    assert_eq!(panel.handle_key(key(KeyCode::Char('e'))), EventState::Consumed);
    assert_eq!(names(&panel), vec!["beta", "zeta"]);
    assert_eq!(panel.selected_index(), Some(0));
    assert_eq!(panel.selected_repository().map(|r| r.name()), Some("beta".to_string()));
    assert_eq!(panel.filter_value(), "e");
    assert_eq!(panel.handle_key(key(KeyCode::Enter)), EventState::NotConsumed);
    assert_eq!(panel.handle_key(key(KeyCode::Tab)), EventState::Consumed);
    assert_eq!(panel.handle_key(key(KeyCode::End)), EventState::Consumed);
    assert_eq!(panel.selected_repository().map(|r| r.name()), Some("zeta".to_string()));
    assert_eq!(panel.handle_key(key(KeyCode::Char('e'))), EventState::NotConsumed);
}

#[test]
fn item_order_values_exist() {
    let orders = [ItemOrder::Next, ItemOrder::Previous, ItemOrder::First, ItemOrder::Last];
    assert_eq!(orders.len(), 4);
}

#[test]
fn remove_by_path_takes_first_match_and_clears_selection() {
    let mut panel = WorktreesComponent::new(vec![
        Worktree::new("/w/a".to_string(), "first".to_string(), false),
        wt("/w/b"),
        Worktree::new("/w/a".to_string(), "second".to_string(), false),
    ]);
    let removed = panel.remove("/w/a");
    assert_eq!(removed.map(|w| w.name), Some("first".to_string()));
    assert_eq!(panel.selected_index(), None);
    assert_eq!(shown(&panel), vec!["/w/a", "/w/b"]);
    assert!(panel.remove("/w/missing").is_none());
    assert_eq!(shown(&panel), vec!["/w/a", "/w/b"]);
}
