use devspace::components::CreateWorktreeComponent;
use devspace::filter::FilterComponent;
use devspace::keys::{EventState, KeyCode, KeyEvent, KeyModifiers};

fn typed(s: &str) -> FilterComponent {
    let mut f = FilterComponent::default();
    for c in s.chars() {
        f.enter_char(c);
    }
    f
}

#[test]
fn typing_appends_and_moves_the_caret() {
    let f = typed("abc");
    assert_eq!(f.value(), "abc");
    assert_eq!(f.character_index(), 3);
}

#[test]
fn typing_in_the_middle_inserts_at_the_caret() {
    let mut f = typed("ac");
    f.move_cursor_left();
    f.enter_char('b');
    assert_eq!(f.value(), "abc");
    assert_eq!(f.character_index(), 2);
}

#[test]
fn multibyte_characters_are_edited_whole() {
    let mut f = typed("héllo");
    f.move_cursor_left();
    f.move_cursor_left();
    f.move_cursor_left();
    assert_eq!(f.character_index(), 2);
    assert_eq!(f.byte_index(), 3);
    f.delete_char();
    assert_eq!(f.value(), "hllo");
    assert_eq!(f.character_index(), 1);
    f.enter_char('→');
    assert_eq!(f.value(), "h→llo");
    assert_eq!(f.byte_index(), 4);
}

#[test]
fn byte_index_counts_utf8_widths() {
    let f = typed("aé€😀");
    assert_eq!(f.byte_index(), 1 + 2 + 3 + 4);
}

#[test]
fn delete_at_start_does_nothing() {
    let mut f = typed("ab");
    f.move_cursor_left();
    f.move_cursor_left();
    f.move_cursor_left();
    assert_eq!(f.character_index(), 0);
    f.delete_char();
    assert_eq!(f.value(), "ab");
    assert_eq!(f.character_index(), 0);
}

#[test]
fn caret_stays_within_the_text() {
    let mut f = typed("ab");
    f.move_filter_cursor_right();
    assert_eq!(f.character_index(), 2);
    assert_eq!(f.clamp_cursor(10), 2);
    assert_eq!(f.clamp_cursor(1), 1);
    let mut e = FilterComponent::default();
    e.move_cursor_left();
    e.move_filter_cursor_right();
    assert_eq!(e.character_index(), 0);
}

#[test]
fn insert_then_delete_restores_text_and_caret() {
    let mut f = typed("wörld");
    f.move_cursor_left();
    f.move_cursor_left();
    let before = (f.value().clone(), f.character_index());
    f.enter_char('ß');
    assert_eq!(f.value(), "wörßld");
    f.delete_char();
    assert_eq!((f.value().clone(), f.character_index()), before);
}

#[test]
fn filter_keys() {
    let mut f = FilterComponent::default();
    let k = |code| KeyEvent::new(code, KeyModifiers::NoModifier);
    assert_eq!(f.handle_key(k(KeyCode::Char('x'))), EventState::Consumed);
    assert_eq!(f.handle_key(k(KeyCode::Char('y'))), EventState::Consumed);
    assert_eq!(f.handle_key(k(KeyCode::Backspace)), EventState::Consumed);
    assert_eq!(f.handle_key(k(KeyCode::Tab)), EventState::NotConsumed);
    assert_eq!(
        f.handle_key(KeyEvent::new(KeyCode::Char('n'), KeyModifiers::Control)),
        EventState::NotConsumed
    );
    assert_eq!(
        f.handle_key(KeyEvent::new(KeyCode::Char('Y'), KeyModifiers::Other)),
        EventState::Consumed
    );
    assert_eq!(f.value(), "xY");
}

#[test]
fn new_worktree_dialog_edits_its_name() {
    let mut d = CreateWorktreeComponent::new();
    for c in "feature-x".chars() {
        d.enter_char(c);
    }
    assert_eq!(d.new_worktree_name(), "feature-x");
    d.delete_char();
    d.move_cursor_left();
    d.move_filter_cursor_right();
    assert_eq!(d.new_worktree_name(), "feature-");
    assert_eq!(d.character_index(), 8);
    assert_eq!(d.byte_index(), 8);
    assert_eq!(d.clamp_cursor(99), 8);
    let k = |code| KeyEvent::new(code, KeyModifiers::NoModifier);
    assert_eq!(d.handle_key(k(KeyCode::Char('y'))), EventState::Consumed);
    assert_eq!(d.handle_key(k(KeyCode::Enter)), EventState::NotConsumed);
    assert_eq!(d.handle_key(k(KeyCode::Tab)), EventState::Consumed);
    assert_eq!(d.handle_key(k(KeyCode::Char('z'))), EventState::NotConsumed);
    assert_eq!(d.new_worktree_name(), "feature-y");
}
