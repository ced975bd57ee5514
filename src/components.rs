//! The panels of the interface as state machines: each takes a key press,
//! changes its state, and says whether it used the key and what outside work
//! the key asks for.

use vstd::prelude::*;

use crate::filter::{filter_key_outcome, key_text, FilterComponent};
use crate::git::{Repository, Worktree};
use crate::keys::{EventState, KeyCode, KeyEvent, KeyModifiers};
use crate::list::{first_with_key, follows_selection, moved_selection, Focus, ItemOrder, ListKey, SelectableList};
use crate::strings::contains_seq;

verus! {

/// Where the new-worktree dialog's keys go.
#[derive(Clone, Copy, Debug, PartialEq, Eq, Structural)]
pub enum DialogFocus {
    TextField,
    Buttons,
}

/// The dialog in which the branch name of a new worktree is typed.
pub struct CreateWorktreeComponent {
    name: FilterComponent,
    focus: DialogFocus,
}

impl CreateWorktreeComponent {
    /// The typed name.
    pub closed spec fn text(&self) -> Seq<char> {
        self.name.text()
    }

    /// The caret in the typed name.
    pub closed spec fn cursor(&self) -> int {
        self.name.cursor()
    }

    /// Where the keys go.
    pub closed spec fn focus(&self) -> DialogFocus {
        self.focus
    }

    /// An empty name, with the text field receiving the keys.
    pub fn new() -> (r: Self)
        ensures
            r.text() == Seq::<char>::empty(),
            r.cursor() == 0,
            r.focus() == DialogFocus::TextField,
    {
        CreateWorktreeComponent { name: FilterComponent::default(), focus: DialogFocus::TextField }
    }

    /// The typed name.
    pub fn new_worktree_name(&self) -> (r: &String)
        ensures
            r@ == self.text(),
    {
        self.name.value()
    }

    /// The caret position in characters.
    pub fn character_index(&self) -> (r: usize)
        ensures
            r == self.cursor(),
            r <= self.text().len(),
    {
        self.name.character_index()
    }

    /// Moves the caret one character right, staying within the name.
    pub fn move_filter_cursor_right(&mut self)
        ensures
            final(self).text() == old(self).text(),
            final(self).focus() == old(self).focus(),
            final(self).cursor() == crate::filter::clamped(
                old(self).cursor() + 1,
                old(self).text().len() as int,
            ),
            0 <= final(self).cursor() <= final(self).text().len(),
    {
        self.name.move_filter_cursor_right();
    }

    /// `new_cursor_pos` limited to the positions that the name has.
    pub fn clamp_cursor(&self, new_cursor_pos: usize) -> (r: usize)
        ensures
            r == crate::filter::clamped(new_cursor_pos as int, self.text().len() as int),
    {
        self.name.clamp_cursor(new_cursor_pos)
    }

    /// Types `new_char` at the caret.
    pub fn enter_char(&mut self, new_char: char)
        ensures
            final(self).text() == crate::filter::text_inserted(
                old(self).text(),
                old(self).cursor(),
                new_char,
            ),
            final(self).cursor() == old(self).cursor() + 1,
            final(self).focus() == old(self).focus(),
            0 <= final(self).cursor() <= final(self).text().len(),
    {
        self.name.enter_char(new_char);
    }

    /// The byte offset in the UTF-8 name at which the caret stands.
    pub fn byte_index(&self) -> (r: usize)
        ensures
            r == vstd::utf8::encode_utf8(self.text().take(self.cursor())).len(),
    {
        self.name.byte_index()
    }

    /// Removes the character before the caret; nothing happens at the start.
    pub fn delete_char(&mut self)
        ensures
            final(self).text() == crate::filter::text_deleted(old(self).text(), old(self).cursor()),
            final(self).cursor() == if old(self).cursor() == 0 {
                0
            } else {
                old(self).cursor() - 1
            },
            final(self).focus() == old(self).focus(),
            0 <= final(self).cursor() <= final(self).text().len(),
    {
        self.name.delete_char();
    }

    /// Moves the caret one character left, staying within the name.
    pub fn move_cursor_left(&mut self)
        ensures
            final(self).text() == old(self).text(),
            final(self).focus() == old(self).focus(),
            final(self).cursor() == if old(self).cursor() == 0 {
                0
            } else {
                old(self).cursor() - 1
            },
            0 <= final(self).cursor() <= final(self).text().len(),
    {
        self.name.move_cursor_left();
    }

    /// In the text field: Tab moves to the buttons, a character is typed and
    /// Backspace deletes, whatever the modifiers; other keys, and every key on the
    /// buttons, are left to the caller.
    pub fn handle_key(&mut self, key: KeyEvent) -> (r: EventState)
        ensures
            (r == EventState::Consumed) == dialog_consumes(old(self).focus(), key),
            old(self).focus() == DialogFocus::Buttons ==> r == EventState::NotConsumed
                && *final(self) == *old(self),
            old(self).focus() == DialogFocus::TextField ==> match key.code {
                KeyCode::Tab => r == EventState::Consumed && final(self).focus()
                    == DialogFocus::Buttons && final(self).text() == old(self).text(),
                KeyCode::Char(c) => r == EventState::Consumed && final(self).text()
                    == crate::filter::text_inserted(old(self).text(), old(self).cursor(), c)
                    && final(self).focus() == DialogFocus::TextField,
                KeyCode::Backspace => r == EventState::Consumed && final(self).text()
                    == crate::filter::text_deleted(old(self).text(), old(self).cursor())
                    && final(self).focus() == DialogFocus::TextField,
                _ => r == EventState::NotConsumed && *final(self) == *old(self),
            },
    {
        match self.focus {
            DialogFocus::TextField => match key.code {
                KeyCode::Tab => {
                    self.focus = DialogFocus::Buttons;
                },
                KeyCode::Char(c) => {
                    self.enter_char(c);
                },
                KeyCode::Backspace => {
                    self.delete_char();
                },
                _ => {
                    return EventState::NotConsumed;
                },
            },
            DialogFocus::Buttons => {
                return EventState::NotConsumed;
            },
        }
        EventState::Consumed
    }
}

/// Whether the new-worktree dialog uses `key`.
pub open spec fn dialog_consumes(focus: DialogFocus, key: KeyEvent) -> bool {
    focus == DialogFocus::TextField && (key.code == KeyCode::Tab || key.code
        == KeyCode::Backspace || key.code is Char)
}

/// Whether the repository picker uses `key`.
pub open spec fn repositories_consumes(focus: Focus, key: KeyEvent) -> bool {
    match focus {
        Focus::Filter => filter_key_outcome(key) == EventState::Consumed || (key.modifiers
            == KeyModifiers::Control && (key.code == KeyCode::Char('n') || key.code
            == KeyCode::Char('p'))) || (key.modifiers != KeyModifiers::Control && key.code
            == KeyCode::Tab),
        Focus::List => list_move(key.code) is Some || key.code == KeyCode::Tab,
    }
}

/// Whether the worktree panel uses `key`.
pub open spec fn worktrees_consumes(focus: Focus, key: KeyEvent) -> bool {
    match focus {
        Focus::Filter => filter_key_outcome(key) == EventState::Consumed || (key.modifiers
            == KeyModifiers::Control && (key.code == KeyCode::Char('n') || key.code
            == KeyCode::Char('p'))) || (key.modifiers == KeyModifiers::NoModifier && (key.code
            == KeyCode::Down || key.code == KeyCode::Up || key.code == KeyCode::Tab || key.code
            == KeyCode::Enter)),
        Focus::List => list_move(key.code) is Some || key.code == KeyCode::Tab,
    }
}

/// The move that a key makes in a focused list: j or Down, k or Up, g or Home, G or End.
pub open spec fn list_move(code: KeyCode) -> Option<ItemOrder> {
    match code {
        KeyCode::Char('j') | KeyCode::Down => Some(ItemOrder::Next),
        KeyCode::Char('k') | KeyCode::Up => Some(ItemOrder::Previous),
        KeyCode::Char('g') | KeyCode::Home => Some(ItemOrder::First),
        KeyCode::Char('G') | KeyCode::End => Some(ItemOrder::Last),
        _ => None,
    }
}

fn list_move_of(code: KeyCode) -> (r: Option<ItemOrder>)
    ensures
        r == list_move(code),
{
    match code {
        KeyCode::Char('j') | KeyCode::Down => Some(ItemOrder::Next),
        KeyCode::Char('k') | KeyCode::Up => Some(ItemOrder::Previous),
        KeyCode::Char('g') | KeyCode::Home => Some(ItemOrder::First),
        KeyCode::Char('G') | KeyCode::End => Some(ItemOrder::Last),
        _ => None,
    }
}

/// The repository picker shown when a worktree is to be created.
pub struct RepositoriesComponent {
    list: SelectableList<Repository>,
    focus: Focus,
}

impl RepositoriesComponent {
    /// The list of repositories.
    pub closed spec fn list(&self) -> SelectableList<Repository> {
        self.list
    }

    /// Where the keys go.
    pub closed spec fn focus(&self) -> Focus {
        self.focus
    }

    /// The list is consistent with its items and filter.
    pub open spec fn wf(&self) -> bool {
        self.list().wf()
    }

    /// A picker over `repositories`, with the filter receiving the keys and the
    /// first repository by name selected.
    pub fn new(repositories: Vec<Repository>) -> (r: Self)
        ensures
            r.wf(),
            r.list().items() == repositories@,
            r.list().filter_text() == Seq::<char>::empty(),
            r.focus() == Focus::Filter,
            r.list().selected() == (if repositories@.len() == 0 {
                None
            } else {
                Some(0usize)
            }),
    {
        RepositoriesComponent { list: SelectableList::new(repositories), focus: Focus::Filter }
    }

    /// The selected repository.
    pub fn selected_repository(&self) -> (r: Option<&Repository>)
        requires
            self.wf(),
        ensures
            r is None <==> self.list().selected() is None,
            r is Some ==> *r->0 == self.list().items()[self.list().filtered()[self.list().selected()->0 as int] as int],
    {
        self.list.selected_item()
    }

    /// The repositories shown, in name order.
    pub fn filtered_items(&self) -> (r: Vec<&Repository>)
        requires
            self.wf(),
        ensures
            r@.len() == self.list().filtered().len(),
            forall|a: int|
                0 <= a < r@.len() ==> *r@[a] == self.list().items()[#[trigger] self.list().filtered()[a] as int],
    {
        self.list.filtered_items()
    }

    /// The filter text.
    pub fn filter_value(&self) -> (r: &String)
        ensures
            r@ == self.list().filter_text(),
    {
        self.list.filter_value()
    }

    /// The selected position among the repositories shown.
    pub fn selected_index(&self) -> (r: Option<usize>)
        ensures
            r == self.list().selected(),
    {
        self.list.selected_index()
    }

    /// With the filter focused, a key that edits the filter text selects the first
    /// repository shown; Control+n and Control+p move the selection; Tab focuses the
    /// list. With the list focused, j/k/g/G and the arrow, Home and End keys move the
    /// selection and Tab focuses the filter. Other keys are left to the caller.
    pub fn handle_key(&mut self, key: KeyEvent) -> (r: EventState)
        requires
            old(self).wf(),
        ensures
            final(self).wf(),
            (r == EventState::Consumed) == repositories_consumes(old(self).focus(), key),
            r != EventState::Exit,
            r != EventState::Consumed ==> *final(self) == *old(self),
            final(self).list().items() == old(self).list().items(),
            old(self).focus() == Focus::Filter ==> {
                let typed = filter_key_outcome(key) == EventState::Consumed;
                &&& final(self).list().filter_text() == key_text(
                    key,
                    old(self).list().filter_text(),
                    old(self).list().filter_cursor(),
                )
                &&& typed ==> r == EventState::Consumed && final(self).list().selected()
                    == moved_selection(ItemOrder::First, None, final(self).list().filtered().len())
                &&& !typed ==> final(self).list().filtered() == old(self).list().filtered()
                &&& (!typed && key.modifiers == KeyModifiers::Control) ==> match key.code {
                    KeyCode::Char('n') => r == EventState::Consumed && final(self).list().selected()
                        == moved_selection(
                        ItemOrder::Next,
                        old(self).list().selected(),
                        old(self).list().filtered().len(),
                    ),
                    KeyCode::Char('p') => r == EventState::Consumed && final(self).list().selected()
                        == moved_selection(
                        ItemOrder::Previous,
                        old(self).list().selected(),
                        old(self).list().filtered().len(),
                    ),
                    _ => r == EventState::NotConsumed
                        && final(self).list().selected() == old(self).list().selected(),
                }
                &&& (!typed && key.modifiers != KeyModifiers::Control) ==> if key.code
                    == KeyCode::Tab {
                    r == EventState::Consumed && final(self).focus() == Focus::List
                } else {
                    r == EventState::NotConsumed && final(self).focus() == Focus::Filter
                        && final(self).list().selected() == old(self).list().selected()
                }
            },
            old(self).focus() == Focus::List ==> {
                &&& final(self).list().filter_text() == old(self).list().filter_text()
                &&& final(self).list().filtered() == old(self).list().filtered()
                &&& match list_move(key.code) {
                    Some(order) => r == EventState::Consumed && final(self).focus() == Focus::List
                        && final(self).list().selected() == moved_selection(
                        order,
                        old(self).list().selected(),
                        old(self).list().filtered().len(),
                    ),
                    None => if key.code == KeyCode::Tab {
                        r == EventState::Consumed && final(self).focus() == Focus::Filter
                    } else {
                        r == EventState::NotConsumed && final(self).focus() == Focus::List
                            && final(self).list().selected() == old(self).list().selected()
                    },
                }
            },
    {
        match self.focus {
            Focus::Filter => {
                let result = self.list.handle_filter_key(key);
                if result == EventState::Consumed {
                    self.list.select(ItemOrder::First);
                    return result;
                }
                if key.modifiers == KeyModifiers::Control {
                    match key.code {
                        KeyCode::Char('n') => {
                            self.list.select(ItemOrder::Next);
                        },
                        KeyCode::Char('p') => {
                            self.list.select(ItemOrder::Previous);
                        },
                        _ => {
                            return EventState::NotConsumed;
                        },
                    }
                } else {
                    match key.code {
                        KeyCode::Tab => {
                            self.focus = Focus::List;
                        },
                        _ => {
                            return EventState::NotConsumed;
                        },
                    }
                }
                EventState::Consumed
            },
            Focus::List => {
                match list_move_of(key.code) {
                    Some(order) => {
                        self.list.select(order);
                    },
                    None => match key.code {
                        KeyCode::Tab => {
                            self.focus = Focus::Filter;
                        },
                        _ => {
                            return EventState::NotConsumed;
                        },
                    },
                }
                EventState::Consumed
            },
        }
    }
}


/// What the worktree panel asks for that it cannot do itself.
pub enum Command {
    Nothing,
    /// Put this path on the clipboard.
    CopyToClipboard(String),
    /// Check out a new worktree.
    CreateWorktree(CreateWorktreeRequest),
}

/// A new worktree to check out: for branch `branch` of the repository at
/// `repository_path`, in `worktree_path`, after creating `repository_worktrees_dir`.
pub struct CreateWorktreeRequest {
    pub repository_path: String,
    pub branch: String,
    pub repository_worktrees_dir: String,
    pub worktree_path: String,
}

/// The path of the selected worktree of `list`, if one is selected.
pub open spec fn selected_path(list: SelectableList<Worktree>) -> Option<Seq<char>> {
    match list.selected() {
        Some(s) => Some(list.items()[list.filtered()[s as int] as int].path@),
        None => None,
    }
}

/// `c` copies the selected worktree's path, or does nothing when none is selected.
pub open spec fn copies_selected(c: Command, list: SelectableList<Worktree>) -> bool {
    match selected_path(list) {
        Some(p) => c matches Command::CopyToClipboard(q) && q@ == p,
        None => c is Nothing,
    }
}

/// The main panel: every worktree of every repository, filtered by path.
pub struct WorktreesComponent {
    list: SelectableList<Worktree>,
    focus: Focus,
}

impl WorktreesComponent {
    /// The list of worktrees.
    pub closed spec fn list(&self) -> SelectableList<Worktree> {
        self.list
    }

    /// Where the keys go.
    pub closed spec fn focus(&self) -> Focus {
        self.focus
    }

    /// The list is consistent with its items and filter.
    pub open spec fn wf(&self) -> bool {
        self.list().wf()
    }

    /// A panel over `worktrees`, with the filter receiving the keys and the first
    /// worktree by path selected, if there is one.
    pub fn new(worktrees: Vec<Worktree>) -> (r: WorktreesComponent)
        ensures
            r.wf(),
            r.list().items() == worktrees@,
            r.list().filter_text() == Seq::<char>::empty(),
            r.focus() == Focus::Filter,
            r.list().selected() == (if worktrees@.len() == 0 {
                None
            } else {
                Some(0usize)
            }),
    {
        WorktreesComponent { list: SelectableList::new(worktrees), focus: Focus::Filter }
    }

    /// The worktrees shown, in path order.
    pub fn filtered_items(&self) -> (r: Vec<&Worktree>)
        requires
            self.wf(),
        ensures
            r@.len() == self.list().filtered().len(),
            forall|a: int|
                0 <= a < r@.len() ==> *r@[a] == self.list().items()[#[trigger] self.list().filtered()[a] as int],
    {
        self.list.filtered_items()
    }

    /// The filter text.
    pub fn filter_value(&self) -> (r: &String)
        ensures
            r@ == self.list().filter_text(),
    {
        self.list.filter_value()
    }

    /// The selected position among the worktrees shown.
    pub fn selected_index(&self) -> (r: Option<usize>)
        ensures
            r == self.list().selected(),
    {
        self.list.selected_index()
    }

    /// The path of the selected worktree.
    pub fn selected_worktree_path(&self) -> (r: Option<String>)
        requires
            self.wf(),
        ensures
            r is None <==> selected_path(self.list()) is None,
            r is Some ==> selected_path(self.list()) == Some(r->0@),
    {
        match self.list.selected_item() {
            Some(w) => Some(w.path.clone()),
            None => None,
        }
    }

    fn copy_path_of_selected_worktree(&self) -> (r: Command)
        requires
            self.wf(),
        ensures
            copies_selected(r, self.list()),
    {
        match self.selected_worktree_path() {
            Some(p) => Command::CopyToClipboard(p),
            None => Command::Nothing,
        }
    }

    /// Types into the filter field. Otherwise, with the filter focused: Control+n or
    /// Down and Control+p or Up move the selection, Tab focuses the list, Enter
    /// copies the selected path. With the list focused: j/k/g/G and the arrow, Home
    /// and End keys move the selection, Tab focuses the filter, Enter copies the
    /// selected path and leaves the key to the caller. Other keys are left to the caller.
    pub fn handle_key(&mut self, key: KeyEvent) -> (r: (EventState, Command))
        requires
            old(self).wf(),
        ensures
            final(self).wf(),
            (r.0 == EventState::Consumed) == worktrees_consumes(old(self).focus(), key),
            r.0 != EventState::Exit,
            r.0 != EventState::Consumed ==> *final(self) == *old(self),
            r.1 is CreateWorktree ==> false,
            final(self).list().items() == old(self).list().items(),
            old(self).focus() == Focus::Filter ==> {
                let typed = filter_key_outcome(key) == EventState::Consumed;
                &&& final(self).list().filter_text() == key_text(
                    key,
                    old(self).list().filter_text(),
                    old(self).list().filter_cursor(),
                )
                &&& typed ==> follows_selection(
                    old(self).list().filtered(),
                    old(self).list().selected(),
                    final(self).list().filtered(),
                    final(self).list().selected(),
                )
                &&& typed ==> r.0 == EventState::Consumed && r.1 is Nothing
                &&& !typed ==> final(self).list().filtered() == old(self).list().filtered()
                &&& !typed ==> match (key.code, key.modifiers) {
                    (KeyCode::Char('n'), KeyModifiers::Control) | (
                        KeyCode::Down,
                        KeyModifiers::NoModifier,
                    ) => r.0 == EventState::Consumed && r.1 is Nothing && final(self).list().selected()
                        == moved_selection(
                        ItemOrder::Next,
                        old(self).list().selected(),
                        old(self).list().filtered().len(),
                    ),
                    (KeyCode::Char('p'), KeyModifiers::Control) | (
                        KeyCode::Up,
                        KeyModifiers::NoModifier,
                    ) => r.0 == EventState::Consumed && r.1 is Nothing && final(self).list().selected()
                        == moved_selection(
                        ItemOrder::Previous,
                        old(self).list().selected(),
                        old(self).list().filtered().len(),
                    ),
                    (KeyCode::Tab, KeyModifiers::NoModifier) => r.0 == EventState::Consumed
                        && r.1 is Nothing && final(self).focus() == Focus::List,
                    (KeyCode::Enter, KeyModifiers::NoModifier) => r.0 == EventState::Consumed
                        && copies_selected(r.1, old(self).list()) && final(self).list()
                        == old(self).list(),
                    _ => r.0 == EventState::NotConsumed && r.1 is Nothing && final(self).list()
                        == old(self).list() && final(self).focus() == Focus::Filter,
                }
            },
            old(self).focus() == Focus::List ==> {
                &&& final(self).list().filter_text() == old(self).list().filter_text()
                &&& final(self).list().filtered() == old(self).list().filtered()
                &&& match list_move(key.code) {
                    Some(order) => r.0 == EventState::Consumed && r.1 is Nothing && final(self).focus() == Focus::List && final(self).list().selected() == moved_selection(
                        order,
                        old(self).list().selected(),
                        old(self).list().filtered().len(),
                    ),
                    None => if key.code == KeyCode::Tab {
                        r.0 == EventState::Consumed && r.1 is Nothing && final(self).focus()
                            == Focus::Filter
                    } else if key.code == KeyCode::Enter {
                        r.0 == EventState::NotConsumed && copies_selected(r.1, old(self).list())
                            && final(self).list() == old(self).list()
                    } else {
                        r.0 == EventState::NotConsumed && r.1 is Nothing && final(self).list()
                            == old(self).list() && final(self).focus() == Focus::List
                    },
                }
            },
    {
        match self.focus {
            Focus::Filter => {
                let result = self.list.handle_filter_key(key);
                if result == EventState::Consumed {
                    return (result, Command::Nothing);
                }
                let mut command = Command::Nothing;
                match (key.code, key.modifiers) {
                    (KeyCode::Char('n'), KeyModifiers::Control)
                    | (KeyCode::Down, KeyModifiers::NoModifier) => {
                        self.list.select(ItemOrder::Next);
                    },
                    (KeyCode::Char('p'), KeyModifiers::Control)
                    | (KeyCode::Up, KeyModifiers::NoModifier) => {
                        self.list.select(ItemOrder::Previous);
                    },
                    (KeyCode::Tab, KeyModifiers::NoModifier) => {
                        self.focus = Focus::List;
                    },
                    (KeyCode::Enter, KeyModifiers::NoModifier) => {
                        command = self.copy_path_of_selected_worktree();
                    },
                    _ => {
                        return (EventState::NotConsumed, Command::Nothing);
                    },
                }
                (EventState::Consumed, command)
            },
            Focus::List => {
                match list_move_of(key.code) {
                    Some(order) => {
                        self.list.select(order);
                    },
                    None => match key.code {
                        KeyCode::Tab => {
                            self.focus = Focus::Filter;
                        },
                        KeyCode::Enter => {
                            let command = self.copy_path_of_selected_worktree();
                            return (EventState::NotConsumed, command);
                        },
                        _ => {
                            return (EventState::NotConsumed, Command::Nothing);
                        },
                    },
                }
                (EventState::Consumed, Command::Nothing)
            },
        }
    }

    /// Adds a worktree and selects it when the filter text occurs in its path;
    /// otherwise nothing is selected.
    pub fn add(&mut self, new_worktree: Worktree)
        requires
            old(self).wf(),
        ensures
            final(self).wf(),
            final(self).focus() == old(self).focus(),
            final(self).list().items() == old(self).list().items().push(new_worktree),
            final(self).list().filter_text() == old(self).list().filter_text(),
            contains_seq(new_worktree.path@, old(self).list().filter_text()) ==> {
                &&& final(self).list().selected() is Some
                &&& final(self).list().filtered()[final(self).list().selected()->0 as int] == old(self).list().items().len()
                &&& selected_path(final(self).list()) == Some(new_worktree.path@)
            },
            !contains_seq(new_worktree.path@, old(self).list().filter_text()) ==> final(self).list().selected() is None,
    {
        self.list.add(new_worktree);
    }

    /// Takes the first worktree whose path is `path` out of the panel and returns it;
    /// afterwards nothing is selected.
    pub fn remove(&mut self, path: &str) -> (r: Option<Worktree>)
        requires
            old(self).wf(),
        ensures
            final(self).wf(),
            final(self).focus() == old(self).focus(),
            final(self).list().selected() is None,
            final(self).list().filter_text() == old(self).list().filter_text(),
            (exists|j: int| 0 <= j < old(self).list().items().len() && #[trigger] old(self).list().items()[j].path@ == path@)
                ==> exists|k: int| {
                &&& #[trigger] first_with_key(old(self).list().items(), path@, k)
                &&& r == Some(old(self).list().items()[k])
                &&& final(self).list().items() == old(self).list().items().remove(k)
            },
            !(exists|j: int| 0 <= j < old(self).list().items().len() && #[trigger] old(self).list().items()[j].path@ == path@)
                ==> r is None && final(self).list().items() == old(self).list().items(),
    {
        let ghost before = self.list();
        proof {
            if exists|j: int| 0 <= j < before.items().len() && #[trigger] before.items()[j].path@ == path@ {
                let j = choose|j: int| 0 <= j < before.items().len() && #[trigger] before.items()[j].path@ == path@;
                assert(before.items()[j].key_view() == path@);
            }
        }
        self.list.remove_by_key(path)
    }

    /// Takes the selected worktree out of the panel and returns it, so that its
    /// checkout can be removed; it is gone from the panel whatever happens on disk.
    /// The worktree taken is the first one with the selected path. Afterwards
    /// nothing is selected.
    pub fn delete_selected_worktree(&mut self) -> (r: Option<Worktree>)
        requires
            old(self).wf(),
        ensures
            final(self).wf(),
            final(self).focus() == old(self).focus(),
            final(self).list().selected() is None,
            final(self).list().filter_text() == old(self).list().filter_text(),
            old(self).list().selected() is None ==> r is None && *final(self) == *old(self),
            old(self).list().selected() is Some ==> exists|k: int| {
                &&& #[trigger] first_with_key(old(self).list().items(), selected_path(old(self).list())->0, k)
                &&& r == Some(old(self).list().items()[k])
                &&& final(self).list().items() == old(self).list().items().remove(k)
            },
    {
        match self.selected_worktree_path() {
            Some(path) => {
                proof {
                    let l = self.list();
                    let j = l.filtered()[l.selected()->0 as int] as int;
                    assert(l.filtered()[l.selected()->0 as int] < crate::list::keys_of(l.items()).len());
                    assert(0 <= j < l.items().len());
                    assert(l.items()[j].path@ == path@);
                }
                let ghost before = self.list();
                let r = self.remove(path.as_str());
                proof {
                    let k = choose|k: int| {
                        &&& #[trigger] first_with_key(before.items(), path@, k)
                        &&& r == Some(before.items()[k])
                        &&& self.list().items() == before.items().remove(k)
                    };
                    assert(selected_path(before)->0 == path@);
                    assert(first_with_key(before.items(), selected_path(before)->0, k));
                }
                r
            },
            None => None,
        }
    }
}

} // verus!
