//! The whole interface: the worktree panel, the repository picker, and the
//! new-worktree dialog, with the keys that move between them.

use vstd::prelude::*;
use vstd::string::*;

use crate::components::{
    dialog_consumes, repositories_consumes, worktrees_consumes, Command, CreateWorktreeComponent,
    CreateWorktreeRequest, DialogFocus, RepositoriesComponent, WorktreesComponent,
};
use crate::git::{repository_name, Repository, Worktree};
use crate::keys::{EventState, KeyCode, KeyEvent, KeyModifiers};
use crate::strings::path_join;

verus! {

/// The two directories that the program works with.
pub struct Args {
    /// Where new worktrees are created.
    pub worktrees_dir: String,
    /// Where repositories are looked for.
    pub repos_dir: String,
}

/// Which panel receives the keys.
#[derive(Clone, Copy, Debug, PartialEq, Eq, Structural)]
pub enum Focus {
    Worktrees,
    Repositories,
    CreateWorktree,
}

/// `req` asks for worktree `name` of `repo` under `dir`/<repository name>/.
pub open spec fn requests_worktree(
    req: CreateWorktreeRequest,
    repo: Repository,
    name: Seq<char>,
    dir: Seq<char>,
) -> bool {
    let repo_dir = path_join(dir, repository_name(repo.path_view()));
    &&& req.repository_path@ == repo.path_view()
    &&& req.branch@ == name
    &&& req.repository_worktrees_dir@ == repo_dir
    &&& req.worktree_path@ == path_join(repo_dir, name)
}

/// Control held alone with the character `c`.
pub open spec fn is_control_char(key: KeyEvent, c: char) -> bool {
    key.modifiers == KeyModifiers::Control && key.code == KeyCode::Char(c)
}

/// Control+c: leave the program.
pub open spec fn is_exit_key(key: KeyEvent) -> bool {
    is_control_char(key, 'c')
}

/// The state of the interface: the three panels, the directories, and the focus.
pub struct App {
    worktrees: WorktreesComponent,
    repositories: RepositoriesComponent,
    create_worktree: CreateWorktreeComponent,
    args: Args,
    focus: Focus,
}

impl App {
    /// The worktree panel.
    pub closed spec fn worktrees(&self) -> WorktreesComponent {
        self.worktrees
    }

    /// The repository picker.
    pub closed spec fn repositories(&self) -> RepositoriesComponent {
        self.repositories
    }

    /// The new-worktree dialog.
    pub closed spec fn create_worktree(&self) -> CreateWorktreeComponent {
        self.create_worktree
    }

    /// Where new worktrees are created.
    pub closed spec fn worktrees_dir(&self) -> Seq<char> {
        self.args.worktrees_dir@
    }

    /// Which panel receives the keys.
    pub closed spec fn focus(&self) -> Focus {
        self.focus
    }

    /// Both lists are consistent with their items and filters.
    pub open spec fn wf(&self) -> bool {
        self.worktrees().wf() && self.repositories().wf()
    }

    /// The interface over the repositories found and their worktrees, showing the
    /// worktree panel.
    pub fn new(args: Args, repositories: Vec<Repository>, worktrees: Vec<Worktree>) -> (r: App)
        ensures
            r.wf(),
            r.focus() == Focus::Worktrees,
            r.worktrees_dir() == args.worktrees_dir@,
            r.worktrees().list().items() == worktrees@,
            r.repositories().list().items() == repositories@,
    {
        App {
            worktrees: WorktreesComponent::new(worktrees),
            repositories: RepositoriesComponent::new(repositories),
            create_worktree: CreateWorktreeComponent::new(),
            args,
            focus: Focus::Worktrees,
        }
    }

    /// Which panel receives the keys.
    pub fn current_focus(&self) -> (r: Focus)
        ensures
            r == self.focus(),
    {
        self.focus
    }

    /// The worktree panel.
    pub fn worktrees_panel(&self) -> (r: &WorktreesComponent)
        ensures
            *r == self.worktrees(),
    {
        &self.worktrees
    }

    /// The repository picker.
    pub fn repositories_panel(&self) -> (r: &RepositoriesComponent)
        ensures
            *r == self.repositories(),
    {
        &self.repositories
    }

    /// The new-worktree dialog.
    pub fn create_worktree_dialog(&self) -> (r: &CreateWorktreeComponent)
        ensures
            *r == self.create_worktree(),
    {
        &self.create_worktree
    }

    /// Passes a key to the focused panel. When the panel leaves it: on the worktree
    /// panel, Control+d opens the repository picker and Control+c asks to leave; on
    /// the picker, Control+d or Enter opens an empty new-worktree dialog and any other
    /// key goes back to the worktree panel; in the dialog, any key goes back to the
    /// worktree panel, and Enter with a typed name and a selected repository asks for
    /// the new worktree.
    pub fn handle_key(&mut self, key: KeyEvent) -> (r: (EventState, Command))
        requires
            old(self).wf(),
        ensures
            final(self).wf(),
            final(self).worktrees_dir() == old(self).worktrees_dir(),
            old(self).focus() == Focus::Worktrees ==> {
                let used = worktrees_consumes(old(self).worktrees().focus(), key);
                &&& final(self).repositories() == old(self).repositories()
                &&& final(self).create_worktree() == old(self).create_worktree()
                &&& !(r.1 is CreateWorktree)
                &&& used ==> r.0 == EventState::Consumed && final(self).focus() == Focus::Worktrees
                &&& !used ==> final(self).worktrees() == old(self).worktrees()
                &&& (!used && is_control_char(key, 'd')) ==> r.0 == EventState::Consumed && r.1 is Nothing
                    && final(self).focus() == Focus::Repositories
                &&& (!used && !is_control_char(key, 'd') && is_exit_key(key)) ==> r.0
                    == EventState::Exit && r.1 is Nothing && final(self).focus() == Focus::Worktrees
                &&& (!used && !is_control_char(key, 'd') && !is_exit_key(key)) ==> r.0
                    == EventState::NotConsumed && final(self).focus() == Focus::Worktrees
            },
            old(self).focus() == Focus::Repositories ==> {
                let used = repositories_consumes(old(self).repositories().focus(), key);
                &&& r.0 == EventState::Consumed
                &&& r.1 is Nothing
                &&& final(self).worktrees() == old(self).worktrees()
                &&& used ==> final(self).focus() == Focus::Repositories && final(self).create_worktree()
                    == old(self).create_worktree()
                &&& !used ==> final(self).repositories() == old(self).repositories()
                &&& (!used && (is_control_char(key, 'd') || key.code == KeyCode::Enter)) ==> {
                    &&& final(self).focus() == Focus::CreateWorktree
                    &&& final(self).create_worktree().text() == Seq::<char>::empty()
                    &&& final(self).create_worktree().focus() == DialogFocus::TextField
                }
                &&& (!used && !(is_control_char(key, 'd') || key.code == KeyCode::Enter)) ==> final(self).focus()
                    == Focus::Worktrees && final(self).create_worktree() == old(self).create_worktree()
            },
            old(self).focus() == Focus::CreateWorktree ==> {
                let used = dialog_consumes(old(self).create_worktree().focus(), key);
                let rl = old(self).repositories().list();
                let asks = key.code == KeyCode::Enter && old(self).create_worktree().text().len() > 0
                    && rl.selected() is Some;
                &&& r.0 == EventState::Consumed
                &&& final(self).worktrees() == old(self).worktrees()
                &&& final(self).repositories() == old(self).repositories()
                &&& used ==> final(self).focus() == Focus::CreateWorktree && r.1 is Nothing
                &&& !used ==> final(self).focus() == Focus::Worktrees && final(self).create_worktree()
                    == old(self).create_worktree()
                &&& (!used && asks) ==> (r.1 matches Command::CreateWorktree(req) && requests_worktree(
                    req,
                    rl.items()[rl.filtered()[rl.selected()->0 as int] as int],
                    old(self).create_worktree().text(),
                    old(self).worktrees_dir(),
                ))
                &&& (used || !asks) ==> r.1 is Nothing
            },
    {
        match self.focus {
            Focus::Worktrees => {
                let (result, command) = self.worktrees.handle_key(key);
                if result == EventState::Consumed {
                    (result, command)
                } else if key.modifiers == KeyModifiers::Control && key.code == KeyCode::Char('d') {
                    self.focus = Focus::Repositories;
                    (EventState::Consumed, Command::Nothing)
                } else if key.modifiers == KeyModifiers::Control && key.code == KeyCode::Char('c') {
                    (EventState::Exit, Command::Nothing)
                } else {
                    (EventState::NotConsumed, command)
                }
            },
            Focus::Repositories => {
                let result = self.repositories.handle_key(key);
                if result == EventState::Consumed {
                    result
                } else if (key.modifiers == KeyModifiers::Control && key.code == KeyCode::Char(
                    'd',
                )) || key.code == KeyCode::Enter {
                    self.create_worktree = CreateWorktreeComponent::new();
                    self.focus = Focus::CreateWorktree;
                    EventState::Consumed
                } else {
                    self.focus = Focus::Worktrees;
                    EventState::Consumed
                };
                (EventState::Consumed, Command::Nothing)
            },
            Focus::CreateWorktree => {
                let result = self.create_worktree.handle_key(key);
                if result == EventState::Consumed {
                    return (result, Command::Nothing);
                }
                let mut command = Command::Nothing;
                if key.code == KeyCode::Enter && self.create_worktree.new_worktree_name().as_str().unicode_len() > 0 {
                    if let Some(repository) = self.repositories.selected_repository() {
                        let name = self.create_worktree.new_worktree_name().as_str();
                        let repository_worktrees_dir = repository.worktrees_dir(
                            self.args.worktrees_dir.as_str(),
                        );
                        let worktree_path = repository.new_worktree_path(
                            name,
                            self.args.worktrees_dir.as_str(),
                        );
                        command =
                        Command::CreateWorktree(
                            CreateWorktreeRequest {
                                repository_path: crate::strings::to_owned_text(repository.path()),
                                branch: crate::strings::to_owned_text(name),
                                repository_worktrees_dir,
                                worktree_path,
                            },
                        );
                    }
                }
                self.focus = Focus::Worktrees;
                (EventState::Consumed, command)
            },
        }
    }

    /// Shows a worktree that was just created, selected when the filter lets it through.
    pub fn add_worktree(&mut self, worktree: Worktree)
        requires
            old(self).wf(),
        ensures
            final(self).wf(),
            final(self).focus() == old(self).focus(),
            final(self).repositories() == old(self).repositories(),
            final(self).worktrees().list().items() == old(self).worktrees().list().items().push(worktree),
            final(self).worktrees().list().filter_text() == old(self).worktrees().list().filter_text(),
            crate::strings::contains_seq(
                worktree.path@,
                old(self).worktrees().list().filter_text(),
            ) ==> crate::components::selected_path(final(self).worktrees().list()) == Some(
                worktree.path@,
            ),
    {
        self.worktrees.add(worktree);
    }
}

} // verus!
