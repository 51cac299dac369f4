//! The state of the UI and what a key does to it. A key changes the state
//! and may ask the program for work (actions) that needs the disk, git or
//! the network.
use vstd::prelude::*;

use crate::text::{trim, trim_str};
use crate::tui::types::{
    drop_last_char, move_down, move_down_spec, move_up, move_up_spec, pop_char, push_char, tab_at, tab_index,
    AddForm, Key, Tab,
};
use crate::vm::ssh::views;

verus! {

/// Which projects a push covers: all, or the one at this index.
#[derive(Debug, Clone, Copy, PartialEq, Eq, Structural)]
pub enum PushScope {
    All,
    Selected(usize),
}

/// Work a key asks of the program.
#[derive(Debug, Clone, PartialEq, Eq)]
pub enum Action {
    Quit,
    InitWorkspace,
    Reload,
    PullAll,
    RequestPushAll,
    RunDoctor,
    CreateSnapshot,
    RemoveSelected,
    RequestDeleteSelected,
    /// Pull the selected project, with `--force` when true.
    PullSelected(bool),
    RequestForcePushSelected,
    FlushSelected,
    RestoreRemoteSelected,
    RequestPushSelected,
    RefreshStatuses,
    /// Restore the snapshot at this position of the list.
    RestoreSnapshot(usize),
    ToggleSync,
    SyncNow,
    SubmitAddForm,
    /// Run this shell command in every project.
    RunExec(String),
    /// Delete the local copy whose deletion was confirmed.
    DeleteConfirmed,
    /// Push these projects, committing first with this message.
    StartPush(PushScope, String),
}

/// The model of an [`Action`].
pub enum ActionView {
    Quit,
    InitWorkspace,
    Reload,
    PullAll,
    RequestPushAll,
    RunDoctor,
    CreateSnapshot,
    RemoveSelected,
    RequestDeleteSelected,
    PullSelected(bool),
    RequestForcePushSelected,
    FlushSelected,
    RestoreRemoteSelected,
    RequestPushSelected,
    RefreshStatuses,
    RestoreSnapshot(usize),
    ToggleSync,
    SyncNow,
    SubmitAddForm,
    RunExec(Seq<char>),
    DeleteConfirmed,
    StartPush(PushScope, Seq<char>),
}

impl View for Action {
    type V = ActionView;

    open spec fn view(&self) -> ActionView {
        match self {
            Action::Quit => ActionView::Quit,
            Action::InitWorkspace => ActionView::InitWorkspace,
            Action::Reload => ActionView::Reload,
            Action::PullAll => ActionView::PullAll,
            Action::RequestPushAll => ActionView::RequestPushAll,
            Action::RunDoctor => ActionView::RunDoctor,
            Action::CreateSnapshot => ActionView::CreateSnapshot,
            Action::RemoveSelected => ActionView::RemoveSelected,
            Action::RequestDeleteSelected => ActionView::RequestDeleteSelected,
            Action::PullSelected(f) => ActionView::PullSelected(*f),
            Action::RequestForcePushSelected => ActionView::RequestForcePushSelected,
            Action::FlushSelected => ActionView::FlushSelected,
            Action::RestoreRemoteSelected => ActionView::RestoreRemoteSelected,
            Action::RequestPushSelected => ActionView::RequestPushSelected,
            Action::RefreshStatuses => ActionView::RefreshStatuses,
            Action::RestoreSnapshot(i) => ActionView::RestoreSnapshot(*i),
            Action::ToggleSync => ActionView::ToggleSync,
            Action::SyncNow => ActionView::SyncNow,
            Action::SubmitAddForm => ActionView::SubmitAddForm,
            Action::RunExec(c) => ActionView::RunExec(c@),
            Action::DeleteConfirmed => ActionView::DeleteConfirmed,
            Action::StartPush(s, m) => ActionView::StartPush(*s, m@),
        }
    }
}

/// The models of a list of actions.
pub open spec fn actions(v: Seq<Action>) -> Seq<ActionView> {
    v.map_values(|a: Action| a@)
}

/// The state of the UI.
#[derive(Debug)]
pub struct Ui {
    pub tab: Tab,
    /// The selected row of the projects table.
    pub selected: Option<usize>,
    /// The selected row of the snapshots table.
    pub snap_selected: Option<usize>,
    /// A workspace configuration is loaded.
    pub has_config: bool,
    pub project_count: usize,
    pub snap_count: usize,
    pub show_add_form: bool,
    pub show_help: bool,
    pub add_form: AddForm,
    pub show_exec_prompt: bool,
    pub exec_input: String,
    pub show_commit_prompt: bool,
    pub commit_input: String,
    /// A deletion waits for the user's confirmation.
    pub confirm_delete: bool,
    /// The project (name and directory) whose local copy may be deleted.
    pub pending_delete: Option<(String, String)>,
    /// The message of the status bar, and whether it reports an error.
    pub status: Option<(String, bool)>,
    pub task_running: bool,
    pub task_label: Option<String>,
    pub sync_running: bool,
    pub log_lines: Vec<String>,
    /// The push that waits for a commit message.
    pub pending_push: Option<PushScope>,
}

/// The model of a [`Ui`].
pub struct UiView {
    pub tab: Tab,
    pub selected: Option<usize>,
    pub snap_selected: Option<usize>,
    pub has_config: bool,
    pub project_count: usize,
    pub snap_count: usize,
    pub show_add_form: bool,
    pub show_help: bool,
    pub form: Seq<Seq<char>>,
    pub focused: usize,
    pub show_exec_prompt: bool,
    pub exec_input: Seq<char>,
    pub show_commit_prompt: bool,
    pub commit_input: Seq<char>,
    pub confirm_delete: bool,
    pub pending_delete: Option<(Seq<char>, Seq<char>)>,
    pub status: Option<(Seq<char>, bool)>,
    pub task_running: bool,
    pub task_label: Option<Seq<char>>,
    pub sync_running: bool,
    pub log_lines: Seq<Seq<char>>,
    pub pending_push: Option<PushScope>,
}

impl View for Ui {
    type V = UiView;

    open spec fn view(&self) -> UiView {
        UiView {
            tab: self.tab,
            selected: self.selected,
            snap_selected: self.snap_selected,
            has_config: self.has_config,
            project_count: self.project_count,
            snap_count: self.snap_count,
            show_add_form: self.show_add_form,
            show_help: self.show_help,
            form: self.add_form.texts(),
            focused: self.add_form.focused,
            show_exec_prompt: self.show_exec_prompt,
            exec_input: self.exec_input@,
            show_commit_prompt: self.show_commit_prompt,
            commit_input: self.commit_input@,
            confirm_delete: self.confirm_delete,
            pending_delete: match self.pending_delete {
                Some((n, p)) => Some((n@, p@)),
                None => None,
            },
            status: match self.status {
                Some((m, e)) => Some((m@, e)),
                None => None,
            },
            task_running: self.task_running,
            task_label: match self.task_label {
                Some(l) => Some(l@),
                None => None,
            },
            sync_running: self.sync_running,
            log_lines: views(self.log_lines@),
            pending_push: self.pending_push,
        }
    }
}

/// The empty form.
pub open spec fn empty_form() -> Seq<Seq<char>> {
    seq![Seq::empty(), Seq::empty(), Seq::empty(), "main"@, Seq::empty(), Seq::empty()]
}

/// A status message.
pub open spec fn with_status(u: UiView, m: Seq<char>, error: bool) -> UiView {
    UiView { status: Some((m, error)), ..u }
}

/// Leaving the deletion prompt without deleting.
pub open spec fn cancel_delete_spec(u: UiView) -> UiView {
    with_status(UiView { confirm_delete: false, pending_delete: None, ..u }, "Delete cancelled"@, false)
}

/// Leaving the commit prompt without pushing.
pub open spec fn cancel_commit_spec(u: UiView) -> UiView {
    with_status(
        UiView { show_commit_prompt: false, commit_input: Seq::empty(), pending_push: None, ..u },
        "Push cancelled"@,
        false,
    )
}

/// Opening the add-project form, which needs a workspace.
pub open spec fn open_add_form_spec(u: UiView) -> UiView {
    if !u.has_config {
        with_status(u, "No workspace loaded. Press  i  to initialize first."@, true)
    } else {
        UiView { show_help: false, show_add_form: true, form: empty_form(), focused: 0, ..u }
    }
}

/// Confirming the commit message: an empty message is refused; otherwise
/// the prompt closes and the pending push starts.
pub open spec fn confirm_commit_spec(u: UiView) -> (UiView, Seq<ActionView>) {
    let msg = trim(u.commit_input);
    if msg.len() == 0 {
        (with_status(u, "Commit message required"@, true), Seq::empty())
    } else {
        let closed = UiView { pending_push: None, show_commit_prompt: false, commit_input: Seq::empty(), ..u };
        match u.pending_push {
            Some(PushScope::All) => if u.has_config {
                (closed, seq![ActionView::StartPush(PushScope::All, msg)])
            } else {
                (with_status(closed, "No workspace loaded"@, true), Seq::empty())
            },
            Some(PushScope::Selected(i)) => (closed, seq![ActionView::StartPush(PushScope::Selected(i), msg)]),
            None => (with_status(closed, "No push action pending"@, true), Seq::empty()),
        }
    }
}

/// A key in the add-project form.
pub open spec fn add_form_key_spec(u: UiView, k: Key) -> (UiView, Seq<ActionView>) {
    let f = u.focused as int;
    match k {
        Key::Tab | Key::Down => (UiView { focused: ((u.focused + 1) % 6) as usize, ..u }, Seq::empty()),
        Key::BackTab | Key::Up => (UiView { focused: ((u.focused + 5) % 6) as usize, ..u }, Seq::empty()),
        Key::Enter => (u, seq![ActionView::SubmitAddForm]),
        Key::Backspace => (UiView { form: u.form.update(f, drop_last_char(u.form[f])), ..u }, Seq::empty()),
        Key::Char(c) => (UiView { form: u.form.update(f, u.form[f].push(c)), ..u }, Seq::empty()),
        _ => (u, Seq::empty()),
    }
}

/// A key in the commit-message prompt.
pub open spec fn commit_key_spec(u: UiView, k: Key) -> (UiView, Seq<ActionView>) {
    match k {
        Key::Esc => (cancel_commit_spec(u), Seq::empty()),
        Key::Enter => confirm_commit_spec(u),
        Key::Backspace => (UiView { commit_input: drop_last_char(u.commit_input), ..u }, Seq::empty()),
        Key::Char(c) => (UiView { commit_input: u.commit_input.push(c), ..u }, Seq::empty()),
        _ => (u, Seq::empty()),
    }
}

/// A key in the command prompt of `exec`.
pub open spec fn exec_key_spec(u: UiView, k: Key) -> (UiView, Seq<ActionView>) {
    match k {
        Key::Esc => (UiView { show_exec_prompt: false, exec_input: Seq::empty(), ..u }, Seq::empty()),
        Key::Enter => {
            let cmd = trim(u.exec_input);
            let closed = UiView { show_exec_prompt: false, exec_input: Seq::empty(), ..u };
            if cmd.len() > 0 {
                (closed, seq![ActionView::RunExec(cmd)])
            } else {
                (closed, Seq::empty())
            }
        },
        Key::Backspace => (UiView { exec_input: drop_last_char(u.exec_input), ..u }, Seq::empty()),
        Key::Char(c) => (UiView { exec_input: u.exec_input.push(c), ..u }, Seq::empty()),
        _ => (u, Seq::empty()),
    }
}

/// The keys that work on every tab; the flag tells to quit.
pub open spec fn global_key_spec(u: UiView, k: Key, ctrl: bool) -> (UiView, Seq<ActionView>, bool) {
    match k {
        Key::Char(c) => if c == 'h' || c == 'H' {
            (UiView { show_help: !u.show_help, ..u }, Seq::empty(), false)
        } else if c == 'a' || c == 'A' {
            (open_add_form_spec(u), Seq::empty(), false)
        } else if c == 'q' || c == 'Q' {
            (u, Seq::empty(), true)
        } else if c == 'c' && ctrl {
            (u, Seq::empty(), true)
        } else if c == 'i' && !u.has_config {
            (u, seq![ActionView::InitWorkspace], false)
        } else if '1' <= c && c <= '6' {
            (UiView { tab: tab_at(((c as int) - 49) as nat), ..u }, Seq::empty(), false)
        } else if c == 'r' || c == 'R' {
            (u, seq![ActionView::Reload], false)
        } else {
            (u, Seq::empty(), false)
        },
        Key::Tab => (UiView { tab: tab_at((tab_index(u.tab) + 1) % 6), ..u }, Seq::empty(), false),
        Key::BackTab => (UiView { tab: tab_at((tab_index(u.tab) + 5) % 6), ..u }, Seq::empty(), false),
        _ => (u, Seq::empty(), false),
    }
}

/// The keys of the current tab.
pub open spec fn tab_key_spec(u: UiView, k: Key) -> (UiView, Seq<ActionView>) {
    let none = (u, Seq::<ActionView>::empty());
    match u.tab {
        Tab::Dashboard => match k {
            Key::Char('p') => (u, seq![ActionView::PullAll]),
            Key::Char('u') => (u, seq![ActionView::RequestPushAll]),
            Key::Char('d') => (u, seq![ActionView::RunDoctor]),
            Key::Char('s') => (u, seq![ActionView::CreateSnapshot]),
            _ => none,
        },
        Tab::Projects => match k {
            Key::Up | Key::Char('k') => (UiView { selected: move_up_spec(u.selected, u.project_count), ..u }, Seq::empty()),
            Key::Down | Key::Char('j') => (UiView { selected: move_down_spec(u.selected, u.project_count), ..u }, Seq::empty()),
            Key::Char('d') | Key::Delete => (u, seq![ActionView::RemoveSelected]),
            Key::Char('x') | Key::Char('X') => (u, seq![ActionView::RequestDeleteSelected]),
            Key::Char('p') | Key::Enter => (u, seq![ActionView::PullSelected(false)]),
            Key::Char('f') => (u, seq![ActionView::PullSelected(true)]),
            Key::Char('F') => (u, seq![ActionView::RequestForcePushSelected]),
            Key::Char('l') | Key::Char('L') => (u, seq![ActionView::FlushSelected]),
            Key::Char('i') | Key::Char('I') => (u, seq![ActionView::RestoreRemoteSelected]),
            Key::Char('u') => (u, seq![ActionView::RequestPushSelected]),
            Key::Char('e') => (UiView { show_exec_prompt: true, exec_input: Seq::empty(), ..u }, Seq::empty()),
            Key::Char('s') => (with_status(u, "Statuses refreshed"@, false), seq![ActionView::RefreshStatuses]),
            _ => none,
        },
        Tab::Graph => none,
        Tab::Snapshots => match k {
            Key::Up | Key::Char('k') => (UiView { snap_selected: move_up_spec(u.snap_selected, u.snap_count), ..u }, Seq::empty()),
            Key::Down | Key::Char('j') => (UiView { snap_selected: move_down_spec(u.snap_selected, u.snap_count), ..u }, Seq::empty()),
            Key::Char('c') => (u, seq![ActionView::CreateSnapshot]),
            Key::Enter | Key::Char('r') => (u, seq![ActionView::RestoreSnapshot(match u.snap_selected {
                Some(i) => i,
                None => 0,
            })]),
            _ => none,
        },
        Tab::Sync => match k {
            Key::Char('s') => (u, seq![ActionView::ToggleSync]),
            Key::Char('n') => (u, seq![ActionView::SyncNow]),
            _ => none,
        },
        Tab::Logs => match k {
            Key::Char('d') => (u, seq![ActionView::RunDoctor]),
            _ => none,
        },
    }
}

/// What a key does: a pending deletion takes `y`/`n` first; Esc closes the
/// form, the command prompt or the help; then the open form or prompt
/// takes the key; otherwise the global keys, then the keys of the tab.
pub open spec fn key_spec(u: UiView, k: Key, ctrl: bool) -> (UiView, Seq<ActionView>) {
    if u.confirm_delete {
        match k {
            Key::Char('y') | Key::Char('Y') => (u, seq![ActionView::DeleteConfirmed]),
            Key::Char('n') | Key::Char('N') | Key::Esc => (cancel_delete_spec(u), Seq::empty()),
            _ => (u, Seq::empty()),
        }
    } else if k == Key::Esc && u.show_add_form {
        (UiView { show_add_form: false, form: empty_form(), focused: 0, ..u }, Seq::empty())
    } else if k == Key::Esc && u.show_exec_prompt {
        (UiView { show_exec_prompt: false, exec_input: Seq::empty(), ..u }, Seq::empty())
    } else if k == Key::Esc && u.show_help {
        (UiView { show_help: false, ..u }, Seq::empty())
    } else if u.show_add_form {
        add_form_key_spec(u, k)
    } else if u.show_commit_prompt {
        commit_key_spec(u, k)
    } else if u.show_exec_prompt {
        exec_key_spec(u, k)
    } else {
        let (g, acts, quit) = global_key_spec(u, k, ctrl);
        if quit {
            (g, acts.push(ActionView::Quit))
        } else {
            let (t, more) = tab_key_spec(g, k);
            (t, acts + more)
        }
    }
}

fn set_status(u: &mut Ui, m: &str, error: bool)
    ensures
        final(u)@ == with_status(old(u)@, m@, error),
        final(u).add_form.wf() == old(u).add_form.wf(),
{
    u.status = Some((String::from_str(m), error));
}

fn push_action(v: &mut Vec<Action>, a: Action)
    ensures
        actions(final(v)@) == actions(old(v)@).push(a@),
{
    let ghost before = v@;
    v.push(a);
    assert(actions(v@) =~= actions(before).push(a@));
}

impl Ui {
    /// The state of a freshly started UI: the dashboard, first rows
    /// selected, no overlay, no task.
    pub fn new(has_config: bool, project_count: usize, snap_count: usize, sync_running: bool) -> (r: Ui)
        ensures
            r.add_form.wf(),
            r@.tab == Tab::Dashboard,
            r@.selected == Some(0usize),
            r@.snap_selected == Some(0usize),
            r@.has_config == has_config,
            r@.project_count == project_count,
            r@.snap_count == snap_count,
            r@.sync_running == sync_running,
            !r@.show_add_form && !r@.show_help && !r@.show_exec_prompt && !r@.show_commit_prompt,
            !r@.confirm_delete && !r@.task_running,
            r@.status is None,
            r@.log_lines.len() == 0,
            r@.form == empty_form(),
            r@.focused == 0,
            r@.exec_input.len() == 0,
            r@.commit_input.len() == 0,
            r@.pending_push is None,
            r@.pending_delete is None,
            r@.task_label is None,
    {
        Ui {
            tab: Tab::Dashboard,
            selected: Some(0),
            snap_selected: Some(0),
            has_config,
            project_count,
            snap_count,
            show_add_form: false,
            show_help: false,
            add_form: AddForm::new(),
            show_exec_prompt: false,
            exec_input: String::new(),
            show_commit_prompt: false,
            commit_input: String::new(),
            confirm_delete: false,
            pending_delete: None,
            status: None,
            task_running: false,
            task_label: None,
            sync_running,
            log_lines: Vec::new(),
            pending_push: None,
        }
    }

    /// Sets the message of the status bar.
    pub fn set_status(&mut self, msg: String, error: bool)
        requires
            old(self).add_form.wf(),
        ensures
            final(self)@ == with_status(old(self)@, msg@, error),
            final(self).add_form.wf(),
    {
        self.status = Some((msg, error));
    }

    fn open_add_form(&mut self)
        requires
            old(self).add_form.wf(),
        ensures
            final(self)@ == open_add_form_spec(old(self)@),
            final(self).add_form.wf(),
    {
        if !self.has_config {
            set_status(self, "No workspace loaded. Press  i  to initialize first.", true);
            return;
        }
        self.show_help = false;
        self.show_add_form = true;
        self.add_form = AddForm::new();
    }

    /// Closes the deletion prompt without deleting.
    pub fn cancel_delete(&mut self)
        requires
            old(self).add_form.wf(),
        ensures
            final(self)@ == cancel_delete_spec(old(self)@),
            final(self).add_form.wf(),
    {
        self.confirm_delete = false;
        self.pending_delete = None;
        set_status(self, "Delete cancelled", false);
    }

    /// Closes the commit prompt without pushing.
    pub fn cancel_commit_prompt(&mut self)
        requires
            old(self).add_form.wf(),
        ensures
            final(self)@ == cancel_commit_spec(old(self)@),
            final(self).add_form.wf(),
    {
        self.show_commit_prompt = false;
        self.commit_input = String::new();
        self.pending_push = None;
        set_status(self, "Push cancelled", false);
    }

    /// Confirms the commit message of a pending push.
    pub fn confirm_commit_prompt(&mut self) -> (r: Vec<Action>)
        requires
            old(self).add_form.wf(),
        ensures
            (final(self)@, actions(r@)) == confirm_commit_spec(old(self)@),
            final(self).add_form.wf(),
    {
        let mut acts: Vec<Action> = Vec::new();
        let msg = trim_str(self.commit_input.as_str());
        if msg.as_str().is_empty() {
            set_status(self, "Commit message required", true);
            assert(actions(acts@) =~= Seq::<ActionView>::empty());
            return acts;
        }
        let scope = self.pending_push;
        self.pending_push = None;
        self.show_commit_prompt = false;
        self.commit_input = String::new();
        match scope {
            Some(PushScope::All) => {
                if self.has_config {
                    push_action(&mut acts, Action::StartPush(PushScope::All, msg));
                } else {
                    set_status(self, "No workspace loaded", true);
                }
            },
            Some(PushScope::Selected(i)) => {
                push_action(&mut acts, Action::StartPush(PushScope::Selected(i), msg));
            },
            None => {
                set_status(self, "No push action pending", true);
            },
        }
        assert(actions(acts@) =~= confirm_commit_spec(old(self)@).1);
        acts
    }

    fn add_form_key(&mut self, k: Key) -> (r: Vec<Action>)
        requires
            old(self).add_form.wf(),
        ensures
            (final(self)@, actions(r@)) == add_form_key_spec(old(self)@, k),
            final(self).add_form.wf(),
    {
        let mut acts: Vec<Action> = Vec::new();
        let f = self.add_form.focused;
        match k {
            Key::Tab | Key::Down => {
                self.add_form.focused = (f + 1) % 6;
            },
            Key::BackTab | Key::Up => {
                self.add_form.focused = (f + 5) % 6;
            },
            Key::Enter => {
                push_action(&mut acts, Action::SubmitAddForm);
            },
            Key::Backspace => {
                let mut s = self.add_form.fields[f].clone();
                pop_char(&mut s);
                let ghost before = self.add_form.fields@;
                self.add_form.fields.set(f, s);
                assert(views(self.add_form.fields@) =~= views(before).update(f as int, drop_last_char(views(before)[f as int])));
            },
            Key::Char(c) => {
                let mut s = self.add_form.fields[f].clone();
                push_char(&mut s, c);
                let ghost before = self.add_form.fields@;
                self.add_form.fields.set(f, s);
                assert(views(self.add_form.fields@) =~= views(before).update(f as int, views(before)[f as int].push(c)));
            },
            _ => {},
        }
        assert(actions(acts@) =~= add_form_key_spec(old(self)@, k).1);
        acts
    }

    fn commit_key(&mut self, k: Key) -> (r: Vec<Action>)
        requires
            old(self).add_form.wf(),
        ensures
            (final(self)@, actions(r@)) == commit_key_spec(old(self)@, k),
            final(self).add_form.wf(),
    {
        let mut acts: Vec<Action> = Vec::new();
        match k {
            Key::Esc => self.cancel_commit_prompt(),
            Key::Enter => {
                acts = self.confirm_commit_prompt();
            },
            Key::Backspace => pop_char(&mut self.commit_input),
            Key::Char(c) => push_char(&mut self.commit_input, c),
            _ => {},
        }
        assert(actions(acts@) =~= commit_key_spec(old(self)@, k).1);
        acts
    }

    fn exec_key(&mut self, k: Key) -> (r: Vec<Action>)
        requires
            old(self).add_form.wf(),
        ensures
            (final(self)@, actions(r@)) == exec_key_spec(old(self)@, k),
            final(self).add_form.wf(),
    {
        let mut acts: Vec<Action> = Vec::new();
        match k {
            Key::Esc => {
                self.show_exec_prompt = false;
                self.exec_input = String::new();
            },
            Key::Enter => {
                let cmd = trim_str(self.exec_input.as_str());
                self.show_exec_prompt = false;
                self.exec_input = String::new();
                if !cmd.as_str().is_empty() {
                    push_action(&mut acts, Action::RunExec(cmd));
                }
            },
            Key::Backspace => pop_char(&mut self.exec_input),
            Key::Char(c) => push_char(&mut self.exec_input, c),
            _ => {},
        }
        assert(actions(acts@) =~= exec_key_spec(old(self)@, k).1);
        acts
    }

    fn digit_tab(&mut self, c: char)
        requires
            '1' <= c <= '6',
        ensures
            final(self)@ == (UiView { tab: tab_at(((c as int) - 49) as nat), ..old(self)@ }),
            final(self).add_form == old(self).add_form,
    {
        let i: usize = if c == '1' {
            0
        } else if c == '2' {
            1
        } else if c == '3' {
            2
        } else if c == '4' {
            3
        } else if c == '5' {
            4
        } else {
            5
        };
        assert(i == (c as int) - 49);
        self.tab = Tab::from_usize(i);
    }

    fn global_char(&mut self, c: char, ctrl: bool, acts: &mut Vec<Action>) -> (quit: bool)
        requires
            old(self).add_form.wf(),
        ensures
            (final(self)@, actions(final(acts)@), quit) == (
                global_key_spec(old(self)@, Key::Char(c), ctrl).0,
                actions(old(acts)@) + global_key_spec(old(self)@, Key::Char(c), ctrl).1,
                global_key_spec(old(self)@, Key::Char(c), ctrl).2,
            ),
            final(self).add_form.wf(),
    {
        let ghost a0 = actions(acts@);
        if c == 'h' || c == 'H' {
            self.show_help = !self.show_help;
        } else if c == 'a' || c == 'A' {
            self.open_add_form();
        } else if c == 'q' || c == 'Q' {
            assert(actions(acts@) =~= a0 + Seq::<ActionView>::empty());
            return true;
        } else if c == 'c' && ctrl {
            assert(actions(acts@) =~= a0 + Seq::<ActionView>::empty());
            return true;
        } else if c == 'i' && !self.has_config {
            push_action(acts, Action::InitWorkspace);
        } else if '1' <= c && c <= '6' {
            self.digit_tab(c);
        } else if c == 'r' || c == 'R' {
            push_action(acts, Action::Reload);
        }
        assert(actions(acts@) =~= a0 + global_key_spec(old(self)@, Key::Char(c), ctrl).1);
        false
    }

    fn global_key(&mut self, k: Key, ctrl: bool, acts: &mut Vec<Action>) -> (quit: bool)
        requires
            old(self).add_form.wf(),
        ensures
            (final(self)@, actions(final(acts)@), quit) == (
                global_key_spec(old(self)@, k, ctrl).0,
                actions(old(acts)@) + global_key_spec(old(self)@, k, ctrl).1,
                global_key_spec(old(self)@, k, ctrl).2,
            ),
            final(self).add_form.wf(),
    {
        let ghost a0 = actions(acts@);
        match k {
            Key::Char(c) => {
                return self.global_char(c, ctrl, acts);
            },
            Key::Tab => {
                self.tab = Tab::from_usize((self.tab.index() + 1) % 6);
            },
            Key::BackTab => {
                self.tab = Tab::from_usize((self.tab.index() + 5) % 6);
            },
            _ => {},
        }
        assert(actions(acts@) =~= a0 + global_key_spec(old(self)@, k, ctrl).1);
        false
    }

    fn tab_key(&mut self, k: Key, acts: &mut Vec<Action>)
        requires
            old(self).add_form.wf(),
        ensures
            final(self)@ == tab_key_spec(old(self)@, k).0,
            actions(final(acts)@) == actions(old(acts)@) + tab_key_spec(old(self)@, k).1,
            final(self).add_form.wf(),
    {
        let ghost a0 = actions(acts@);
        match self.tab {
            Tab::Dashboard => match k {
                Key::Char('p') => push_action(acts, Action::PullAll),
                Key::Char('u') => push_action(acts, Action::RequestPushAll),
                Key::Char('d') => push_action(acts, Action::RunDoctor),
                Key::Char('s') => push_action(acts, Action::CreateSnapshot),
                _ => {},
            },
            Tab::Projects => match k {
                Key::Up | Key::Char('k') => {
                    self.selected = move_up(self.selected, self.project_count);
                },
                Key::Down | Key::Char('j') => {
                    self.selected = move_down(self.selected, self.project_count);
                },
                Key::Char('d') | Key::Delete => push_action(acts, Action::RemoveSelected),
                Key::Char('x') | Key::Char('X') => push_action(acts, Action::RequestDeleteSelected),
                Key::Char('p') | Key::Enter => push_action(acts, Action::PullSelected(false)),
                Key::Char('f') => push_action(acts, Action::PullSelected(true)),
                Key::Char('F') => push_action(acts, Action::RequestForcePushSelected),
                Key::Char('l') | Key::Char('L') => push_action(acts, Action::FlushSelected),
                Key::Char('i') | Key::Char('I') => push_action(acts, Action::RestoreRemoteSelected),
                Key::Char('u') => push_action(acts, Action::RequestPushSelected),
                Key::Char('e') => {
                    self.show_exec_prompt = true;
                    self.exec_input = String::new();
                },
                Key::Char('s') => {
                    push_action(acts, Action::RefreshStatuses);
                    set_status(self, "Statuses refreshed", false);
                },
                _ => {},
            },
            Tab::Graph => {},
            Tab::Snapshots => match k {
                Key::Up | Key::Char('k') => {
                    self.snap_selected = move_up(self.snap_selected, self.snap_count);
                },
                Key::Down | Key::Char('j') => {
                    self.snap_selected = move_down(self.snap_selected, self.snap_count);
                },
                Key::Char('c') => push_action(acts, Action::CreateSnapshot),
                Key::Enter | Key::Char('r') => {
                    let i = match self.snap_selected {
                        Some(i) => i,
                        None => 0,
                    };
                    push_action(acts, Action::RestoreSnapshot(i));
                },
                _ => {},
            },
            Tab::Sync => match k {
                Key::Char('s') => push_action(acts, Action::ToggleSync),
                Key::Char('n') => push_action(acts, Action::SyncNow),
                _ => {},
            },
            Tab::Logs => match k {
                Key::Char('d') => push_action(acts, Action::RunDoctor),
                _ => {},
            },
        }
        assert(actions(acts@) =~= a0 + tab_key_spec(old(self)@, k).1);
    }

    /// Handles a key (see [`key_spec`]): the new state, and the work the
    /// program is asked to do, in order. `ctrl` tells whether Control was
    /// held.
    pub fn handle_key(&mut self, k: Key, ctrl: bool) -> (r: Vec<Action>)
        requires
            old(self).add_form.wf(),
        ensures
            (final(self)@, actions(r@)) == key_spec(old(self)@, k, ctrl),
            final(self).add_form.wf(),
    {
        if self.confirm_delete {
            let mut acts: Vec<Action> = Vec::new();
            match k {
                Key::Char('y') | Key::Char('Y') => push_action(&mut acts, Action::DeleteConfirmed),
                Key::Char('n') | Key::Char('N') | Key::Esc => self.cancel_delete(),
                _ => {},
            }
            assert(actions(acts@) =~= key_spec(old(self)@, k, ctrl).1);
            return acts;
        }
        if k == Key::Esc && self.show_add_form {
            self.show_add_form = false;
            self.add_form = AddForm::new();
            let acts: Vec<Action> = Vec::new();
            assert(actions(acts@) =~= Seq::<ActionView>::empty());
            return acts;
        }
        if k == Key::Esc && self.show_exec_prompt {
            self.show_exec_prompt = false;
            self.exec_input = String::new();
            let acts: Vec<Action> = Vec::new();
            assert(actions(acts@) =~= Seq::<ActionView>::empty());
            return acts;
        }
        if k == Key::Esc && self.show_help {
            self.show_help = false;
            let acts: Vec<Action> = Vec::new();
            assert(actions(acts@) =~= Seq::<ActionView>::empty());
            return acts;
        }
        if self.show_add_form {
            return self.add_form_key(k);
        }
        if self.show_commit_prompt {
            return self.commit_key(k);
        }
        if self.show_exec_prompt {
            return self.exec_key(k);
        }
        let mut acts: Vec<Action> = Vec::new();
        let ghost u0 = self@;
        let quit = self.global_key(k, ctrl, &mut acts);
        if quit {
            push_action(&mut acts, Action::Quit);
            assert(actions(acts@) =~= global_key_spec(u0, k, ctrl).1.push(ActionView::Quit));
            return acts;
        }
        self.tab_key(k, &mut acts);
        acts
    }
}

/// No overlay or prompt takes the keys.
pub open spec fn plain(u: UiView) -> bool {
    !u.confirm_delete && !u.show_add_form && !u.show_commit_prompt && !u.show_exec_prompt
}

/// In the command prompt, typing a character and erasing it gives back
/// the same state.
pub proof fn law_exec_type_then_erase(u: UiView, c: char)
    requires
        u.show_exec_prompt,
        !u.confirm_delete,
        !u.show_add_form,
        !u.show_commit_prompt,
    ensures
        key_spec(key_spec(u, Key::Char(c), false).0, Key::Backspace, false).0 == u,
{
    let v = key_spec(u, Key::Char(c), false).0;
    assert(v.exec_input == u.exec_input.push(c));
    assert(u.exec_input.push(c).drop_last() =~= u.exec_input);
}

/// In the commit prompt, typing a character and erasing it gives back the
/// same state.
pub proof fn law_commit_type_then_erase(u: UiView, c: char)
    requires
        u.show_commit_prompt,
        !u.confirm_delete,
        !u.show_add_form,
    ensures
        key_spec(key_spec(u, Key::Char(c), false).0, Key::Backspace, false).0 == u,
{
    let v = key_spec(u, Key::Char(c), false).0;
    assert(v.commit_input == u.commit_input.push(c));
    assert(u.commit_input.push(c).drop_last() =~= u.commit_input);
}

/// Without an overlay, Tab then Shift-Tab comes back to the same tab.
pub proof fn law_tab_then_back(u: UiView)
    requires
        plain(u),
    ensures
        key_spec(key_spec(u, Key::Tab, false).0, Key::BackTab, false).0.tab == u.tab,
{
}

/// Without an overlay, `q`, `Q` and Ctrl-C ask to quit.
pub proof fn law_q_quits(u: UiView, ctrl: bool)
    requires
        plain(u),
    ensures
        key_spec(u, Key::Char('q'), ctrl).1 == seq![ActionView::Quit],
        key_spec(u, Key::Char('Q'), ctrl).1 == seq![ActionView::Quit],
        key_spec(u, Key::Char('c'), true).1 == seq![ActionView::Quit],
{
    assert(global_key_spec(u, Key::Char('q'), ctrl).1 =~= Seq::<ActionView>::empty());
    assert(global_key_spec(u, Key::Char('Q'), ctrl).1 =~= Seq::<ActionView>::empty());
    assert(global_key_spec(u, Key::Char('c'), true).1 =~= Seq::<ActionView>::empty());
}

/// Esc always closes an open form, command prompt or help, and leaves the
/// deletion prompt without deleting.
pub proof fn law_escape_closes(u: UiView)
    ensures
        ({
            let v = key_spec(u, Key::Esc, false).0;
            &&& u.confirm_delete ==> !v.confirm_delete && v.pending_delete is None
            &&& !u.confirm_delete ==> !v.show_add_form && (u.show_add_form || !v.show_exec_prompt) && (
            u.show_add_form || u.show_exec_prompt || !v.show_help)
        }),
{
}

} // verus!
