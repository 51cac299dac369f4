//! The work the UI starts: background pulls and pushes (what each does per
//! project and what it logs), the add-project form, and the prompts that
//! guard deletions and pushes.
use vstd::prelude::*;

use crate::config::{has_name, local_dir_of, resolve, Project, WorkspaceConfig};
use crate::dirs::{dir_in_use, dir_used, normal_dir, normalize_local_dir};
use crate::text::{cat, cat3, cat4, decimal, str_eq, trim, trim_str};
use crate::tui::keys::{with_status, ActionView, PushScope, Ui, UiView};
use crate::tui::types::{AddForm, Tab};
use crate::vm::ssh::views;

verus! {

// ---------------------------------------------------------------------------
// Starting a task
// ---------------------------------------------------------------------------

impl Ui {
    /// Refuses to start a task while another runs: the status says so and
    /// the answer is true.
    pub fn busy(&mut self) -> (r: bool)
        requires
            old(self).add_form.wf(),
        ensures
            r == old(self).task_running,
            r ==> final(self)@ == with_status(old(self)@, "Another task is already running"@, true),
            !r ==> final(self)@ == old(self)@,
            final(self).add_form.wf(),
    {
        if self.task_running {
            self.set_status(String::from_str("Another task is already running"), true);
            true
        } else {
            false
        }
    }

    /// Starts a background task: the log is cleared and shown, and the
    /// status names the task.
    pub fn start_task(&mut self, label: String)
        requires
            old(self).add_form.wf(),
        ensures
            final(self)@ == (UiView {
                log_lines: Seq::empty(),
                tab: Tab::Logs,
                task_running: true,
                task_label: Some(label@),
                status: Some((label@ + " started \u{2014} see Logs tab"@, false)),
                ..old(self)@
            }),
            final(self).add_form.wf(),
    {
        let msg = cat(label.as_str(), " started \u{2014} see Logs tab");
        self.log_lines = Vec::new();
        self.tab = Tab::Logs;
        self.task_running = true;
        self.task_label = Some(label);
        self.status = Some((msg, false));
        assert(views(self.log_lines@) =~= Seq::<Seq<char>>::empty());
    }
}

/// The label of a pull of the selected project.
pub fn pull_label(force: bool) -> (r: &'static str)
    ensures
        r@ == (if force {
            "pull-selected --force"@
        } else {
            "pull-selected"@
        }),
{
    if force {
        "pull-selected --force"
    } else {
        "pull-selected"
    }
}

/// The first line of a task's log.
pub fn task_banner(display: &str) -> (r: String)
    ensures
        r@ == "-- "@ + display@ + " --"@,
{
    cat3("-- ", display, " --")
}

/// The log line while the task waits for the git lock.
pub fn waiting_line() -> (r: &'static str)
    ensures
        r@ == "\u{26A0} waiting for other git operations to finish..."@,
{
    "\u{26A0} waiting for other git operations to finish..."
}

/// The log line when the git lock could not be taken.
pub fn lock_failed_line(e: &str) -> (r: String)
    ensures
        r@ == "\u{2718} failed to acquire lock: "@ + e@,
{
    cat("\u{2718} failed to acquire lock: ", e)
}

/// The message that ends a task: complete, or finished with errors.
pub fn task_done_message(label: &str, any_failed: bool) -> (r: String)
    ensures
        r@ == label@ + (if any_failed {
            " finished with errors"@
        } else {
            " complete"@
        }),
{
    if any_failed {
        cat(label, " finished with errors")
    } else {
        cat(label, " complete")
    }
}

/// A message from a background task.
#[derive(Debug, Clone)]
pub enum TaskMsg {
    /// A line for the log.
    Log(String),
    /// The task ended, successfully or not, with this message.
    Done { ok: bool, msg: String },
}

impl Ui {
    /// Takes a message of the running task. On its end the task is
    /// cleared and the status shows its message (as an error when it
    /// failed); the answer tells to refresh the repository statuses.
    pub fn on_task_message(&mut self, m: TaskMsg) -> (refresh: bool)
        requires
            old(self).add_form.wf(),
        ensures
            final(self).add_form.wf(),
            (match m {
                TaskMsg::Log(l) => !refresh && final(self)@ == (UiView {
                    log_lines: old(self)@.log_lines.push(l@),
                    ..old(self)@
                }),
                TaskMsg::Done { ok, msg } => refresh && final(self)@ == (UiView {
                    task_running: false,
                    task_label: None,
                    status: Some((msg@, !ok)),
                    ..old(self)@
                }),
            }),
    {
        match m {
            TaskMsg::Log(l) => {
                let ghost before = self.log_lines@;
                self.log_lines.push(l);
                assert(views(self.log_lines@) =~= views(before).push(self.log_lines@.last()@));
                false
            },
            TaskMsg::Done { ok, msg } => {
                self.task_running = false;
                self.task_label = None;
                self.status = Some((msg, !ok));
                true
            },
        }
    }

    /// The task ended without a word: it is cleared.
    pub fn on_task_gone(&mut self)
        requires
            old(self).add_form.wf(),
        ensures
            final(self)@ == with_status(
                UiView { task_running: false, task_label: None, ..old(self)@ },
                "Background task ended"@,
                false,
            ),
            final(self).add_form.wf(),
    {
        self.task_running = false;
        self.task_label = None;
        self.set_status(String::from_str("Background task ended"), false);
    }
}

// ---------------------------------------------------------------------------
// Per project
// ---------------------------------------------------------------------------

/// What a background pull does with a project's directory.
#[derive(Debug, Clone, Copy, PartialEq, Eq, Structural)]
pub enum TaskPull {
    /// Update the repository that is there.
    Pull,
    /// Clone into the missing or empty directory.
    Clone,
    /// Make the files that are there a clone, in place.
    InitInPlace,
}

/// Decides how a background pull treats a project.
pub fn task_pull_plan(exists: bool, is_repo: bool, is_empty: bool) -> (r: TaskPull)
    ensures
        r == (if !exists {
            TaskPull::Clone
        } else if is_repo {
            TaskPull::Pull
        } else if is_empty {
            TaskPull::Clone
        } else {
            TaskPull::InitInPlace
        }),
{
    if !exists {
        TaskPull::Clone
    } else if is_repo {
        TaskPull::Pull
    } else if is_empty {
        TaskPull::Clone
    } else {
        TaskPull::InitInPlace
    }
}

/// The log line of one project's result: `✔ name`, or `✘ name: error`.
pub fn result_line(name: &str, result: &Result<(), String>) -> (r: String)
    ensures
        r@ == (match result {
            Ok(()) => "\u{2714} "@ + name@,
            Err(e) => "\u{2718} "@ + name@ + ": "@ + e@,
        }),
{
    match result {
        Ok(()) => cat("\u{2714} ", name),
        Err(e) => cat4("\u{2718} ", name, ": ", e.as_str()),
    }
}

/// What a background push does next for a project.
#[derive(Debug, Clone, PartialEq, Eq)]
pub enum PushPlan {
    /// Skip it, logging this failure.
    Fail(String),
    /// Commit its changes with the given message, then push.
    Commit,
    /// Push it.
    Push,
}

/// The model of a [`PushPlan`].
pub enum PushPlanView {
    Fail(Seq<char>),
    Commit,
    Push,
}

impl View for PushPlan {
    type V = PushPlanView;

    open spec fn view(&self) -> PushPlanView {
        match self {
            PushPlan::Fail(m) => PushPlanView::Fail(m@),
            PushPlan::Commit => PushPlanView::Commit,
            PushPlan::Push => PushPlanView::Push,
        }
    }
}

/// The plan for a project: its directory must exist and hold a
/// repository; with a commit message, a dirty repository is committed
/// first; without one, a dirty repository is refused. `dirty` is what
/// asking git for changes gave.
pub open spec fn push_plan_spec(name: Seq<char>, exists: bool, is_repo: bool, dirty: Result<bool, Seq<char>>, with_message: bool) -> PushPlanView {
    if !exists {
        PushPlanView::Fail("\u{2718} "@ + name + ": missing (run pull first)"@)
    } else if !is_repo {
        PushPlanView::Fail("\u{2718} "@ + name + ": not a git repo"@)
    } else if with_message {
        match dirty {
            Ok(true) => PushPlanView::Commit,
            Ok(false) => PushPlanView::Push,
            Err(e) => PushPlanView::Fail("\u{2718} "@ + name + ": "@ + e),
        }
    } else {
        match dirty {
            Ok(true) => PushPlanView::Fail("\u{2718} "@ + name + ": has uncommitted changes (commit required)"@),
            _ => PushPlanView::Push,
        }
    }
}

/// Decides what a background push does with a project.
pub fn push_plan(name: &str, exists: bool, is_repo: bool, dirty: &Result<bool, String>, with_message: bool) -> (r: PushPlan)
    ensures
        r@ == push_plan_spec(name@, exists, is_repo, match dirty {
            Ok(b) => Ok(*b),
            Err(e) => Err(e@),
        }, with_message),
{
    if !exists {
        PushPlan::Fail(cat3("\u{2718} ", name, ": missing (run pull first)"))
    } else if !is_repo {
        PushPlan::Fail(cat3("\u{2718} ", name, ": not a git repo"))
    } else if with_message {
        match dirty {
            Ok(true) => PushPlan::Commit,
            Ok(false) => PushPlan::Push,
            Err(e) => PushPlan::Fail(cat4("\u{2718} ", name, ": ", e.as_str())),
        }
    } else {
        match dirty {
            Ok(true) => PushPlan::Fail(cat3("\u{2718} ", name, ": has uncommitted changes (commit required)")),
            _ => PushPlan::Push,
        }
    }
}

/// The log line after a commit: `● name: committed`, or the failure (after
/// which the project is not pushed).
pub fn commit_line(name: &str, result: &Result<(), String>) -> (r: String)
    ensures
        r@ == (match result {
            Ok(()) => "\u{25CF} "@ + name@ + ": committed"@,
            Err(e) => "\u{2718} "@ + name@ + ": commit failed: "@ + e@,
        }),
{
    match result {
        Ok(()) => cat3("\u{25CF} ", name, ": committed"),
        Err(e) => cat4("\u{2718} ", name, ": commit failed: ", e.as_str()),
    }
}

/// The log line after a push.
pub fn pushed_line(name: &str, result: &Result<(), String>) -> (r: String)
    ensures
        r@ == (match result {
            Ok(()) => "\u{2714} "@ + name@ + " pushed"@,
            Err(e) => "\u{2718} "@ + name@ + ": "@ + e@,
        }),
{
    match result {
        Ok(()) => cat3("\u{2714} ", name, " pushed"),
        Err(e) => cat4("\u{2718} ", name, ": ", e.as_str()),
    }
}

/// The log line before a level of several repositories; none for one.
pub fn push_level_line(index: usize, count: usize) -> (r: Option<String>)
    requires
        index < usize::MAX,
    ensures
        count <= 1 ==> r is None,
        count > 1 ==> (r matches Some(t) && t@ == "level "@ + crate::text::decimal((index + 1) as nat) + ": "@
            + crate::text::decimal(count as nat) + " repos"@),
{
    if count <= 1 {
        return None;
    }
    let i = crate::text::u64_to_decimal((index + 1) as u64);
    let n = crate::text::u64_to_decimal(count as u64);
    let mut t = cat4("level ", i.as_str(), ": ", n.as_str());
    t.append(" repos");
    Some(t)
}

// ---------------------------------------------------------------------------
// Asking before a push
// ---------------------------------------------------------------------------

/// What asking git whether a project has changes gave, for the projects a
/// push of all would touch: skipped (missing or not a repository), or the
/// answer.
#[derive(Debug)]
pub enum DirtyProbe {
    Skipped,
    Answer(Result<bool, String>),
}

/// What a push of all projects does first: ask for a commit message when
/// some project has changes, report the first probe that failed, or start.
pub open spec fn push_all_spec(names: Seq<Seq<char>>, probes: Seq<DirtyProbe>, i: int) -> Result<bool, Seq<char>>
    decreases probes.len() - i,
{
    if i < 0 || i >= probes.len() {
        Ok(false)
    } else {
        match probes[i] {
            DirtyProbe::Answer(Ok(true)) => Ok(true),
            DirtyProbe::Answer(Err(e)) => Err(names[i] + ": "@ + e@),
            _ => push_all_spec(names, probes, i + 1),
        }
    }
}

impl Ui {
    /// The first step of pushing every project: with a dirty project, the
    /// commit prompt opens; when a probe fails, the status reports it;
    /// otherwise the answer is to start the push right away.
    /// `probes[i]` belongs to the `i`-th project.
    pub fn request_push_all(&mut self, cfg: &WorkspaceConfig, probes: &Vec<DirtyProbe>) -> (start: bool)
        requires
            old(self).add_form.wf(),
            probes@.len() == cfg.projects@.len(),
        ensures
            final(self).add_form.wf(),
            (match push_all_spec(cfg.projects@.map_values(|p: Project| p.name@), probes@, 0) {
                Ok(true) => !start && final(self)@ == (UiView {
                    show_commit_prompt: true,
                    commit_input: Seq::empty(),
                    pending_push: Some(PushScope::All),
                    ..old(self)@
                }),
                Ok(false) => start && final(self)@ == old(self)@,
                Err(m) => !start && final(self)@ == with_status(old(self)@, m, true),
            }),
    {
        let ghost names = cfg.projects@.map_values(|p: Project| p.name@);
        let mut i: usize = 0;
        while i < probes.len()
            invariant
                i <= probes@.len(),
                probes@.len() == cfg.projects@.len(),
                names == cfg.projects@.map_values(|p: Project| p.name@),
                push_all_spec(names, probes@, i as int) == push_all_spec(names, probes@, 0),
                *self == *old(self),
                old(self).add_form.wf(),
            decreases probes@.len() - i,
        {
            match &probes[i] {
                DirtyProbe::Answer(Ok(true)) => {
                    self.show_commit_prompt = true;
                    self.commit_input = String::new();
                    self.pending_push = Some(PushScope::All);
                    return false;
                },
                DirtyProbe::Answer(Err(e)) => {
                    assert(names[i as int] == cfg.projects@[i as int].name@);
                    self.set_status(cat3(cfg.projects[i].name.as_str(), ": ", e.as_str()), true);
                    return false;
                },
                _ => {},
            }
            i += 1;
        }
        true
    }

    /// The first step of pushing the selected project (at `index`, in
    /// directory `dir`): it must exist and be a repository; when dirty the
    /// commit prompt opens; the answer tells to start the push now.
    pub fn request_push_selected(
        &mut self,
        index: usize,
        name: &str,
        dir: &str,
        exists: bool,
        is_repo: bool,
        dirty: &Result<bool, String>,
    ) -> (start: bool)
        requires
            old(self).add_form.wf(),
        ensures
            final(self).add_form.wf(),
            !exists ==> !start && final(self)@ == with_status(old(self)@, "'"@ + dir@ + "' not found \u{2014} run pull first"@, true),
            exists && !is_repo ==> !start && final(self)@ == with_status(old(self)@, "'"@ + dir@ + "' is not a git repo"@, true),
            exists && is_repo ==> (match dirty {
                Ok(true) => !start && final(self)@ == (UiView {
                    show_commit_prompt: true,
                    commit_input: Seq::empty(),
                    pending_push: Some(PushScope::Selected(index)),
                    ..old(self)@
                }),
                Ok(false) => start && final(self)@ == old(self)@,
                Err(e) => !start && final(self)@ == with_status(old(self)@, name@ + ": "@ + e@, true),
            }),
    {
        if !exists {
            self.set_status(cat3("'", dir, "' not found \u{2014} run pull first"), true);
            return false;
        }
        if !is_repo {
            self.set_status(cat3("'", dir, "' is not a git repo"), true);
            return false;
        }
        match dirty {
            Ok(true) => {
                self.show_commit_prompt = true;
                self.commit_input = String::new();
                self.pending_push = Some(PushScope::Selected(index));
                false
            },
            Ok(false) => true,
            Err(e) => {
                self.set_status(cat3(name, ": ", e.as_str()), true);
                false
            },
        }
    }
}

// ---------------------------------------------------------------------------
// Deleting a local copy, removing a project
// ---------------------------------------------------------------------------

impl Ui {
    /// Asks before deleting a project's local copy: never the workspace
    /// root, never a missing directory.
    pub fn request_delete(&mut self, name: &str, dir: &str, exists: bool)
        requires
            old(self).add_form.wf(),
        ensures
            final(self).add_form.wf(),
            normal_dir(dir@) == seq!['.'] ==> final(self)@ == with_status(old(self)@, "Refusing to delete workspace root (path '.')"@, true),
            normal_dir(dir@) != seq!['.'] && !exists ==> final(self)@ == with_status(old(self)@, "Local copy for '"@ + name@ + "' not found"@, true),
            normal_dir(dir@) != seq!['.'] && exists ==> final(self)@ == with_status(
                UiView { confirm_delete: true, pending_delete: Some((name@, dir@)), ..old(self)@ },
                "Delete local copy of '"@ + name@ + "' ? Press y to confirm, n/Esc to cancel"@,
                true,
            ),
    {
        let normal = normalize_local_dir(dir);
        let mut root: Vec<char> = Vec::new();
        root.push('.');
        assert(root@ =~= seq!['.']);
        let root_s = crate::text::string_of(&root);
        if str_eq(normal.as_str(), root_s.as_str()) {
            self.set_status(String::from_str("Refusing to delete workspace root (path '.')"), true);
            return;
        }
        if !exists {
            self.set_status(cat3("Local copy for '", name, "' not found"), true);
            return;
        }
        self.confirm_delete = true;
        self.pending_delete = Some((String::from_str(name), String::from_str(dir)));
        self.set_status(cat3("Delete local copy of '", name, "' ? Press y to confirm, n/Esc to cancel"), true);
    }

    /// Ends a confirmed deletion with its result; the answer tells to
    /// refresh the repository statuses.
    pub fn finish_delete(&mut self, result: &Result<(), String>) -> (refresh: bool)
        requires
            old(self).add_form.wf(),
        ensures
            final(self).add_form.wf(),
            final(self)@.confirm_delete == false,
            final(self)@.pending_delete is None,
            refresh == (result is Ok && old(self)@.pending_delete is Some),
            (match old(self)@.pending_delete {
                None => final(self)@.status == Some(("Delete cancelled"@, false)),
                Some((n, _)) => final(self)@.status == Some(match result {
                    Ok(()) => ("Deleted local copy of '"@ + n + "'"@, false),
                    Err(e) => ("Delete failed for '"@ + n + "': "@ + e@, true),
                }),
            }),
    {
        let refresh = match &self.pending_delete {
            None => {
                self.set_status(String::from_str("Delete cancelled"), false);
                false
            },
            Some((n, _)) => match result {
                Ok(()) => {
                    let m = cat3("Deleted local copy of '", n.as_str(), "'");
                    self.status = Some((m, false));
                    true
                },
                Err(e) => {
                    let mut m = cat3("Delete failed for '", n.as_str(), "': ");
                    m.append(e.as_str());
                    self.status = Some((m, true));
                    false
                },
            },
        };
        self.confirm_delete = false;
        self.pending_delete = None;
        refresh
    }

    /// After the selected project was removed and the configuration saved:
    /// the selection stays within the `len` remaining projects.
    pub fn after_remove(&mut self, name: &str, len: usize)
        requires
            old(self).add_form.wf(),
        ensures
            final(self).add_form.wf(),
            final(self)@ == with_status(
                UiView {
                    project_count: len,
                    selected: if len == 0 {
                        None
                    } else {
                        Some(
                            if (match old(self)@.selected {
                                Some(i) => i,
                                None => 0,
                            }) < len - 1 {
                                match old(self)@.selected {
                                    Some(i) => i,
                                    None => 0usize,
                                }
                            } else {
                                (len - 1) as usize
                            },
                        )
                    },
                    ..old(self)@
                },
                "Removed '"@ + name@ + "'"@,
                false,
            ),
            len > 0 ==> (final(self)@.selected matches Some(i) && i < len),
    {
        let sel = match self.selected {
            Some(i) => i,
            None => 0,
        };
        if len == 0 {
            self.selected = None;
        } else {
            self.selected = Some(if sel < len - 1 {
                sel
            } else {
                len - 1
            });
        }
        self.project_count = len;
        self.set_status(cat3("Removed '", name, "'"), false);
    }
}

// ---------------------------------------------------------------------------
// The add-project form
// ---------------------------------------------------------------------------

/// The pieces of a text between commas, as `str::split(',')` yields them,
/// read after the finished pieces `done` and the unfinished piece `cur`.
pub open spec fn pieces_from(s: Seq<char>, done: Seq<Seq<char>>, cur: Seq<char>) -> Seq<Seq<char>>
    decreases s.len(),
{
    if s.len() == 0 {
        done.push(cur)
    } else if s[0] == ',' {
        pieces_from(s.drop_first(), done.push(cur), Seq::empty())
    } else {
        pieces_from(s.drop_first(), done, cur.push(s[0]))
    }
}

/// The dependencies typed in the form: none for an empty field, else the
/// comma-separated names, each trimmed.
pub open spec fn form_deps(text: Seq<char>) -> Option<Seq<Seq<char>>> {
    let t = trim(text);
    if t.len() == 0 {
        None
    } else {
        Some(pieces_from(t, Seq::empty(), Seq::empty()).map_values(|p: Seq<char>| trim(p)))
    }
}

/// A trimmed field, or none when it is empty.
pub open spec fn optional_field(text: Seq<char>) -> Option<Seq<char>> {
    if trim(text).len() == 0 {
        None
    } else {
        Some(trim(text))
    }
}

/// The path typed in the form: none when empty or the same as the name.
pub open spec fn form_path(name: Seq<char>, text: Seq<char>) -> Option<Seq<char>> {
    if trim(text).len() == 0 || trim(text) == name {
        None
    } else {
        Some(trim(text))
    }
}

/// The directory the form asks for: the trimmed path, unless it is empty
/// or repeats the name, else the trimmed name.
pub open spec fn form_dir(f: Seq<Seq<char>>) -> Seq<char> {
    match form_path(trim(f[0]), f[1]) {
        Some(p) => p,
        None => trim(f[0]),
    }
}

/// Why the form is refused, in the order the checks are made; `absolute`
/// tells whether the requested directory ([`form_dir`]) is absolute on this
/// platform.
pub open spec fn form_check(f: Seq<Seq<char>>, ps: Option<Seq<Project>>, absolute: bool) -> Option<Seq<char>> {
    let name = trim(f[0]);
    let url = trim(f[2]);
    let dir = match form_path(name, f[1]) {
        Some(p) => p,
        None => name,
    };
    if name.len() == 0 || url.len() == 0 {
        Some("Name and URL are required"@)
    } else {
        match ps {
            None => Some("No workspace loaded. Run `polyws init` first."@),
            Some(ps) => if has_name(ps, name) {
                Some("'"@ + name + "' already exists"@)
            } else if absolute {
                Some("project path must be relative to workspace root"@)
            } else if dir_used(ps, normal_dir(dir)) {
                Some("project path '"@ + dir + "' is already used"@)
            } else {
                None
            },
        }
    }
}

/// `p` is the project the form describes.
pub open spec fn is_form_project(p: Project, f: Seq<Seq<char>>) -> bool {
    let name = trim(f[0]);
    &&& p.name@ == name
    &&& (match form_path(name, f[1]) {
        Some(x) => p.path matches Some(q) && q@ == x,
        None => p.path is None,
    })
    &&& p.url@ == trim(f[2])
    &&& p.branch@ == (if trim(f[3]).len() == 0 {
        "main"@
    } else {
        trim(f[3])
    })
    &&& (match optional_field(f[4]) {
        Some(x) => p.sync_url matches Some(q) && q@ == x,
        None => p.sync_url is None,
    })
    &&& (match form_deps(f[5]) {
        Some(ds) => p.depends_on matches Some(d) && views(d@) == ds,
        None => p.depends_on is None,
    })
    &&& p.sync_interval is None
}

fn optional(text: &str) -> (r: Option<String>)
    ensures
        (match r {
            Some(s) => Some(s@),
            None => None,
        }) == optional_field(text@),
{
    let t = trim_str(text);
    if t.as_str().is_empty() {
        None
    } else {
        Some(t)
    }
}

fn split_deps(text: &str) -> (r: Option<Vec<String>>)
    ensures
        (match r {
            Some(v) => Some(views(v@)),
            None => None,
        }) == form_deps(text@),
{
    let t = trim_str(text);
    if t.as_str().is_empty() {
        return None;
    }
    let v = crate::text::chars_of(t.as_str());
    let mut out: Vec<String> = Vec::new();
    let mut cur: Vec<char> = Vec::new();
    let mut i: usize = 0;
    let ghost all = t@;
    assert(v@.subrange(0, v.len() as int) =~= v@);
    assert(out@.map_values(|s: String| trim(s@)) =~= Seq::<Seq<char>>::empty().map_values(|p: Seq<char>| trim(p)));
    let ghost mut raw: Seq<Seq<char>> = Seq::empty();
    while i < v.len()
        invariant
            i <= v.len(),
            v@ == all,
            out@.map_values(|s: String| s@) == raw.map_values(|p: Seq<char>| trim(p)),
            pieces_from(v@.subrange(i as int, v.len() as int), raw, cur@) == pieces_from(all, Seq::empty(), Seq::empty()),
        decreases v.len() - i,
    {
        let ghost rest = v@.subrange(i as int, v.len() as int);
        assert(rest.drop_first() =~= v@.subrange(i + 1, v.len() as int));
        if v[i] == ',' {
            let piece = crate::text::string_of(&cur);
            let tp = trim_str(piece.as_str());
            let ghost before = out@;
            out.push(tp);
            proof {
                assert(out@.map_values(|s: String| s@) =~= before.map_values(|s: String| s@).push(trim(cur@)));
                assert(raw.push(cur@).map_values(|p: Seq<char>| trim(p)) =~= raw.map_values(|p: Seq<char>| trim(p)).push(trim(cur@)));
                raw = raw.push(cur@);
            }
            cur = Vec::new();
            assert(cur@ =~= Seq::<char>::empty());
        } else {
            cur.push(v[i]);
        }
        i += 1;
    }
    let piece = crate::text::string_of(&cur);
    let tp = trim_str(piece.as_str());
    let ghost before = out@;
    out.push(tp);
    proof {
        assert(v@.subrange(v.len() as int, v.len() as int) =~= Seq::<char>::empty());
        assert(out@.map_values(|s: String| s@) =~= before.map_values(|s: String| s@).push(trim(cur@)));
        assert(raw.push(cur@).map_values(|p: Seq<char>| trim(p)) =~= raw.map_values(|p: Seq<char>| trim(p)).push(trim(cur@)));
    }
    assert(views(out@) =~= out@.map_values(|s: String| s@));
    Some(out)
}

/// The project the add-project form describes, or why it is refused (see
/// [`form_check`]): `projects` are those of the loaded workspace, if any;
/// `absolute` whether the requested directory is absolute on this platform.
pub fn form_project_checked(form: &AddForm, projects: Option<&Vec<Project>>, absolute: bool) -> (r: Result<Project, String>)
    requires
        form.wf(),
    ensures
        (match r {
            Ok(_) => None,
            Err(e) => Some(e@),
        }) == form_check(form.texts(), match projects {
            Some(ps) => Some(ps@),
            None => None,
        }, absolute),
        r matches Ok(p) ==> is_form_project(p, form.texts()),
{
    let ghost f = form.texts();
    assert(f[0] == form.fields@[0]@ && f[1] == form.fields@[1]@ && f[2] == form.fields@[2]@);
    assert(f[3] == form.fields@[3]@ && f[4] == form.fields@[4]@ && f[5] == form.fields@[5]@);
    let name = trim_str(form.fields[0].as_str());
    let p = trim_str(form.fields[1].as_str());
    let path = if p.as_str().is_empty() || str_eq(p.as_str(), name.as_str()) {
        None
    } else {
        Some(p)
    };
    let url = trim_str(form.fields[2].as_str());
    let b = trim_str(form.fields[3].as_str());
    let branch = if b.as_str().is_empty() {
        String::from_str("main")
    } else {
        b
    };
    let sync_url = optional(form.fields[4].as_str());
    let depends_on = split_deps(form.fields[5].as_str());
    if name.as_str().is_empty() || url.as_str().is_empty() {
        return Err(String::from_str("Name and URL are required"));
    }
    let ps = match projects {
        Some(ps) => ps,
        None => return Err(String::from_str("No workspace loaded. Run `polyws init` first.")),
    };
    proof {
        crate::config::lemma_resolve_has_name(ps@, name@);
    }
    if crate::config::find_project_index(ps, name.as_str()).is_some() {
        return Err(cat3("'", name.as_str(), "' already exists"));
    }
    let dir = match &path {
        Some(x) => String::from_str(x.as_str()),
        None => String::from_str(name.as_str()),
    };
    if absolute {
        return Err(String::from_str("project path must be relative to workspace root"));
    }
    let requested = normalize_local_dir(dir.as_str());
    if dir_in_use(ps, requested.as_str()) {
        return Err(cat3("project path '", dir.as_str(), "' is already used"));
    }
    Ok(Project { name, path, url, branch, depends_on, sync_url, sync_interval: None })
}

/// The project the add-project form describes, asking the platform whether
/// the requested directory is absolute; the outcome is that of one of the
/// two answers (see [`form_project_checked`]), and that of "not absolute"
/// where the directory is relative on every platform.
pub fn form_project(form: &AddForm, projects: Option<&Vec<Project>>) -> (r: Result<Project, String>)
    requires
        form.wf(),
    ensures
        (match r {
            Ok(_) => None,
            Err(e) => Some(e@),
        }) == form_check(form.texts(), match projects {
            Some(ps) => Some(ps@),
            None => None,
        }, false) || (match r {
            Ok(_) => None,
            Err(e) => Some(e@),
        }) == form_check(form.texts(), match projects {
            Some(ps) => Some(ps@),
            None => None,
        }, true),
        crate::workspace::plainly_relative(form_dir(form.texts())) ==> (match r {
            Ok(_) => None,
            Err(e) => Some(e@),
        }) == form_check(form.texts(), match projects {
            Some(ps) => Some(ps@),
            None => None,
        }, false),
        r matches Ok(p) ==> is_form_project(p, form.texts()),
{
    let ghost f = form.texts();
    assert(f[0] == form.fields@[0]@ && f[1] == form.fields@[1]@);
    let name = trim_str(form.fields[0].as_str());
    let p = trim_str(form.fields[1].as_str());
    let dir = if p.as_str().is_empty() || str_eq(p.as_str(), name.as_str()) {
        name
    } else {
        p
    };
    assert(dir@ == form_dir(f));
    let absolute = crate::workspace::path_is_absolute(dir.as_str());
    form_project_checked(form, projects, absolute)
}

impl Ui {
    /// After the project of the form was added and saved: the form closes
    /// and resets, and the status names the project.
    pub fn after_add(&mut self, name: &str)
        requires
            old(self).add_form.wf(),
        ensures
            final(self).add_form.wf(),
            final(self)@ == with_status(
                UiView {
                    show_add_form: false,
                    form: crate::tui::keys::empty_form(),
                    focused: 0,
                    project_count: if old(self)@.project_count < usize::MAX {
                        (old(self)@.project_count + 1) as usize
                    } else {
                        old(self)@.project_count
                    },
                    ..old(self)@
                },
                "Added '"@ + name@ + "'"@,
                false,
            ),
    {
        if self.project_count < usize::MAX {
            self.project_count = self.project_count + 1;
        }
        self.show_add_form = false;
        self.add_form = AddForm::new();
        self.set_status(cat3("Added '", name, "'"), false);
    }
}

// ---------------------------------------------------------------------------
// Doctor and exec in the log view
// ---------------------------------------------------------------------------

/// The doctor line of one tool.
pub open spec fn tool_line(t: (Seq<char>, bool)) -> Seq<char> {
    if t.1 {
        "\u{2714} "@ + t.0
    } else {
        "\u{2718} "@ + t.0
    }
}

/// The doctor line of one repository.
pub open spec fn repo_line(name: Seq<char>, p: crate::doctor::Presence) -> Seq<char> {
    match p {
        crate::doctor::Presence::Repo => "\u{2714} repo '"@ + name + "' present"@,
        crate::doctor::Presence::NotARepo => "\u{2718} '"@ + name + "' exists but not a git repo"@,
        crate::doctor::Presence::Missing => "\u{26A0} repo '"@ + name + "' not cloned"@,
    }
}

/// The doctor lines of the log view: a check mark or a cross per tool,
/// the internet probe, then the workspace and each repository.
pub open spec fn doctor_lines_spec(
    tools: Seq<(Seq<char>, bool)>,
    online: bool,
    cfg: Option<WorkspaceConfig>,
    found: Seq<crate::doctor::Presence>,
) -> Seq<Seq<char>> {
    tools.map_values(|t: (Seq<char>, bool)| tool_line(t)) + seq![if online {
        "\u{2714} internet reachable"@
    } else {
        "\u{2718} internet not reachable"@
    }] + match cfg {
        Some(c) => seq!["\u{2714} workspace '"@ + c.name@ + "' loaded"@] + Seq::new(
            c.projects@.len(),
            |i: int| repo_line(c.projects@[i].name@, found[i]),
        ),
        None => seq!["\u{26A0} no workspace config found"@],
    }
}

/// Whether a tool probe passed: it ran and succeeded, or wrote to its
/// error output.
pub fn tool_ok(o: &crate::report::Outcome) -> (r: bool)
    ensures
        r == (match o {
            crate::report::Outcome::Exited(e) => e.success || e.stderr@.len() > 0,
            crate::report::Outcome::NotRun(_) => false,
        }),
{
    match o {
        crate::report::Outcome::Exited(e) => e.success || !e.stderr.as_str().is_empty(),
        crate::report::Outcome::NotRun(_) => false,
    }
}

/// The doctor lines of the log view (see [`doctor_lines_spec`]): `tools`
/// holds each check's label and whether it passed, `found[i]` what the
/// `i`-th project's directory holds.
pub fn doctor_lines(
    tools: &Vec<(String, bool)>,
    online: bool,
    cfg: Option<&WorkspaceConfig>,
    found: &Vec<crate::doctor::Presence>,
) -> (r: Vec<String>)
    requires
        cfg matches Some(c) ==> found@.len() == c.projects@.len(),
    ensures
        views(r@) == doctor_lines_spec(
            tools@.map_values(|t: (String, bool)| (t.0@, t.1)),
            online,
            match cfg {
                Some(c) => Some(*c),
                None => None,
            },
            found@,
        ),
{
    let ghost tv = tools@.map_values(|t: (String, bool)| (t.0@, t.1));
    let mut r: Vec<String> = Vec::new();
    let mut i: usize = 0;
    while i < tools.len()
        invariant
            i <= tools@.len(),
            tv == tools@.map_values(|t: (String, bool)| (t.0@, t.1)),
            views(r@) == tv.take(i as int).map_values(|t: (Seq<char>, bool)| tool_line(t)),
        decreases tools@.len() - i,
    {
        let ghost before = views(r@);
        if tools[i].1 {
            r.push(cat("\u{2714} ", tools[i].0.as_str()));
        } else {
            r.push(cat("\u{2718} ", tools[i].0.as_str()));
        }
        assert(tv.take(i + 1) =~= tv.take(i as int).push(tv[i as int]));
        assert(tv[i as int] == (tools@[i as int].0@, tools@[i as int].1));
        assert(views(r@) =~= before.push(tool_line(tv[i as int])));
        assert(views(r@) =~= tv.take(i + 1).map_values(|t: (Seq<char>, bool)| tool_line(t)));
        i += 1;
    }
    assert(tv.take(tools@.len() as int) =~= tv);
    let ghost after_tools = views(r@);
    if online {
        r.push(String::from_str("\u{2714} internet reachable"));
    } else {
        r.push(String::from_str("\u{2718} internet not reachable"));
    }
    let ghost after_net = views(r@);
    assert(after_net =~= after_tools + seq![if online {
        "\u{2714} internet reachable"@
    } else {
        "\u{2718} internet not reachable"@
    }]);
    match cfg {
        Some(c) => {
            r.push(cat3("\u{2714} workspace '", c.name.as_str(), "' loaded"));
            let ghost head = views(r@);
            let mut k: usize = 0;
            while k < c.projects.len()
                invariant
                    k <= c.projects@.len(),
                    found@.len() == c.projects@.len(),
                    views(r@) == head + Seq::new(k as nat, |i: int| repo_line(c.projects@[i].name@, found@[i])),
                decreases c.projects@.len() - k,
            {
                let name = c.projects[k].name.as_str();
                let ghost before = views(r@);
                match found[k] {
                    crate::doctor::Presence::Repo => r.push(cat3("\u{2714} repo '", name, "' present")),
                    crate::doctor::Presence::NotARepo => r.push(cat3("\u{2718} '", name, "' exists but not a git repo")),
                    crate::doctor::Presence::Missing => r.push(cat3("\u{26A0} repo '", name, "' not cloned")),
                }
                assert(views(r@) =~= before.push(repo_line(c.projects@[k as int].name@, found@[k as int])));
                assert(views(r@) =~= head + Seq::new((k + 1) as nat, |i: int| repo_line(c.projects@[i].name@, found@[i])));
                k += 1;
            }
        },
        None => {
            r.push(String::from_str("\u{26A0} no workspace config found"));
        },
    }
    assert(views(r@) =~= doctor_lines_spec(tv, online, match cfg {
        Some(c) => Some(*c),
        None => None,
    }, found@));
    r
}

/// The lines one project adds to the log of an `exec` run: its output
/// under its name, or its error output after a cross, or why it could not
/// run.
pub open spec fn exec_lines_spec(name: Seq<char>, o: crate::report::Outcome) -> Seq<Seq<char>> {
    match o {
        crate::report::Outcome::Exited(e) => if e.success {
            seq!["\u{2500}\u{2500} "@ + name + " \u{2500}\u{2500}"@] + crate::parse::lines_of(e.stdout@).map_values(
                |l: Seq<char>| "   "@ + l,
            )
        } else {
            seq!["\u{2718} "@ + name + " failed"@] + crate::parse::lines_of(e.stderr@).map_values(|l: Seq<char>| "   "@ + l)
        },
        crate::report::Outcome::NotRun(e) => seq!["\u{2718} "@ + name + ": "@ + e@],
    }
}

fn indented(text: &str) -> (r: Vec<String>)
    ensures
        views(r@) == crate::parse::lines_of(text@).map_values(|l: Seq<char>| "   "@ + l),
{
    let ls = crate::parse::lines(text);
    let ghost lv = views(ls@);
    let mut r: Vec<String> = Vec::new();
    let mut i: usize = 0;
    while i < ls.len()
        invariant
            i <= ls@.len(),
            lv == views(ls@),
            views(r@) == lv.take(i as int).map_values(|l: Seq<char>| "   "@ + l),
        decreases ls@.len() - i,
    {
        let ghost before = views(r@);
        r.push(cat("   ", ls[i].as_str()));
        assert(lv.take(i + 1) =~= lv.take(i as int).push(lv[i as int]));
        assert(views(r@) =~= before.push("   "@ + lv[i as int]));
        assert(views(r@) =~= lv.take(i + 1).map_values(|l: Seq<char>| "   "@ + l));
        i += 1;
    }
    assert(lv.take(ls@.len() as int) =~= lv);
    r
}

/// The lines one project adds to the log of an `exec` run.
pub fn exec_lines(name: &str, outcome: &crate::report::Outcome) -> (r: Vec<String>)
    ensures
        views(r@) == exec_lines_spec(name@, *outcome),
{
    let mut r: Vec<String> = Vec::new();
    match outcome {
        crate::report::Outcome::Exited(e) => {
            if e.success {
                r.push(cat3("\u{2500}\u{2500} ", name, " \u{2500}\u{2500}"));
                let mut rest = indented(e.stdout.as_str());
                let ghost a = views(r@);
                let ghost b = views(rest@);
                r.append(&mut rest);
                assert(views(r@) =~= a + b);
            } else {
                r.push(cat3("\u{2718} ", name, " failed"));
                let mut rest = indented(e.stderr.as_str());
                let ghost a = views(r@);
                let ghost b = views(rest@);
                r.append(&mut rest);
                assert(views(r@) =~= a + b);
            }
        },
        crate::report::Outcome::NotRun(e) => {
            r.push(cat4("\u{2718} ", name, ": ", e.as_str()));
        },
    }
    assert(views(r@) =~= exec_lines_spec(name@, *outcome));
    r
}

/// The log line before each level of an `exec` run, counted from 1.
pub fn exec_level_line(index: usize) -> (r: String)
    requires
        index < usize::MAX,
    ensures
        r@ == "-- Level "@ + decimal((index + 1) as nat) + " --"@,
{
    let n = crate::text::u64_to_decimal((index + 1) as u64);
    cat3("-- Level ", n.as_str(), " --")
}

// ---------------------------------------------------------------------------
// Results of the other actions
// ---------------------------------------------------------------------------

impl Ui {
    /// After starting or stopping the daemon (`was_running` tells which):
    /// on success the flag flips and the status says so; an error is shown.
    pub fn after_toggle_sync(&mut self, was_running: bool, result: &Result<(), String>)
        requires
            old(self).add_form.wf(),
        ensures
            final(self).add_form.wf(),
            (match result {
                Ok(()) => final(self)@ == with_status(
                    UiView { sync_running: !was_running, ..old(self)@ },
                    if was_running {
                        "Sync daemon stopped"@
                    } else {
                        "Sync daemon started"@
                    },
                    false,
                ),
                Err(e) => final(self)@ == with_status(old(self)@, e@, true),
            }),
    {
        match result {
            Ok(()) => {
                self.sync_running = !was_running;
                if was_running {
                    self.set_status(String::from_str("Sync daemon stopped"), false);
                } else {
                    self.set_status(String::from_str("Sync daemon started"), false);
                }
            },
            Err(e) => self.set_status(e.clone(), true),
        }
    }

    /// Shows how an action went: `done` on success, or the error after
    /// `failed` (for instance `Snapshot failed: `).
    pub fn report_result(&mut self, result: &Result<(), String>, done: &str, failed: &str)
        requires
            old(self).add_form.wf(),
        ensures
            final(self).add_form.wf(),
            final(self)@ == (match result {
                Ok(()) => with_status(old(self)@, done@, false),
                Err(e) => with_status(old(self)@, failed@ + e@, true),
            }),
    {
        match result {
            Ok(()) => self.set_status(String::from_str(done), false),
            Err(e) => self.set_status(cat(failed, e.as_str()), true),
        }
    }

    /// After `i` initialised a workspace of the given name, or failed.
    pub fn after_init(&mut self, result: &Result<String, String>)
        requires
            old(self).add_form.wf(),
        ensures
            final(self).add_form.wf(),
            final(self)@ == (match result {
                Ok(n) => with_status(old(self)@, "Workspace '"@ + n@ + "' initialized \u{2014} add projects with  a "@, false),
                Err(e) => with_status(old(self)@, "Init failed: "@ + e@, true),
            }),
    {
        match result {
            Ok(n) => self.set_status(cat3("Workspace '", n.as_str(), "' initialized \u{2014} add projects with  a "), false),
            Err(e) => self.set_status(cat("Init failed: ", e.as_str()), true),
        }
    }
}

} // verus!
