//! Git: the decisions polyws makes around the `git` commands it runs. The
//! commands themselves run outside the library; multi-step operations are
//! state machines here, which name the next command and take its outcome.
use vstd::prelude::*;

use crate::clock::{is_local_stamp, local_timestamp};
use crate::report::{Exit, Outcome};
use crate::vm::ssh::views;
use crate::text::{
    ascii_lower, ascii_lower_chars, cat, chars_of, contains, count_lines, decimal_int, i64_to_decimal,
    is_space, join, join_strings, lemma_trim_blank, line_count, seq_contains, str_eq, string_of, trim, trim_str,
};

verus! {

/// The hint attached to a git failure message, judged on its ASCII
/// lowercase form.
pub open spec fn git_hint(message: Seq<char>) -> Option<Seq<char>> {
    let l = message.map_values(|c: char| ascii_lower(c));
    if seq_contains(l, "permission denied (publickey)"@) {
        Some("SSH auth failed. Check your SSH key, ssh-agent, and host alias in ~/.ssh/config."@)
    } else if seq_contains(l, "authentication failed"@) {
        Some("Authentication failed. Verify HTTPS credentials/token or SSH key access."@)
    } else if seq_contains(l, "repository not found"@) {
        Some("Repository was not found or access is missing. Verify repo URL and permissions."@)
    } else if seq_contains(l, "could not resolve host"@) || seq_contains(l, "name or service not known"@)
        || seq_contains(l, "temporary failure in name resolution"@) {
        Some("Host lookup failed. Check repository URL/host alias and network DNS."@)
    } else if seq_contains(l, "connection timed out"@) || seq_contains(l, "connection refused"@) {
        Some("Connection failed. Check network/VPN/firewall and remote availability."@)
    } else {
        None
    }
}

fn has(l: &Vec<char>, needle: &str) -> (b: bool)
    ensures
        b == seq_contains(l@, needle@),
{
    let n = chars_of(needle);
    contains(l, &n)
}

/// A hint for common git failures (authentication, missing repository,
/// host lookup, connection).
pub fn classify_git_hint(message: &str) -> (r: Option<String>)
    ensures
        r matches Some(h) ==> git_hint(message@) == Some(h@),
        r is None <==> git_hint(message@) is None,
{
    let m = chars_of(message);
    let l = ascii_lower_chars(&m);
    if has(&l, "permission denied (publickey)") {
        Some(String::from_str("SSH auth failed. Check your SSH key, ssh-agent, and host alias in ~/.ssh/config."))
    } else if has(&l, "authentication failed") {
        Some(String::from_str("Authentication failed. Verify HTTPS credentials/token or SSH key access."))
    } else if has(&l, "repository not found") {
        Some(String::from_str("Repository was not found or access is missing. Verify repo URL and permissions."))
    } else if has(&l, "could not resolve host") || has(&l, "name or service not known") || has(
        &l,
        "temporary failure in name resolution",
    ) {
        Some(String::from_str("Host lookup failed. Check repository URL/host alias and network DNS."))
    } else if has(&l, "connection timed out") || has(&l, "connection refused") {
        Some(String::from_str("Connection failed. Check network/VPN/firewall and remote availability."))
    } else {
        None
    }
}

/// The exit status a message reports: the code, or -1 without one.
pub open spec fn code_or(e: Exit) -> int {
    match e.code {
        Some(c) => c as int,
        None => -1,
    }
}

/// What a failed git command is summarised as: its trimmed error output,
/// else its trimmed standard output, else its exit status; a hint follows
/// when one applies.
pub open spec fn summary(e: Exit) -> Seq<char> {
    let err = trim(e.stderr@);
    let out = trim(e.stdout@);
    let base = if err.len() > 0 {
        err
    } else if out.len() > 0 {
        out
    } else {
        "git exited with status "@ + decimal_int(code_or(e))
    };
    match git_hint(base) {
        Some(h) => base + " | Hint: "@ + h,
        None => base,
    }
}

/// Summarises a failed git command for an error message.
pub fn summarize_git_failure(e: &Exit) -> (r: String)
    ensures
        r@ == summary(*e),
{
    let err = trim_str(e.stderr.as_str());
    let out = trim_str(e.stdout.as_str());
    let mut base = if !err.as_str().is_empty() {
        err
    } else if !out.as_str().is_empty() {
        out
    } else {
        let code: i64 = match e.code {
            Some(c) => c as i64,
            None => -1,
        };
        let mut b = String::from_str("git exited with status ");
        let d = i64_to_decimal(code);
        b.append(d.as_str());
        b
    };
    proof {
        assert(err@ == trim(e.stderr@));
    }
    match classify_git_hint(base.as_str()) {
        Some(h) => {
            base.append(" | Hint: ");
            base.append(h.as_str());
            base
        },
        None => base,
    }
}

/// Whether `git status --porcelain` reported changes: any output besides
/// white space. A failed status is an error naming the repository.
pub open spec fn dirty_spec(path: Seq<char>, e: Exit) -> Result<bool, Seq<char>> {
    if !e.success {
        Err("git status failed in "@ + path)
    } else {
        Ok(trim(e.stdout@).len() > 0)
    }
}

/// Returns true if the repo has uncommitted changes, judged from the exit
/// of `git status --porcelain` run in it.
pub fn has_uncommitted_changes(path: &str, status: &Exit) -> (r: Result<bool, String>)
    ensures
        r matches Ok(b) ==> dirty_spec(path@, *status) == Ok::<bool, Seq<char>>(b),
        r matches Err(m) ==> dirty_spec(path@, *status) == Err::<bool, Seq<char>>(m@),
{
    if !status.success {
        let mut m = String::from_str("git status failed in ");
        m.append(path);
        return Err(m);
    }
    let t = trim_str(status.stdout.as_str());
    Ok(!t.as_str().is_empty())
}


// ---------------------------------------------------------------------------
// Steps of a multi-command operation
// ---------------------------------------------------------------------------

/// What an operation asks for next: run git with these arguments in the
/// repository (showing its output on the terminal when `show_output`), or
/// stop with this result.
#[derive(Debug)]
pub enum GitAction {
    Run { args: Vec<String>, show_output: bool },
    Finished(Result<(), String>),
}

/// The model of a [`GitAction`].
pub enum GitActionView {
    Run(Seq<Seq<char>>, bool),
    Finished(Result<(), Seq<char>>),
}

impl View for GitAction {
    type V = GitActionView;

    open spec fn view(&self) -> GitActionView {
        match self {
            GitAction::Run { args, show_output } => GitActionView::Run(views(args@), *show_output),
            GitAction::Finished(Ok(())) => GitActionView::Finished(Ok(())),
            GitAction::Finished(Err(m)) => GitActionView::Finished(Err(m@)),
        }
    }
}

fn run(args: Vec<String>, show_output: bool) -> (r: GitAction)
    ensures
        r@ == GitActionView::Run(views(args@), show_output),
{
    GitAction::Run { args, show_output }
}

fn fail(m: String) -> (r: GitAction)
    ensures
        r@ == GitActionView::Finished(Err(m@)),
{
    GitAction::Finished(Err(m))
}

fn done() -> (r: GitAction)
    ensures
        r@ == GitActionView::Finished(Ok(())),
{
    GitAction::Finished(Ok(()))
}

fn fail_str(m: &str) -> (r: GitAction)
    ensures
        r@ == GitActionView::Finished(Err(m@)),
{
    GitAction::Finished(Err(String::from_str(m)))
}

/// Arguments from string slices.
fn args1(a: &str) -> (r: Vec<String>)
    ensures
        views(r@) == seq![a@],
{
    let mut v: Vec<String> = Vec::new();
    v.push(String::from_str(a));
    assert(views(v@) =~= seq![a@]);
    v
}

fn args2(a: &str, b: &str) -> (r: Vec<String>)
    ensures
        views(r@) == seq![a@, b@],
{
    let mut v: Vec<String> = Vec::new();
    v.push(String::from_str(a));
    v.push(String::from_str(b));
    assert(views(v@) =~= seq![a@, b@]);
    v
}

fn args3(a: &str, b: &str, c: &str) -> (r: Vec<String>)
    ensures
        views(r@) == seq![a@, b@, c@],
{
    let mut v: Vec<String> = Vec::new();
    v.push(String::from_str(a));
    v.push(String::from_str(b));
    v.push(String::from_str(c));
    assert(views(v@) =~= seq![a@, b@, c@]);
    v
}

fn args4(a: &str, b: &str, c: &str, d: &str) -> (r: Vec<String>)
    ensures
        views(r@) == seq![a@, b@, c@, d@],
{
    let mut v: Vec<String> = Vec::new();
    v.push(String::from_str(a));
    v.push(String::from_str(b));
    v.push(String::from_str(c));
    v.push(String::from_str(d));
    assert(views(v@) =~= seq![a@, b@, c@, d@]);
    v
}

fn args5(a: &str, b: &str, c: &str, d: &str, e: &str) -> (r: Vec<String>)
    ensures
        views(r@) == seq![a@, b@, c@, d@, e@],
{
    let mut v: Vec<String> = Vec::new();
    v.push(String::from_str(a));
    v.push(String::from_str(b));
    v.push(String::from_str(c));
    v.push(String::from_str(d));
    v.push(String::from_str(e));
    assert(views(v@) =~= seq![a@, b@, c@, d@, e@]);
    v
}

fn push_string(v: &mut Vec<String>, s: String)
    ensures
        views(final(v)@) == views(old(v)@).push(s@),
{
    let ghost before = v@;
    v.push(s);
    assert(views(v@) =~= views(before).push(s@));
}

/// `"{prefix}{path}: {summary}"`, the usual failure message.
fn failed_in(prefix: &str, path: &str, e: &Exit) -> (r: String)
    ensures
        r@ == prefix@ + path@ + ": "@ + summary(*e),
{
    let mut m = cat(prefix, path);
    m.append(": ");
    let s = summarize_git_failure(e);
    m.append(s.as_str());
    m
}

// ---------------------------------------------------------------------------
// pull
// ---------------------------------------------------------------------------

/// Where a pull stands: the command whose outcome it waits for.
#[derive(Debug, Clone, Copy, PartialEq, Eq, Structural)]
pub enum PullStep {
    Fetch,
    VerifyRemote,
    Status,
    Ahead,
    Behind,
    Merge,
    Reset,
    Done,
}

/// A pull of one branch into the repository at `path`:
///   1. `git fetch --all --prune`;
///   2. nothing to do when `origin/<branch>` does not exist yet;
///   3. in safe mode, a dirty worktree is left alone;
///   4. behind the remote: fast-forward (`--force`: hard reset);
///   5. diverged: an error (`--force`: hard reset).
#[derive(Debug, Clone)]
pub struct Pull {
    pub path: String,
    pub branch: String,
    pub force: bool,
    pub step: PullStep,
    /// Commits on the local branch that the remote lacks (once counted).
    pub ahead: usize,
}

/// `origin/<branch>`.
pub open spec fn remote_ref(branch: Seq<char>) -> Seq<char> {
    "origin/"@ + branch
}

/// The message of a pull that refuses a dirty worktree.
pub open spec fn dirty_pull_message() -> Seq<char> {
    "working tree has local changes; skipping safe pull (rerun with --force to discard changes)"@
}

/// The message of a pull whose branch has diverged.
pub open spec fn diverged_message(branch: Seq<char>, ahead: nat, behind: nat) -> Seq<char> {
    "branch '"@ + branch + "' has diverged: "@ + decimal_int(ahead as int)
        + " local commit(s) not on remote, "@ + decimal_int(behind as int)
        + " remote commit(s) not local. Resolve manually or rerun with --force to hard reset"@
}

/// The step after the commit counts: what a pull does with `ahead` local
/// and `behind` remote commits.
pub open spec fn pull_decision(p: Pull, ahead: nat, behind: nat) -> (PullStep, GitActionView) {
    let r = remote_ref(p.branch@);
    if behind == 0 {
        (PullStep::Done, GitActionView::Finished(Ok(())))
    } else if p.force {
        (PullStep::Reset, GitActionView::Run(seq!["reset"@, "--hard"@, r], true))
    } else if ahead == 0 {
        (PullStep::Merge, GitActionView::Run(seq!["merge"@, "--ff-only"@, r], false))
    } else {
        (PullStep::Done, GitActionView::Finished(Err(diverged_message(p.branch@, ahead, behind))))
    }
}

/// One transition of a pull: the step it moves to, the commits counted
/// ahead, and what it asks for next.
pub open spec fn pull_next(p: Pull, ev: Outcome) -> (PullStep, nat, GitActionView) {
    let r = remote_ref(p.branch@);
    let a = p.ahead as nat;
    match p.step {
        PullStep::Fetch => match ev {
            Outcome::NotRun(_) => (PullStep::Done, a, GitActionView::Finished(Err("Failed to run git fetch"@))),
            Outcome::Exited(e) => if !e.success {
                (PullStep::Done, a, GitActionView::Finished(Err("git fetch failed in "@ + p.path@ + ": "@ + summary(e))))
            } else {
                (PullStep::VerifyRemote, a, GitActionView::Run(seq!["rev-parse"@, "--verify"@, r], false))
            },
        },
        PullStep::VerifyRemote => if !(ev matches Outcome::Exited(e) && e.success) {
            (PullStep::Done, a, GitActionView::Finished(Ok(())))
        } else if p.force {
            (PullStep::Ahead, a, GitActionView::Run(seq!["log"@, "--oneline"@, r + "..HEAD"@], false))
        } else {
            (PullStep::Status, a, GitActionView::Run(seq!["status"@, "--porcelain"@], false))
        },
        PullStep::Status => match ev {
            Outcome::NotRun(_) => (PullStep::Done, a, GitActionView::Finished(Err("Failed to run git status --porcelain"@))),
            Outcome::Exited(e) => match dirty_spec(p.path@, e) {
                Err(m) => (PullStep::Done, a, GitActionView::Finished(Err(m))),
                Ok(true) => (PullStep::Done, a, GitActionView::Finished(Err(dirty_pull_message()))),
                Ok(false) => (PullStep::Ahead, a, GitActionView::Run(seq!["log"@, "--oneline"@, r + "..HEAD"@], false)),
            },
        },
        PullStep::Ahead => match ev {
            Outcome::NotRun(_) => (PullStep::Done, a, GitActionView::Finished(Err("Failed to check ahead commits"@))),
            Outcome::Exited(e) => (
                PullStep::Behind,
                line_count(e.stdout@),
                GitActionView::Run(seq!["log"@, "--oneline"@, "HEAD.."@ + r], false),
            ),
        },
        PullStep::Behind => match ev {
            Outcome::NotRun(_) => (PullStep::Done, a, GitActionView::Finished(Err("Failed to check behind commits"@))),
            Outcome::Exited(e) => {
                let d = pull_decision(p, a, line_count(e.stdout@));
                (d.0, a, d.1)
            },
        },
        PullStep::Merge => match ev {
            Outcome::NotRun(_) => (PullStep::Done, a, GitActionView::Finished(Err("Failed to run git merge --ff-only"@))),
            Outcome::Exited(e) => if e.success {
                (PullStep::Done, a, GitActionView::Finished(Ok(())))
            } else {
                (
                    PullStep::Done,
                    a,
                    GitActionView::Finished(Err("fast-forward merge failed for '"@ + p.path@ + "': "@ + summary(e)
                        + ". Rerun with --force to hard reset to "@ + r)),
                )
            },
        },
        PullStep::Reset => match ev {
            Outcome::NotRun(_) => (PullStep::Done, a, GitActionView::Finished(Err("Failed to run git reset --hard"@))),
            Outcome::Exited(e) => if e.success {
                (PullStep::Done, a, GitActionView::Finished(Ok(())))
            } else {
                (PullStep::Done, a, GitActionView::Finished(Err("git reset --hard "@ + r + " failed"@)))
            },
        },
        PullStep::Done => (PullStep::Done, a, GitActionView::Finished(Ok(()))),
    }
}

impl Pull {
    /// Starts a pull: the first command is the fetch.
    pub fn start(path: &str, branch: &str, force: bool) -> (r: (Pull, GitAction))
        ensures
            r.0.path@ == path@ && r.0.branch@ == branch@ && r.0.force == force,
            r.0.step == PullStep::Fetch && r.0.ahead == 0,
            r.1@ == GitActionView::Run(seq!["fetch"@, "--all"@, "--prune"@], false),
    {
        let p = Pull {
            path: String::from_str(path),
            branch: String::from_str(branch),
            force,
            step: PullStep::Fetch,
            ahead: 0,
        };
        (p, run(args3("fetch", "--all", "--prune"), false))
    }

    fn remote(&self) -> (r: String)
        ensures
            r@ == remote_ref(self.branch@),
    {
        cat("origin/", self.branch.as_str())
    }

    fn finish(&mut self, a: GitAction) -> (r: GitAction)
        ensures
            final(self).step == PullStep::Done,
            final(self).path == old(self).path && final(self).branch == old(self).branch,
            final(self).force == old(self).force && final(self).ahead == old(self).ahead,
            r == a,
    {
        self.step = PullStep::Done;
        a
    }

    /// Feeds the outcome of the last command; returns the next action.
    pub fn next(&mut self, ev: &Outcome) -> (r: GitAction)
        ensures
            final(self).path == old(self).path && final(self).branch == old(self).branch,
            final(self).force == old(self).force,
            (final(self).step, final(self).ahead as nat, r@) == pull_next(*old(self), *ev),
    {
        match self.step {
            PullStep::Fetch => match ev {
                Outcome::NotRun(_) => self.finish(fail_str("Failed to run git fetch")),
                Outcome::Exited(e) => if !e.success {
                    let m = failed_in("git fetch failed in ", self.path.as_str(), e);
                    self.finish(fail(m))
                } else {
                    self.step = PullStep::VerifyRemote;
                    let r = self.remote();
                    let mut v = args2("rev-parse", "--verify");
                    let ghost before = v@;
                    push_string(&mut v, r);
                    assert(views(v@) =~= views(before).push(remote_ref(self.branch@)));
                    assert(views(v@) =~= seq!["rev-parse"@, "--verify"@, remote_ref(self.branch@)]);
                    run(v, false)
                },
            },
            PullStep::VerifyRemote => {
                let exists = match ev {
                    Outcome::Exited(e) => e.success,
                    Outcome::NotRun(_) => false,
                };
                if !exists {
                    self.finish(done())
                } else if self.force {
                    self.step = PullStep::Ahead;
                    self.ahead_log()
                } else {
                    self.step = PullStep::Status;
                    run(args2("status", "--porcelain"), false)
                }
            },
            PullStep::Status => match ev {
                Outcome::NotRun(_) => self.finish(fail_str("Failed to run git status --porcelain")),
                Outcome::Exited(e) => match has_uncommitted_changes(self.path.as_str(), e) {
                    Err(m) => self.finish(fail(m)),
                    Ok(true) => self.finish(fail_str(
                        "working tree has local changes; skipping safe pull (rerun with --force to discard changes)",
                    )),
                    Ok(false) => {
                        self.step = PullStep::Ahead;
                        self.ahead_log()
                    },
                },
            },
            PullStep::Ahead => match ev {
                Outcome::NotRun(_) => self.finish(fail_str("Failed to check ahead commits")),
                Outcome::Exited(e) => {
                    self.ahead = count_lines(e.stdout.as_str());
                    self.step = PullStep::Behind;
                    let r = self.remote();
                    let mut v = args2("log", "--oneline");
                    let ghost before = v@;
                    push_string(&mut v, cat("HEAD..", r.as_str()));
                    assert(views(v@) =~= views(before).push("HEAD.."@ + remote_ref(self.branch@)));
                    assert(views(v@) =~= seq!["log"@, "--oneline"@, "HEAD.."@ + remote_ref(self.branch@)]);
                    run(v, false)
                },
            },
            PullStep::Behind => match ev {
                Outcome::NotRun(_) => self.finish(fail_str("Failed to check behind commits")),
                Outcome::Exited(e) => {
                    let behind = count_lines(e.stdout.as_str());
                    self.decide(behind)
                },
            },
            PullStep::Merge => match ev {
                Outcome::NotRun(_) => self.finish(fail_str("Failed to run git merge --ff-only")),
                Outcome::Exited(e) => if e.success {
                    self.finish(done())
                } else {
                    let mut m = cat("fast-forward merge failed for '", self.path.as_str());
                    m.append("': ");
                    let s = summarize_git_failure(e);
                    m.append(s.as_str());
                    m.append(". Rerun with --force to hard reset to ");
                    let r = self.remote();
                    m.append(r.as_str());
                    self.finish(fail(m))
                },
            },
            PullStep::Reset => match ev {
                Outcome::NotRun(_) => self.finish(fail_str("Failed to run git reset --hard")),
                Outcome::Exited(e) => if e.success {
                    self.finish(done())
                } else {
                    let r = self.remote();
                    let mut m = cat("git reset --hard ", r.as_str());
                    m.append(" failed");
                    self.finish(fail(m))
                },
            },
            PullStep::Done => done(),
        }
    }

    fn ahead_log(&self) -> (r: GitAction)
        ensures
            r@ == GitActionView::Run(seq!["log"@, "--oneline"@, remote_ref(self.branch@) + "..HEAD"@], false),
    {
        let r = self.remote();
        let mut v = args2("log", "--oneline");
        let ghost before = v@;
        push_string(&mut v, cat(r.as_str(), "..HEAD"));
        assert(views(v@) =~= views(before).push(remote_ref(self.branch@) + "..HEAD"@));
        assert(views(v@) =~= seq!["log"@, "--oneline"@, remote_ref(self.branch@) + "..HEAD"@]);
        run(v, false)
    }

    fn decide(&mut self, behind: usize) -> (r: GitAction)
        ensures
            final(self).path == old(self).path && final(self).branch == old(self).branch,
            final(self).force == old(self).force && final(self).ahead == old(self).ahead,
            (final(self).step, r@) == pull_decision(*old(self), old(self).ahead as nat, behind as nat),
    {
        let r = self.remote();
        if behind == 0 {
            self.finish(done())
        } else if self.force {
            self.step = PullStep::Reset;
            let mut v = args2("reset", "--hard");
            let ghost before = v@;
            push_string(&mut v, r);
            assert(views(v@) =~= views(before).push(remote_ref(self.branch@)));
            assert(views(v@) =~= seq!["reset"@, "--hard"@, remote_ref(self.branch@)]);
            run(v, true)
        } else if self.ahead == 0 {
            self.step = PullStep::Merge;
            let mut v = args2("merge", "--ff-only");
            let ghost before = v@;
            push_string(&mut v, r);
            assert(views(v@) =~= views(before).push(remote_ref(self.branch@)));
            assert(views(v@) =~= seq!["merge"@, "--ff-only"@, remote_ref(self.branch@)]);
            run(v, false)
        } else {
            let mut m = cat("branch '", self.branch.as_str());
            m.append("' has diverged: ");
            let a = u64_text(self.ahead);
            m.append(a.as_str());
            m.append(" local commit(s) not on remote, ");
            let b = u64_text(behind);
            m.append(b.as_str());
            m.append(" remote commit(s) not local. Resolve manually or rerun with --force to hard reset");
            self.finish(fail(m))
        }
    }
}

fn u64_text(n: usize) -> (r: String)
    ensures
        r@ == decimal_int(n as int),
{
    crate::text::u64_to_decimal(n as u64)
}


// ---------------------------------------------------------------------------
// push to the mirror ("sync" branch)
// ---------------------------------------------------------------------------

/// Where a mirror push stands: the command whose outcome it waits for.
#[derive(Debug, Clone, Copy, PartialEq, Eq, Structural)]
pub enum SyncStep {
    CurrentBranch,
    HeadCommit,
    LocalBase,
    RemoteBase,
    Dirty,
    Stash,
    Checkout,
    Apply,
    SyncDirty,
    Add,
    Commit,
    Push,
    Restore,
    Pop,
    Done,
}

/// A push of a dedicated `sync` branch to a mirror remote. The sync branch
/// is recreated from the base branch and includes uncommitted local changes
/// (stashed, applied and committed with a standard message); afterwards the
/// original branch (or detached commit) and the stash are restored.
#[derive(Debug, Clone)]
pub struct SyncPush {
    pub path: String,
    pub base_branch: String,
    pub sync_url: String,
    pub step: SyncStep,
    pub head_branch: String,
    pub head_commit: String,
    pub base_ref: String,
    pub stashed: bool,
    /// The error of the sync proper, once one happened.
    pub failure: Option<String>,
    /// Errors met while restoring the repository.
    pub cleanup: Vec<String>,
    /// The time stamp of the automatic commit, once taken.
    pub stamp: String,
}

/// The model of a [`SyncPush`]'s changing part.
pub struct SyncView {
    pub step: SyncStep,
    pub head_branch: Seq<char>,
    pub head_commit: Seq<char>,
    pub base_ref: Seq<char>,
    pub stashed: bool,
    pub failure: Option<Seq<char>>,
    pub cleanup: Seq<Seq<char>>,
    pub stamp: Seq<char>,
}

impl View for SyncPush {
    type V = SyncView;

    open spec fn view(&self) -> SyncView {
        SyncView {
            step: self.step,
            head_branch: self.head_branch@,
            head_commit: self.head_commit@,
            base_ref: self.base_ref@,
            stashed: self.stashed,
            failure: match self.failure {
                Some(m) => Some(m@),
                None => None,
            },
            cleanup: views(self.cleanup@),
            stamp: self.stamp@,
        }
    }
}

/// The command that returns to where the repository was.
pub open spec fn restore_args(v: SyncView) -> Seq<Seq<char>> {
    if v.head_branch == "HEAD"@ {
        seq!["checkout"@, "--detach"@, v.head_commit]
    } else {
        seq!["checkout"@, v.head_branch]
    }
}

/// The status command.
pub open spec fn status_args() -> Seq<Seq<char>> {
    seq!["status"@, "--porcelain"@]
}

/// The push of the sync branch.
pub open spec fn push_args(url: Seq<char>) -> Seq<Seq<char>> {
    seq!["push"@, "--force"@, url, "sync:sync"@]
}

/// The checkout that recreates the sync branch.
pub open spec fn checkout_sync_args(base_ref: Seq<char>) -> Seq<Seq<char>> {
    seq!["checkout"@, "-B"@, "sync"@, base_ref]
}

/// The end of a mirror push, once the repository was restored.
pub open spec fn conclusion(v: SyncView) -> Result<(), Seq<char>> {
    if v.cleanup.len() > 0 {
        let c = join(v.cleanup, "; "@);
        match v.failure {
            Some(e) => Err("sync failed: "@ + e + " | cleanup failed: "@ + c),
            None => Err("sync cleanup failed: "@ + c),
        }
    } else {
        match v.failure {
            Some(e) => Err(e),
            None => Ok(()),
        }
    }
}

/// The sync proper stops (with `failure`); restoring begins.
pub open spec fn to_restore(v: SyncView, failure: Option<Seq<char>>) -> (SyncView, GitActionView) {
    let w = SyncView { step: SyncStep::Restore, failure, ..v };
    (w, GitActionView::Run(restore_args(w), false))
}

/// An early stop: nothing was changed in the repository yet.
pub open spec fn stop(v: SyncView, m: Seq<char>) -> (SyncView, GitActionView) {
    (SyncView { step: SyncStep::Done, ..v }, GitActionView::Finished(Err(m)))
}

/// The end: the conclusion.
pub open spec fn conclude(v: SyncView) -> (SyncView, GitActionView) {
    (SyncView { step: SyncStep::Done, ..v }, GitActionView::Finished(conclusion(v)))
}

/// One transition of a mirror push of the repository at `path` (base branch
/// `base`, mirror `url`). `stamp` is the time stamp taken when the
/// automatic commit is made.
pub open spec fn sync_next(
    path: Seq<char>,
    base: Seq<char>,
    url: Seq<char>,
    v: SyncView,
    ev: Outcome,
    stamp: Seq<char>,
) -> (SyncView, GitActionView) {
    match v.step {
        SyncStep::CurrentBranch => match ev {
            Outcome::NotRun(_) => stop(v, "Failed to read current branch"@),
            Outcome::Exited(e) => if !e.success {
                stop(v, "git rev-parse HEAD failed in "@ + path + ": "@ + summary(e))
            } else {
                (
                    SyncView { step: SyncStep::HeadCommit, head_branch: trim(e.stdout@), ..v },
                    GitActionView::Run(seq!["rev-parse"@, "HEAD"@], false),
                )
            },
        },
        SyncStep::HeadCommit => match ev {
            Outcome::NotRun(_) => stop(v, "Failed to run git rev-parse"@),
            Outcome::Exited(e) => if !e.success {
                stop(v, "git rev-parse HEAD failed in "@ + path + ": "@ + summary(e))
            } else {
                (
                    SyncView { step: SyncStep::LocalBase, head_commit: trim(e.stdout@), ..v },
                    GitActionView::Run(seq!["rev-parse"@, "--verify"@, "refs/heads/"@ + base], false),
                )
            },
        },
        SyncStep::LocalBase => if ev matches Outcome::Exited(e) && e.success {
            (SyncView { step: SyncStep::Dirty, base_ref: base, ..v }, GitActionView::Run(status_args(), false))
        } else {
            (
                SyncView { step: SyncStep::RemoteBase, ..v },
                GitActionView::Run(seq!["rev-parse"@, "--verify"@, "refs/remotes/origin/"@ + base], false),
            )
        },
        SyncStep::RemoteBase => if ev matches Outcome::Exited(e) && e.success {
            (
                SyncView { step: SyncStep::Dirty, base_ref: "origin/"@ + base, ..v },
                GitActionView::Run(status_args(), false),
            )
        } else {
            stop(v, "base branch '"@ + base + "' not found (local or origin)"@)
        },
        SyncStep::Dirty => match ev {
            Outcome::NotRun(_) => stop(v, "Failed to run git status --porcelain"@),
            Outcome::Exited(e) => match dirty_spec(path, e) {
                Err(m) => stop(v, m),
                Ok(true) => (
                    SyncView { step: SyncStep::Stash, ..v },
                    GitActionView::Run(seq!["stash"@, "push"@, "-u"@, "-m"@, "polyws sync"@], false),
                ),
                Ok(false) => (
                    SyncView { step: SyncStep::Checkout, ..v },
                    GitActionView::Run(checkout_sync_args(v.base_ref), false),
                ),
            },
        },
        SyncStep::Stash => match ev {
            Outcome::NotRun(_) => stop(v, "Failed to run git stash"@),
            Outcome::Exited(e) => if !e.success {
                stop(v, "git stash failed in "@ + path + ": "@ + summary(e))
            } else {
                (
                    SyncView { step: SyncStep::Checkout, stashed: true, ..v },
                    GitActionView::Run(checkout_sync_args(v.base_ref), false),
                )
            },
        },
        SyncStep::Checkout => match ev {
            Outcome::NotRun(_) => to_restore(v, Some("Failed to checkout sync branch"@)),
            Outcome::Exited(e) => if !e.success {
                to_restore(v, Some("git checkout sync failed in "@ + path + ": "@ + summary(e)))
            } else if v.stashed {
                (SyncView { step: SyncStep::Apply, ..v }, GitActionView::Run(seq!["stash"@, "apply"@], false))
            } else {
                (SyncView { step: SyncStep::SyncDirty, ..v }, GitActionView::Run(status_args(), false))
            },
        },
        SyncStep::Apply => match ev {
            Outcome::NotRun(_) => to_restore(v, Some("Failed to apply stash"@)),
            Outcome::Exited(e) => if !e.success {
                to_restore(v, Some("git stash apply failed in "@ + path + ": "@ + summary(e)))
            } else {
                (SyncView { step: SyncStep::SyncDirty, ..v }, GitActionView::Run(status_args(), false))
            },
        },
        SyncStep::SyncDirty => match ev {
            Outcome::NotRun(_) => to_restore(v, Some("Failed to run git status --porcelain"@)),
            Outcome::Exited(e) => match dirty_spec(path, e) {
                Err(m) => to_restore(v, Some(m)),
                Ok(true) => (SyncView { step: SyncStep::Add, ..v }, GitActionView::Run(seq!["add"@, "-A"@], false)),
                Ok(false) => (SyncView { step: SyncStep::Push, ..v }, GitActionView::Run(push_args(url), false)),
            },
        },
        SyncStep::Add => match ev {
            Outcome::NotRun(_) => to_restore(v, Some("Failed to run git add -A"@)),
            Outcome::Exited(e) => if !e.success {
                to_restore(v, Some("git add failed in "@ + path + ": "@ + summary(e)))
            } else {
                (
                    SyncView { step: SyncStep::Commit, stamp, ..v },
                    GitActionView::Run(seq!["commit"@, "-m"@, "polyws sync "@ + stamp], false),
                )
            },
        },
        SyncStep::Commit => match ev {
            Outcome::NotRun(_) => to_restore(v, Some("Failed to run git commit"@)),
            Outcome::Exited(e) => if !e.success {
                to_restore(v, Some("git commit failed in "@ + path + ": "@ + summary(e)))
            } else {
                (SyncView { step: SyncStep::Push, ..v }, GitActionView::Run(push_args(url), false))
            },
        },
        SyncStep::Push => match ev {
            Outcome::NotRun(_) => to_restore(v, Some("Failed to run git push for sync"@)),
            Outcome::Exited(e) => if !e.success {
                to_restore(v, Some("git push sync failed for "@ + url + ": "@ + summary(e)))
            } else {
                to_restore(v, None)
            },
        },
        SyncStep::Restore => match ev {
            Outcome::NotRun(_) => stop(v, "Failed to restore original branch"@),
            Outcome::Exited(e) => {
                let w = if e.success {
                    v
                } else {
                    SyncView { cleanup: v.cleanup.push("restore branch failed: "@ + summary(e)), ..v }
                };
                if w.stashed {
                    (SyncView { step: SyncStep::Pop, ..w }, GitActionView::Run(seq!["stash"@, "pop"@], false))
                } else {
                    conclude(w)
                }
            },
        },
        SyncStep::Pop => match ev {
            Outcome::NotRun(_) => stop(v, "Failed to pop stash"@),
            Outcome::Exited(e) => {
                let w = if e.success {
                    v
                } else {
                    SyncView { cleanup: v.cleanup.push("stash pop failed: "@ + summary(e)), ..v }
                };
                conclude(w)
            },
        },
        SyncStep::Done => (v, GitActionView::Finished(conclusion(v))),
    }
}

impl SyncPush {
    /// Starts a mirror push: the first command reads the current branch.
    pub fn start(path: &str, base_branch: &str, sync_url: &str) -> (r: (SyncPush, GitAction))
        ensures
            r.0.path@ == path@ && r.0.base_branch@ == base_branch@ && r.0.sync_url@ == sync_url@,
            r.0@ == (SyncView {
                step: SyncStep::CurrentBranch,
                head_branch: Seq::empty(),
                head_commit: Seq::empty(),
                base_ref: Seq::empty(),
                stashed: false,
                failure: None,
                cleanup: Seq::empty(),
                stamp: Seq::empty(),
            }),
            r.1@ == GitActionView::Run(seq!["rev-parse"@, "--abbrev-ref"@, "HEAD"@], false),
    {
        let p = SyncPush {
            path: String::from_str(path),
            base_branch: String::from_str(base_branch),
            sync_url: String::from_str(sync_url),
            step: SyncStep::CurrentBranch,
            head_branch: String::new(),
            head_commit: String::new(),
            base_ref: String::new(),
            stashed: false,
            failure: None,
            cleanup: Vec::new(),
            stamp: String::new(),
        };
        assert(views(p.cleanup@) =~= Seq::<Seq<char>>::empty());
        (p, run(args3("rev-parse", "--abbrev-ref", "HEAD"), false))
    }

    fn restore_action(&self) -> (r: GitAction)
        ensures
            r@ == GitActionView::Run(restore_args(self@), false),
    {
        if str_eq(self.head_branch.as_str(), "HEAD") {
            let mut v = args2("checkout", "--detach");
            let ghost before = v@;
            push_string(&mut v, self.head_commit.clone());
            assert(views(v@) =~= seq!["checkout"@, "--detach"@, self.head_commit@]);
            run(v, false)
        } else {
            let mut v = args1("checkout");
            push_string(&mut v, self.head_branch.clone());
            assert(views(v@) =~= seq!["checkout"@, self.head_branch@]);
            run(v, false)
        }
    }

    fn begin_restore(&mut self, failure: Option<String>) -> (r: GitAction)
        ensures
            final(self).path == old(self).path && final(self).base_branch == old(self).base_branch,
            final(self).sync_url == old(self).sync_url,
            (final(self)@, r@) == to_restore(old(self)@, match failure { Some(m) => Some(m@), None => None }),
    {
        self.step = SyncStep::Restore;
        self.failure = failure;
        self.restore_action()
    }

    fn halt(&mut self, m: String) -> (r: GitAction)
        ensures
            final(self).path == old(self).path && final(self).base_branch == old(self).base_branch,
            final(self).sync_url == old(self).sync_url,
            (final(self)@, r@) == stop(old(self)@, m@),
    {
        self.step = SyncStep::Done;
        fail(m)
    }

    fn conclusion_of(&self) -> (r: Result<(), String>)
        ensures
            match r {
                Ok(()) => conclusion(self@) == Ok::<(), Seq<char>>(()),
                Err(m) => conclusion(self@) == Err::<(), Seq<char>>(m@),
            },
    {
        if self.cleanup.len() > 0 {
            let c = join_strings(&self.cleanup, "; ");
            match &self.failure {
                Some(e) => {
                    let mut m = cat("sync failed: ", e.as_str());
                    m.append(" | cleanup failed: ");
                    m.append(c.as_str());
                    Err(m)
                },
                None => Err(cat("sync cleanup failed: ", c.as_str())),
            }
        } else {
            match &self.failure {
                Some(e) => Err(e.clone()),
                None => Ok(()),
            }
        }
    }

    fn finish_all(&mut self) -> (r: GitAction)
        ensures
            final(self).path == old(self).path && final(self).base_branch == old(self).base_branch,
            final(self).sync_url == old(self).sync_url,
            (final(self)@, r@) == conclude(old(self)@),
    {
        let c = self.conclusion_of();
        self.step = SyncStep::Done;
        match c {
            Ok(()) => done(),
            Err(m) => fail(m),
        }
    }

    fn status(&mut self, step: SyncStep) -> (r: GitAction)
        ensures
            final(self)@ == (SyncView { step, ..old(self)@ }),
            final(self).path == old(self).path && final(self).base_branch == old(self).base_branch,
            final(self).sync_url == old(self).sync_url,
            r@ == GitActionView::Run(status_args(), false),
    {
        self.step = step;
        run(args2("status", "--porcelain"), false)
    }

    fn checkout_sync(&mut self) -> (r: GitAction)
        ensures
            final(self)@ == (SyncView { step: SyncStep::Checkout, ..old(self)@ }),
            final(self).path == old(self).path && final(self).base_branch == old(self).base_branch,
            final(self).sync_url == old(self).sync_url,
            r@ == GitActionView::Run(checkout_sync_args(old(self).base_ref@), false),
    {
        self.step = SyncStep::Checkout;
        let mut v = args3("checkout", "-B", "sync");
        push_string(&mut v, self.base_ref.clone());
        assert(views(v@) =~= checkout_sync_args(self.base_ref@));
        run(v, false)
    }

    fn push(&mut self) -> (r: GitAction)
        ensures
            final(self)@ == (SyncView { step: SyncStep::Push, ..old(self)@ }),
            final(self).path == old(self).path && final(self).base_branch == old(self).base_branch,
            final(self).sync_url == old(self).sync_url,
            r@ == GitActionView::Run(push_args(old(self).sync_url@), false),
    {
        self.step = SyncStep::Push;
        let mut v = args2("push", "--force");
        push_string(&mut v, self.sync_url.clone());
        let ghost before = v@;
        push_string(&mut v, String::from_str("sync:sync"));
        assert(views(v@) =~= push_args(self.sync_url@));
        run(v, false)
    }

    /// Feeds the outcome of the last command; returns the next action.
    /// The automatic commit carries the local time of that moment.
    pub fn next(&mut self, ev: &Outcome) -> (r: GitAction)
        ensures
            final(self).path == old(self).path && final(self).base_branch == old(self).base_branch,
            final(self).sync_url == old(self).sync_url,
            (final(self)@, r@) == sync_next(
                old(self).path@,
                old(self).base_branch@,
                old(self).sync_url@,
                old(self)@,
                *ev,
                final(self).stamp@,
            ),
            (old(self).step == SyncStep::Add && (*ev matches Outcome::Exited(e) && e.success)) ==> is_local_stamp(
                final(self).stamp@,
            ),
    {
        match self.step {
            SyncStep::CurrentBranch => match ev {
                Outcome::NotRun(_) => self.halt(String::from_str("Failed to read current branch")),
                Outcome::Exited(e) => if !e.success {
                    let m = failed_in("git rev-parse HEAD failed in ", self.path.as_str(), e);
                    self.halt(m)
                } else {
                    self.head_branch = trim_str(e.stdout.as_str());
                    self.step = SyncStep::HeadCommit;
                    run(args2("rev-parse", "HEAD"), false)
                },
            },
            SyncStep::HeadCommit => match ev {
                Outcome::NotRun(_) => self.halt(String::from_str("Failed to run git rev-parse")),
                Outcome::Exited(e) => if !e.success {
                    let m = failed_in("git rev-parse HEAD failed in ", self.path.as_str(), e);
                    self.halt(m)
                } else {
                    self.head_commit = trim_str(e.stdout.as_str());
                    self.step = SyncStep::LocalBase;
                    let mut v = args2("rev-parse", "--verify");
                    push_string(&mut v, cat("refs/heads/", self.base_branch.as_str()));
                    assert(views(v@) =~= seq!["rev-parse"@, "--verify"@, "refs/heads/"@ + self.base_branch@]);
                    run(v, false)
                },
            },
            SyncStep::LocalBase => {
                let found = match ev {
                    Outcome::Exited(e) => e.success,
                    Outcome::NotRun(_) => false,
                };
                if found {
                    self.base_ref = self.base_branch.clone();
                    self.status(SyncStep::Dirty)
                } else {
                    self.step = SyncStep::RemoteBase;
                    let mut v = args2("rev-parse", "--verify");
                    push_string(&mut v, cat("refs/remotes/origin/", self.base_branch.as_str()));
                    assert(views(v@) =~= seq!["rev-parse"@, "--verify"@, "refs/remotes/origin/"@ + self.base_branch@]);
                    run(v, false)
                }
            },
            SyncStep::RemoteBase => {
                let found = match ev {
                    Outcome::Exited(e) => e.success,
                    Outcome::NotRun(_) => false,
                };
                if found {
                    self.base_ref = cat("origin/", self.base_branch.as_str());
                    self.status(SyncStep::Dirty)
                } else {
                    let mut m = cat("base branch '", self.base_branch.as_str());
                    m.append("' not found (local or origin)");
                    self.halt(m)
                }
            },
            SyncStep::Dirty => match ev {
                Outcome::NotRun(_) => self.halt(String::from_str("Failed to run git status --porcelain")),
                Outcome::Exited(e) => match has_uncommitted_changes(self.path.as_str(), e) {
                    Err(m) => self.halt(m),
                    Ok(true) => {
                        self.step = SyncStep::Stash;
                        run(args5("stash", "push", "-u", "-m", "polyws sync"), false)
                    },
                    Ok(false) => self.checkout_sync(),
                },
            },
            SyncStep::Stash => match ev {
                Outcome::NotRun(_) => self.halt(String::from_str("Failed to run git stash")),
                Outcome::Exited(e) => if !e.success {
                    let m = failed_in("git stash failed in ", self.path.as_str(), e);
                    self.halt(m)
                } else {
                    self.stashed = true;
                    self.checkout_sync()
                },
            },
            SyncStep::Checkout => match ev {
                Outcome::NotRun(_) => self.begin_restore(Some(String::from_str("Failed to checkout sync branch"))),
                Outcome::Exited(e) => if !e.success {
                    let m = failed_in("git checkout sync failed in ", self.path.as_str(), e);
                    self.begin_restore(Some(m))
                } else if self.stashed {
                    self.step = SyncStep::Apply;
                    run(args2("stash", "apply"), false)
                } else {
                    self.status(SyncStep::SyncDirty)
                },
            },
            SyncStep::Apply => match ev {
                Outcome::NotRun(_) => self.begin_restore(Some(String::from_str("Failed to apply stash"))),
                Outcome::Exited(e) => if !e.success {
                    let m = failed_in("git stash apply failed in ", self.path.as_str(), e);
                    self.begin_restore(Some(m))
                } else {
                    self.status(SyncStep::SyncDirty)
                },
            },
            SyncStep::SyncDirty => match ev {
                Outcome::NotRun(_) => self.begin_restore(Some(String::from_str("Failed to run git status --porcelain"))),
                Outcome::Exited(e) => match has_uncommitted_changes(self.path.as_str(), e) {
                    Err(m) => self.begin_restore(Some(m)),
                    Ok(true) => {
                        self.step = SyncStep::Add;
                        run(args2("add", "-A"), false)
                    },
                    Ok(false) => self.push(),
                },
            },
            SyncStep::Add => match ev {
                Outcome::NotRun(_) => self.begin_restore(Some(String::from_str("Failed to run git add -A"))),
                Outcome::Exited(e) => if !e.success {
                    let m = failed_in("git add failed in ", self.path.as_str(), e);
                    self.begin_restore(Some(m))
                } else {
                    self.stamp = local_timestamp();
                    self.step = SyncStep::Commit;
                    let mut v = args2("commit", "-m");
                    push_string(&mut v, cat("polyws sync ", self.stamp.as_str()));
                    assert(views(v@) =~= seq!["commit"@, "-m"@, "polyws sync "@ + self.stamp@]);
                    run(v, false)
                },
            },
            SyncStep::Commit => match ev {
                Outcome::NotRun(_) => self.begin_restore(Some(String::from_str("Failed to run git commit"))),
                Outcome::Exited(e) => if !e.success {
                    let m = failed_in("git commit failed in ", self.path.as_str(), e);
                    self.begin_restore(Some(m))
                } else {
                    self.push()
                },
            },
            SyncStep::Push => match ev {
                Outcome::NotRun(_) => self.begin_restore(Some(String::from_str("Failed to run git push for sync"))),
                Outcome::Exited(e) => if !e.success {
                    let m = failed_in("git push sync failed for ", self.sync_url.as_str(), e);
                    self.begin_restore(Some(m))
                } else {
                    self.begin_restore(None)
                },
            },
            SyncStep::Restore => match ev {
                Outcome::NotRun(_) => self.halt(String::from_str("Failed to restore original branch")),
                Outcome::Exited(e) => {
                    if !e.success {
                        let s = summarize_git_failure(e);
                        let ghost before = self.cleanup@;
                        self.cleanup.push(cat("restore branch failed: ", s.as_str()));
                        assert(views(self.cleanup@) =~= views(before).push("restore branch failed: "@ + summary(*e)));
                    }
                    if self.stashed {
                        self.step = SyncStep::Pop;
                        run(args2("stash", "pop"), false)
                    } else {
                        self.finish_all()
                    }
                },
            },
            SyncStep::Pop => match ev {
                Outcome::NotRun(_) => self.halt(String::from_str("Failed to pop stash")),
                Outcome::Exited(e) => {
                    if !e.success {
                        let s = summarize_git_failure(e);
                        let ghost before = self.cleanup@;
                        self.cleanup.push(cat("stash pop failed: ", s.as_str()));
                        assert(views(self.cleanup@) =~= views(before).push("stash pop failed: "@ + summary(*e)));
                    }
                    self.finish_all()
                },
            },
            SyncStep::Done => {
                match self.conclusion_of() {
                    Ok(()) => done(),
                    Err(m) => fail(m),
                }
            },
        }
    }
}


// ---------------------------------------------------------------------------
// single commands
// ---------------------------------------------------------------------------

/// The result of a single git command: an error naming what could not be
/// started, or the failure with its summary, or success.
pub open spec fn single_result(ev: Outcome, not_run: Seq<char>, failed: Seq<char>) -> Result<(), Seq<char>> {
    match ev {
        Outcome::NotRun(_) => Err(not_run),
        Outcome::Exited(e) => if e.success {
            Ok(())
        } else {
            Err(failed + summary(e))
        },
    }
}

fn single(ev: &Outcome, not_run: &str, failed: String) -> (r: Result<(), String>)
    ensures
        match r {
            Ok(()) => single_result(*ev, not_run@, failed@) == Ok::<(), Seq<char>>(()),
            Err(m) => single_result(*ev, not_run@, failed@) == Err::<(), Seq<char>>(m@),
        },
{
    match ev {
        Outcome::NotRun(_) => Err(String::from_str(not_run)),
        Outcome::Exited(e) => if e.success {
            Ok(())
        } else {
            let mut m = failed;
            let s = summarize_git_failure(e);
            m.append(s.as_str());
            Err(m)
        },
    }
}

/// The arguments that clone `url` into `path`.
pub fn clone_repo(url: &str, path: &str) -> (r: Vec<String>)
    ensures
        views(r@) == seq!["clone"@, url@, path@],
{
    args3("clone", url, path)
}

/// The result of a clone.
pub fn clone_result(url: &str, ev: &Outcome) -> (r: Result<(), String>)
    ensures
        match r {
            Ok(()) => single_result(*ev, "Failed to run git clone"@, "git clone failed for "@ + url@ + ": "@) == Ok::<(), Seq<char>>(()),
            Err(m) => single_result(*ev, "Failed to run git clone"@, "git clone failed for "@ + url@ + ": "@) == Err::<(), Seq<char>>(m@),
        },
{
    let mut f = cat("git clone failed for ", url);
    f.append(": ");
    single(ev, "Failed to run git clone", f)
}

/// The arguments that push the local branch to origin.
pub fn push_repo(branch: &str) -> (r: Vec<String>)
    ensures
        views(r@) == seq!["push"@, "origin"@, branch@],
{
    args3("push", "origin", branch)
}

/// The result of a push to origin.
pub fn push_result(branch: &str, ev: &Outcome) -> (r: Result<(), String>)
    ensures
        match r {
            Ok(()) => single_result(*ev, "Failed to run git push"@, "git push origin "@ + branch@ + " failed: "@) == Ok::<(), Seq<char>>(()),
            Err(m) => single_result(*ev, "Failed to run git push"@, "git push origin "@ + branch@ + " failed: "@) == Err::<(), Seq<char>>(m@),
        },
{
    let mut f = cat("git push origin ", branch);
    f.append(" failed: ");
    single(ev, "Failed to run git push", f)
}

/// The arguments that push the local branch to origin with `--force`.
pub fn force_push_repo(branch: &str) -> (r: Vec<String>)
    ensures
        views(r@) == seq!["push"@, "--force"@, "origin"@, branch@],
{
    args4("push", "--force", "origin", branch)
}

/// The result of a forced push.
pub fn force_push_result(branch: &str, ev: &Outcome) -> (r: Result<(), String>)
    ensures
        match r {
            Ok(()) => single_result(*ev, "Failed to run git push --force"@, "git push --force origin "@ + branch@ + " failed: "@) == Ok::<(), Seq<char>>(()),
            Err(m) => single_result(*ev, "Failed to run git push --force"@, "git push --force origin "@ + branch@ + " failed: "@) == Err::<(), Seq<char>>(m@),
        },
{
    let mut f = cat("git push --force origin ", branch);
    f.append(" failed: ");
    single(ev, "Failed to run git push --force", f)
}

/// The configured remote URL for `origin` from `git remote get-url origin`.
pub open spec fn remote_url_spec(path: Seq<char>, ev: Outcome) -> Result<Seq<char>, Seq<char>> {
    match ev {
        Outcome::NotRun(_) => Err("Failed to run git remote get-url"@),
        Outcome::Exited(e) => if e.success {
            Ok(trim(e.stdout@))
        } else {
            Err("Could not get remote URL for "@ + path)
        },
    }
}

/// Returns the configured remote URL for `origin`, or an error.
pub fn get_remote_url(path: &str, ev: &Outcome) -> (r: Result<String, String>)
    ensures
        match r {
            Ok(u) => remote_url_spec(path@, *ev) == Ok::<Seq<char>, Seq<char>>(u@),
            Err(m) => remote_url_spec(path@, *ev) == Err::<Seq<char>, Seq<char>>(m@),
        },
{
    match ev {
        Outcome::NotRun(_) => Err(String::from_str("Failed to run git remote get-url")),
        Outcome::Exited(e) => if e.success {
            Ok(trim_str(e.stdout.as_str()))
        } else {
            Err(cat("Could not get remote URL for ", path))
        },
    }
}

/// The human-readable status of a repository: `<branch> (clean)` or
/// `<branch> (<n> modified)`; `HEAD detached` when HEAD names no branch.
pub open spec fn repo_status_spec(branch: Option<Seq<char>>, modified: nat) -> Seq<char> {
    let b = match branch {
        Some(b) => b,
        None => "HEAD detached"@,
    };
    if modified == 0 {
        b + " (clean)"@
    } else {
        b + " ("@ + decimal_int(modified as int) + " modified)"@
    }
}

/// Formats the status of a repository from the branch HEAD names and the
/// number of entries whose status is not current.
pub fn repo_status(branch: Option<&str>, modified: usize) -> (r: String)
    ensures
        r@ == repo_status_spec(
            match branch {
                Some(b) => Some(b@),
                None => None,
            },
            modified as nat,
        ),
{
    let mut r = match branch {
        Some(b) => String::from_str(b),
        None => String::from_str("HEAD detached"),
    };
    if modified == 0 {
        r.append(" (clean)");
    } else {
        r.append(" (");
        let d = u64_text(modified);
        r.append(d.as_str());
        r.append(" modified)");
    }
    r
}

/// The abbreviated commit hash (7 characters) of a full hash.
pub fn abbreviate_hash(full: &str) -> (r: String)
    requires
        full@.len() >= 7,
    ensures
        r@ == full@.take(7),
{
    let v = chars_of(full);
    let mut out: Vec<char> = Vec::new();
    let mut i: usize = 0;
    while i < 7
        invariant
            i <= 7,
            v@ == full@,
            v@.len() >= 7,
            out@ == v@.take(i as int),
        decreases 7 - i,
    {
        out.push(v[i]);
        assert(out@ =~= v@.take(i + 1));
        i += 1;
    }
    string_of(&out)
}

// ---------------------------------------------------------------------------
// init in an existing directory
// ---------------------------------------------------------------------------

/// Where an in-place initialisation stands.
#[derive(Debug, Clone, Copy, PartialEq, Eq, Structural)]
pub enum InitStep {
    Init,
    GetUrl,
    SetRemote,
    Fetch,
    Verify,
    Checkout,
    Done,
}

/// Initialises an existing directory as a git repository tracking `url`
/// and checks out `branch` from origin (useful when the target directory
/// already exists, e.g. the workspace root).
#[derive(Debug, Clone)]
pub struct InitRepo {
    pub url: String,
    pub branch: String,
    pub path: String,
    pub step: InitStep,
}

/// One transition of an in-place initialisation.
pub open spec fn init_next(m: InitRepo, ev: Outcome) -> (InitStep, GitActionView) {
    let p = m.path@;
    let r = remote_ref(m.branch@);
    match m.step {
        InitStep::Init => match single_result(ev, "Failed to run git init"@, "git init failed in "@ + p + ": "@) {
            Err(e) => (InitStep::Done, GitActionView::Finished(Err(e))),
            Ok(()) => (InitStep::GetUrl, GitActionView::Run(seq!["remote"@, "get-url"@, "origin"@], false)),
        },
        InitStep::GetUrl => if ev matches Outcome::Exited(e) && e.success {
            (InitStep::SetRemote, GitActionView::Run(seq!["remote"@, "set-url"@, "origin"@, m.url@], false))
        } else {
            (InitStep::SetRemote, GitActionView::Run(seq!["remote"@, "add"@, "origin"@, m.url@], false))
        },
        InitStep::SetRemote => match single_result(ev, "Failed to configure git remote"@, "git remote setup failed in "@ + p + ": "@) {
            Err(e) => (InitStep::Done, GitActionView::Finished(Err(e))),
            Ok(()) => (InitStep::Fetch, GitActionView::Run(seq!["fetch"@, "--all"@, "--prune"@], false)),
        },
        InitStep::Fetch => match single_result(ev, "Failed to run git fetch"@, "git fetch failed in "@ + p + ": "@) {
            Err(e) => (InitStep::Done, GitActionView::Finished(Err(e))),
            Ok(()) => (InitStep::Verify, GitActionView::Run(seq!["rev-parse"@, "--verify"@, r], false)),
        },
        InitStep::Verify => if ev matches Outcome::Exited(e) && e.success {
            (InitStep::Checkout, GitActionView::Run(seq!["checkout"@, "-B"@, m.branch@, r], false))
        } else {
            (
                InitStep::Done,
                GitActionView::Finished(Err("remote branch '"@ + m.branch@ + "' not found for "@ + m.url@)),
            )
        },
        InitStep::Checkout => match single_result(ev, "Failed to run git checkout"@, "git checkout failed in "@ + p + ": "@) {
            Err(e) => (InitStep::Done, GitActionView::Finished(Err(e))),
            Ok(()) => (InitStep::Done, GitActionView::Finished(Ok(()))),
        },
        InitStep::Done => (InitStep::Done, GitActionView::Finished(Ok(()))),
    }
}

fn finished(r: Result<(), String>) -> (a: GitAction)
    ensures
        a@ == GitActionView::Finished(
            match r {
                Ok(()) => Ok(()),
                Err(m) => Err(m@),
            },
        ),
{
    GitAction::Finished(r)
}

impl InitRepo {
    /// Starts: the first command is `git init`.
    pub fn start(url: &str, branch: &str, path: &str) -> (r: (InitRepo, GitAction))
        ensures
            r.0.url@ == url@ && r.0.branch@ == branch@ && r.0.path@ == path@ && r.0.step == InitStep::Init,
            r.1@ == GitActionView::Run(seq!["init"@], false),
    {
        (
            InitRepo {
                url: String::from_str(url),
                branch: String::from_str(branch),
                path: String::from_str(path),
                step: InitStep::Init,
            },
            run(args1("init"), false),
        )
    }

    /// Feeds the outcome of the last command; returns the next action.
    pub fn next(&mut self, ev: &Outcome) -> (r: GitAction)
        ensures
            final(self).url == old(self).url && final(self).branch == old(self).branch,
            final(self).path == old(self).path,
            (final(self).step, r@) == init_next(*old(self), *ev),
    {
        match self.step {
            InitStep::Init => {
                let mut f = cat("git init failed in ", self.path.as_str());
                f.append(": ");
                match single(ev, "Failed to run git init", f) {
                    Err(e) => {
                        self.step = InitStep::Done;
                        fail(e)
                    },
                    Ok(()) => {
                        self.step = InitStep::GetUrl;
                        run(args3("remote", "get-url", "origin"), false)
                    },
                }
            },
            InitStep::GetUrl => {
                let ok = match ev {
                    Outcome::Exited(e) => e.success,
                    Outcome::NotRun(_) => false,
                };
                self.step = InitStep::SetRemote;
                if ok {
                    run(args4("remote", "set-url", "origin", self.url.as_str()), false)
                } else {
                    run(args4("remote", "add", "origin", self.url.as_str()), false)
                }
            },
            InitStep::SetRemote => {
                let mut f = cat("git remote setup failed in ", self.path.as_str());
                f.append(": ");
                match single(ev, "Failed to configure git remote", f) {
                    Err(e) => {
                        self.step = InitStep::Done;
                        fail(e)
                    },
                    Ok(()) => {
                        self.step = InitStep::Fetch;
                        run(args3("fetch", "--all", "--prune"), false)
                    },
                }
            },
            InitStep::Fetch => {
                let mut f = cat("git fetch failed in ", self.path.as_str());
                f.append(": ");
                match single(ev, "Failed to run git fetch", f) {
                    Err(e) => {
                        self.step = InitStep::Done;
                        fail(e)
                    },
                    Ok(()) => {
                        self.step = InitStep::Verify;
                        let r = cat("origin/", self.branch.as_str());
                        let mut v = args2("rev-parse", "--verify");
                        push_string(&mut v, r);
                        assert(views(v@) =~= seq!["rev-parse"@, "--verify"@, remote_ref(self.branch@)]);
                        run(v, false)
                    },
                }
            },
            InitStep::Verify => {
                let ok = match ev {
                    Outcome::Exited(e) => e.success,
                    Outcome::NotRun(_) => false,
                };
                if ok {
                    self.step = InitStep::Checkout;
                    let r = cat("origin/", self.branch.as_str());
                    let mut v = args3("checkout", "-B", self.branch.as_str());
                    push_string(&mut v, r);
                    assert(views(v@) =~= seq!["checkout"@, "-B"@, self.branch@, remote_ref(self.branch@)]);
                    run(v, false)
                } else {
                    self.step = InitStep::Done;
                    let mut m = cat("remote branch '", self.branch.as_str());
                    m.append("' not found for ");
                    m.append(self.url.as_str());
                    fail(m)
                }
            },
            InitStep::Checkout => {
                let mut f = cat("git checkout failed in ", self.path.as_str());
                f.append(": ");
                let r = single(ev, "Failed to run git checkout", f);
                self.step = InitStep::Done;
                finished(r)
            },
            InitStep::Done => done(),
        }
    }
}

// ---------------------------------------------------------------------------
// commit everything; flush
// ---------------------------------------------------------------------------

/// Where a commit-all (or a flush, which ends with a forced push) stands.
#[derive(Debug, Clone, Copy, PartialEq, Eq, Structural)]
pub enum CommitStep {
    FirstStatus,
    Add,
    Status,
    Commit,
    Push,
    Done,
}

/// Stages all changes and commits them with `message`; a flush first checks
/// for changes (committing only when there are some) and then force-pushes
/// `branch` to origin.
#[derive(Debug, Clone)]
pub struct CommitAll {
    pub path: String,
    pub message: String,
    /// The branch a flush pushes afterwards; none for a plain commit.
    pub push_branch: Option<String>,
    pub step: CommitStep,
}

/// What follows a finished commit: done, or the forced push of a flush.
pub open spec fn after_commit(m: CommitAll) -> (CommitStep, GitActionView) {
    match m.push_branch {
        Some(b) => (CommitStep::Push, GitActionView::Run(seq!["push"@, "--force"@, "origin"@, b@], false)),
        None => (CommitStep::Done, GitActionView::Finished(Ok(()))),
    }
}

/// One transition of a commit-all or flush.
pub open spec fn commit_next(m: CommitAll, ev: Outcome) -> (CommitStep, GitActionView) {
    let p = m.path@;
    match m.step {
        CommitStep::FirstStatus => match ev {
            Outcome::NotRun(_) => (CommitStep::Done, GitActionView::Finished(Err("Failed to run git status --porcelain"@))),
            Outcome::Exited(e) => match dirty_spec(p, e) {
                Err(x) => (CommitStep::Done, GitActionView::Finished(Err(x))),
                Ok(true) => (CommitStep::Add, GitActionView::Run(seq!["add"@, "-A"@], false)),
                Ok(false) => after_commit(m),
            },
        },
        CommitStep::Add => match single_result(ev, "Failed to run git add -A"@, "git add failed in "@ + p + ": "@) {
            Err(x) => (CommitStep::Done, GitActionView::Finished(Err(x))),
            Ok(()) => (CommitStep::Status, GitActionView::Run(status_args(), false)),
        },
        CommitStep::Status => match ev {
            Outcome::NotRun(_) => (CommitStep::Done, GitActionView::Finished(Err("Failed to run git status --porcelain"@))),
            Outcome::Exited(e) => match dirty_spec(p, e) {
                Err(x) => (CommitStep::Done, GitActionView::Finished(Err(x))),
                Ok(false) => (CommitStep::Done, GitActionView::Finished(Err("no changes to commit"@))),
                Ok(true) => (CommitStep::Commit, GitActionView::Run(seq!["commit"@, "-m"@, m.message@], false)),
            },
        },
        CommitStep::Commit => match single_result(ev, "Failed to run git commit"@, "git commit failed in "@ + p + ": "@) {
            Err(x) => (CommitStep::Done, GitActionView::Finished(Err(x))),
            Ok(()) => after_commit(m),
        },
        CommitStep::Push => match m.push_branch {
            Some(b) => match single_result(ev, "Failed to run git push --force"@, "git push --force origin "@ + b@ + " failed: "@) {
                Err(x) => (CommitStep::Done, GitActionView::Finished(Err(x))),
                Ok(()) => (CommitStep::Done, GitActionView::Finished(Ok(()))),
            },
            None => (CommitStep::Done, GitActionView::Finished(Ok(()))),
        },
        CommitStep::Done => (CommitStep::Done, GitActionView::Finished(Ok(()))),
    }
}

impl CommitAll {
    /// Stage all changes and commit with the given message: starts with
    /// `git add -A`.
    pub fn commit_all(path: &str, message: &str) -> (r: (CommitAll, GitAction))
        ensures
            r.0.path@ == path@ && r.0.message@ == message@ && r.0.push_branch is None,
            r.0.step == CommitStep::Add,
            r.1@ == GitActionView::Run(seq!["add"@, "-A"@], false),
    {
        (
            CommitAll {
                path: String::from_str(path),
                message: String::from_str(message),
                push_branch: None,
                step: CommitStep::Add,
            },
            run(args2("add", "-A"), false),
        )
    }

    /// Commit all pending changes with an auto-generated time-stamp message
    /// (`polyws flush <local time>`) and force-push `branch` to origin:
    /// starts with a status check.
    pub fn flush_repo(path: &str, branch: &str) -> (r: (CommitAll, GitAction))
        ensures
            r.0.path@ == path@ && (r.0.push_branch matches Some(b) && b@ == branch@),
            r.0.message@.take(13) == "polyws flush "@,
            exists|t: Seq<char>| is_local_stamp(t) && r.0.message@ == "polyws flush "@ + t,
            r.0.step == CommitStep::FirstStatus,
            r.1@ == GitActionView::Run(status_args(), false),
    {
        let ts = local_timestamp();
        let message = cat("polyws flush ", ts.as_str());
        proof {
            assert(message@.take(13) =~= "polyws flush "@) by {
                reveal_strlit("polyws flush ");
            }
        }
        (
            CommitAll {
                path: String::from_str(path),
                message,
                push_branch: Some(String::from_str(branch)),
                step: CommitStep::FirstStatus,
            },
            run(args2("status", "--porcelain"), false),
        )
    }

    fn after(&mut self) -> (r: GitAction)
        ensures
            final(self).path == old(self).path && final(self).message == old(self).message,
            final(self).push_branch == old(self).push_branch,
            (final(self).step, r@) == after_commit(*old(self)),
    {
        match &self.push_branch {
            Some(b) => {
                let v = args4("push", "--force", "origin", b.as_str());
                self.step = CommitStep::Push;
                run(v, false)
            },
            None => {
                self.step = CommitStep::Done;
                done()
            },
        }
    }

    /// Feeds the outcome of the last command; returns the next action.
    pub fn next(&mut self, ev: &Outcome) -> (r: GitAction)
        ensures
            final(self).path == old(self).path && final(self).message == old(self).message,
            final(self).push_branch == old(self).push_branch,
            (final(self).step, r@) == commit_next(*old(self), *ev),
    {
        match self.step {
            CommitStep::FirstStatus => match ev {
                Outcome::NotRun(_) => {
                    self.step = CommitStep::Done;
                    fail_str("Failed to run git status --porcelain")
                },
                Outcome::Exited(e) => match has_uncommitted_changes(self.path.as_str(), e) {
                    Err(x) => {
                        self.step = CommitStep::Done;
                        fail(x)
                    },
                    Ok(true) => {
                        self.step = CommitStep::Add;
                        run(args2("add", "-A"), false)
                    },
                    Ok(false) => self.after(),
                },
            },
            CommitStep::Add => {
                let mut f = cat("git add failed in ", self.path.as_str());
                f.append(": ");
                match single(ev, "Failed to run git add -A", f) {
                    Err(x) => {
                        self.step = CommitStep::Done;
                        fail(x)
                    },
                    Ok(()) => {
                        self.step = CommitStep::Status;
                        run(args2("status", "--porcelain"), false)
                    },
                }
            },
            CommitStep::Status => match ev {
                Outcome::NotRun(_) => {
                    self.step = CommitStep::Done;
                    fail_str("Failed to run git status --porcelain")
                },
                Outcome::Exited(e) => match has_uncommitted_changes(self.path.as_str(), e) {
                    Err(x) => {
                        self.step = CommitStep::Done;
                        fail(x)
                    },
                    Ok(false) => {
                        self.step = CommitStep::Done;
                        fail_str("no changes to commit")
                    },
                    Ok(true) => {
                        self.step = CommitStep::Commit;
                        run(args3("commit", "-m", self.message.as_str()), false)
                    },
                },
            },
            CommitStep::Commit => {
                let mut f = cat("git commit failed in ", self.path.as_str());
                f.append(": ");
                match single(ev, "Failed to run git commit", f) {
                    Err(x) => {
                        self.step = CommitStep::Done;
                        fail(x)
                    },
                    Ok(()) => self.after(),
                }
            },
            CommitStep::Push => match &self.push_branch {
                Some(b) => {
                    let mut f = cat("git push --force origin ", b.as_str());
                    f.append(" failed: ");
                    let r = single(ev, "Failed to run git push --force", f);
                    self.step = CommitStep::Done;
                    finished(r)
                },
                None => {
                    self.step = CommitStep::Done;
                    done()
                },
            },
            CommitStep::Done => done(),
        }
    }
}


// ---------------------------------------------------------------------------
// laws
// ---------------------------------------------------------------------------

/// The action runs `git reset`.
pub open spec fn is_reset(a: GitActionView) -> bool {
    a matches GitActionView::Run(args, _) && args.len() > 0 && args[0] == "reset"@
}

/// Law: a pull without `--force` never resets the repository (it only
/// fast-forwards, or fails on local changes and divergence).
pub proof fn law_safe_pull_never_resets(p: Pull, ev: Outcome)
    requires
        !p.force,
    ensures
        !is_reset(pull_next(p, ev).2),
{
    reveal_strlit("reset");
    reveal_strlit("rev-parse");
    reveal_strlit("status");
    reveal_strlit("log");
    reveal_strlit("merge");
    assert("reset"@.len() != "rev-parse"@.len());
    assert("reset"@ != "rev-parse"@);
    assert("reset"@.len() != "status"@.len());
    assert("reset"@ != "status"@);
    assert("reset"@ != "log"@);
    assert("reset"@[0] != "merge"@[0]);
    assert("reset"@ != "merge"@);
}

/// Law: once a mirror push has switched to the sync branch, every outcome
/// leads to another command; it never stops before restoring the original
/// branch.
pub proof fn law_sync_push_restores(
    path: Seq<char>,
    base: Seq<char>,
    url: Seq<char>,
    v: SyncView,
    ev: Outcome,
    stamp: Seq<char>,
)
    requires
        v.step == SyncStep::Checkout || v.step == SyncStep::Apply || v.step == SyncStep::SyncDirty
            || v.step == SyncStep::Add || v.step == SyncStep::Commit || v.step == SyncStep::Push,
    ensures
        sync_next(path, base, url, v, ev, stamp).1 is Run,
{
}

/// Law: a mirror push that stashed local changes pops them again after
/// restoring the branch, unless restoring could not even be started.
pub proof fn law_sync_push_pops_stash(
    path: Seq<char>,
    base: Seq<char>,
    url: Seq<char>,
    v: SyncView,
    ev: Outcome,
    stamp: Seq<char>,
)
    requires
        v.step == SyncStep::Restore,
        v.stashed,
        ev is Exited,
    ensures
        sync_next(path, base, url, v, ev, stamp).0.step == SyncStep::Pop,
        sync_next(path, base, url, v, ev, stamp).1 == GitActionView::Run(seq!["stash"@, "pop"@], false),
{
}

/// Law: a safe pull (without `--force`) leaves a dirty worktree alone.
/// When `git status --porcelain` succeeds and prints anything besides white
/// space, the pull stops at once with the dirty-worktree error and asks
/// for no further command; when it prints only white space, the pull goes
/// on to count the local commits the remote lacks.
pub proof fn law_safe_pull_leaves_dirty_tree(p: Pull, e: Exit)
    requires
        !p.force,
        p.step == PullStep::Status,
        e.success,
    ensures
        (exists|i: int| 0 <= i < e.stdout@.len() && !is_space(#[trigger] e.stdout@[i])) ==> pull_next(
            p,
            Outcome::Exited(e),
        ).2 == GitActionView::Finished(
            Err("working tree has local changes; skipping safe pull (rerun with --force to discard changes)"@),
        ),
        (exists|i: int| 0 <= i < e.stdout@.len() && !is_space(#[trigger] e.stdout@[i])) ==> pull_next(
            p,
            Outcome::Exited(e),
        ).0 == PullStep::Done,
        (forall|i: int| 0 <= i < e.stdout@.len() ==> is_space(#[trigger] e.stdout@[i])) ==> pull_next(
            p,
            Outcome::Exited(e),
        ).2 == GitActionView::Run(seq!["log"@, "--oneline"@, "origin/"@ + p.branch@ + "..HEAD"@], false),
{
    lemma_trim_blank(e.stdout@);
}

/// A mirror push whose sync proper failed and that is restoring the
/// repository (or has ended).
pub open spec fn settled_failure(v: SyncView) -> bool {
    &&& v.failure is Some
    &&& (v.step == SyncStep::Restore || v.step == SyncStep::Pop || v.step == SyncStep::Done)
}

/// The state of a mirror push after it was fed the outcomes `evs` in turn.
pub open spec fn sync_run(
    path: Seq<char>,
    base: Seq<char>,
    url: Seq<char>,
    v: SyncView,
    evs: Seq<Outcome>,
    stamp: Seq<char>,
) -> SyncView
    decreases evs.len(),
{
    if evs.len() == 0 {
        v
    } else {
        sync_run(path, base, url, sync_next(path, base, url, v, evs[0], stamp).0, evs.drop_first(), stamp)
    }
}

proof fn lemma_settled_step(path: Seq<char>, base: Seq<char>, url: Seq<char>, v: SyncView, ev: Outcome, stamp: Seq<char>)
    requires
        settled_failure(v),
    ensures
        settled_failure(sync_next(path, base, url, v, ev, stamp).0),
        !(sync_next(path, base, url, v, ev, stamp).1 matches GitActionView::Finished(Ok(_))),
{
}

proof fn lemma_settled_run(path: Seq<char>, base: Seq<char>, url: Seq<char>, v: SyncView, evs: Seq<Outcome>, stamp: Seq<char>)
    requires
        settled_failure(v),
    ensures
        settled_failure(sync_run(path, base, url, v, evs, stamp)),
    decreases evs.len(),
{
    if evs.len() > 0 {
        lemma_settled_step(path, base, url, v, evs[0], stamp);
        lemma_settled_run(path, base, url, sync_next(path, base, url, v, evs[0], stamp).0, evs.drop_first(), stamp);
    }
}

/// Law: a mirror push whose push of the sync branch did not succeed is
/// never reported as a success. Whatever the outcomes of the commands that
/// restore the repository, every action it takes from then on is another
/// command or a failure.
pub proof fn law_failed_sync_push_fails(
    path: Seq<char>,
    base: Seq<char>,
    url: Seq<char>,
    v: SyncView,
    push: Outcome,
    later: Seq<Outcome>,
    ev: Outcome,
    stamp: Seq<char>,
)
    requires
        v.step == SyncStep::Push,
        !(push matches Outcome::Exited(e) && e.success),
    ensures
        !(sync_next(path, base, url, v, push, stamp).1 matches GitActionView::Finished(Ok(_))),
        !(sync_next(
            path,
            base,
            url,
            sync_run(path, base, url, sync_next(path, base, url, v, push, stamp).0, later, stamp),
            ev,
            stamp,
        ).1 matches GitActionView::Finished(Ok(_))),
{
    let w = sync_next(path, base, url, v, push, stamp).0;
    assert(settled_failure(w));
    lemma_settled_run(path, base, url, w, later, stamp);
    lemma_settled_step(path, base, url, sync_run(path, base, url, w, later, stamp), ev, stamp);
}

/// Law: a mirror push reports success only along the path of a successful
/// push. Restoring starts without a failure only right after the push of
/// the sync branch succeeded; popping the stash carries the failure of the
/// restore step unchanged; and success is reported only from restoring,
/// popping or the end, without a failure.
pub proof fn law_sync_ok_needs_push(
    path: Seq<char>,
    base: Seq<char>,
    url: Seq<char>,
    v: SyncView,
    ev: Outcome,
    stamp: Seq<char>,
)
    ensures
        sync_next(path, base, url, v, ev, stamp).0.step == SyncStep::Restore && sync_next(
            path,
            base,
            url,
            v,
            ev,
            stamp,
        ).0.failure is None ==> v.step == SyncStep::Push && (ev matches Outcome::Exited(e) && e.success),
        sync_next(path, base, url, v, ev, stamp).0.step == SyncStep::Pop ==> (v.step == SyncStep::Restore || v.step
            == SyncStep::Pop) && sync_next(path, base, url, v, ev, stamp).0.failure == v.failure,
        sync_next(path, base, url, v, ev, stamp).1 == GitActionView::Finished(Ok(())) ==> (v.step == SyncStep::Restore
            || v.step == SyncStep::Pop || v.step == SyncStep::Done) && v.failure is None,
{
}

/// Law: a flush pushes even when there is nothing to commit: a clean first
/// status (a successful `git status --porcelain` that prints only white
/// space) leads straight to the forced push of the branch.
pub proof fn law_clean_flush_pushes(m: CommitAll, b: String, e: Exit)
    requires
        m.push_branch == Some(b),
        m.step == CommitStep::FirstStatus,
        e.success,
        forall|i: int| 0 <= i < e.stdout@.len() ==> is_space(#[trigger] e.stdout@[i]),
    ensures
        commit_next(m, Outcome::Exited(e)) == (
            CommitStep::Push,
            GitActionView::Run(seq!["push"@, "--force"@, "origin"@, b@], false),
        ),
{
    lemma_trim_blank(e.stdout@);
}

/// Law: a flush finishes successfully only once its forced push has
/// succeeded (or when it had already ended): no other step of a flush
/// reports success.
pub proof fn law_flush_succeeds_after_push(m: CommitAll, ev: Outcome)
    requires
        m.push_branch is Some,
        commit_next(m, ev).1 == GitActionView::Finished(Ok(())),
    ensures
        m.step == CommitStep::Done || (m.step == CommitStep::Push && (ev matches Outcome::Exited(e) && e.success)),
{
}

} // verus!
