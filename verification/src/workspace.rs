//! Workspace operations: adding and removing projects, and the decisions
//! that `pull`, `push`, `status`, `list` and `repair` make for a project.
use vstd::prelude::*;

use crate::config::{deps_of, has_name, local_dir_of, strs, Project, WorkspaceConfig};
use crate::dirs::{dir_in_use, dir_used, normal_dir, normalize_local_dir};
use crate::report::{add_report, reports, Level, Report};
use crate::text::{cat, cat3, cat4, cat5, join, join_strings, str_eq, trim, trim_str, u64_to_decimal, decimal};
use crate::vm::ssh::views;

verus! {

/// Why a project could not be added.
#[derive(Debug, Clone, PartialEq, Eq)]
pub enum AddError {
    /// A project of this name is already in the workspace.
    Exists(String),
    /// The requested directory is not relative to the workspace root.
    AbsolutePath,
    /// Another project already lives in this directory.
    PathUsed(String),
    /// The project names itself among its dependencies.
    SelfDependency(String),
    /// A dependency names no project of the workspace.
    MissingDependency(String),
}

/// The model of an [`AddError`].
pub enum AddErrorView {
    Exists(Seq<char>),
    AbsolutePath,
    PathUsed(Seq<char>),
    SelfDependency(Seq<char>),
    MissingDependency(Seq<char>),
}

impl View for AddError {
    type V = AddErrorView;

    open spec fn view(&self) -> AddErrorView {
        match self {
            AddError::Exists(n) => AddErrorView::Exists(n@),
            AddError::AbsolutePath => AddErrorView::AbsolutePath,
            AddError::PathUsed(p) => AddErrorView::PathUsed(p@),
            AddError::SelfDependency(n) => AddErrorView::SelfDependency(n@),
            AddError::MissingDependency(d) => AddErrorView::MissingDependency(d@),
        }
    }
}

/// The text of an add error.
pub open spec fn add_error_text(e: AddErrorView) -> Seq<char> {
    match e {
        AddErrorView::Exists(n) => "Project '"@ + n + "' already exists in the workspace"@,
        AddErrorView::AbsolutePath => "Project path must be relative to workspace root"@,
        AddErrorView::PathUsed(p) => "Project path '"@ + p + "' is already used by another project"@,
        AddErrorView::SelfDependency(n) => "Project '"@ + n + "' cannot depend on itself"@,
        AddErrorView::MissingDependency(d) => "Dependency '"@ + d
            + "' not found. Add it first or remove it from --depends-on."@,
    }
}

impl AddError {
    /// The message shown for this error.
    pub fn message(&self) -> (r: String)
        ensures
            r@ == add_error_text(self@),
    {
        match self {
            AddError::Exists(n) => cat3("Project '", n.as_str(), "' already exists in the workspace"),
            AddError::AbsolutePath => String::from_str("Project path must be relative to workspace root"),
            AddError::PathUsed(p) => cat3("Project path '", p.as_str(), "' is already used by another project"),
            AddError::SelfDependency(n) => cat3("Project '", n.as_str(), "' cannot depend on itself"),
            AddError::MissingDependency(d) => cat3(
                "Dependency '",
                d.as_str(),
                "' not found. Add it first or remove it from --depends-on.",
            ),
        }
    }
}

/// The directory requested for a new project: the trimmed path, unless it
/// is empty or just repeats the name.
pub open spec fn kept_path(name: Seq<char>, path: Option<Seq<char>>) -> Option<Seq<char>> {
    match path {
        Some(p) => if trim(p).len() > 0 && trim(p) != name {
            Some(trim(p))
        } else {
            None
        },
        None => None,
    }
}

/// The first of `deps[i..]` that names no project.
pub open spec fn first_missing(ps: Seq<Project>, deps: Seq<Seq<char>>, i: int) -> Option<Seq<char>>
    decreases deps.len() - i,
{
    if i < 0 || i >= deps.len() {
        None
    } else if !has_name(ps, deps[i]) {
        Some(deps[i])
    } else {
        first_missing(ps, deps, i + 1)
    }
}

/// The dependency checks of `add`.
pub open spec fn deps_check(ps: Seq<Project>, name: Seq<char>, deps: Seq<Seq<char>>) -> Result<(), AddErrorView> {
    if deps.contains(name) {
        Err(AddErrorView::SelfDependency(name))
    } else {
        match first_missing(ps, deps, 0) {
            Some(d) => Err(AddErrorView::MissingDependency(d)),
            None => Ok(()),
        }
    }
}

/// The directory a new project asks for: the kept path, else its name.
pub open spec fn requested_dir(name: Seq<char>, path: Option<Seq<char>>) -> Seq<char> {
    match kept_path(name, path) {
        Some(p) => p,
        None => name,
    }
}

/// A path that is relative on every platform: it starts with neither `/`
/// nor `\` and holds no `:` (so it has neither a root nor a Windows drive
/// or share prefix).
pub open spec fn plainly_relative(p: Seq<char>) -> bool {
    &&& (p.len() == 0 || (p[0] != '/' && p[0] != '\\'))
    &&& !p.contains(':')
}

/// Whether a project may be added, in the order the checks are made:
/// unique name, relative and unused directory, no dependency on itself,
/// every dependency present. `absolute` tells whether the requested
/// directory ([`requested_dir`]) is an absolute path on this platform.
pub open spec fn add_check(
    ps: Seq<Project>,
    name: Seq<char>,
    path: Option<Seq<char>>,
    deps: Seq<Seq<char>>,
    absolute: bool,
) -> Result<(), AddErrorView> {
    if has_name(ps, name) {
        Err(AddErrorView::Exists(name))
    } else {
        match kept_path(name, path) {
            Some(p) => if absolute {
                Err(AddErrorView::AbsolutePath)
            } else if dir_used(ps, normal_dir(p)) {
                Err(AddErrorView::PathUsed(p))
            } else {
                deps_check(ps, name, deps)
            },
            None => if absolute {
                Err(AddErrorView::AbsolutePath)
            } else if dir_used(ps, normal_dir(name)) {
                Err(AddErrorView::PathUsed(name))
            } else {
                deps_check(ps, name, deps)
            },
        }
    }
}

/// `p` is the project that `add` appends for these arguments.
pub open spec fn is_added_project(
    p: Project,
    name: String,
    path: Option<Seq<char>>,
    url: String,
    branch: String,
    depends_on: Seq<String>,
    sync_url: Option<String>,
) -> bool {
    &&& p.name == name
    &&& (match kept_path(name@, path) {
        Some(k) => p.path matches Some(q) && q@ == k,
        None => p.path is None,
    })
    &&& p.url == url
    &&& p.branch == branch
    &&& (if depends_on.len() == 0 {
        p.depends_on is None
    } else {
        p.depends_on matches Some(d) && d@ == depends_on
    })
    &&& p.sync_url == sync_url
    &&& p.sync_interval is None
}

/// What `add` does to the project list and returns, for the given answer
/// to "is the requested directory absolute?".
pub open spec fn add_outcome(
    old_ps: Seq<Project>,
    new_ps: Seq<Project>,
    r: Result<(), AddError>,
    name: String,
    path: Option<Seq<char>>,
    url: String,
    branch: String,
    depends_on: Seq<String>,
    sync_url: Option<String>,
    absolute: bool,
) -> bool {
    match add_check(old_ps, name@, path, strs(depends_on), absolute) {
        Ok(()) => {
            &&& r is Ok
            &&& new_ps.len() == old_ps.len() + 1
            &&& new_ps.take(old_ps.len() as int) == old_ps
            &&& is_added_project(new_ps.last(), name, path, url, branch, depends_on, sync_url)
        },
        Err(e) => r matches Err(x) && x@ == e && new_ps == old_ps,
    }
}

/// `path.is_absolute()` (std's `Path`): whether the path is absolute on
/// the platform the program runs on. What counts as absolute differs
/// between platforms (a leading `/` on Unix; a drive or share prefix and a
/// root on Windows, where both separators count), so the fact stated is the
/// one every platform shares: a path that starts with neither separator
/// and holds no `:` has no root and no prefix, and is not absolute.
#[verifier::external_body]
pub(crate) fn path_is_absolute(path: &str) -> (r: bool)
    ensures
        plainly_relative(path@) ==> !r,
{
    std::path::Path::new(path).is_absolute()
}

fn keep_path(name: &str, path: Option<String>) -> (r: Option<String>)
    ensures
        (match r {
            Some(s) => Some(s@),
            None => None::<Seq<char>>,
        }) == kept_path(
            name@,
            match path {
                Some(p) => Some(p@),
                None => None,
            },
        ),
{
    match path {
        Some(p) => {
            let t = trim_str(p.as_str());
            if !t.as_str().is_empty() && !str_eq(t.as_str(), name) {
                Some(t)
            } else {
                None
            }
        },
        None => None,
    }
}

fn first_missing_exec(cfg: &WorkspaceConfig, deps: &Vec<String>) -> (r: Option<usize>)
    ensures
        r matches Some(i) ==> i < deps.len() && first_missing(cfg.projects@, strs(deps@), 0) == Some(
            deps@[i as int]@,
        ),
        r is None ==> first_missing(cfg.projects@, strs(deps@), 0) is None,
{
    let ghost ds = strs(deps@);
    let mut i: usize = 0;
    while i < deps.len()
        invariant
            i <= deps.len(),
            ds == strs(deps@),
            first_missing(cfg.projects@, ds, i as int) == first_missing(cfg.projects@, ds, 0),
        decreases deps.len() - i,
    {
        assert(ds[i as int] == deps@[i as int]@);
        let found = cfg.find_project(deps[i].as_str());
        proof {
            crate::config::lemma_resolve_has_name(cfg.projects@, ds[i as int]);
        }
        if found.is_none() {
            return Some(i);
        }
        i += 1;
    }
    None
}

impl WorkspaceConfig {
    /// Adds a project, after the checks of [`add_check`]; `absolute` is the
    /// platform's answer to whether the requested directory (the trimmed
    /// `path`) is absolute. On an error nothing changes.
    #[verifier::loop_isolation(false)]
    pub fn add_project_checked(
        &mut self,
        name: String,
        path: Option<String>,
        url: String,
        branch: String,
        depends_on: Vec<String>,
        sync_url: Option<String>,
        absolute: bool,
    ) -> (r: Result<(), AddError>)
        ensures
            add_outcome(
                old(self).projects@,
                final(self).projects@,
                r,
                name,
                match path {
                    Some(p) => Some(p@),
                    None => None,
                },
                url,
                branch,
                depends_on@,
                sync_url,
                absolute,
            ),
            final(self).name == old(self).name,
            final(self).sync_interval_minutes == old(self).sync_interval_minutes,
            final(self).vm == old(self).vm,
    {
        let ghost ps = self.projects@;
        proof {
            crate::config::lemma_resolve_has_name(ps, name@);
        }
        if self.find_project(name.as_str()).is_some() {
            return Err(AddError::Exists(name));
        }
        let kept = keep_path(name.as_str(), path);
        match &kept {
            Some(p) => {
                if absolute {
                    return Err(AddError::AbsolutePath);
                }
                let requested = normalize_local_dir(p.as_str());
                if dir_in_use(&self.projects, requested.as_str()) {
                    return Err(AddError::PathUsed(p.clone()));
                }
            },
            None => {
                if absolute {
                    return Err(AddError::AbsolutePath);
                }
                let requested = normalize_local_dir(name.as_str());
                if dir_in_use(&self.projects, requested.as_str()) {
                    return Err(AddError::PathUsed(name));
                }
            },
        }
        let mut k: usize = 0;
        while k < depends_on.len()
            invariant
                k <= depends_on.len(),
                forall|j: int| 0 <= j < k ==> depends_on@[j]@ != name@,
            decreases depends_on.len() - k,
        {
            if str_eq(depends_on[k].as_str(), name.as_str()) {
                assert(strs(depends_on@)[k as int] == name@);
                assert(strs(depends_on@).contains(name@));
                return Err(AddError::SelfDependency(name));
            }
            k += 1;
        }
        assert(!strs(depends_on@).contains(name@)) by {
            if strs(depends_on@).contains(name@) {
                let j = choose|j: int| 0 <= j < strs(depends_on@).len() && strs(depends_on@)[j] == name@;
                assert(strs(depends_on@)[j] == depends_on@[j]@);
            }
        }
        match first_missing_exec(self, &depends_on) {
            Some(i) => {
                return Err(AddError::MissingDependency(depends_on[i].clone()));
            },
            None => {},
        }
        let deps = if depends_on.len() == 0 {
            None
        } else {
            Some(depends_on)
        };
        let project = Project { name, path: kept, url, branch, depends_on: deps, sync_url, sync_interval: None };
        self.projects.push(project);
        assert(self.projects@.take(ps.len() as int) =~= ps);
        Ok(())
    }

    /// Adds a project (see [`add_project_checked`]), asking the platform
    /// whether the requested directory ([`requested_dir`]) is absolute. The
    /// outcome is that of one of the two answers, and that of "not
    /// absolute" where the directory is relative on every platform.
    pub fn add_project(
        &mut self,
        name: String,
        path: Option<String>,
        url: String,
        branch: String,
        depends_on: Vec<String>,
        sync_url: Option<String>,
    ) -> (r: Result<(), AddError>)
        ensures
            add_outcome(
                old(self).projects@,
                final(self).projects@,
                r,
                name,
                match path {
                    Some(p) => Some(p@),
                    None => None,
                },
                url,
                branch,
                depends_on@,
                sync_url,
                false,
            ) || add_outcome(
                old(self).projects@,
                final(self).projects@,
                r,
                name,
                match path {
                    Some(p) => Some(p@),
                    None => None,
                },
                url,
                branch,
                depends_on@,
                sync_url,
                true,
            ),
            plainly_relative(
                requested_dir(
                    name@,
                    match path {
                        Some(p) => Some(p@),
                        None => None,
                    },
                ),
            ) ==> add_outcome(
                old(self).projects@,
                final(self).projects@,
                r,
                name,
                match path {
                    Some(p) => Some(p@),
                    None => None,
                },
                url,
                branch,
                depends_on@,
                sync_url,
                false,
            ),
            final(self).name == old(self).name,
            final(self).sync_interval_minutes == old(self).sync_interval_minutes,
            final(self).vm == old(self).vm,
    {
        let dir = match &path {
            Some(p) => {
                let t = trim_str(p.as_str());
                if !t.as_str().is_empty() && !str_eq(t.as_str(), name.as_str()) {
                    t
                } else {
                    String::from_str(name.as_str())
                }
            },
            None => String::from_str(name.as_str()),
        };
        let absolute = path_is_absolute(dir.as_str());
        self.add_project_checked(name, path, url, branch, depends_on, sync_url, absolute)
    }
}

/// The projects of `ps` not named `name`, in order.
pub open spec fn without(ps: Seq<Project>, name: Seq<char>) -> Seq<Project>
    decreases ps.len(),
{
    if ps.len() == 0 {
        ps
    } else if ps.last().name@ == name {
        without(ps.drop_last(), name)
    } else {
        without(ps.drop_last(), name).push(ps.last())
    }
}

/// The message of a removal that found no project.
pub open spec fn not_found_text(name: Seq<char>) -> Seq<char> {
    "Project '"@ + name + "' not found in the workspace"@
}

impl WorkspaceConfig {
    /// Removes every project named `name`; an error when there is none.
    pub fn remove_project(&mut self, name: &str) -> (r: Result<(), String>)
        ensures
            final(self).projects@ == without(old(self).projects@, name@),
            r is Ok <==> has_name(old(self).projects@, name@),
            r matches Err(m) ==> m@ == not_found_text(name@),
            final(self).name == old(self).name,
            final(self).sync_interval_minutes == old(self).sync_interval_minutes,
            final(self).vm == old(self).vm,
    {
        let ghost ps = self.projects@;
        let ghost mut k: int = 0;
        let mut i: usize = 0;
        let mut removed = false;
        while i < self.projects.len()
            invariant
                0 <= i <= k <= ps.len(),
                self.projects.len() == i + (ps.len() - k),
                self.projects@.take(i as int) == without(ps.take(k), name@),
                self.projects@.skip(i as int) == ps.skip(k),
                removed <==> exists|j: int| 0 <= j < k && ps[j].name@ == name@,
                self.name == old(self).name,
                self.sync_interval_minutes == old(self).sync_interval_minutes,
                self.vm == old(self).vm,
            decreases self.projects.len() - i,
        {
            assert(ps.take(k + 1).drop_last() =~= ps.take(k));
            assert(self.projects@[i as int] == self.projects@.skip(i as int)[0]);
            assert(ps.skip(k)[0] == ps[k]);
            if str_eq(self.projects[i].name.as_str(), name) {
                let ghost before = self.projects@;
                let _gone = self.projects.remove(i);
                assert(self.projects@.take(i as int) =~= before.take(i as int));
                assert forall|m: int| 0 <= m < self.projects@.skip(i as int).len() implies
                    #[trigger] self.projects@.skip(i as int)[m] == ps.skip(k + 1)[m] by {
                    assert(before.skip(i as int)[m + 1] == ps.skip(k)[m + 1]);
                }
                assert(self.projects@.skip(i as int) =~= ps.skip(k + 1));
                removed = true;
                proof {
                    k = k + 1;
                }
            } else {
                assert(self.projects@.take(i + 1) =~= self.projects@.take(i as int).push(self.projects@[i as int]));
                assert forall|m: int| 0 <= m < self.projects@.skip(i + 1).len() implies
                    #[trigger] self.projects@.skip(i + 1)[m] == ps.skip(k + 1)[m] by {
                    assert(self.projects@.skip(i as int)[m + 1] == ps.skip(k)[m + 1]);
                }
                assert(self.projects@.skip(i + 1) =~= ps.skip(k + 1));
                i += 1;
                proof {
                    k = k + 1;
                }
            }
        }
        assert(ps.take(k) =~= ps);
        assert(self.projects@ =~= self.projects@.take(i as int));
        if removed {
            Ok(())
        } else {
            Err(cat3("Project '", name, "' not found in the workspace"))
        }
    }
}

// ---------------------------------------------------------------------------
// pull and push, one project at a time
// ---------------------------------------------------------------------------

/// What `pull` does with a project's directory.
#[derive(Debug, Clone, Copy, PartialEq, Eq, Structural)]
pub enum PullPlan {
    /// Update the repository that is there.
    Update,
    /// Clone into the directory (it is missing or empty).
    Clone,
    /// Refuse: the directory holds files but no repository.
    NotARepo,
}

/// The plan for a directory, given whether it exists, holds a repository
/// and is empty.
pub open spec fn pull_plan_spec(exists: bool, is_repo: bool, is_empty: bool) -> PullPlan {
    if !exists {
        PullPlan::Clone
    } else if is_repo {
        PullPlan::Update
    } else if is_empty {
        PullPlan::Clone
    } else {
        PullPlan::NotARepo
    }
}

/// Decides how a project is pulled.
pub fn pull_plan(exists: bool, is_repo: bool, is_empty: bool) -> (r: PullPlan)
    ensures
        r == pull_plan_spec(exists, is_repo, is_empty),
{
    if exists {
        if is_repo {
            PullPlan::Update
        } else if is_empty {
            PullPlan::Clone
        } else {
            PullPlan::NotARepo
        }
    } else {
        PullPlan::Clone
    }
}

/// The error of a directory that holds files but no repository.
pub fn not_a_repo_message(local_dir: &str) -> (r: String)
    ensures
        r@ == "'"@ + local_dir@ + "' exists but is not a git repository"@,
{
    cat3("'", local_dir, "' exists but is not a git repository")
}

/// The report of one project's pull: updated or cloned, or the failure.
pub fn pull_report(name: &str, plan: PullPlan, result: &Result<(), String>) -> (r: Report)
    ensures
        r@ == (match result {
            Ok(()) => (Level::Pass, name@ + (if plan == PullPlan::Update {
                " updated"@
            } else {
                " cloned"@
            })),
            Err(e) => (Level::Fail, name@ + ": "@ + e@),
        }),
{
    match result {
        Ok(()) => {
            if plan == PullPlan::Update {
                Report { level: Level::Pass, text: cat(name, " updated") }
            } else {
                Report { level: Level::Pass, text: cat(name, " cloned") }
            }
        },
        Err(e) => Report { level: Level::Fail, text: cat3(name, ": ", e.as_str()) },
    }
}

/// The check before a push: the project's directory must exist.
pub fn push_precheck(exists: bool, local_dir: &str) -> (r: Result<(), String>)
    ensures
        r is Ok <==> exists,
        r matches Err(m) ==> m@ == "directory '"@ + local_dir@ + "' not found \u{2014} run `polyws pull` first"@,
{
    if exists {
        Ok(())
    } else {
        Err(cat3("directory '", local_dir, "' not found \u{2014} run `polyws pull` first"))
    }
}

/// The report of one project's push.
pub fn push_report(name: &str, result: &Result<(), String>) -> (r: Report)
    ensures
        r@ == (match result {
            Ok(()) => (Level::Pass, name@ + " pushed"@),
            Err(e) => (Level::Fail, name@ + ": "@ + e@),
        }),
{
    match result {
        Ok(()) => Report { level: Level::Pass, text: cat(name, " pushed") },
        Err(e) => Report { level: Level::Fail, text: cat3(name, ": ", e.as_str()) },
    }
}

/// The banner before a level of several projects run in parallel, such as
/// `Pull level 2 \u{2014} running 3 projects in parallel`; none for a level
/// of one project. `index` counts from 0.
pub fn level_banner(title: &str, index: usize, count: usize) -> (r: Option<String>)
    requires
        index < usize::MAX,
    ensures
        count <= 1 ==> r is None,
        count > 1 ==> (r matches Some(t) && t@ == title@ + decimal((index + 1) as nat)
            + " \u{2014} running "@ + decimal(count as nat) + " projects in parallel"@),
{
    if count <= 1 {
        return None;
    }
    let i = u64_to_decimal((index + 1) as u64);
    let n = u64_to_decimal(count as u64);
    let mut t = cat4(title, i.as_str(), " \u{2014} running ", n.as_str());
    t.append(" projects in parallel");
    Some(t)
}

// ---------------------------------------------------------------------------
// list and status
// ---------------------------------------------------------------------------

/// The placeholder of an empty cell.
pub open spec fn dash() -> Seq<char> {
    "\u{2014}"@
}

/// The dependencies cell of `list`: the names joined by `, `, or a dash.
pub open spec fn deps_cell(p: Project) -> Seq<char> {
    if deps_of(p).len() > 0 {
        join(deps_of(p), ", "@)
    } else {
        dash()
    }
}

/// The row `list` shows for a project: name, directory, branch,
/// dependencies and mirror URL.
pub open spec fn list_row_spec(p: Project) -> Seq<Seq<char>> {
    seq![
        p.name@,
        local_dir_of(p),
        p.branch@,
        deps_cell(p),
        match p.sync_url {
            Some(u) => u@,
            None => dash(),
        },
    ]
}

/// The row `list` shows for a project.
pub fn list_row(p: &Project) -> (r: Vec<String>)
    ensures
        views(r@) == list_row_spec(*p),
{
    let deps = match &p.depends_on {
        Some(d) => if d.len() > 0 {
            let j = join_strings(d, ", ");
            assert(d@.map_values(|s: String| s@) =~= deps_of(*p));
            j
        } else {
            assert(deps_of(*p).len() == 0);
            String::from_str("\u{2014}")
        },
        None => String::from_str("\u{2014}"),
    };
    let mirror = match &p.sync_url {
        Some(u) => u.clone(),
        None => String::from_str("\u{2014}"),
    };
    let mut r: Vec<String> = Vec::new();
    r.push(p.name.clone());
    r.push(String::from_str(p.local_dir()));
    r.push(p.branch.clone());
    r.push(deps);
    r.push(mirror);
    assert(views(r@) =~= list_row_spec(*p));
    r
}

/// The status text of a project: its repository status, or why there is
/// none. `status` is `None` when the status could not be read.
pub open spec fn status_text(exists: bool, status: Option<Seq<char>>) -> Seq<char> {
    if !exists {
        "missing \u{2014} run `polyws pull`"@
    } else {
        match status {
            Some(s) => s,
            None => "not a git repo"@,
        }
    }
}

/// The row `status` shows for a project: name, branch and status text.
pub fn status_row(p: &Project, exists: bool, status: Option<String>) -> (r: Vec<String>)
    ensures
        views(r@) == seq![p.name@, p.branch@, status_text(exists, match status {
            Some(s) => Some(s@),
            None => None,
        })],
{
    let ghost sv = match &status {
        Some(s) => Some(s@),
        None => None::<Seq<char>>,
    };
    let text = if !exists {
        String::from_str("missing \u{2014} run `polyws pull`")
    } else {
        match status {
            Some(s) => s,
            None => String::from_str("not a git repo"),
        }
    };
    let mut r: Vec<String> = Vec::new();
    r.push(p.name.clone());
    r.push(p.branch.clone());
    r.push(text);
    assert(views(r@) =~= seq![p.name@, p.branch@, status_text(exists, sv)]);
    r
}

// ---------------------------------------------------------------------------
// repair
// ---------------------------------------------------------------------------

/// What `repair` finds for a project.
#[derive(Debug, Clone, PartialEq, Eq)]
pub enum RepairStep {
    /// The directory is missing: clone it again.
    Reclone,
    /// The directory holds no repository: leave it to the user.
    NotARepo,
    /// The remote URL is the configured one.
    RemoteOk,
    /// The remote URL differs (the current one): set it to the configured one.
    FixRemote(String),
    /// The remote URL could not be read.
    CannotCheck,
}

/// The model of a [`RepairStep`].
pub enum RepairStepView {
    Reclone,
    NotARepo,
    RemoteOk,
    FixRemote(Seq<char>),
    CannotCheck,
}

impl View for RepairStep {
    type V = RepairStepView;

    open spec fn view(&self) -> RepairStepView {
        match self {
            RepairStep::Reclone => RepairStepView::Reclone,
            RepairStep::NotARepo => RepairStepView::NotARepo,
            RepairStep::RemoteOk => RepairStepView::RemoteOk,
            RepairStep::FixRemote(u) => RepairStepView::FixRemote(u@),
            RepairStep::CannotCheck => RepairStepView::CannotCheck,
        }
    }
}

/// The step for a project, given whether its directory exists and holds a
/// repository, and the remote URL that was read (`None` on failure).
pub open spec fn repair_step_spec(exists: bool, is_repo: bool, remote: Option<Seq<char>>, url: Seq<char>) -> RepairStepView {
    if !exists {
        RepairStepView::Reclone
    } else if !is_repo {
        RepairStepView::NotARepo
    } else {
        match remote {
            Some(u) => if u == url {
                RepairStepView::RemoteOk
            } else {
                RepairStepView::FixRemote(u)
            },
            None => RepairStepView::CannotCheck,
        }
    }
}

/// Decides what `repair` does for a project.
pub fn repair_step(exists: bool, is_repo: bool, remote: Option<String>, url: &str) -> (r: RepairStep)
    ensures
        r@ == repair_step_spec(exists, is_repo, match remote {
            Some(u) => Some(u@),
            None => None,
        }, url@),
{
    if !exists {
        RepairStep::Reclone
    } else if !is_repo {
        RepairStep::NotARepo
    } else {
        match remote {
            Some(u) => if str_eq(u.as_str(), url) {
                RepairStep::RemoteOk
            } else {
                RepairStep::FixRemote(u)
            },
            None => RepairStep::CannotCheck,
        }
    }
}

/// The arguments of `git` that point `origin` at `url`.
pub fn set_remote_args(url: &str) -> (r: Vec<String>)
    ensures
        views(r@) == seq!["remote"@, "set-url"@, "origin"@, url@],
{
    let mut r: Vec<String> = Vec::new();
    r.push(String::from_str("remote"));
    r.push(String::from_str("set-url"));
    r.push(String::from_str("origin"));
    r.push(String::from_str(url));
    assert(views(r@) =~= seq!["remote"@, "set-url"@, "origin"@, url@]);
    r
}

/// The reports `repair` shows for a project before any command runs.
pub open spec fn repair_opening(p: Project, s: RepairStepView) -> Seq<(Level, Seq<char>)> {
    match s {
        RepairStepView::Reclone => seq![(Level::Info, "Re-cloning missing repository: "@ + p.name@ + " ("@ + local_dir_of(p) + ")"@)],
        RepairStepView::NotARepo => seq![
            (Level::Fail, "'"@ + p.name@ + "' ("@ + local_dir_of(p) + ") exists but is not a git repository"@),
            (Level::Info, "Remove the directory and run `polyws repair` again to reclone."@),
        ],
        RepairStepView::RemoteOk => seq![(Level::Pass, p.name@ + " OK"@)],
        RepairStepView::FixRemote(cur) => seq![(Level::Info, "Fixing remote URL for '"@ + p.name@ + "': "@ + cur + " \u{2192} "@ + p.url@)],
        RepairStepView::CannotCheck => seq![(Level::Fail, "Could not check remote for '"@ + p.name@ + "'"@)],
    }
}

/// The reports `repair` shows for a project before any command runs.
pub fn repair_opening_reports(p: &Project, step: &RepairStep) -> (r: Vec<Report>)
    ensures
        reports(r@) == repair_opening(*p, step@),
{
    let mut r: Vec<Report> = Vec::new();
    let dir = p.local_dir();
    match step {
        RepairStep::Reclone => {
            let mut t = cat4("Re-cloning missing repository: ", p.name.as_str(), " (", dir);
            t.append(")");
            add_report(&mut r, Level::Info, t);
        },
        RepairStep::NotARepo => {
            let t = cat5("'", p.name.as_str(), "' (", dir, ") exists but is not a git repository");
            add_report(&mut r, Level::Fail, t);
            add_report(
                &mut r,
                Level::Info,
                String::from_str("Remove the directory and run `polyws repair` again to reclone."),
            );
        },
        RepairStep::RemoteOk => {
            add_report(&mut r, Level::Pass, cat(p.name.as_str(), " OK"));
        },
        RepairStep::FixRemote(cur) => {
            let mut t = cat4("Fixing remote URL for '", p.name.as_str(), "': ", cur.as_str());
            t.append(" \u{2192} ");
            t.append(p.url.as_str());
            add_report(&mut r, Level::Info, t);
        },
        RepairStep::CannotCheck => {
            add_report(&mut r, Level::Fail, cat3("Could not check remote for '", p.name.as_str(), "'"));
        },
    }
    assert(reports(r@) =~= repair_opening(*p, step@));
    r
}

/// The report after the command of a step ran: the clone of a missing
/// repository (`Err` with its error) or the change of the remote URL.
pub open spec fn repair_closing(name: Seq<char>, s: RepairStepView, result: Result<(), Seq<char>>) -> Option<(Level, Seq<char>)> {
    match s {
        RepairStepView::Reclone => Some(match result {
            Ok(()) => (Level::Pass, name + " cloned"@),
            Err(e) => (Level::Fail, "Failed to clone "@ + name + ": "@ + e),
        }),
        RepairStepView::FixRemote(_) => Some(match result {
            Ok(()) => (Level::Pass, name + " remote fixed"@),
            Err(_) => (Level::Fail, "Could not fix remote for "@ + name),
        }),
        _ => None,
    }
}

/// The report after the command of a step ran.
pub fn repair_closing_report(name: &str, step: &RepairStep, result: &Result<(), String>) -> (r: Option<Report>)
    ensures
        (match r {
            Some(x) => Some(x@),
            None => None,
        }) == repair_closing(name@, step@, match result {
            Ok(()) => Ok(()),
            Err(e) => Err(e@),
        }),
{
    match step {
        RepairStep::Reclone => Some(match result {
            Ok(()) => Report { level: Level::Pass, text: cat(name, " cloned") },
            Err(e) => Report { level: Level::Fail, text: cat4("Failed to clone ", name, ": ", e.as_str()) },
        }),
        RepairStep::FixRemote(_) => Some(match result {
            Ok(()) => Report { level: Level::Pass, text: cat(name, " remote fixed") },
            Err(_) => Report { level: Level::Fail, text: cat("Could not fix remote for ", name) },
        }),
        _ => None,
    }
}

// ---------------------------------------------------------------------------
// init
// ---------------------------------------------------------------------------

/// The refusal of `init` where a configuration exists already.
pub fn config_exists_message(path: &str) -> (r: String)
    ensures
        r@ == "workspace config already exists: "@ + path@,
{
    cat("workspace config already exists: ", path)
}

/// The configuration `init` writes: the given name, no projects, no VM.
pub fn new_workspace(name: String) -> (r: WorkspaceConfig)
    ensures
        r.name == name,
        r.sync_interval_minutes is None,
        r.projects@.len() == 0,
        r.vm is None,
{
    WorkspaceConfig { name, sync_interval_minutes: None, projects: Vec::new(), vm: None }
}

} // verus!
