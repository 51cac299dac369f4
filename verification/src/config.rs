//! The workspace configuration (`.polyws`) and its dependency graph.
//!
//! A project names the projects it depends on. A dependency is resolved by
//! name to the first project that carries that name; names that resolve to
//! no project are ignored by the ordering algorithms.
use vstd::prelude::*;

use crate::text::{chars_of, str_eq, string_of};

verus! {

/// One repository of the workspace.
#[derive(Debug, Clone)]
pub struct Project {
    pub name: String,
    /// Local directory relative to the workspace root; the name when absent.
    pub path: Option<String>,
    pub url: String,
    pub branch: String,
    pub depends_on: Option<Vec<String>>,
    pub sync_url: Option<String>,
    pub sync_interval: Option<u64>,
}

/// The remote development VM.
#[derive(Debug, Clone)]
pub struct VmConfig {
    pub host: String,
    pub user: String,
    pub path: String,
    pub sync: String,
    pub dependencies: Vec<String>,
}

/// The whole workspace configuration.
#[derive(Debug, Clone)]
pub struct WorkspaceConfig {
    pub name: String,
    pub sync_interval_minutes: Option<u64>,
    pub projects: Vec<Project>,
    pub vm: Option<VmConfig>,
}

/// Errors of the dependency algorithms.
#[derive(Debug, Clone, PartialEq, Eq)]
pub enum ConfigError {
    /// A dependency cycle was met while visiting the named project.
    Cycle(String),
    /// No remaining project had all of its dependencies completed; these
    /// are the names of the projects that were left.
    Unresolvable(Vec<String>),
}

/// The model of a [`ConfigError`].
pub enum ConfigErrorView {
    Cycle(Seq<char>),
    Unresolvable(Seq<Seq<char>>),
}

impl View for ConfigError {
    type V = ConfigErrorView;

    open spec fn view(&self) -> ConfigErrorView {
        match self {
            ConfigError::Cycle(n) => ConfigErrorView::Cycle(n@),
            ConfigError::Unresolvable(v) => ConfigErrorView::Unresolvable(strs(v@)),
        }
    }
}

impl ConfigError {
    /// The message shown for this error.
    pub fn message(&self) -> (r: String)
        ensures
            (match self@ {
                ConfigErrorView::Cycle(n) => r@ == "Cyclic dependency detected involving '"@ + n + "'"@,
                ConfigErrorView::Unresolvable(ns) => r@ == "Cyclic or unresolvable dependencies among: "@
                    + crate::text::join(ns, ", "@),
            }),
    {
        match self {
            ConfigError::Cycle(n) => crate::text::cat3("Cyclic dependency detected involving '", n.as_str(), "'"),
            ConfigError::Unresolvable(ns) => {
                let j = crate::text::join_strings(ns, ", ");
                assert(ns@.map_values(|s: String| s@) == strs(ns@));
                crate::text::cat("Cyclic or unresolvable dependencies among: ", j.as_str())
            },
        }
    }
}

/// The character sequences of a sequence of strings.
pub open spec fn strs(v: Seq<String>) -> Seq<Seq<char>> {
    v.map_values(|s: String| s@)
}

/// The names a project depends on (none when `depends_on` is absent).
pub open spec fn deps_of(p: Project) -> Seq<Seq<char>> {
    match p.depends_on {
        Some(d) => strs(d@),
        None => Seq::empty(),
    }
}

/// The names of the projects at the given indices.
pub open spec fn names_at(ps: Seq<Project>, idx: Seq<int>) -> Seq<Seq<char>> {
    idx.map_values(|i: int| ps[i].name@)
}

/// `i` is the first project named `name`.
pub open spec fn is_first_named(ps: Seq<Project>, name: Seq<char>, i: int) -> bool {
    &&& 0 <= i < ps.len()
    &&& ps[i].name@ == name
    &&& forall|j: int| 0 <= j < i ==> ps[j].name@ != name
}

/// Some project is named `name`.
pub open spec fn has_name(ps: Seq<Project>, name: Seq<char>) -> bool {
    exists|i: int| 0 <= i < ps.len() && ps[i].name@ == name
}

/// The index a name resolves to: the first project with that name.
pub open spec fn resolve(ps: Seq<Project>, name: Seq<char>) -> Option<int> {
    if exists|i: int| is_first_named(ps, name, i) {
        Some(choose|i: int| is_first_named(ps, name, i))
    } else {
        None
    }
}

proof fn lemma_first_named_unique(ps: Seq<Project>, name: Seq<char>, i: int, j: int)
    requires
        is_first_named(ps, name, i),
        is_first_named(ps, name, j),
    ensures
        i == j,
{
}

/// What `resolve` gives, from a first index found by search.
pub proof fn lemma_resolve_first(ps: Seq<Project>, name: Seq<char>, i: int)
    requires
        is_first_named(ps, name, i),
    ensures
        resolve(ps, name) == Some(i),
{
    let c = choose|k: int| is_first_named(ps, name, k);
    lemma_first_named_unique(ps, name, i, c);
}

/// A name of some project always resolves, to a project of that name.
pub proof fn lemma_resolve_has_name(ps: Seq<Project>, name: Seq<char>)
    ensures
        resolve(ps, name) is Some <==> has_name(ps, name),
        resolve(ps, name) matches Some(i) ==> is_first_named(ps, name, i),
{
    if has_name(ps, name) {
        let w = choose|i: int| 0 <= i < ps.len() && ps[i].name@ == name;
        lemma_first_exists(ps, name, w);
    }
}

proof fn lemma_first_exists(ps: Seq<Project>, name: Seq<char>, w: int)
    requires
        0 <= w < ps.len(),
        ps[w].name@ == name,
    ensures
        exists|i: int| is_first_named(ps, name, i),
    decreases w,
{
    if forall|j: int| 0 <= j < w ==> ps[j].name@ != name {
        assert(is_first_named(ps, name, w));
    } else {
        let j = choose|j: int| 0 <= j < w && ps[j].name@ == name;
        lemma_first_exists(ps, name, j);
    }
}

/// Index of the first project named `name`.
pub fn find_project_index(projects: &Vec<Project>, name: &str) -> (r: Option<usize>)
    ensures
        r matches Some(i) ==> resolve(projects@, name@) == Some(i as int),
        r is None ==> resolve(projects@, name@) is None,
        r is None <==> !has_name(projects@, name@),
{
    let mut i: usize = 0;
    while i < projects.len()
        invariant
            i <= projects.len(),
            forall|j: int| 0 <= j < i ==> projects@[j].name@ != name@,
        decreases projects.len() - i,
    {
        if str_eq(projects[i].name.as_str(), name) {
            proof {
                lemma_resolve_first(projects@, name@, i as int);
            }
            return Some(i);
        }
        i += 1;
    }
    proof {
        lemma_resolve_has_name(projects@, name@);
    }
    None
}

/// A workspace directory name as written in the config.
pub open spec fn local_dir_of(p: Project) -> Seq<char> {
    match p.path {
        Some(path) => path@,
        None => p.name@,
    }
}

impl Project {
    /// The directory of the project relative to the workspace root: its
    /// `path` when one is configured, else its name.
    pub fn local_dir(&self) -> (r: &str)
        ensures
            r@ == local_dir_of(*self),
    {
        match &self.path {
            Some(p) => p.as_str(),
            None => self.name.as_str(),
        }
    }
}

/// The branch a project tracks when its configuration names none.
pub fn default_branch() -> (s: String)
    ensures
        s@ == "main"@,
{
    String::from_str("main")
}

/// The VM synchronisation mode when the configuration names none.
pub fn default_sync() -> (s: String)
    ensures
        s@ == "rsync"@,
{
    String::from_str("rsync")
}

/// Whether `v` holds a string equal to `s`.
pub fn vec_has(v: &Vec<String>, s: &str) -> (b: bool)
    ensures
        b == strs(v@).contains(s@),
{
    let mut i: usize = 0;
    while i < v.len()
        invariant
            i <= v.len(),
            forall|j: int| 0 <= j < i ==> v@[j]@ != s@,
        decreases v.len() - i,
    {
        if str_eq(v[i].as_str(), s) {
            assert(strs(v@)[i as int] == s@);
            return true;
        }
        i += 1;
    }
    assert forall|j: int| 0 <= j < strs(v@).len() implies strs(v@)[j] != s@ by {
        assert(strs(v@)[j] == v@[j]@);
    }
    false
}


// ---------------------------------------------------------------------------
// Execution levels
// ---------------------------------------------------------------------------

/// Project `i` may run once the names in `done` have completed: every name
/// it depends on is among them.
pub open spec fn is_ready(ps: Seq<Project>, done: Seq<Seq<char>>, i: int) -> bool {
    forall|k: int| 0 <= k < deps_of(ps[i]).len() ==> done.contains(#[trigger] deps_of(ps[i])[k])
}

/// The ready projects of `rem`, in order.
pub open spec fn ready_part(ps: Seq<Project>, done: Seq<Seq<char>>, rem: Seq<int>) -> Seq<int>
    decreases rem.len(),
{
    if rem.len() == 0 {
        Seq::empty()
    } else if is_ready(ps, done, rem.last()) {
        ready_part(ps, done, rem.drop_last()).push(rem.last())
    } else {
        ready_part(ps, done, rem.drop_last())
    }
}

/// The projects of `rem` that are not ready, in order.
pub open spec fn waiting_part(ps: Seq<Project>, done: Seq<Seq<char>>, rem: Seq<int>) -> Seq<int>
    decreases rem.len(),
{
    if rem.len() == 0 {
        Seq::empty()
    } else if is_ready(ps, done, rem.last()) {
        waiting_part(ps, done, rem.drop_last())
    } else {
        waiting_part(ps, done, rem.drop_last()).push(rem.last())
    }
}

pub proof fn lemma_parts_len(ps: Seq<Project>, done: Seq<Seq<char>>, rem: Seq<int>)
    ensures
        ready_part(ps, done, rem).len() + waiting_part(ps, done, rem).len() == rem.len(),
    decreases rem.len(),
{
    if rem.len() > 0 {
        lemma_parts_len(ps, done, rem.drop_last());
    }
}

/// The levels that remain to be formed from the projects `rem` once the
/// names in `done` have completed: each level is every ready project left,
/// in configuration order; `Err` holds the projects left when none is
/// ready.
pub open spec fn levels_from(ps: Seq<Project>, rem: Seq<int>, done: Seq<Seq<char>>) -> Result<
    Seq<Seq<int>>,
    Seq<int>,
>
    decreases rem.len(),
{
    if rem.len() == 0 {
        Ok(Seq::empty())
    } else {
        let ready = ready_part(ps, done, rem);
        let waiting = waiting_part(ps, done, rem);
        if ready.len() == 0 {
            Err(waiting)
        } else {
            proof {
                lemma_parts_len(ps, done, rem);
            }
            match levels_from(ps, waiting, done + names_at(ps, ready)) {
                Ok(ls) => Ok(seq![ready] + ls),
                Err(w) => Err(w),
            }
        }
    }
}

/// All project indices in configuration order.
pub open spec fn all_indices(n: nat) -> Seq<int> {
    Seq::new(n, |i: int| i)
}

/// The execution levels of a workspace: level after level, the projects
/// whose dependencies have all completed in earlier levels.
pub open spec fn levels_spec(ps: Seq<Project>) -> Result<Seq<Seq<int>>, Seq<int>> {
    levels_from(ps, all_indices(ps.len()), Seq::empty())
}

/// A result computed over `rem`, after the levels `prefix` were formed.
pub open spec fn after_levels(prefix: Seq<Seq<int>>, r: Result<Seq<Seq<int>>, Seq<int>>) -> Result<
    Seq<Seq<int>>,
    Seq<int>,
> {
    match r {
        Ok(ls) => Ok(prefix + ls),
        Err(w) => Err(w),
    }
}

/// Indices held in a vector, as integers.
pub open spec fn ints(v: Seq<usize>) -> Seq<int> {
    v.map_values(|x: usize| x as int)
}

/// Levels held in vectors, as sequences of integers.
pub open spec fn level_ints(v: Seq<Vec<usize>>) -> Seq<Seq<int>> {
    v.map_values(|l: Vec<usize>| ints(l@))
}

fn is_ready_exec(ps: &Vec<Project>, done: &Vec<String>, i: usize) -> (b: bool)
    requires
        i < ps.len(),
    ensures
        b == is_ready(ps@, strs(done@), i as int),
{
    match &ps[i].depends_on {
        None => true,
        Some(deps) => {
            let mut k: usize = 0;
            while k < deps.len()
                invariant
                    k <= deps.len(),
                    ps@[i as int].depends_on == Some(*deps),
                    forall|m: int| 0 <= m < k ==> strs(done@).contains(#[trigger] deps_of(ps@[i as int])[m]),
                decreases deps.len() - k,
            {
                if !vec_has(done, deps[k].as_str()) {
                    assert(deps_of(ps@[i as int])[k as int] == deps@[k as int]@);
                    return false;
                }
                assert(deps_of(ps@[i as int])[k as int] == deps@[k as int]@);
                k += 1;
            }
            true
        },
    }
}

/// Splits `rem` into the ready projects and the others.
fn split_ready(ps: &Vec<Project>, done: &Vec<String>, rem: &Vec<usize>) -> (r: (Vec<usize>, Vec<usize>))
    requires
        forall|j: int| 0 <= j < rem.len() ==> rem@[j] < ps.len(),
    ensures
        ints(r.0@) == ready_part(ps@, strs(done@), ints(rem@)),
        ints(r.1@) == waiting_part(ps@, strs(done@), ints(rem@)),
        forall|j: int| 0 <= j < r.0.len() ==> r.0@[j] < ps.len(),
        forall|j: int| 0 <= j < r.1.len() ==> r.1@[j] < ps.len(),
{
    let mut ready: Vec<usize> = Vec::new();
    let mut waiting: Vec<usize> = Vec::new();
    let mut j: usize = 0;
    while j < rem.len()
        invariant
            j <= rem.len(),
            forall|m: int| 0 <= m < rem.len() ==> rem@[m] < ps.len(),
            ints(ready@) == ready_part(ps@, strs(done@), ints(rem@).take(j as int)),
            ints(waiting@) == waiting_part(ps@, strs(done@), ints(rem@).take(j as int)),
            forall|m: int| 0 <= m < ready.len() ==> ready@[m] < ps.len(),
            forall|m: int| 0 <= m < waiting.len() ==> waiting@[m] < ps.len(),
        decreases rem.len() - j,
    {
        let i = rem[j];
        assert(ints(rem@).take(j + 1).drop_last() =~= ints(rem@).take(j as int));
        assert(ints(rem@).take(j + 1).last() == i as int);
        if is_ready_exec(ps, done, i) {
            ready.push(i);
            assert(ints(ready@) =~= ints(ready@.drop_last()).push(i as int));
        } else {
            waiting.push(i);
            assert(ints(waiting@) =~= ints(waiting@.drop_last()).push(i as int));
        }
        j += 1;
    }
    assert(ints(rem@).take(rem.len() as int) =~= ints(rem@));
    (ready, waiting)
}

impl WorkspaceConfig {
    /// Groups projects into parallel execution levels respecting
    /// dependencies, as indices into `projects`. Projects in the same level
    /// may run concurrently; each level waits for the previous.
    pub fn execution_level_indices(&self) -> (r: Result<Vec<Vec<usize>>, ConfigError>)
        ensures
            r matches Ok(ls) ==> levels_spec(self.projects@) == Ok::<Seq<Seq<int>>, Seq<int>>(level_ints(ls@)),
            r matches Err(e) ==> exists|w: Seq<int>|
                levels_spec(self.projects@) == Err::<Seq<Seq<int>>, Seq<int>>(w) && e@ == ConfigErrorView::Unresolvable(
                    #[trigger] names_at(self.projects@, w),
                ),
            r is Ok <==> levels_spec(self.projects@) is Ok,
    {
        let ps = &self.projects;
        let mut levels: Vec<Vec<usize>> = Vec::new();
        let mut remaining: Vec<usize> = Vec::new();
        let mut i: usize = 0;
        while i < ps.len()
            invariant
                i <= ps.len(),
                ints(remaining@) == all_indices(ps@.len()).take(i as int),
                forall|m: int| 0 <= m < remaining.len() ==> remaining@[m] < ps.len(),
            decreases ps.len() - i,
        {
            let ghost old_rem = remaining@;
            remaining.push(i);
            assert(ints(remaining@) =~= ints(old_rem).push(i as int));
            assert(ints(remaining@) =~= all_indices(ps@.len()).take(i + 1));
            i += 1;
        }
        assert(all_indices(ps@.len()).take(ps.len() as int) =~= all_indices(ps@.len()));
        let mut completed: Vec<String> = Vec::new();
        assert(strs(completed@) =~= Seq::<Seq<char>>::empty());
        assert(level_ints(levels@) =~= Seq::<Seq<int>>::empty());
        assert(after_levels(Seq::empty(), levels_spec(ps@)) =~~= levels_spec(ps@));
        while remaining.len() > 0
            invariant
                ps@ == self.projects@,
                forall|m: int| 0 <= m < remaining.len() ==> remaining@[m] < ps.len(),
                levels_spec(ps@) == after_levels(
                    level_ints(levels@),
                    levels_from(ps@, ints(remaining@), strs(completed@)),
                ),
            decreases remaining.len(),
        {
            let (ready, waiting) = split_ready(ps, &completed, &remaining);
            proof {
                lemma_parts_len(ps@, strs(completed@), ints(remaining@));
            }
            if ready.len() == 0 {
                let mut names: Vec<String> = Vec::new();
                let mut k: usize = 0;
                while k < waiting.len()
                    invariant
                        k <= waiting.len(),
                        forall|m: int| 0 <= m < waiting.len() ==> waiting@[m] < ps.len(),
                        strs(names@) == names_at(ps@, ints(waiting@).take(k as int)),
                    decreases waiting.len() - k,
                {
                    let ghost old_names = names@;
                    names.push(ps[waiting[k]].name.clone());
                    assert(strs(names@) =~= strs(old_names).push(ps@[waiting@[k as int] as int].name@));
                    assert(ints(waiting@).take(k + 1) =~= ints(waiting@).take(k as int).push(waiting@[k as int] as int));
                    assert(strs(names@) =~= names_at(ps@, ints(waiting@).take(k + 1)));
                    k += 1;
                }
                assert(ints(waiting@).take(waiting.len() as int) =~= ints(waiting@));
                assert(levels_from(ps@, ints(remaining@), strs(completed@)) == Err::<Seq<Seq<int>>, Seq<int>>(ints(waiting@)));
                assert(levels_spec(ps@) == Err::<Seq<Seq<int>>, Seq<int>>(ints(waiting@)));
                assert(names_at(ps@, ints(waiting@)) == strs(names@));
                assert(levels_spec(self.projects@) is Err);
                let e = ConfigError::Unresolvable(names);
                assert(e@ == ConfigErrorView::Unresolvable(names_at(self.projects@, ints(waiting@))));
                return Err(e);
            }
            let ghost old_levels = level_ints(levels@);
            let ghost old_done = strs(completed@);
            let mut k: usize = 0;
            while k < ready.len()
                invariant
                    k <= ready.len(),
                    forall|m: int| 0 <= m < ready.len() ==> ready@[m] < ps.len(),
                    strs(completed@) == old_done + names_at(ps@, ints(ready@).take(k as int)),
                decreases ready.len() - k,
            {
                let ghost old_completed = completed@;
                completed.push(ps[ready[k]].name.clone());
                assert(strs(completed@) =~= strs(old_completed).push(ps@[ready@[k as int] as int].name@));
                assert(ints(ready@).take(k + 1) =~= ints(ready@).take(k as int).push(ready@[k as int] as int));
                assert(names_at(ps@, ints(ready@).take(k + 1)) =~= names_at(ps@, ints(ready@).take(k as int)).push(ps@[ready@[k as int] as int].name@));
                assert(strs(completed@) =~= old_done + names_at(ps@, ints(ready@).take(k + 1)));
                k += 1;
            }
            assert(ints(ready@).take(ready.len() as int) =~= ints(ready@));
            levels.push(ready);
            assert(level_ints(levels@) =~= old_levels.push(ints(ready@)));
            proof {
                let tail = levels_from(ps@, ints(waiting@), strs(completed@));
                match tail {
                    Ok(ls) => {
                        assert(old_levels + (seq![ints(ready@)] + ls) =~= old_levels.push(
                            ints(ready@),
                        ) + ls);
                    },
                    Err(_) => {},
                }
            }
            remaining = waiting;
        }
        assert(level_ints(levels@) + Seq::<Seq<int>>::empty() =~= level_ints(levels@));
        Ok(levels)
    }

    /// Groups projects into parallel execution levels respecting
    /// dependencies. Projects in the same level may run concurrently; each
    /// level waits for the previous.
    pub fn execution_levels(&self) -> (r: Result<Vec<Vec<&Project>>, ConfigError>)
        ensures
            r matches Ok(ls) ==> levels_spec(self.projects@) matches Ok(spec_ls) && ls@.len()
                == spec_ls.len() && forall|a: int|
                0 <= a < ls@.len() ==> #[trigger] ls@[a]@.len() == spec_ls[a].len() && forall|
                    b: int,
                | 0 <= b < ls@[a]@.len() ==> *#[trigger] ls@[a]@[b] == self.projects@[spec_ls[a][b]],
            r matches Err(e) ==> exists|w: Seq<int>|
                levels_spec(self.projects@) == Err::<Seq<Seq<int>>, Seq<int>>(w) && e@ == ConfigErrorView::Unresolvable(
                    #[trigger] names_at(self.projects@, w),
                ),
            r is Ok <==> levels_spec(self.projects@) is Ok,
    {
        match self.execution_level_indices() {
            Err(e) => Err(e),
            Ok(idx) => {
                let ghost spec_ls = level_ints(idx@);
                proof {
                    lemma_levels_in_range(self.projects@, all_indices(self.projects@.len()), Seq::empty());
                    assert(levels_spec(self.projects@) == Ok::<Seq<Seq<int>>, Seq<int>>(spec_ls));
                    assert forall|x: int, y: int|
                        0 <= x < spec_ls.len() && 0 <= y < spec_ls[x].len() implies 0 <= #[trigger] spec_ls[x][y] < self.projects@.len() by {
                        let l = levels_from(self.projects@, all_indices(self.projects@.len()), Seq::empty());
                        assert(l == Ok::<Seq<Seq<int>>, Seq<int>>(spec_ls));
                        assert(l->Ok_0[x][y] == spec_ls[x][y]);
                    }
                }
                let mut out: Vec<Vec<&Project>> = Vec::new();
                let mut a: usize = 0;
                while a < idx.len()
                    invariant
                        a <= idx.len(),
                        spec_ls == level_ints(idx@),
                        levels_spec(self.projects@) == Ok::<Seq<Seq<int>>, Seq<int>>(spec_ls),
                        forall|x: int, y: int|
                            0 <= x < spec_ls.len() && 0 <= y < spec_ls[x].len() ==> 0 <= #[trigger] spec_ls[x][y] < self.projects@.len(),
                        out@.len() == a,
                        forall|x: int|
                            0 <= x < a ==> #[trigger] out@[x]@.len() == spec_ls[x].len() && forall|y: int|
                                0 <= y < out@[x]@.len() ==> *#[trigger] out@[x]@[y] == self.projects@[spec_ls[x][y]],
                    decreases idx.len() - a,
                {
                    let mut level: Vec<&Project> = Vec::new();
                    let mut b: usize = 0;
                    while b < idx[a].len()
                        invariant
                            a < idx.len(),
                            b <= idx@[a as int].len(),
                            spec_ls == level_ints(idx@),
                            forall|x: int, y: int|
                                0 <= x < spec_ls.len() && 0 <= y < spec_ls[x].len() ==> 0 <= #[trigger] spec_ls[x][y] < self.projects@.len(),
                            level@.len() == b,
                            forall|y: int| 0 <= y < b ==> *#[trigger] level@[y] == self.projects@[spec_ls[a as int][y]],
                        decreases idx@[a as int].len() - b,
                    {
                        assert(spec_ls[a as int][b as int] == idx@[a as int]@[b as int] as int);
                        let j = idx[a][b];
                        level.push(&self.projects[j]);
                        b += 1;
                    }
                    out.push(level);
                    a += 1;
                }
                Ok(out)
            },
        }
    }
}

/// Every index that a level holds is a project index.
pub proof fn lemma_levels_in_range(ps: Seq<Project>, rem: Seq<int>, done: Seq<Seq<char>>)
    requires
        forall|m: int| 0 <= m < rem.len() ==> 0 <= #[trigger] rem[m] < ps.len(),
    ensures
        levels_from(ps, rem, done) matches Ok(ls) ==> forall|x: int, y: int|
            0 <= x < ls.len() && 0 <= y < ls[x].len() ==> 0 <= #[trigger] ls[x][y] < ps.len(),
    decreases rem.len(),
{
    if rem.len() > 0 {
        let ready = ready_part(ps, done, rem);
        let waiting = waiting_part(ps, done, rem);
        lemma_parts_len(ps, done, rem);
        lemma_parts_in(ps, done, rem);
        if ready.len() > 0 {
            lemma_levels_in_range(ps, waiting, done + names_at(ps, ready));
            match levels_from(ps, waiting, done + names_at(ps, ready)) {
                Ok(ls) => {
                    let all = seq![ready] + ls;
                    assert forall|x: int, y: int| 0 <= x < all.len() && 0 <= y < all[x].len() implies 0
                        <= #[trigger] all[x][y] < ps.len() by {
                        if x > 0 {
                            assert(all[x] == ls[x - 1]);
                        }
                    }
                },
                Err(_) => {},
            }
        }
    }
}

/// The two parts hold exactly the members of `rem`.
pub proof fn lemma_parts_in(ps: Seq<Project>, done: Seq<Seq<char>>, rem: Seq<int>)
    ensures
        forall|m: int| 0 <= m < ready_part(ps, done, rem).len() ==> rem.contains(#[trigger] ready_part(ps, done, rem)[m]),
        forall|m: int| 0 <= m < waiting_part(ps, done, rem).len() ==> rem.contains(#[trigger] waiting_part(ps, done, rem)[m]),
    decreases rem.len(),
{
    if rem.len() > 0 {
        lemma_parts_in(ps, done, rem.drop_last());
        let r0 = ready_part(ps, done, rem.drop_last());
        let w0 = waiting_part(ps, done, rem.drop_last());
        assert forall|m: int| 0 <= m < ready_part(ps, done, rem).len() implies rem.contains(#[trigger] ready_part(ps, done, rem)[m]) by {
            if m < r0.len() {
                let x = r0[m];
                assert(rem.drop_last().contains(x));
                let t = choose|t: int| 0 <= t < rem.drop_last().len() && rem.drop_last()[t] == x;
                assert(rem[t] == x);
            } else {
                assert(rem[rem.len() - 1] == rem.last());
            }
        }
        assert forall|m: int| 0 <= m < waiting_part(ps, done, rem).len() implies rem.contains(#[trigger] waiting_part(ps, done, rem)[m]) by {
            if m < w0.len() {
                let x = w0[m];
                assert(rem.drop_last().contains(x));
                let t = choose|t: int| 0 <= t < rem.drop_last().len() && rem.drop_last()[t] == x;
                assert(rem[t] == x);
            } else {
                assert(rem[rem.len() - 1] == rem.last());
            }
        }
    }
}


// ---------------------------------------------------------------------------
// Dependents
// ---------------------------------------------------------------------------

/// `n` once for every occurrence of `k` in `ds`.
pub open spec fn occurrences(ds: Seq<Seq<char>>, k: Seq<char>, n: Seq<char>) -> Seq<Seq<char>>
    decreases ds.len(),
{
    if ds.len() == 0 {
        Seq::empty()
    } else {
        occurrences(ds.drop_last(), k, n) + if ds.last() == k {
            seq![n]
        } else {
            Seq::empty()
        }
    }
}

/// The names of the projects that depend on `k`, in configuration order,
/// once per time they list it.
pub open spec fn dependents_of(ps: Seq<Project>, k: Seq<char>) -> Seq<Seq<char>>
    decreases ps.len(),
{
    if ps.len() == 0 {
        Seq::empty()
    } else {
        dependents_of(ps.drop_last(), k) + occurrences(deps_of(ps.last()), k, ps.last().name@)
    }
}

/// `k` is the name of a project or a name some project depends on.
pub open spec fn is_key(ps: Seq<Project>, k: Seq<char>) -> bool {
    exists|i: int| 0 <= i < ps.len() && (ps[i].name@ == k || deps_of(ps[i]).contains(k))
}

/// The keys of an association list.
pub open spec fn map_keys(m: Seq<(String, Vec<String>)>) -> Seq<Seq<char>> {
    m.map_values(|e: (String, Vec<String>)| e.0@)
}

/// Keys of an association list are pairwise distinct.
pub open spec fn distinct_keys(m: Seq<(String, Vec<String>)>) -> bool {
    forall|a: int, b: int| 0 <= a < b < m.len() ==> m[a].0@ != m[b].0@
}

/// The keys after the first `i` projects and the first `j` dependencies of
/// project `i` were entered.
pub open spec fn key_at(ps: Seq<Project>, i: int, j: int, k: Seq<char>) -> bool {
    is_key(ps.take(i), k) || k == ps[i].name@ || deps_of(ps[i]).take(j).contains(k)
}

/// The dependents at the same point.
pub open spec fn val_at(ps: Seq<Project>, i: int, j: int, k: Seq<char>) -> Seq<Seq<char>> {
    dependents_of(ps.take(i), k) + occurrences(deps_of(ps[i]).take(j), k, ps[i].name@)
}

/// The map after the first `i` projects were entered.
pub open spec fn map_after(m: Seq<(String, Vec<String>)>, ps: Seq<Project>, i: int) -> bool {
    &&& distinct_keys(m)
    &&& forall|a: int| 0 <= a < m.len() ==> is_key(ps.take(i), #[trigger] m[a].0@) && strs(m[a].1@) == dependents_of(ps.take(i), m[a].0@)
    &&& forall|k: Seq<char>| #[trigger] is_key(ps.take(i), k) ==> map_keys(m).contains(k)
}

/// The map in the middle of entering project `i`.
pub open spec fn map_within(m: Seq<(String, Vec<String>)>, ps: Seq<Project>, i: int, j: int) -> bool {
    &&& distinct_keys(m)
    &&& forall|a: int| 0 <= a < m.len() ==> key_at(ps, i, j, #[trigger] m[a].0@) && strs(m[a].1@) == val_at(ps, i, j, m[a].0@)
    &&& forall|k: Seq<char>| #[trigger] key_at(ps, i, j, k) ==> map_keys(m).contains(k)
}

fn key_index(m: &Vec<(String, Vec<String>)>, k: &str) -> (r: Option<usize>)
    ensures
        r matches Some(a) ==> a < m.len() && m@[a as int].0@ == k@,
        r is None ==> !map_keys(m@).contains(k@),
{
    let mut a: usize = 0;
    while a < m.len()
        invariant
            a <= m.len(),
            forall|b: int| 0 <= b < a ==> m@[b].0@ != k@,
        decreases m.len() - a,
    {
        if str_eq(m[a].0.as_str(), k) {
            return Some(a);
        }
        a += 1;
    }
    assert forall|b: int| 0 <= b < map_keys(m@).len() implies map_keys(m@)[b] != k@ by {
        assert(map_keys(m@)[b] == m@[b].0@);
    }
    None
}

proof fn lemma_occurrences_push(ds: Seq<Seq<char>>, d: Seq<char>, k: Seq<char>, n: Seq<char>)
    ensures
        occurrences(ds.push(d), k, n) == occurrences(ds, k, n) + if d == k {
            seq![n]
        } else {
            Seq::<Seq<char>>::empty()
        },
{
    assert(ds.push(d).drop_last() =~= ds);
}

proof fn lemma_contains_take_succ(ds: Seq<Seq<char>>, j: int, k: Seq<char>)
    requires
        0 <= j < ds.len(),
    ensures
        ds.take(j + 1).contains(k) <==> (ds.take(j).contains(k) || k == ds[j]),
{
    let dj0 = ds.take(j);
    let dj1 = ds.take(j + 1);
    if dj1.contains(k) {
        let t = choose|t: int| 0 <= t < dj1.len() && dj1[t] == k;
        if t < j {
            assert(dj0[t] == k);
        }
    }
    if dj0.contains(k) {
        let t = choose|t: int| 0 <= t < dj0.len() && dj0[t] == k;
        assert(dj1[t] == k);
    }
    if k == ds[j] {
        assert(dj1[j] == k);
    }
}

proof fn lemma_keys_push(m: Seq<(String, Vec<String>)>, e: (String, Vec<String>), k: Seq<char>)
    ensures
        map_keys(m.push(e)).contains(k) <==> (map_keys(m).contains(k) || k == e.0@),
{
    let a = map_keys(m);
    let b = map_keys(m.push(e));
    assert(b =~= a.push(e.0@));
    if b.contains(k) {
        let t = choose|t: int| 0 <= t < b.len() && b[t] == k;
        if t < a.len() {
            assert(a[t] == k);
        }
    }
    if a.contains(k) {
        let t = choose|t: int| 0 <= t < a.len() && a[t] == k;
        assert(b[t] == k);
    }
    if k == e.0@ {
        assert(b[a.len() as int] == k);
    }
}

/// Entering the name of project `i` as a key.
proof fn lemma_enter_name(m0: Seq<(String, Vec<String>)>, m: Seq<(String, Vec<String>)>, ps: Seq<Project>, i: int)
    requires
        0 <= i < ps.len(),
        map_after(m0, ps, i),
        (m == m0 && map_keys(m0).contains(ps[i].name@)) || (!map_keys(m0).contains(ps[i].name@) && m.len() == m0.len() + 1 && m.drop_last() == m0
            && m.last().0@ == ps[i].name@ && m.last().1@.len() == 0),
    ensures
        map_within(m, ps, i, 0),
{
    let name = ps[i].name@;
    let deps = deps_of(ps[i]);
    assert(deps.take(0) =~= Seq::<Seq<char>>::empty());
    assert forall|k: Seq<char>| #[trigger] occurrences(deps.take(0), k, name) == Seq::<Seq<char>>::empty() by {
    }
    assert forall|k: Seq<char>| !deps.take(0).contains(k) by {
    }
    if m != m0 {
        assert forall|a: int, b: int| 0 <= a < b < m.len() implies m[a].0@ != m[b].0@ by {
            assert(m[a] == m0[a] || a == m0.len());
            if b == m0.len() {
                assert(m[a] == m0[a]);
                assert(map_keys(m0)[a] == m0[a].0@);
            } else {
                assert(m[b] == m0[b]);
            }
        }
    }
    assert forall|a: int| 0 <= a < m.len() implies key_at(ps, i, 0, #[trigger] m[a].0@) && strs(m[a].1@) == val_at(ps, i, 0, m[a].0@) by {
        if a < m0.len() {
            assert(m[a] == m0[a]);
            assert(dependents_of(ps.take(i), m0[a].0@) + occurrences(deps.take(0), m0[a].0@, name) =~= dependents_of(ps.take(i), m0[a].0@));
        } else {
            assert(m[a] == m.last());
            assert(!is_key(ps.take(i), name));
            lemma_dependents_not_key(ps.take(i), name);
            assert(strs(m[a].1@) =~= Seq::<Seq<char>>::empty());
            assert(val_at(ps, i, 0, name) =~= Seq::<Seq<char>>::empty());
        }
    }
    assert forall|k: Seq<char>| #[trigger] key_at(ps, i, 0, k) implies map_keys(m).contains(k) by {
        if is_key(ps.take(i), k) {
            if m != m0 {
                assert(m =~= m0.push(m.last()));
                lemma_keys_push(m0, m.last(), k);
            }
        } else {
            assert(k == name);
            if m != m0 {
                assert(m =~= m0.push(m.last()));
                lemma_keys_push(m0, m.last(), k);
            }
        }
    }
}

/// Entering dependency `j` of project `i`.
proof fn lemma_enter_dep(
    m0: Seq<(String, Vec<String>)>,
    m1: Seq<(String, Vec<String>)>,
    m: Seq<(String, Vec<String>)>,
    ps: Seq<Project>,
    i: int,
    j: int,
    a: int,
)
    requires
        0 <= i < ps.len(),
        0 <= j < deps_of(ps[i]).len(),
        map_within(m0, ps, i, j),
        m1 == m0 || (!map_keys(m0).contains(deps_of(ps[i])[j]) && m1.len() == m0.len() + 1 && m1.drop_last() == m0
            && m1.last().0@ == deps_of(ps[i])[j] && m1.last().1@.len() == 0),
        0 <= a < m1.len(),
        m1[a].0@ == deps_of(ps[i])[j],
        m.len() == m1.len(),
        forall|x: int| 0 <= x < m.len() && x != a ==> m[x] == m1[x],
        m[a].0 == m1[a].0,
        strs(m[a].1@) == strs(m1[a].1@).push(ps[i].name@),
    ensures
        map_within(m, ps, i, j + 1),
{
    let name = ps[i].name@;
    let deps = deps_of(ps[i]);
    let d = deps[j];
    assert(deps.take(j + 1) =~= deps.take(j).push(d));
    assert forall|k: Seq<char>| #[trigger] occurrences(deps.take(j + 1), k, name) == occurrences(deps.take(j), k, name) + if d == k { seq![name] } else { Seq::<Seq<char>>::empty() } by {
        lemma_occurrences_push(deps.take(j), d, k, name);
    }
    assert forall|k: Seq<char>| #[trigger] key_at(ps, i, j + 1, k) <==> (key_at(ps, i, j, k) || k == d) by {
        lemma_contains_take_succ(deps, j, k);
    }
    // m1: the key of d present
    if m1 != m0 {
        assert(m1 =~= m0.push(m1.last()));
    }
    assert(distinct_keys(m1)) by {
        if m1 != m0 {
            assert forall|x: int, y: int| 0 <= x < y < m1.len() implies m1[x].0@ != m1[y].0@ by {
                assert(m1[x] == m0[x]);
                if y == m0.len() {
                    assert(map_keys(m0)[x] == m0[x].0@);
                } else {
                    assert(m1[y] == m0[y]);
                }
            }
        }
    }
    assert forall|x: int, y: int| 0 <= x < y < m.len() implies m[x].0@ != m[y].0@ by {
        assert(m[x].0 == m1[x].0);
        assert(m[y].0 == m1[y].0);
    }
    assert forall|x: int| 0 <= x < m.len() implies key_at(ps, i, j + 1, #[trigger] m[x].0@) && strs(m[x].1@) == val_at(ps, i, j + 1, m[x].0@) by {
        if x == a {
            if m1 != m0 && a == m0.len() {
                assert(m1[a] == m1.last());
                assert(!key_at(ps, i, j, d));
                assert(!is_key(ps.take(i), d));
                lemma_dependents_not_key(ps.take(i), d);
                assert(!deps.take(j).contains(d));
                lemma_occurrences_absent(deps.take(j), d, name);
                assert(strs(m1[a].1@) =~= Seq::<Seq<char>>::empty());
                assert(strs(m[x].1@) =~= val_at(ps, i, j + 1, d));
            } else {
                assert(m1[a] == m0[a]);
                assert(key_at(ps, i, j, m0[a].0@));
                assert(strs(m[x].1@) =~= val_at(ps, i, j + 1, d));
            }
        } else {
            assert(m[x] == m1[x]);
            if x < m0.len() {
                assert(m1[x] == m0[x]);
                assert(key_at(ps, i, j, m0[x].0@));
                assert(m0[x].0@ != d);
                assert(val_at(ps, i, j + 1, m0[x].0@) =~= val_at(ps, i, j, m0[x].0@));
            } else {
                assert(x == m0.len());
                assert(a != m0.len());
                assert(m1.last().0@ == d);
                assert(m1[a].0@ == d);
                assert(false);
            }
        }
    }
    assert forall|k: Seq<char>| #[trigger] key_at(ps, i, j + 1, k) implies map_keys(m).contains(k) by {
        assert(map_keys(m) =~= map_keys(m1));
        if key_at(ps, i, j, k) {
            assert(map_keys(m0).contains(k));
            if m1 != m0 {
                lemma_keys_push(m0, m1.last(), k);
            }
        } else {
            assert(k == d);
            assert(map_keys(m1)[a] == d);
        }
    }
}

/// Finishing project `i`: the map is the map after `i + 1` projects.
proof fn lemma_finish_project(m: Seq<(String, Vec<String>)>, ps: Seq<Project>, i: int)
    requires
        0 <= i < ps.len(),
        map_within(m, ps, i, deps_of(ps[i]).len() as int),
    ensures
        map_after(m, ps, i + 1),
{
    let pre = ps.take(i);
    let cur = ps.take(i + 1);
    let deps = deps_of(ps[i]);
    assert(deps.take(deps.len() as int) =~= deps);
    assert(cur.drop_last() =~= pre);
    assert(cur.last() == ps[i]);
    assert forall|k: Seq<char>| #[trigger] is_key(cur, k) <==> key_at(ps, i, deps.len() as int, k) by {
        if is_key(cur, k) {
            let t = choose|t: int| 0 <= t < cur.len() && (cur[t].name@ == k || deps_of(cur[t]).contains(k));
            if t < i {
                assert(pre[t] == cur[t]);
            }
        }
        if is_key(pre, k) {
            let t = choose|t: int| 0 <= t < pre.len() && (pre[t].name@ == k || deps_of(pre[t]).contains(k));
            assert(pre[t] == cur[t]);
        }
        if k == ps[i].name@ || deps.contains(k) {
            assert(cur[i] == ps[i]);
        }
    }
    assert forall|k: Seq<char>| #[trigger] dependents_of(cur, k) == val_at(ps, i, deps.len() as int, k) by {
    }
    assert forall|a: int| 0 <= a < m.len() implies is_key(cur, #[trigger] m[a].0@) && strs(m[a].1@) == dependents_of(cur, m[a].0@) by {
        assert(key_at(ps, i, deps.len() as int, m[a].0@));
    }
    assert forall|k: Seq<char>| #[trigger] is_key(cur, k) implies map_keys(m).contains(k) by {
        assert(key_at(ps, i, deps.len() as int, k));
    }
}

impl WorkspaceConfig {
    /// Builds a map from project name to the list of projects that depend
    /// on it, as an association list with one entry per key.
    pub fn dependent_map(&self) -> (m: Vec<(String, Vec<String>)>)
        ensures
            distinct_keys(m@),
            forall|a: int| 0 <= a < m@.len() ==> is_key(self.projects@, #[trigger] m@[a].0@) && strs(m@[a].1@)
                == dependents_of(self.projects@, m@[a].0@),
            forall|k: Seq<char>| #[trigger] is_key(self.projects@, k) ==> map_keys(m@).contains(k),
    {
        let ps = &self.projects;
        let mut m: Vec<(String, Vec<String>)> = Vec::new();
        assert(map_after(m@, ps@, 0)) by {
            assert forall|k: Seq<char>| !is_key(ps@.take(0), k) by {}
        }
        let mut i: usize = 0;
        while i < ps.len()
            invariant
                ps@ == self.projects@,
                i <= ps.len(),
                map_after(m@, ps@, i as int),
            decreases ps.len() - i,
        {
            let ghost m0 = m@;
            match key_index(&m, ps[i].name.as_str()) {
                Some(a) => {
                    assert(map_keys(m@)[a as int] == ps@[i as int].name@);
                },
                None => {
                    m.push((ps[i].name.clone(), Vec::new()));
                    assert(m@.drop_last() =~= m0);
                },
            }
            proof {
                lemma_enter_name(m0, m@, ps@, i as int);
            }
            match &ps[i].depends_on {
                None => {
                    assert(deps_of(ps@[i as int]).len() == 0);
                },
                Some(dv) => {
                    let mut j: usize = 0;
                    while j < dv.len()
                        invariant
                            ps@ == self.projects@,
                            i < ps.len(),
                            ps@[i as int].depends_on == Some(*dv),
                            j <= dv.len(),
                            map_within(m@, ps@, i as int, j as int),
                        decreases dv.len() - j,
                    {
                        assert(deps_of(ps@[i as int])[j as int] == dv@[j as int]@);
                        let ghost mj = m@;
                        let a = match key_index(&m, dv[j].as_str()) {
                            Some(a) => a,
                            None => {
                                m.push((dv[j].clone(), Vec::new()));
                                assert(m@.drop_last() =~= mj);
                                m.len() - 1
                            },
                        };
                        let ghost mk = m@;
                        m[a].1.push(ps[i].name.clone());
                        proof {
                            assert(strs(m@[a as int].1@) =~= strs(mk[a as int].1@).push(ps@[i as int].name@));
                            lemma_enter_dep(mj, mk, m@, ps@, i as int, j as int, a as int);
                        }
                        j += 1;
                    }
                },
            }
            proof {
                lemma_finish_project(m@, ps@, i as int);
            }
            i += 1;
        }
        assert(ps@.take(ps.len() as int) =~= ps@);
        m
    }
}

// ---------------------------------------------------------------------------
// Topological order
// ---------------------------------------------------------------------------

/// Depth-first visit of project `node`: its resolvable dependencies first,
/// in the order listed, then the project itself. `stack` holds the names
/// being visited, `visited` the names finished, `out` the finished projects
/// in order. Meeting a name that is on the stack is a cycle.
pub open spec fn visit(
    ps: Seq<Project>,
    node: int,
    stack: Seq<Seq<char>>,
    visited: Seq<Seq<char>>,
    out: Seq<int>,
) -> Result<(Seq<Seq<char>>, Seq<int>), Seq<char>>
    decreases ps.len() - stack.len(), 1int, 0int,
{
    if !(0 <= node < ps.len()) {
        Ok((visited, out))
    } else {
        let n = ps[node].name@;
        if visited.contains(n) {
            Ok((visited, out))
        } else if stack.contains(n) {
            Err(n)
        } else if stack.len() >= ps.len() {
            Err(n)
        } else {
            match visit_deps(ps, node, 0, stack.push(n), visited, out) {
                Ok((v, o)) => Ok((v.push(n), o.push(node))),
                Err(e) => Err(e),
            }
        }
    }
}

/// The visits of the dependencies of `node` from the `k`-th on.
pub open spec fn visit_deps(
    ps: Seq<Project>,
    node: int,
    k: int,
    stack: Seq<Seq<char>>,
    visited: Seq<Seq<char>>,
    out: Seq<int>,
) -> Result<(Seq<Seq<char>>, Seq<int>), Seq<char>>
    decreases ps.len() - stack.len() + 1, 0int, deps_of(ps[node]).len() - k,
{
    let deps = deps_of(ps[node]);
    if k < 0 || k >= deps.len() || stack.len() > ps.len() {
        Ok((visited, out))
    } else {
        match resolve(ps, deps[k]) {
            Some(j) => match visit(ps, j, stack, visited, out) {
                Ok((v, o)) => visit_deps(ps, node, k + 1, stack, v, o),
                Err(e) => Err(e),
            },
            None => visit_deps(ps, node, k + 1, stack, visited, out),
        }
    }
}

/// Visits the projects from the `i`-th on, in configuration order.
pub open spec fn topo_from(ps: Seq<Project>, i: int, visited: Seq<Seq<char>>, out: Seq<int>) -> Result<
    Seq<int>,
    Seq<char>,
>
    decreases ps.len() - i,
{
    if i < 0 || i >= ps.len() {
        Ok(out)
    } else {
        match visit(ps, i, Seq::empty(), visited, out) {
            Ok((v, o)) => topo_from(ps, i + 1, v, o),
            Err(e) => Err(e),
        }
    }
}

/// The topological order of the workspace: project indices such that every
/// resolvable dependency comes before its dependents, or the name at which
/// a dependency cycle was found.
pub open spec fn topo_spec(ps: Seq<Project>) -> Result<Seq<int>, Seq<char>> {
    topo_from(ps, 0, Seq::empty(), Seq::empty())
}

/// The result of a visit once the dependencies' visits gave `r`.
pub open spec fn finish_visit(
    n: Seq<char>,
    node: int,
    r: Result<(Seq<Seq<char>>, Seq<int>), Seq<char>>,
) -> Result<(Seq<Seq<char>>, Seq<int>), Seq<char>> {
    match r {
        Ok((v, o)) => Ok((v.push(n), o.push(node))),
        Err(e) => Err(e),
    }
}

/// The names on a visiting stack are distinct names of projects.
pub open spec fn stack_ok(ps: Seq<Project>, stack: Seq<Seq<char>>) -> bool {
    &&& stack.no_duplicates()
    &&& forall|k: int| 0 <= k < stack.len() ==> has_name(ps, #[trigger] stack[k])
}

/// A stack of distinct project names that lacks the name `n` of a project
/// has room for it.
pub proof fn lemma_stack_room(ps: Seq<Project>, stack: Seq<Seq<char>>, n: Seq<char>)
    requires
        stack_ok(ps, stack),
        !stack.contains(n),
        has_name(ps, n),
    ensures
        stack.len() < ps.len(),
        stack_ok(ps, stack.push(n)),
{
    let s2 = stack.push(n);
    let names = ps.map_values(|p: Project| p.name@);
    assert(s2.no_duplicates()) by {
        assert forall|a: int, b: int| 0 <= a < s2.len() && 0 <= b < s2.len() && a != b implies s2[a] != s2[b] by {
            if a == stack.len() as int {
                assert(stack[b] == s2[b]);
            } else if b == stack.len() as int {
                assert(stack[a] == s2[a]);
            }
        }
    }
    assert forall|k: int| 0 <= k < s2.len() implies has_name(ps, #[trigger] s2[k]) by {
        if k < stack.len() {
            assert(s2[k] == stack[k]);
        }
    }
    s2.unique_seq_to_set();
    assert(s2.to_set().subset_of(names.to_set())) by {
        assert forall|x: Seq<char>| s2.to_set().contains(x) implies names.to_set().contains(x) by {
            let k = choose|k: int| 0 <= k < s2.len() && s2[k] == x;
            assert(has_name(ps, s2[k]));
            let t = choose|t: int| 0 <= t < ps.len() && ps[t].name@ == x;
            assert(names[t] == x);
        }
    }
    names.lemma_cardinality_of_set();
    vstd::set_lib::lemma_len_subset(s2.to_set(), names.to_set());
}

fn topo_visit(
    ps: &Vec<Project>,
    node: usize,
    stack: &mut Vec<String>,
    visited: &mut Vec<String>,
    out: &mut Vec<usize>,
) -> (r: Result<(), ConfigError>)
    requires
        node < ps.len(),
        stack_ok(ps@, strs(old(stack)@)),
    ensures
        r is Ok ==> visit(ps@, node as int, strs(old(stack)@), strs(old(visited)@), ints(old(out)@)) == Ok::<
            (Seq<Seq<char>>, Seq<int>),
            Seq<char>,
        >((strs(final(visited)@), ints(final(out)@))) && final(stack)@ == old(stack)@,
        r matches Err(e) ==> e matches ConfigError::Cycle(n) && visit(
            ps@,
            node as int,
            strs(old(stack)@),
            strs(old(visited)@),
            ints(old(out)@),
        ) == Err::<(Seq<Seq<char>>, Seq<int>), Seq<char>>(n@),
    decreases ps@.len() - old(stack)@.len(),
{
    let ghost s0 = strs(stack@);
    let ghost v0 = strs(visited@);
    let ghost o0 = ints(out@);
    let ghost n = ps@[node as int].name@;
    if vec_has(visited, ps[node].name.as_str()) {
        return Ok(());
    }
    if vec_has(stack, ps[node].name.as_str()) {
        return Err(ConfigError::Cycle(ps[node].name.clone()));
    }
    proof {
        assert(has_name(ps@, n));
        lemma_stack_room(ps@, s0, n);
    }
    stack.push(ps[node].name.clone());
    assert(strs(stack@) =~= s0.push(n));
    let ghost s1 = strs(stack@);
    let ghost stack1 = stack@;
    assert(visit(ps@, node as int, s0, v0, o0) == finish_visit(n, node as int, visit_deps(ps@, node as int, 0, s1, v0, o0)));
    match &ps[node].depends_on {
        None => {
            assert(deps_of(ps@[node as int]).len() == 0);
        },
        Some(deps) => {
            let mut k: usize = 0;
            while k < deps.len()
                invariant
                    node < ps.len(),
                    ps@[node as int].depends_on == Some(*deps),
                    k <= deps.len(),
                    stack@ == stack1,
                    stack1.len() == old(stack)@.len() + 1,
                    s1 == strs(stack1),
                    s1.len() == stack1.len(),
                    visit(ps@, node as int, s0, v0, o0) == finish_visit(n, node as int, visit_deps(ps@, node as int, 0, s1, v0, o0)),
                    s0 == strs(old(stack)@),
                    v0 == strs(old(visited)@),
                    o0 == ints(old(out)@),
                    s1.len() <= ps@.len(),
                    stack_ok(ps@, s1),
                    visit_deps(ps@, node as int, 0, s1, v0, o0) == visit_deps(
                        ps@,
                        node as int,
                        k as int,
                        s1,
                        strs(visited@),
                        ints(out@),
                    ),
                decreases deps.len() - k,
            {
                assert(deps_of(ps@[node as int])[k as int] == deps@[k as int]@);
                match find_project_index(ps, deps[k].as_str()) {
                    Some(j) => {
                        proof {
                            lemma_resolve_has_name(ps@, deps@[k as int]@);
                            assert(visit_deps(ps@, node as int, k as int, s1, strs(visited@), ints(out@))
                                == match visit(ps@, j as int, s1, strs(visited@), ints(out@)) {
                                    Ok((v, o)) => visit_deps(ps@, node as int, k + 1, s1, v, o),
                                    Err(e) => Err(e),
                                });
                        }
                        match topo_visit(ps, j, stack, visited, out) {
                            Err(e) => {
                                return Err(e);
                            },
                            Ok(()) => {},
                        }
                    },
                    None => {},
                }
                k += 1;
            }
        },
    }
    let ghost v1 = strs(visited@);
    let ghost o1 = ints(out@);
    stack.pop();
    assert(stack@ =~= old(stack)@);
    visited.push(ps[node].name.clone());
    out.push(node);
    assert(strs(visited@) =~= v1.push(n));
    assert(ints(out@) =~= o1.push(node as int));
    Ok(())
}

impl WorkspaceConfig {
    /// Returns project indices in topological order (dependencies before
    /// their dependents).
    pub fn topological_indices(&self) -> (r: Result<Vec<usize>, ConfigError>)
        ensures
            r matches Ok(o) ==> topo_spec(self.projects@) == Ok::<Seq<int>, Seq<char>>(ints(o@)),
            r matches Err(e) ==> e matches ConfigError::Cycle(n) && topo_spec(self.projects@) == Err::<
                Seq<int>,
                Seq<char>,
            >(n@),
    {
        let ps = &self.projects;
        let mut visited: Vec<String> = Vec::new();
        let mut out: Vec<usize> = Vec::new();
        let mut stack: Vec<String> = Vec::new();
        assert(strs(visited@) =~= Seq::<Seq<char>>::empty());
        assert(ints(out@) =~= Seq::<int>::empty());
        let mut i: usize = 0;
        while i < ps.len()
            invariant
                ps@ == self.projects@,
                i <= ps.len(),
                stack@.len() == 0,
                topo_spec(ps@) == topo_from(ps@, i as int, strs(visited@), ints(out@)),
            decreases ps.len() - i,
        {
            assert(strs(stack@) =~= Seq::<Seq<char>>::empty());
            match topo_visit(ps, i, &mut stack, &mut visited, &mut out) {
                Err(e) => {
                    return Err(e);
                },
                Ok(()) => {},
            }
            i += 1;
        }
        Ok(out)
    }

    /// Returns projects in topological order (dependencies before their
    /// dependents).
    pub fn topological_order(&self) -> (r: Result<Vec<&Project>, ConfigError>)
        ensures
            r matches Ok(o) ==> topo_spec(self.projects@) matches Ok(idx) && o@.len() == idx.len()
                && forall|k: int| 0 <= k < o@.len() ==> 0 <= idx[k] < self.projects@.len() && *#[trigger] o@[k] == self.projects@[idx[k]],
            r matches Err(e) ==> e matches ConfigError::Cycle(n) && topo_spec(self.projects@) == Err::<
                Seq<int>,
                Seq<char>,
            >(n@),
    {
        match self.topological_indices() {
            Err(e) => Err(e),
            Ok(idx) => {
                proof {
                    lemma_topo_in_range(self.projects@);
                    assert forall|t: int| 0 <= t < idx@.len() implies 0 <= #[trigger] ints(idx@)[t] < self.projects@.len() by {
                        assert(ints(idx@).len() == idx@.len());
                        let o = ints(idx@);
                        assert(topo_spec(self.projects@) == Ok::<Seq<int>, Seq<char>>(o));
                        assert(in_range(self.projects@, o));
                        assert(0 <= o[t] < self.projects@.len());
                    }
                }
                let mut o: Vec<&Project> = Vec::new();
                let mut k: usize = 0;
                while k < idx.len()
                    invariant
                        k <= idx.len(),
                        topo_spec(self.projects@) == Ok::<Seq<int>, Seq<char>>(ints(idx@)),
                        forall|t: int| 0 <= t < idx@.len() ==> 0 <= #[trigger] ints(idx@)[t] < self.projects@.len(),
                        o@.len() == k,
                        forall|t: int| 0 <= t < k ==> *#[trigger] o@[t] == self.projects@[ints(idx@)[t]],
                    decreases idx.len() - k,
                {
                    assert(ints(idx@)[k as int] == idx@[k as int] as int);
                    o.push(&self.projects[idx[k]]);
                    k += 1;
                }
                Ok(o)
            },
        }
    }
}

/// Indices in range for `ps`.
pub open spec fn in_range(ps: Seq<Project>, o: Seq<int>) -> bool {
    forall|t: int| 0 <= t < o.len() ==> 0 <= #[trigger] o[t] < ps.len()
}

proof fn lemma_visit_range(ps: Seq<Project>, node: int, stack: Seq<Seq<char>>, visited: Seq<Seq<char>>, out: Seq<int>)
    requires
        in_range(ps, out),
    ensures
        visit(ps, node, stack, visited, out) matches Ok((v, o)) ==> in_range(ps, o),
    decreases ps.len() - stack.len(), 1int, 0int,
{
    if 0 <= node < ps.len() {
        let n = ps[node].name@;
        if !visited.contains(n) && !stack.contains(n) && stack.len() < ps.len() {
            lemma_visit_deps_range(ps, node, 0, stack.push(n), visited, out);
            match visit_deps(ps, node, 0, stack.push(n), visited, out) {
                Ok((v, o)) => {
                    assert forall|t: int| 0 <= t < o.push(node).len() implies 0 <= #[trigger] o.push(node)[t] < ps.len() by {
                        if t < o.len() {
                            assert(o.push(node)[t] == o[t]);
                        }
                    }
                },
                Err(_) => {},
            }
        }
    }
}

proof fn lemma_visit_deps_range(
    ps: Seq<Project>,
    node: int,
    k: int,
    stack: Seq<Seq<char>>,
    visited: Seq<Seq<char>>,
    out: Seq<int>,
)
    requires
        in_range(ps, out),
    ensures
        visit_deps(ps, node, k, stack, visited, out) matches Ok((v, o)) ==> in_range(ps, o),
    decreases ps.len() - stack.len() + 1, 0int, deps_of(ps[node]).len() - k,
{
    let deps = deps_of(ps[node]);
    if !(k < 0 || k >= deps.len() || stack.len() > ps.len()) {
        match resolve(ps, deps[k]) {
            Some(j) => {
                lemma_visit_range(ps, j, stack, visited, out);
                match visit(ps, j, stack, visited, out) {
                    Ok((v, o)) => {
                        lemma_visit_deps_range(ps, node, k + 1, stack, v, o);
                    },
                    Err(_) => {},
                }
            },
            None => {
                lemma_visit_deps_range(ps, node, k + 1, stack, visited, out);
            },
        }
    }
}

proof fn lemma_topo_from_range(ps: Seq<Project>, i: int, visited: Seq<Seq<char>>, out: Seq<int>)
    requires
        in_range(ps, out),
    ensures
        topo_from(ps, i, visited, out) matches Ok(o) ==> in_range(ps, o),
    decreases ps.len() - i,
{
    if 0 <= i < ps.len() {
        lemma_visit_range(ps, i, Seq::empty(), visited, out);
        match visit(ps, i, Seq::empty(), visited, out) {
            Ok((v, o)) => {
                lemma_topo_from_range(ps, i + 1, v, o);
            },
            Err(_) => {},
        }
    }
}

/// The topological order holds project indices only.
pub proof fn lemma_topo_in_range(ps: Seq<Project>)
    ensures
        topo_spec(ps) is Ok ==> in_range(ps, topo_spec(ps)->Ok_0),
{
    lemma_topo_from_range(ps, 0, Seq::empty(), Seq::empty());
}

/// A name that no project lists has no dependents.
pub proof fn lemma_dependents_not_key(ps: Seq<Project>, k: Seq<char>)
    requires
        !is_key(ps, k),
    ensures
        dependents_of(ps, k) == Seq::<Seq<char>>::empty(),
    decreases ps.len(),
{
    if ps.len() > 0 {
        let last = ps.last();
        assert(!deps_of(last).contains(k)) by {
            if deps_of(last).contains(k) {
                assert(ps[ps.len() - 1] == last);
            }
        }
        assert(!is_key(ps.drop_last(), k)) by {
            if is_key(ps.drop_last(), k) {
                let t = choose|t: int| 0 <= t < ps.drop_last().len() && (ps.drop_last()[t].name@ == k || deps_of(ps.drop_last()[t]).contains(k));
                assert(ps[t] == ps.drop_last()[t]);
            }
        }
        lemma_dependents_not_key(ps.drop_last(), k);
        lemma_occurrences_absent(deps_of(last), k, last.name@);
    }
}

/// A name that does not occur gives no occurrences.
pub proof fn lemma_occurrences_absent(ds: Seq<Seq<char>>, k: Seq<char>, n: Seq<char>)
    requires
        !ds.contains(k),
    ensures
        occurrences(ds, k, n) == Seq::<Seq<char>>::empty(),
    decreases ds.len(),
{
    if ds.len() > 0 {
        assert(!ds.drop_last().contains(k)) by {
            if ds.drop_last().contains(k) {
                let t = choose|t: int| 0 <= t < ds.drop_last().len() && ds.drop_last()[t] == k;
                assert(ds[t] == k);
            }
        }
        assert(ds[ds.len() - 1] == ds.last());
        lemma_occurrences_absent(ds.drop_last(), k, n);
        assert(occurrences(ds, k, n) =~= occurrences(ds.drop_last(), k, n));
    }
}

} // verus!
