//! What adding and removing projects keep: names and directories stay
//! unique, a dependency always names a project, an added project is found
//! by its name, and removing it again gives back the workspace it joined.
use vstd::prelude::*;

use crate::config::{deps_of, has_name, is_first_named, lemma_resolve_first, local_dir_of, resolve, Project};
use crate::dirs::{dir_used, normal_dir};
use crate::workspace::{add_check, add_outcome, first_missing, is_added_project, kept_path, without};
use crate::config::{levels_spec, topo_spec};
use crate::graph_laws::law_append_keeps_sound;

verus! {

/// No two projects share a name.
pub open spec fn unique_names(ps: Seq<Project>) -> bool {
    forall|i: int, j: int| 0 <= i < j < ps.len() ==> #[trigger] ps[i].name@ != #[trigger] ps[j].name@
}

/// No two projects share a directory, compared in normal form.
pub open spec fn unique_dirs(ps: Seq<Project>) -> bool {
    forall|i: int, j: int|
        0 <= i < j < ps.len() ==> normal_dir(local_dir_of(#[trigger] ps[i])) != normal_dir(
            local_dir_of(#[trigger] ps[j]),
        )
}

/// The directory an added project lives in.
proof fn lemma_added_dir(
    p: Project,
    name: String,
    path: Option<Seq<char>>,
    url: String,
    branch: String,
    deps: Seq<String>,
    sync_url: Option<String>,
)
    requires
        is_added_project(p, name, path, url, branch, deps, sync_url),
    ensures
        local_dir_of(p) == (match kept_path(name@, path) {
            Some(k) => k,
            None => name@,
        }),
{
}

proof fn lemma_no_missing(ps: Seq<Project>, deps: Seq<Seq<char>>, i: int)
    requires
        0 <= i,
        first_missing(ps, deps, i) is None,
    ensures
        forall|j: int| i <= j < deps.len() ==> has_name(ps, #[trigger] deps[j]),
    decreases deps.len() - i,
{
    if i < deps.len() {
        lemma_no_missing(ps, deps, i + 1);
    }
}

/// After a successful add, the new project is the last one and its name
/// finds it.
pub proof fn law_add_then_find(
    old_ps: Seq<Project>,
    new_ps: Seq<Project>,
    r: Result<(), crate::workspace::AddError>,
    name: String,
    path: Option<Seq<char>>,
    url: String,
    branch: String,
    deps: Seq<String>,
    sync_url: Option<String>,
    absolute: bool,
)
    requires
        add_outcome(old_ps, new_ps, r, name, path, url, branch, deps, sync_url, absolute),
        r is Ok,
    ensures
        resolve(new_ps, name@) == Some(old_ps.len() as int),
        is_added_project(new_ps[old_ps.len() as int], name, path, url, branch, deps, sync_url),
{
    assert(add_check(old_ps, name@, path, crate::config::strs(deps), absolute) is Ok);
    assert forall|j: int| 0 <= j < old_ps.len() implies new_ps[j].name@ != name@ by {
        assert(new_ps[j] == new_ps.take(old_ps.len() as int)[j]);
    }
    assert(is_first_named(new_ps, name@, old_ps.len() as int));
    lemma_resolve_first(new_ps, name@, old_ps.len() as int);
}

/// Adding keeps the names of the workspace unique.
pub proof fn law_add_keeps_names_unique(
    old_ps: Seq<Project>,
    new_ps: Seq<Project>,
    r: Result<(), crate::workspace::AddError>,
    name: String,
    path: Option<Seq<char>>,
    url: String,
    branch: String,
    deps: Seq<String>,
    sync_url: Option<String>,
    absolute: bool,
)
    requires
        unique_names(old_ps),
        add_outcome(old_ps, new_ps, r, name, path, url, branch, deps, sync_url, absolute),
    ensures
        unique_names(new_ps),
{
    if add_check(old_ps, name@, path, crate::config::strs(deps), absolute) is Ok {
        let n = old_ps.len() as int;
        assert forall|i: int, j: int| 0 <= i < j < new_ps.len() implies #[trigger] new_ps[i].name@
            != #[trigger] new_ps[j].name@ by {
            assert(new_ps[i] == new_ps.take(n)[i]);
            if j < n {
                assert(new_ps[j] == new_ps.take(n)[j]);
            } else {
                assert(!has_name(old_ps, name@));
                assert(old_ps[i].name@ != name@);
            }
        }
    }
}

/// Adding keeps the directories of the workspace unique.
pub proof fn law_add_keeps_dirs_unique(
    old_ps: Seq<Project>,
    new_ps: Seq<Project>,
    r: Result<(), crate::workspace::AddError>,
    name: String,
    path: Option<Seq<char>>,
    url: String,
    branch: String,
    deps: Seq<String>,
    sync_url: Option<String>,
    absolute: bool,
)
    requires
        unique_dirs(old_ps),
        add_outcome(old_ps, new_ps, r, name, path, url, branch, deps, sync_url, absolute),
    ensures
        unique_dirs(new_ps),
{
    if add_check(old_ps, name@, path, crate::config::strs(deps), absolute) is Ok {
        let n = old_ps.len() as int;
        let p = new_ps.last();
        lemma_added_dir(p, name, path, url, branch, deps, sync_url);
        let d = normal_dir(local_dir_of(p));
        assert(!dir_used(old_ps, d));
        assert forall|i: int, j: int| 0 <= i < j < new_ps.len() implies normal_dir(
            local_dir_of(#[trigger] new_ps[i]),
        ) != normal_dir(local_dir_of(#[trigger] new_ps[j])) by {
            assert(new_ps[i] == new_ps.take(n)[i]);
            if j < n {
                assert(new_ps[j] == new_ps.take(n)[j]);
            } else {
                assert(normal_dir(local_dir_of(old_ps[i])) != d);
            }
        }
    }
}

/// An added project depends only on projects already in the workspace,
/// never on itself.
pub proof fn law_add_dependencies_exist(
    old_ps: Seq<Project>,
    new_ps: Seq<Project>,
    r: Result<(), crate::workspace::AddError>,
    name: String,
    path: Option<Seq<char>>,
    url: String,
    branch: String,
    deps: Seq<String>,
    sync_url: Option<String>,
    absolute: bool,
)
    requires
        add_outcome(old_ps, new_ps, r, name, path, url, branch, deps, sync_url, absolute),
        r is Ok,
    ensures
        forall|k: int|
            0 <= k < deps_of(new_ps.last()).len() ==> has_name(old_ps, #[trigger] deps_of(new_ps.last())[k])
                && deps_of(new_ps.last())[k] != name@,
{
    let ds = crate::config::strs(deps);
    assert(add_check(old_ps, name@, path, ds, absolute) is Ok);
    lemma_no_missing(old_ps, ds, 0);
    assert(deps_of(new_ps.last()) =~= ds);
    assert forall|k: int| 0 <= k < ds.len() implies has_name(old_ps, #[trigger] ds[k]) && ds[k] != name@ by {
        assert(!ds.contains(name@));
    }
}

proof fn lemma_without_absent(ps: Seq<Project>, name: Seq<char>)
    requires
        !has_name(ps, name),
    ensures
        without(ps, name) == ps,
    decreases ps.len(),
{
    if ps.len() > 0 {
        assert(!has_name(ps.drop_last(), name)) by {
            if has_name(ps.drop_last(), name) {
                let j = choose|j: int| 0 <= j < ps.drop_last().len() && ps.drop_last()[j].name@ == name;
                assert(ps[j] == ps.drop_last()[j]);
            }
        }
        lemma_without_absent(ps.drop_last(), name);
        assert(ps.last().name@ != name);
        assert(ps.drop_last().push(ps.last()) =~= ps);
    }
}

/// Removing a name leaves no project of that name.
pub proof fn law_remove_leaves_none(ps: Seq<Project>, name: Seq<char>)
    ensures
        !has_name(without(ps, name), name),
    decreases ps.len(),
{
    if ps.len() > 0 {
        law_remove_leaves_none(ps.drop_last(), name);
        let w = without(ps.drop_last(), name);
        if ps.last().name@ != name {
            assert forall|j: int| 0 <= j < w.push(ps.last()).len() implies #[trigger] w.push(ps.last())[j].name@
                != name by {
                if j < w.len() {
                    assert(w.push(ps.last())[j] == w[j]);
                }
            }
        }
    }
}

/// Removing the project just added gives back the workspace as it was.
pub proof fn law_add_then_remove(
    old_ps: Seq<Project>,
    new_ps: Seq<Project>,
    r: Result<(), crate::workspace::AddError>,
    name: String,
    path: Option<Seq<char>>,
    url: String,
    branch: String,
    deps: Seq<String>,
    sync_url: Option<String>,
    absolute: bool,
)
    requires
        add_outcome(old_ps, new_ps, r, name, path, url, branch, deps, sync_url, absolute),
    ensures
        r is Ok ==> without(new_ps, name@) == old_ps,
{
    if r is Ok {
        assert(add_check(old_ps, name@, path, crate::config::strs(deps), absolute) is Ok);
        assert(new_ps.drop_last() =~= old_ps) by {
            assert(new_ps.drop_last() =~= new_ps.take(old_ps.len() as int));
        }
        lemma_without_absent(old_ps, name@);
    }
}

/// A successful add keeps the workspace schedulable: where every
/// dependency resolved and the execution levels succeeded before, they
/// still succeed, and so does the topological order where it succeeded
/// before.
pub proof fn law_add_keeps_graph_sound(
    old_ps: Seq<Project>,
    new_ps: Seq<Project>,
    r: Result<(), crate::workspace::AddError>,
    name: String,
    path: Option<Seq<char>>,
    url: String,
    branch: String,
    deps: Seq<String>,
    sync_url: Option<String>,
    absolute: bool,
)
    requires
        add_outcome(old_ps, new_ps, r, name, path, url, branch, deps, sync_url, absolute),
        r is Ok,
        levels_spec(old_ps) is Ok,
    ensures
        levels_spec(new_ps) is Ok,
        topo_spec(old_ps) is Ok ==> topo_spec(new_ps) is Ok,
{
    law_add_dependencies_exist(old_ps, new_ps, r, name, path, url, branch, deps, sync_url, absolute);
    assert(add_check(old_ps, name@, path, crate::config::strs(deps), absolute) is Ok);
    let p = new_ps.last();
    assert(new_ps =~= old_ps.push(p));
    assert(p.name@ == name@);
    law_append_keeps_sound(old_ps, p);
}

} // verus!
