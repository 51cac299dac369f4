//! The dependency graph as text: each root project, and under it, as a
//! tree, the projects that depend on it.
use vstd::prelude::*;

use crate::config::{
    dependents_of, deps_of, distinct_keys, find_project_index, has_name, is_key, lemma_dependents_not_key,
    lemma_resolve_has_name, lemma_stack_room, map_keys, stack_ok, strs, vec_has, Project, WorkspaceConfig,
};
use crate::text::{cat, cat4, str_eq};
use crate::vm::ssh::views;

verus! {

/// The branch drawn before a node: the last child closes the branch.
pub open spec fn connector(last: bool) -> Seq<char> {
    if last {
        "\u{2514}\u{2500}"@
    } else {
        "\u{251C}\u{2500}"@
    }
}

/// What the children of a node are indented by: the line continues below
/// a node that is not the last child.
pub open spec fn indent(last: bool) -> Seq<char> {
    if last {
        "   "@
    } else {
        "\u{2502}  "@
    }
}

/// The lines of the subtree at `name`, drawn after `prefix`. `path` holds
/// the names above it; a name met again on its own path (a dependency
/// cycle) is drawn without its subtree.
pub open spec fn tree(ps: Seq<Project>, name: Seq<char>, prefix: Seq<char>, last: bool, path: Seq<Seq<char>>) -> Seq<Seq<char>>
    decreases ps.len() - path.len(), 1int, 0int,
{
    let line = prefix + connector(last) + " "@ + name;
    if path.contains(name) || path.len() >= ps.len() || !has_name(ps, name) {
        seq![line]
    } else {
        seq![line] + forest(ps, dependents_of(ps, name), 0, prefix + indent(last), path.push(name))
    }
}

/// The subtrees of `kids[i..]`, one after another.
pub open spec fn forest(ps: Seq<Project>, kids: Seq<Seq<char>>, i: int, prefix: Seq<char>, path: Seq<Seq<char>>) -> Seq<Seq<char>>
    decreases ps.len() - path.len() + 1, 0int, kids.len() - i,
{
    if i < 0 || i >= kids.len() || path.len() > ps.len() {
        Seq::empty()
    } else {
        tree(ps, kids[i], prefix, i == kids.len() - 1, path) + forest(ps, kids, i + 1, prefix, path)
    }
}

/// `s` begins with `pre`.
pub open spec fn starts_with(s: Seq<char>, pre: Seq<char>) -> bool {
    pre.len() <= s.len() && s.take(pre.len() as int) == pre
}

proof fn lemma_starts_with_shorter(s: Seq<char>, a: Seq<char>, b: Seq<char>)
    requires
        starts_with(s, a + b),
    ensures
        starts_with(s, a),
{
    assert(s.take(a.len() as int) =~= (a + b).take(a.len() as int));
    assert((a + b).take(a.len() as int) =~= a);
}

/// Law: how a subtree is drawn. Its first line is the node itself, after
/// `prefix` and the branch; every line below it (the node's descendants)
/// begins with `prefix` followed by the node's indent, so a child's prefix
/// extends its parent's and each level of depth adds one indent.
pub proof fn law_tree_lines(ps: Seq<Project>, name: Seq<char>, prefix: Seq<char>, last: bool, path: Seq<Seq<char>>)
    ensures
        tree(ps, name, prefix, last, path).len() >= 1,
        tree(ps, name, prefix, last, path)[0] == prefix + connector(last) + " "@ + name,
        forall|i: int|
            1 <= i < tree(ps, name, prefix, last, path).len() ==> starts_with(
                #[trigger] tree(ps, name, prefix, last, path)[i],
                prefix + indent(last),
            ),
    decreases ps.len() - path.len(), 1int, 0int,
{
    if !(path.contains(name) || path.len() >= ps.len() || !has_name(ps, name)) {
        let kids = dependents_of(ps, name);
        let f = forest(ps, kids, 0, prefix + indent(last), path.push(name));
        law_forest_lines(ps, kids, 0, prefix + indent(last), path.push(name));
        let t = tree(ps, name, prefix, last, path);
        assert forall|i: int| 1 <= i < t.len() implies starts_with(#[trigger] t[i], prefix + indent(last)) by {
            assert(t[i] == f[i - 1]);
        }
    }
}

/// Law: every line of the subtrees of `kids[i..]` begins with `prefix`.
pub proof fn law_forest_lines(ps: Seq<Project>, kids: Seq<Seq<char>>, i: int, prefix: Seq<char>, path: Seq<Seq<char>>)
    ensures
        forall|j: int|
            0 <= j < forest(ps, kids, i, prefix, path).len() ==> starts_with(
                #[trigger] forest(ps, kids, i, prefix, path)[j],
                prefix,
            ),
    decreases ps.len() - path.len() + 1, 0int, kids.len() - i,
{
    if !(i < 0 || i >= kids.len() || path.len() > ps.len()) {
        let lastk = i == kids.len() - 1;
        let t = tree(ps, kids[i], prefix, lastk, path);
        let rest = forest(ps, kids, i + 1, prefix, path);
        law_tree_lines(ps, kids[i], prefix, lastk, path);
        law_forest_lines(ps, kids, i + 1, prefix, path);
        let f = forest(ps, kids, i, prefix, path);
        assert(f == t + rest);
        assert forall|j: int| 0 <= j < f.len() implies starts_with(#[trigger] f[j], prefix) by {
            if j < t.len() {
                assert(f[j] == t[j]);
                if j == 0 {
                    assert(prefix + connector(lastk) + " "@ + kids[i] =~= prefix + (connector(lastk) + " "@ + kids[i]));
                    assert(t[0] =~= prefix + (connector(lastk) + " "@ + kids[i]));
                    assert(starts_with(t[0], prefix + (connector(lastk) + " "@ + kids[i]))) by {
                        assert(t[0].take(t[0].len() as int) =~= t[0]);
                    }
                    lemma_starts_with_shorter(t[0], prefix, connector(lastk) + " "@ + kids[i]);
                } else {
                    lemma_starts_with_shorter(t[j], prefix, indent(lastk));
                }
            } else {
                assert(f[j] == rest[j - t.len()]);
            }
        }
    }
}

/// A project without dependencies.
pub open spec fn is_root(p: Project) -> bool {
    deps_of(p).len() == 0
}

/// The names of the projects without dependencies, in order.
pub open spec fn plain_roots(ps: Seq<Project>) -> Seq<Seq<char>>
    decreases ps.len(),
{
    if ps.len() == 0 {
        Seq::empty()
    } else if is_root(ps.last()) {
        plain_roots(ps.drop_last()).push(ps.last().name@)
    } else {
        plain_roots(ps.drop_last())
    }
}

/// The projects the graph starts from: those without dependencies, or
/// every project when each has some.
pub open spec fn roots(ps: Seq<Project>) -> Seq<Seq<char>> {
    if plain_roots(ps).len() > 0 {
        plain_roots(ps)
    } else {
        ps.map_values(|p: Project| p.name@)
    }
}

/// The lines of the graph for the roots from `i` on: each root's name,
/// then the trees of its dependents.
pub open spec fn blocks(ps: Seq<Project>, rs: Seq<Seq<char>>, i: int) -> Seq<Seq<char>>
    decreases rs.len() - i,
{
    if i < 0 || i >= rs.len() {
        Seq::empty()
    } else {
        seq![rs[i]] + forest(ps, dependents_of(ps, rs[i]), 0, Seq::empty(), seq![rs[i]]) + blocks(ps, rs, i + 1)
    }
}

/// The lines of the dependency graph.
pub open spec fn graph_spec(ps: Seq<Project>) -> Seq<Seq<char>> {
    blocks(ps, roots(ps), 0)
}

/// `m` maps every name of the workspace to its dependents.
pub open spec fn is_dependent_map(m: Seq<(String, Vec<String>)>, ps: Seq<Project>) -> bool {
    &&& distinct_keys(m)
    &&& forall|a: int| 0 <= a < m.len() ==> is_key(ps, #[trigger] m[a].0@) && strs(m[a].1@) == dependents_of(ps, m[a].0@)
    &&& forall|k: Seq<char>| #[trigger] is_key(ps, k) ==> map_keys(m).contains(k)
}

fn children<'a>(m: &'a Vec<(String, Vec<String>)>, none: &'a Vec<String>, ps: Ghost<Seq<Project>>, name: &str) -> (r: &'a Vec<String>)
    requires
        is_dependent_map(m@, ps@),
        none@.len() == 0,
    ensures
        strs(r@) == dependents_of(ps@, name@),
{
    let mut a: usize = 0;
    while a < m.len()
        invariant
            a <= m.len(),
            forall|b: int| 0 <= b < a ==> m@[b].0@ != name@,
            is_dependent_map(m@, ps@),
        decreases m.len() - a,
    {
        if str_eq(m[a].0.as_str(), name) {
            assert(strs(m@[a as int].1@) == dependents_of(ps@, m@[a as int].0@));
            return &m[a].1;
        }
        a += 1;
    }
    proof {
        if is_key(ps@, name@) {
            assert(map_keys(m@).contains(name@));
            let b = choose|b: int| 0 <= b < map_keys(m@).len() && map_keys(m@)[b] == name@;
            assert(m@[b].0@ == map_keys(m@)[b]);
        }
        lemma_dependents_not_key(ps@, name@);
    }
    assert(strs(none@) =~= Seq::<Seq<char>>::empty());
    none
}

fn push_line(out: &mut Vec<String>, s: String)
    ensures
        views(final(out)@) == views(old(out)@).push(s@),
{
    let ghost before = out@;
    out.push(s);
    assert(views(out@) =~= views(before).push(s@));
}

fn tree_lines(
    ps: &Vec<Project>,
    m: &Vec<(String, Vec<String>)>,
    none: &Vec<String>,
    name: &str,
    prefix: &str,
    last: bool,
    path: &mut Vec<String>,
    out: &mut Vec<String>,
)
    requires
        is_dependent_map(m@, ps@),
        none@.len() == 0,
        stack_ok(ps@, strs(old(path)@)),
    ensures
        final(path)@ == old(path)@,
        views(final(out)@) == views(old(out)@) + tree(ps@, name@, prefix@, last, strs(old(path)@)),
    decreases ps@.len() - old(path)@.len(),
{
    let ghost p0 = strs(path@);
    let ghost o0 = views(out@);
    let conn = if last {
        "\u{2514}\u{2500}"
    } else {
        "\u{251C}\u{2500}"
    };
    let line = cat4(prefix, conn, " ", name);
    push_line(out, line);
    let on_path = vec_has(path, name);
    let known = find_project_index(ps, name).is_some();
    proof {
        lemma_resolve_has_name(ps@, name@);
    }
    if on_path || path.len() >= ps.len() || !known {
        assert(views(out@) =~= o0 + tree(ps@, name@, prefix@, last, p0));
        return;
    }
    proof {
        lemma_stack_room(ps@, p0, name@);
    }
    let kids = children(m, none, Ghost(ps@), name);
    let child_prefix = cat(prefix, if last {
        "   "
    } else {
        "\u{2502}  "
    });
    let ghost path0 = path@;
    path.push(String::from_str(name));
    let ghost p1 = strs(path@);
    assert(p1 =~= p0.push(name@));
    let ghost ks = strs(kids@);
    let ghost base = o0 + seq![prefix@ + connector(last) + " "@ + name@];
    assert(views(out@) =~= base);
    let mut i: usize = 0;
    while i < kids.len()
        invariant
            i <= kids.len(),
            ks == strs(kids@),
            ks == dependents_of(ps@, name@),
            strs(path@) == p1,
            path@ == path0.push(path@.last()),
            path0 == old(path)@,
            path@.len() == path0.len() + 1,
            stack_ok(ps@, p1),
            p1.len() <= ps@.len(),
            is_dependent_map(m@, ps@),
            none@.len() == 0,
            views(out@) + forest(ps@, ks, i as int, child_prefix@, p1) == base + forest(ps@, ks, 0, child_prefix@, p1),
        decreases kids.len() - i,
    {
        let ghost before = views(out@);
        assert(ks[i as int] == kids@[i as int]@);
        tree_lines(ps, m, none, kids[i].as_str(), child_prefix.as_str(), i + 1 == kids.len(), path, out);
        assert(forest(ps@, ks, i as int, child_prefix@, p1) == tree(ps@, ks[i as int], child_prefix@, i == ks.len() - 1, p1)
            + forest(ps@, ks, i + 1, child_prefix@, p1));
        assert(views(out@) + forest(ps@, ks, i + 1, child_prefix@, p1) =~= before + forest(ps@, ks, i as int, child_prefix@, p1));
        i += 1;
    }
    path.pop();
    assert(path@ =~= path0);
    assert(tree(ps@, name@, prefix@, last, p0) == seq![prefix@ + connector(last) + " "@ + name@] + forest(
        ps@,
        dependents_of(ps@, name@),
        0,
        prefix@ + indent(last),
        p0.push(name@),
    ));
    assert(views(out@) =~= o0 + tree(ps@, name@, prefix@, last, p0));
}

fn root_names(ps: &Vec<Project>) -> (r: Vec<String>)
    ensures
        strs(r@) == roots(ps@),
{
    let mut r: Vec<String> = Vec::new();
    let mut i: usize = 0;
    while i < ps.len()
        invariant
            i <= ps.len(),
            strs(r@) == plain_roots(ps@.take(i as int)),
        decreases ps.len() - i,
    {
        assert(ps@.take(i + 1).drop_last() =~= ps@.take(i as int));
        let root = match &ps[i].depends_on {
            Some(d) => d.len() == 0,
            None => true,
        };
        assert(root == is_root(ps@[i as int]));
        if root {
            let ghost before = r@;
            r.push(ps[i].name.clone());
            assert(strs(r@) =~= strs(before).push(ps@[i as int].name@));
        }
        i += 1;
    }
    assert(ps@.take(ps.len() as int) =~= ps@);
    if r.len() == 0 {
        let mut all: Vec<String> = Vec::new();
        let mut j: usize = 0;
        while j < ps.len()
            invariant
                j <= ps.len(),
                strs(all@) == ps@.take(j as int).map_values(|p: Project| p.name@),
            decreases ps.len() - j,
        {
            let ghost before = all@;
            all.push(ps[j].name.clone());
            assert(ps@.take(j + 1) =~= ps@.take(j as int).push(ps@[j as int]));
            assert(strs(all@) =~= strs(before).push(ps@[j as int].name@));
            assert(strs(all@) =~= ps@.take(j + 1).map_values(|p: Project| p.name@));
            j += 1;
        }
        assert(ps@.take(ps.len() as int).map_values(|p: Project| p.name@) =~= ps@.map_values(|p: Project| p.name@));
        all
    } else {
        r
    }
}

impl WorkspaceConfig {
    /// The lines of the dependency graph: every root project (one without
    /// dependencies, or every project when none is without), each followed
    /// by the tree of the projects that depend on it.
    pub fn graph_lines(&self) -> (r: Vec<String>)
        ensures
            views(r@) == graph_spec(self.projects@),
    {
        let ps = &self.projects;
        let m = self.dependent_map();
        let none: Vec<String> = Vec::new();
        let top = String::new();
        let rs = root_names(ps);
        let ghost rv = strs(rs@);
        let mut out: Vec<String> = Vec::new();
        let mut i: usize = 0;
        assert(views(out@) =~= Seq::<Seq<char>>::empty());
        while i < rs.len()
            invariant
                i <= rs.len(),
                rv == strs(rs@),
                rv == roots(ps@),
                top@ == Seq::<char>::empty(),
                is_dependent_map(m@, ps@),
                none@.len() == 0,
                views(out@) + blocks(ps@, rv, i as int) == blocks(ps@, rv, 0),
            decreases rs.len() - i,
        {
            let ghost before = views(out@);
            let name = rs[i].as_str();
            assert(rv[i as int] == name@);
            push_line(&mut out, String::from_str(name));
            let mut path: Vec<String> = Vec::new();
            path.push(String::from_str(name));
            let ghost p1 = strs(path@);
            assert(p1 =~= seq![name@]);
            let is_name = find_project_index(ps, name).is_some();
            proof {
                lemma_resolve_has_name(ps@, name@);
            }
            let kids = children(&m, &none, Ghost(ps@), name);
            let ghost ks = strs(kids@);
            let ghost mid = before.push(name@);
            if is_name && ps.len() >= 1 {
                assert(stack_ok(ps@, p1));
                let mut k: usize = 0;
                while k < kids.len()
                    invariant
                        k <= kids.len(),
                        ks == strs(kids@),
                        strs(path@) == p1,
                        stack_ok(ps@, p1),
                        p1.len() <= ps@.len(),
                        top@ == Seq::<char>::empty(),
                        is_dependent_map(m@, ps@),
                        none@.len() == 0,
                        views(out@) + forest(ps@, ks, k as int, Seq::empty(), p1) == mid + forest(ps@, ks, 0, Seq::empty(), p1),
                    decreases kids.len() - k,
                {
                    let ghost b2 = views(out@);
                    assert(ks[k as int] == kids@[k as int]@);
                    tree_lines(ps, &m, &none, kids[k].as_str(), top.as_str(), k + 1 == kids.len(), &mut path, &mut out);
                    assert(forest(ps@, ks, k as int, Seq::empty(), p1) == tree(ps@, ks[k as int], Seq::empty(), k == ks.len() - 1, p1)
                        + forest(ps@, ks, k + 1, Seq::empty(), p1));
                    assert(views(out@) + forest(ps@, ks, k + 1, Seq::empty(), p1) =~= b2 + forest(ps@, ks, k as int, Seq::empty(), p1));
                    k += 1;
                }
            } else {
                assert(ks.len() == 0) by {
                    if !has_name(ps@, name@) {
                        assert(!is_key(ps@, name@)) by {
                            assert(rv.contains(name@));
                            lemma_roots_are_names(ps@);
                        }
                        lemma_dependents_not_key(ps@, name@);
                    }
                }
            }
            assert(views(out@) + blocks(ps@, rv, i + 1) =~= before + blocks(ps@, rv, i as int));
            i += 1;
        }
        assert(views(out@) =~= views(out@) + blocks(ps@, rv, rs.len() as int));
        out
    }
}

/// Every root is the name of a project.
proof fn lemma_roots_are_names(ps: Seq<Project>)
    ensures
        forall|k: int| 0 <= k < roots(ps).len() ==> has_name(ps, #[trigger] roots(ps)[k]),
{
    lemma_plain_roots_are_names(ps);
    if plain_roots(ps).len() == 0 {
        assert forall|k: int| 0 <= k < roots(ps).len() implies has_name(ps, #[trigger] roots(ps)[k]) by {
            assert(roots(ps)[k] == ps[k].name@);
        }
    }
}

proof fn lemma_plain_roots_are_names(ps: Seq<Project>)
    ensures
        forall|k: int| 0 <= k < plain_roots(ps).len() ==> has_name(ps, #[trigger] plain_roots(ps)[k]),
    decreases ps.len(),
{
    if ps.len() > 0 {
        lemma_plain_roots_are_names(ps.drop_last());
        let pr = plain_roots(ps.drop_last());
        assert forall|k: int| 0 <= k < plain_roots(ps).len() implies has_name(ps, #[trigger] plain_roots(ps)[k]) by {
            if k < pr.len() {
                assert(plain_roots(ps)[k] == pr[k]);
                assert(has_name(ps.drop_last(), pr[k]));
                let t = choose|t: int| 0 <= t < ps.drop_last().len() && ps.drop_last()[t].name@ == pr[k];
                assert(ps[t] == ps.drop_last()[t]);
            } else {
                assert(ps[ps.len() - 1].name@ == plain_roots(ps)[k]);
            }
        }
    }
}

} // verus!
