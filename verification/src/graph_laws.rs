//! Laws of the dependency algorithms of [`crate::config`]: what the
//! topological order and the execution levels promise of every workspace.
use vstd::prelude::*;

use crate::config::{levels_from, levels_spec, all_indices, ready_part, waiting_part, is_ready, lemma_parts_len, stack_ok, lemma_stack_room, has_name, topo_from, topo_spec, deps_of, in_range, is_first_named, lemma_resolve_first, lemma_resolve_has_name, names_at, resolve, visit, visit_deps, Project};

verus! {

/// `b` is a resolvable dependency of the project that `a` resolves to.
pub open spec fn edge(ps: Seq<Project>, a: Seq<char>, b: Seq<char>) -> bool {
    &&& resolve(ps, a) is Some
    &&& deps_of(ps[resolve(ps, a)->0]).contains(b)
    &&& resolve(ps, b) is Some
}

/// Consecutive names of `c` are joined by dependency edges.
pub open spec fn is_path(ps: Seq<Project>, c: Seq<Seq<char>>) -> bool {
    forall|k: int| 0 <= k < c.len() - 1 ==> edge(ps, #[trigger] c[k], c[k + 1])
}

/// `n` lies on a dependency cycle.
pub open spec fn on_cycle(ps: Seq<Project>, n: Seq<char>) -> bool {
    exists|c: Seq<Seq<char>>| c.len() >= 2 && c[0] == n && c.last() == n && #[trigger] is_path(ps, c)
}

/// The dependency graph of the workspace has a cycle.
pub open spec fn has_cycle(ps: Seq<Project>) -> bool {
    exists|n: Seq<char>| #[trigger] on_cycle(ps, n)
}

/// `o` lists each resolvable dependency of a project before the project.
pub open spec fn deps_first(ps: Seq<Project>, o: Seq<int>) -> bool {
    forall|p: int, k: int|
        #![trigger o[p], deps_of(ps[o[p]])[k]]
        0 <= p < o.len() && 0 <= k < deps_of(ps[o[p]]).len() && resolve(ps, deps_of(ps[o[p]])[k]) is Some
            ==> exists|q: int| 0 <= q < p && o[q] == resolve(ps, deps_of(ps[o[p]])[k])->0
}

/// Every entry of `o` is the first project of its name.
pub open spec fn all_first(ps: Seq<Project>, o: Seq<int>) -> bool {
    forall|q: int| 0 <= q < o.len() ==> is_first_named(ps, ps[#[trigger] o[q]].name@, o[q])
}

/// The state of a depth-first visit after finishing the projects `o`.
pub open spec fn good(ps: Seq<Project>, v: Seq<Seq<char>>, o: Seq<int>) -> bool {
    &&& in_range(ps, o)
    &&& v == names_at(ps, o)
    &&& v.no_duplicates()
    &&& all_first(ps, o)
    &&& deps_first(ps, o)
}

/// No name of the stack is finished.
pub open spec fn apart(stack: Seq<Seq<char>>, v: Seq<Seq<char>>) -> bool {
    forall|k: int| 0 <= k < stack.len() ==> !v.contains(#[trigger] stack[k])
}

proof fn lemma_names_at_push(ps: Seq<Project>, o: Seq<int>, x: int)
    ensures
        names_at(ps, o.push(x)) == names_at(ps, o).push(ps[x].name@),
{
    assert(names_at(ps, o.push(x)) =~= names_at(ps, o).push(ps[x].name@));
}

/// A finished name belongs to a finished project, the first of its name.
proof fn lemma_good_contains(ps: Seq<Project>, v: Seq<Seq<char>>, o: Seq<int>, j: int)
    requires
        good(ps, v, o),
        resolve(ps, ps[j].name@) == Some(j),
        v.contains(ps[j].name@),
    ensures
        o.contains(j),
{
    let t = choose|t: int| 0 <= t < v.len() && v[t] == ps[j].name@;
    assert(v[t] == ps[o[t]].name@);
    assert(is_first_named(ps, ps[o[t]].name@, o[t]));
    lemma_resolve_first(ps, ps[j].name@, o[t]);
}

proof fn lemma_prefix_contains<A>(a: Seq<A>, b: Seq<A>, x: A)
    requires
        a.is_prefix_of(b),
        a.contains(x),
    ensures
        b.contains(x),
{
    let t = choose|t: int| 0 <= t < a.len() && a[t] == x;
    assert(b[t] == x);
}

proof fn lemma_prefix_trans<A>(a: Seq<A>, b: Seq<A>, c: Seq<A>)
    requires
        a.is_prefix_of(b),
        b.is_prefix_of(c),
    ensures
        a.is_prefix_of(c),
{
}

/// A successful visit finishes the visited project and keeps the state good.
proof fn lemma_visit_ok(ps: Seq<Project>, node: int, stack: Seq<Seq<char>>, visited: Seq<Seq<char>>, out: Seq<int>)
    requires
        0 <= node < ps.len(),
        good(ps, visited, out),
        apart(stack, visited),
        visited.contains(ps[node].name@) || resolve(ps, ps[node].name@) == Some(node),
    ensures
        visit(ps, node, stack, visited, out) matches Ok((v, o)) ==> {
            &&& good(ps, v, o)
            &&& visited.is_prefix_of(v)
            &&& out.is_prefix_of(o)
            &&& v.contains(ps[node].name@)
            &&& apart(stack, v)
        },
    decreases ps.len() - stack.len(), 1int, 0int,
{
    let n = ps[node].name@;
    if !visited.contains(n) && !stack.contains(n) && stack.len() < ps.len() {
        let s1 = stack.push(n);
        assert(apart(s1, visited)) by {
            assert forall|k: int| 0 <= k < s1.len() implies !visited.contains(#[trigger] s1[k]) by {
                if k < stack.len() {
                    assert(s1[k] == stack[k]);
                }
            }
        }
        lemma_visit_deps_ok(ps, node, 0, s1, visited, out);
        match visit_deps(ps, node, 0, s1, visited, out) {
            Ok((v, o)) => {
                let v2 = v.push(n);
                let o2 = o.push(node);
                assert(!v.contains(n)) by {
                    assert(s1[stack.len() as int] == n);
                }
                lemma_names_at_push(ps, o, node);
                assert(in_range(ps, o2)) by {
                    assert forall|t: int| 0 <= t < o2.len() implies 0 <= #[trigger] o2[t] < ps.len() by {
                        if t < o.len() {
                            assert(o2[t] == o[t]);
                        }
                    }
                }
                assert(v2.no_duplicates()) by {
                    assert forall|a: int, b: int| 0 <= a < v2.len() && 0 <= b < v2.len() && a != b implies v2[a] != v2[b] by {
                        if a == v.len() as int {
                            assert(v[b] == v2[b]);
                        } else if b == v.len() as int {
                            assert(v[a] == v2[a]);
                        }
                    }
                }
                assert(is_first_named(ps, n, node)) by {
                    lemma_resolve_has_name(ps, n);
                }
                assert(all_first(ps, o2)) by {
                    assert forall|q: int| 0 <= q < o2.len() implies is_first_named(ps, ps[#[trigger] o2[q]].name@, o2[q]) by {
                        if q < o.len() {
                            assert(o2[q] == o[q]);
                        }
                    }
                }
                assert(deps_first(ps, o2)) by {
                    assert forall|p: int, k: int|
                        0 <= p < o2.len() && 0 <= k < deps_of(ps[o2[p]]).len() && resolve(ps, deps_of(ps[o2[p]])[k]) is Some
                        implies exists|q: int| 0 <= q < p && o2[q] == resolve(ps, deps_of(ps[o2[p]])[k])->0 by {
                        if p < o.len() {
                            assert(o2[p] == o[p]);
                            let q = choose|q: int| 0 <= q < p && o[q] == resolve(ps, deps_of(ps[o[p]])[k])->0;
                            assert(o2[q] == o[q]);
                        } else {
                            assert(o2[p] == node);
                            let r = resolve(ps, deps_of(ps[node])[k])->0;
                            assert(o.contains(r));
                            let q = choose|q: int| 0 <= q < o.len() && o[q] == r;
                            assert(o2[q] == o[q]);
                        }
                    }
                }
                assert(visited.is_prefix_of(v2));
                assert(out.is_prefix_of(o2));
                assert(v2[v.len() as int] == n);
                assert(apart(stack, v2)) by {
                    assert forall|k: int| 0 <= k < stack.len() implies !v2.contains(#[trigger] stack[k]) by {
                        assert(s1[k] == stack[k]);
                        assert(!v.contains(stack[k]));
                        if v2.contains(stack[k]) {
                            let t = choose|t: int| 0 <= t < v2.len() && v2[t] == stack[k];
                            if t < v.len() {
                                assert(v[t] == v2[t]);
                            } else {
                                assert(stack.contains(n));
                            }
                        }
                    }
                }
            },
            Err(_) => {},
        }
    }
}

/// Successful visits of the dependencies from the `k`-th on finish every one
/// of them that resolves.
proof fn lemma_visit_deps_ok(
    ps: Seq<Project>,
    node: int,
    k: int,
    stack: Seq<Seq<char>>,
    visited: Seq<Seq<char>>,
    out: Seq<int>,
)
    requires
        0 <= node < ps.len(),
        0 <= k,
        good(ps, visited, out),
        apart(stack, visited),
    ensures
        visit_deps(ps, node, k, stack, visited, out) matches Ok((v, o)) ==> {
            &&& good(ps, v, o)
            &&& visited.is_prefix_of(v)
            &&& out.is_prefix_of(o)
            &&& apart(stack, v)
            &&& (stack.len() <= ps.len() ==> forall|m: int|
                k <= m < deps_of(ps[node]).len() && resolve(ps, #[trigger] deps_of(ps[node])[m]) is Some
                    ==> o.contains(resolve(ps, deps_of(ps[node])[m])->0))
        },
    decreases ps.len() - stack.len() + 1, 0int, deps_of(ps[node]).len() - k,
{
    let deps = deps_of(ps[node]);
    if !(k >= deps.len() || stack.len() > ps.len()) {
        let d = deps[k];
        match resolve(ps, d) {
            Some(j) => {
                lemma_resolve_has_name(ps, d);
                lemma_resolve_first(ps, ps[j].name@, j);
                lemma_visit_ok(ps, j, stack, visited, out);
                match visit(ps, j, stack, visited, out) {
                    Ok((v1, o1)) => {
                        lemma_visit_deps_ok(ps, node, k + 1, stack, v1, o1);
                        match visit_deps(ps, node, k + 1, stack, v1, o1) {
                            Ok((v, o)) => {
                                lemma_good_contains(ps, v1, o1, j);
                                lemma_prefix_contains(o1, o, j);
                                lemma_prefix_trans(visited, v1, v);
                                lemma_prefix_trans(out, o1, o);
                            },
                            Err(_) => {},
                        }
                    },
                    Err(_) => {},
                }
            },
            None => {
                lemma_visit_deps_ok(ps, node, k + 1, stack, visited, out);
            },
        }
    }
}


proof fn lemma_topo_from_ok(ps: Seq<Project>, i: int, visited: Seq<Seq<char>>, out: Seq<int>)
    requires
        0 <= i <= ps.len(),
        good(ps, visited, out),
        forall|j: int| 0 <= j < i ==> visited.contains(#[trigger] ps[j].name@),
    ensures
        topo_from(ps, i, visited, out) matches Ok(o) ==> good(ps, names_at(ps, o), o) && forall|j: int|
            0 <= j < ps.len() ==> names_at(ps, o).contains(#[trigger] ps[j].name@),
    decreases ps.len() - i,
{
    if i == ps.len() {
        return;
    }
    let n = ps[i].name@;
    if !visited.contains(n) {
        assert(is_first_named(ps, n, i)) by {
            assert forall|j: int| 0 <= j < i implies ps[j].name@ != n by {
                assert(visited.contains(ps[j].name@));
            }
        }
        lemma_resolve_first(ps, n, i);
    }
    let empty = Seq::<Seq<char>>::empty();
    lemma_visit_ok(ps, i, empty, visited, out);
    match visit(ps, i, empty, visited, out) {
        Ok((v, o1)) => {
            assert forall|j: int| 0 <= j < i + 1 implies v.contains(#[trigger] ps[j].name@) by {
                if j < i {
                    lemma_prefix_contains(visited, v, ps[j].name@);
                }
            }
            lemma_topo_from_ok(ps, i + 1, v, o1);
        },
        Err(_) => {},
    }
}

/// A sequence whose names are distinct holds distinct indices.
proof fn lemma_distinct_indices(ps: Seq<Project>, o: Seq<int>)
    requires
        names_at(ps, o).no_duplicates(),
    ensures
        o.no_duplicates(),
{
    assert forall|a: int, b: int| 0 <= a < o.len() && 0 <= b < o.len() && a != b implies o[a] != o[b] by {
        assert(names_at(ps, o)[a] != names_at(ps, o)[b]);
    }
}

/// Law: the topological order lists every project once (the first of each
/// name; a later project with a name already listed is not listed again),
/// and every dependency that names a project comes before the projects
/// that depend on it.
pub proof fn law_topological_order(ps: Seq<Project>)
    ensures
        topo_spec(ps) matches Ok(o) ==> {
            &&& in_range(ps, o)
            &&& o.no_duplicates()
            &&& all_first(ps, o)
            &&& deps_first(ps, o)
            &&& forall|i: int| 0 <= i < ps.len() ==> o.contains(#[trigger] resolve(ps, ps[i].name@)->0)
        },
{
    let e = Seq::<Seq<char>>::empty();
    let eo = Seq::<int>::empty();
    assert(names_at(ps, eo) =~= e);
    lemma_topo_from_ok(ps, 0, e, eo);
    match topo_spec(ps) {
        Ok(o) => {
            lemma_distinct_indices(ps, o);
            assert forall|i: int| 0 <= i < ps.len() implies o.contains(#[trigger] resolve(ps, ps[i].name@)->0) by {
                let n = ps[i].name@;
                assert(names_at(ps, o).contains(n));
                lemma_resolve_has_name(ps, n);
                let j = resolve(ps, n)->0;
                lemma_resolve_first(ps, ps[j].name@, j);
                lemma_good_contains(ps, names_at(ps, o), o, j);
            }
        },
        Err(_) => {},
    }
}


/// A failing visit has met a name that lies on a cycle.
proof fn lemma_visit_err(ps: Seq<Project>, node: int, stack: Seq<Seq<char>>, visited: Seq<Seq<char>>, out: Seq<int>)
    requires
        0 <= node < ps.len(),
        stack_ok(ps, stack),
        is_path(ps, stack),
        stack.len() > 0 ==> edge(ps, stack.last(), ps[node].name@),
        visited.contains(ps[node].name@) || resolve(ps, ps[node].name@) == Some(node),
    ensures
        visit(ps, node, stack, visited, out) matches Err(e) ==> on_cycle(ps, e),
    decreases ps.len() - stack.len(), 1int, 0int,
{
    let n = ps[node].name@;
    if visited.contains(n) {
        return;
    }
    assert(has_name(ps, n));
    if stack.contains(n) {
        let t = choose|t: int| 0 <= t < stack.len() && stack[t] == n;
        let c = stack.subrange(t, stack.len() as int).push(n);
        assert(c[0] == n);
        assert(c.last() == n);
        assert forall|k: int| 0 <= k < c.len() - 1 implies edge(ps, #[trigger] c[k], c[k + 1]) by {
            if k < c.len() - 2 {
                assert(c[k] == stack[t + k]);
                assert(c[k + 1] == stack[t + k + 1]);
            } else {
                assert(c[k] == stack.last());
            }
        }
        assert(is_path(ps, c));
        return;
    }
    lemma_stack_room(ps, stack, n);
    let s1 = stack.push(n);
    assert(is_path(ps, s1)) by {
        assert forall|k: int| 0 <= k < s1.len() - 1 implies edge(ps, #[trigger] s1[k], s1[k + 1]) by {
            assert(s1[k] == stack[k]);
            if k + 1 < stack.len() {
                assert(s1[k + 1] == stack[k + 1]);
            } else {
                assert(stack[k] == stack.last());
            }
        }
    }
    lemma_visit_deps_err(ps, node, 0, s1, visited, out);
}

proof fn lemma_visit_deps_err(
    ps: Seq<Project>,
    node: int,
    k: int,
    stack: Seq<Seq<char>>,
    visited: Seq<Seq<char>>,
    out: Seq<int>,
)
    requires
        0 <= node < ps.len(),
        0 <= k,
        resolve(ps, ps[node].name@) == Some(node),
        stack_ok(ps, stack),
        is_path(ps, stack),
        stack.len() > 0,
        stack.last() == ps[node].name@,
    ensures
        visit_deps(ps, node, k, stack, visited, out) matches Err(e) ==> on_cycle(ps, e),
    decreases ps.len() - stack.len() + 1, 0int, deps_of(ps[node]).len() - k,
{
    let deps = deps_of(ps[node]);
    if !(k >= deps.len() || stack.len() > ps.len()) {
        let d = deps[k];
        match resolve(ps, d) {
            Some(j) => {
                lemma_resolve_has_name(ps, d);
                lemma_resolve_first(ps, ps[j].name@, j);
                assert(deps.contains(d));
                assert(edge(ps, stack.last(), ps[j].name@));
                lemma_visit_err(ps, j, stack, visited, out);
                match visit(ps, j, stack, visited, out) {
                    Ok((v1, o1)) => {
                        lemma_visit_deps_err(ps, node, k + 1, stack, v1, o1);
                    },
                    Err(_) => {},
                }
            },
            None => {
                lemma_visit_deps_err(ps, node, k + 1, stack, visited, out);
            },
        }
    }
}

proof fn lemma_topo_from_err(ps: Seq<Project>, i: int, visited: Seq<Seq<char>>, out: Seq<int>)
    requires
        0 <= i <= ps.len(),
        good(ps, visited, out),
        forall|j: int| 0 <= j < i ==> visited.contains(#[trigger] ps[j].name@),
    ensures
        topo_from(ps, i, visited, out) matches Err(e) ==> on_cycle(ps, e),
    decreases ps.len() - i,
{
    if i == ps.len() {
        return;
    }
    let n = ps[i].name@;
    if !visited.contains(n) {
        assert(is_first_named(ps, n, i)) by {
            assert forall|j: int| 0 <= j < i implies ps[j].name@ != n by {
                assert(visited.contains(ps[j].name@));
            }
        }
        lemma_resolve_first(ps, n, i);
    }
    let empty = Seq::<Seq<char>>::empty();
    assert(stack_ok(ps, empty));
    assert(is_path(ps, empty));
    lemma_visit_err(ps, i, empty, visited, out);
    lemma_visit_ok(ps, i, empty, visited, out);
    match visit(ps, i, empty, visited, out) {
        Ok((v, o1)) => {
            assert forall|j: int| 0 <= j < i + 1 implies v.contains(#[trigger] ps[j].name@) by {
                if j < i {
                    lemma_prefix_contains(visited, v, ps[j].name@);
                }
            }
            lemma_topo_from_err(ps, i + 1, v, o1);
        },
        Err(_) => {},
    }
}

/// Law: the topological order fails only at a project that lies on a
/// dependency cycle.
pub proof fn law_topological_order_cycle(ps: Seq<Project>)
    ensures
        topo_spec(ps) matches Err(n) ==> on_cycle(ps, n),
{
    let e = Seq::<Seq<char>>::empty();
    let eo = Seq::<int>::empty();
    assert(names_at(ps, eo) =~= e);
    lemma_topo_from_err(ps, 0, e, eo);
}

/// The position of `r` in `o`.
pub open spec fn pos(o: Seq<int>, r: int) -> int {
    choose|q: int| 0 <= q < o.len() && o[q] == r
}

proof fn lemma_pos(o: Seq<int>, r: int, q: int)
    requires
        o.no_duplicates(),
        0 <= q < o.len(),
        o[q] == r,
    ensures
        pos(o, r) == q,
{
    let p = pos(o, r);
    assert(0 <= p < o.len() && o[p] == r);
}

/// Along an edge, the position in a good order strictly decreases.
proof fn lemma_edge_descends(ps: Seq<Project>, o: Seq<int>, a: Seq<char>, b: Seq<char>)
    requires
        edge(ps, a, b),
        o.no_duplicates(),
        deps_first(ps, o),
        forall|i: int| 0 <= i < ps.len() ==> o.contains(#[trigger] resolve(ps, ps[i].name@)->0),
    ensures
        o.contains(resolve(ps, a)->0),
        o.contains(resolve(ps, b)->0),
        pos(o, resolve(ps, b)->0) < pos(o, resolve(ps, a)->0),
{
    lemma_resolve_has_name(ps, a);
    lemma_resolve_has_name(ps, b);
    let ra = resolve(ps, a)->0;
    let rb = resolve(ps, b)->0;
    assert(o.contains(resolve(ps, ps[ra].name@)->0));
    assert(o.contains(resolve(ps, ps[rb].name@)->0));
    let p = choose|p: int| 0 <= p < o.len() && o[p] == ra;
    lemma_pos(o, ra, p);
    let m = choose|m: int| 0 <= m < deps_of(ps[ra]).len() && deps_of(ps[ra])[m] == b;
    assert(deps_of(ps[o[p]])[m] == b);
    let q = choose|q: int| 0 <= q < p && o[q] == resolve(ps, deps_of(ps[o[p]])[m])->0;
    lemma_pos(o, rb, q);
}

proof fn lemma_path_descends(ps: Seq<Project>, o: Seq<int>, c: Seq<Seq<char>>, k: int)
    requires
        1 <= k < c.len(),
        is_path(ps, c),
        o.no_duplicates(),
        deps_first(ps, o),
        forall|i: int| 0 <= i < ps.len() ==> o.contains(#[trigger] resolve(ps, ps[i].name@)->0),
    ensures
        pos(o, resolve(ps, c[k])->0) < pos(o, resolve(ps, c[0])->0),
    decreases k,
{
    assert(edge(ps, c[k - 1], c[k]));
    lemma_edge_descends(ps, o, c[k - 1], c[k]);
    if k > 1 {
        lemma_path_descends(ps, o, c, k - 1);
    }
}

/// Law: the topological order succeeds exactly when the dependency graph
/// has no cycle.
pub proof fn law_topological_order_total(ps: Seq<Project>)
    ensures
        topo_spec(ps) is Ok <==> !has_cycle(ps),
{
    law_topological_order(ps);
    law_topological_order_cycle(ps);
    match topo_spec(ps) {
        Ok(o) => {
            if has_cycle(ps) {
                let n = choose|n: Seq<char>| #[trigger] on_cycle(ps, n);
                let c = choose|c: Seq<Seq<char>>| c.len() >= 2 && c[0] == n && c.last() == n && #[trigger] is_path(ps, c);
                lemma_path_descends(ps, o, c, c.len() - 1);
                assert(c[c.len() - 1] == c[0]);
            }
        },
        Err(n) => {
            assert(on_cycle(ps, n));
        },
    }
}


// ---------------------------------------------------------------------------
// Execution levels
// ---------------------------------------------------------------------------

/// No project outside `w` is named `d`.
pub open spec fn unmet(ps: Seq<Project>, w: Seq<int>, d: Seq<char>) -> bool {
    forall|i: int| 0 <= i < ps.len() && !w.contains(i) ==> #[trigger] ps[i].name@ != d
}

/// Project `x` depends on a name that no project outside `w` carries.
pub open spec fn stuck(ps: Seq<Project>, w: Seq<int>, x: int) -> bool {
    exists|k: int| 0 <= k < deps_of(ps[x]).len() && #[trigger] unmet(ps, w, deps_of(ps[x])[k])
}

/// Every project of `w` is stuck.
pub open spec fn all_stuck(ps: Seq<Project>, w: Seq<int>) -> bool {
    forall|m: int| 0 <= m < w.len() ==> #[trigger] stuck(ps, w, w[m])
}

/// The levels one after the other.
pub open spec fn flat(ls: Seq<Seq<int>>) -> Seq<int>
    decreases ls.len(),
{
    if ls.len() == 0 {
        Seq::empty()
    } else {
        ls[0] + flat(ls.drop_first())
    }
}

proof fn lemma_names_at_add(ps: Seq<Project>, a: Seq<int>, b: Seq<int>)
    ensures
        names_at(ps, a + b) == names_at(ps, a) + names_at(ps, b),
{
    assert(names_at(ps, a + b) =~= names_at(ps, a) + names_at(ps, b));
}

proof fn lemma_contains_add<A>(a: Seq<A>, b: Seq<A>, x: A)
    ensures
        (a + b).contains(x) <==> a.contains(x) || b.contains(x),
{
    if (a + b).contains(x) {
        let t = choose|t: int| 0 <= t < (a + b).len() && (a + b)[t] == x;
        if t < a.len() {
            assert(a[t] == x);
        } else {
            assert(b[t - a.len()] == x);
        }
    }
    if a.contains(x) {
        let t = choose|t: int| 0 <= t < a.len() && a[t] == x;
        assert((a + b)[t] == x);
    }
    if b.contains(x) {
        let t = choose|t: int| 0 <= t < b.len() && b[t] == x;
        assert((a + b)[t + a.len()] == x);
    }
}

/// The ready part and the waiting part split `rem`.
proof fn lemma_parts(ps: Seq<Project>, done: Seq<Seq<char>>, rem: Seq<int>)
    ensures
        forall|x: int| rem.contains(x) <==> ready_part(ps, done, rem).contains(x) || waiting_part(ps, done, rem).contains(x),
        forall|x: int| ready_part(ps, done, rem).contains(x) ==> is_ready(ps, done, x),
        forall|x: int| waiting_part(ps, done, rem).contains(x) ==> !is_ready(ps, done, x),
        rem.no_duplicates() ==> ready_part(ps, done, rem).no_duplicates() && waiting_part(ps, done, rem).no_duplicates(),
    decreases rem.len(),
{
    if rem.len() > 0 {
        let r = rem.drop_last();
        let x0 = rem.last();
        lemma_parts(ps, done, r);
        let rp = ready_part(ps, done, r);
        let wp = waiting_part(ps, done, r);
        assert(rem =~= r.push(x0));
        assert forall|x: int| rem.contains(x) <==> r.contains(x) || x == x0 by {
            lemma_contains_add(r, seq![x0], x);
            assert(r.push(x0) =~= r + seq![x0]);
            assert(seq![x0].contains(x) <==> x == x0) by {
                if x == x0 { assert(seq![x0][0] == x); }
            }
        }
        assert forall|x: int| #[trigger] rp.push(x0).contains(x) <==> rp.contains(x) || x == x0 by {
            lemma_contains_add(rp, seq![x0], x);
            assert(rp.push(x0) =~= rp + seq![x0]);
            assert(seq![x0].contains(x) <==> x == x0) by {
                if x == x0 { assert(seq![x0][0] == x); }
            }
        }
        assert forall|x: int| #[trigger] wp.push(x0).contains(x) <==> wp.contains(x) || x == x0 by {
            lemma_contains_add(wp, seq![x0], x);
            assert(wp.push(x0) =~= wp + seq![x0]);
            assert(seq![x0].contains(x) <==> x == x0) by {
                if x == x0 { assert(seq![x0][0] == x); }
            }
        }
        if rem.no_duplicates() {
            assert(r.no_duplicates()) by {
                assert forall|a: int, b: int| 0 <= a < r.len() && 0 <= b < r.len() && a != b implies r[a] != r[b] by {
                    assert(r[a] == rem[a] && r[b] == rem[b]);
                }
            }
            assert(!r.contains(x0)) by {
                if r.contains(x0) {
                    let t = choose|t: int| 0 <= t < r.len() && r[t] == x0;
                    assert(rem[t] == rem[rem.len() - 1]);
                }
            }
            if is_ready(ps, done, x0) {
                let q = rp.push(x0);
                assert(q.no_duplicates()) by {
                    assert forall|a: int, b: int| 0 <= a < q.len() && 0 <= b < q.len() && a != b implies q[a] != q[b] by {
                        if a == rp.len() as int {
                            assert(rp.contains(q[b]) ==> r.contains(q[b]));
                            assert(q[b] == rp[b]);
                        } else if b == rp.len() as int {
                            assert(q[a] == rp[a]);
                        } else {
                            assert(q[a] == rp[a] && q[b] == rp[b]);
                        }
                    }
                }
            } else {
                let q = wp.push(x0);
                assert(q.no_duplicates()) by {
                    assert forall|a: int, b: int| 0 <= a < q.len() && 0 <= b < q.len() && a != b implies q[a] != q[b] by {
                        if a == wp.len() as int {
                            assert(q[b] == wp[b]);
                        } else if b == wp.len() as int {
                            assert(q[a] == wp[a]);
                        } else {
                            assert(q[a] == wp[a] && q[b] == wp[b]);
                        }
                    }
                }
            }
        }
    }
}

/// When nothing is ready, every project waits.
proof fn lemma_all_waiting(ps: Seq<Project>, done: Seq<Seq<char>>, rem: Seq<int>)
    requires
        ready_part(ps, done, rem).len() == 0,
    ensures
        waiting_part(ps, done, rem) == rem,
    decreases rem.len(),
{
    if rem.len() > 0 {
        let r = rem.drop_last();
        if is_ready(ps, done, rem.last()) {
            assert(ready_part(ps, done, rem).len() > 0);
        }
        lemma_all_waiting(ps, done, r);
        assert(rem =~= r.push(rem.last()));
    }
}

proof fn lemma_flat_cons(ready: Seq<int>, ls: Seq<Seq<int>>)
    ensures
        flat(seq![ready] + ls) == ready + flat(ls),
        forall|a: int| 1 <= a <= ls.len() + 1 ==> #[trigger] flat((seq![ready] + ls).take(a)) == ready + flat(ls.take(a - 1)),
{
    let all = seq![ready] + ls;
    assert(all.drop_first() =~= ls);
    assert forall|a: int| 1 <= a <= ls.len() + 1 implies #[trigger] flat(all.take(a)) == ready + flat(ls.take(a - 1)) by {
        assert(all.take(a)[0] == ready);
        assert(all.take(a).drop_first() =~= ls.take(a - 1));
    }
}

/// The heart of the levels laws, over the levels formed from `rem`.
proof fn lemma_levels_from(ps: Seq<Project>, rem: Seq<int>, done: Seq<Seq<char>>)
    requires
        rem.no_duplicates(),
        forall|m: int| 0 <= m < rem.len() ==> 0 <= #[trigger] rem[m] < ps.len(),
        forall|i: int| 0 <= i < ps.len() && !rem.contains(i) ==> done.contains(#[trigger] ps[i].name@),
    ensures
        levels_from(ps, rem, done) matches Ok(ls) ==> {
            &&& flat(ls).no_duplicates()
            &&& forall|x: int| #[trigger] flat(ls).contains(x) <==> rem.contains(x)
            &&& forall|a: int| 0 <= a < ls.len() ==> #[trigger] ls[a].len() > 0
            &&& forall|a: int, b: int, k: int|
                #![trigger deps_of(ps[ls[a][b]])[k]]
                0 <= a < ls.len() && 0 <= b < ls[a].len() && 0 <= k < deps_of(ps[ls[a][b]]).len()
                    ==> (done + names_at(ps, flat(ls.take(a)))).contains(deps_of(ps[ls[a][b]])[k])
        },
        levels_from(ps, rem, done) matches Err(w) ==> w.len() > 0,
        levels_from(ps, rem, done) matches Err(w) ==> w.no_duplicates(),
        levels_from(ps, rem, done) matches Err(w) ==> forall|x: int| w.contains(x) ==> rem.contains(x),
        levels_from(ps, rem, done) is Err ==> all_stuck(ps, levels_from(ps, rem, done)->Err_0),
    decreases rem.len(),
{
    if rem.len() == 0 {
        assert(flat(Seq::<Seq<int>>::empty()) =~= Seq::<int>::empty());
        return;
    }
    let ready = ready_part(ps, done, rem);
    let waiting = waiting_part(ps, done, rem);
    lemma_parts(ps, done, rem);
    lemma_parts_len(ps, done, rem);
    if ready.len() == 0 {
        lemma_all_waiting(ps, done, rem);
        assert forall|m: int| #![trigger waiting[m]] 0 <= m < waiting.len() implies exists|k: int| 0 <= k < deps_of(ps[waiting[m]]).len() && #[trigger] unmet(ps, waiting, deps_of(ps[waiting[m]])[k]) by {
            let x = waiting[m];
            assert(waiting.contains(x));
            assert(!is_ready(ps, done, x));
            let k = choose|k: int| 0 <= k < deps_of(ps[x]).len() && !done.contains(#[trigger] deps_of(ps[x])[k]);
            assert forall|i: int| 0 <= i < ps.len() && !waiting.contains(i) implies #[trigger] ps[i].name@ != deps_of(ps[x])[k] by {
                assert(done.contains(ps[i].name@));
            }
            assert(unmet(ps, waiting, deps_of(ps[x])[k]));
        }
        assert(waiting.len() > 0);
        assert(waiting.no_duplicates());
        assert forall|x: int| waiting.contains(x) implies rem.contains(x) by {}
        let w = levels_from(ps, rem, done)->Err_0;
        assert(w == waiting);
        assert forall|m: int| 0 <= m < w.len() implies #[trigger] stuck(ps, w, w[m]) by {
            assert(w[m] == waiting[m]);
            assert(exists|k: int| 0 <= k < deps_of(ps[waiting[m]]).len() && #[trigger] unmet(ps, waiting, deps_of(ps[waiting[m]])[k]));
            let k = choose|k: int| 0 <= k < deps_of(ps[waiting[m]]).len() && #[trigger] unmet(ps, waiting, deps_of(ps[waiting[m]])[k]);
            assert(unmet(ps, w, deps_of(ps[w[m]])[k]));
        }
        assert(all_stuck(ps, w));
        return;
    }
    let done2 = done + names_at(ps, ready);
    assert forall|m: int| 0 <= m < waiting.len() implies 0 <= #[trigger] waiting[m] < ps.len() by {
        assert(waiting.contains(waiting[m]));
        assert(rem.contains(waiting[m]));
    }
    assert forall|i: int| 0 <= i < ps.len() && !waiting.contains(i) implies done2.contains(#[trigger] ps[i].name@) by {
        lemma_contains_add(done, names_at(ps, ready), ps[i].name@);
        if rem.contains(i) {
            assert(ready.contains(i));
            let t = choose|t: int| 0 <= t < ready.len() && ready[t] == i;
            assert(names_at(ps, ready)[t] == ps[i].name@);
        }
    }
    lemma_levels_from(ps, waiting, done2);
    match levels_from(ps, waiting, done2) {
        Ok(ls2) => {
            let ls = seq![ready] + ls2;
            lemma_flat_cons(ready, ls2);
            assert(flat(ls).no_duplicates()) by {
                let f = flat(ls);
                let f2 = flat(ls2);
                assert forall|a: int, b: int| 0 <= a < f.len() && 0 <= b < f.len() && a != b implies f[a] != f[b] by {
                    if a < ready.len() && b < ready.len() {
                        assert(f[a] == ready[a] && f[b] == ready[b]);
                    } else if a >= ready.len() && b >= ready.len() {
                        assert(f[a] == f2[a - ready.len()] && f[b] == f2[b - ready.len()]);
                    } else if a < ready.len() {
                        assert(f[a] == ready[a]);
                        assert(f[b] == f2[b - ready.len()]);
                        assert(f2.contains(f[b]));
                        assert(waiting.contains(f[b]));
                        assert(ready.contains(f[a]));
                        assert(is_ready(ps, done, f[a]));
                        assert(!is_ready(ps, done, f[b]));
                    } else {
                        assert(f[b] == ready[b]);
                        assert(f[a] == f2[a - ready.len()]);
                        assert(f2.contains(f[a]));
                        assert(waiting.contains(f[a]));
                        assert(ready.contains(f[b]));
                        assert(is_ready(ps, done, f[b]));
                        assert(!is_ready(ps, done, f[a]));
                    }
                }
            }
            assert forall|x: int| #[trigger] flat(ls).contains(x) <==> rem.contains(x) by {
                lemma_contains_add(ready, flat(ls2), x);
            }
            assert forall|a: int| 0 <= a < ls.len() implies #[trigger] ls[a].len() > 0 by {
                if a > 0 {
                    assert(ls[a] == ls2[a - 1]);
                }
            }
            assert forall|a: int, b: int, k: int|
                0 <= a < ls.len() && 0 <= b < ls[a].len() && 0 <= k < deps_of(ps[ls[a][b]]).len()
                implies (done + names_at(ps, flat(ls.take(a)))).contains(#[trigger] deps_of(ps[ls[a][b]])[k]) by {
                let d = deps_of(ps[ls[a][b]])[k];
                if a == 0 {
                    assert(ls[0] == ready);
                    assert(ready.contains(ready[b]));
                    assert(is_ready(ps, done, ready[b]));
                    assert(done.contains(d));
                    assert(flat(ls.take(0)) =~= Seq::<int>::empty());
                    lemma_contains_add(done, names_at(ps, flat(ls.take(0))), d);
                } else {
                    assert(ls[a] == ls2[a - 1]);
                    assert((done2 + names_at(ps, flat(ls2.take(a - 1)))).contains(d));
                    lemma_names_at_add(ps, ready, flat(ls2.take(a - 1)));
                    assert(done + names_at(ps, flat(ls.take(a))) =~= done2 + names_at(ps, flat(ls2.take(a - 1))));
                }
            }
        },
        Err(w) => {
            assert forall|x: int| w.contains(x) implies rem.contains(x) by {
                assert(waiting.contains(x));
            }
        },
    }
}

/// Law: the execution levels place every project exactly once, no level is
/// empty, and every dependency of a project names a project of an earlier
/// level.
pub proof fn law_execution_levels(ps: Seq<Project>)
    ensures
        levels_spec(ps) matches Ok(ls) ==> {
            &&& flat(ls).no_duplicates()
            &&& forall|x: int| #[trigger] flat(ls).contains(x) <==> 0 <= x < ps.len()
            &&& forall|a: int| 0 <= a < ls.len() ==> #[trigger] ls[a].len() > 0
            &&& forall|a: int, b: int, k: int|
                #![trigger deps_of(ps[ls[a][b]])[k]]
                0 <= a < ls.len() && 0 <= b < ls[a].len() && 0 <= k < deps_of(ps[ls[a][b]]).len()
                    ==> names_at(ps, flat(ls.take(a))).contains(deps_of(ps[ls[a][b]])[k])
        },
{
    let rem = all_indices(ps.len());
    let e = Seq::<Seq<char>>::empty();
    assert(rem.no_duplicates());
    assert forall|i: int| 0 <= i < ps.len() implies rem.contains(i) by {
        assert(rem[i] == i);
    }
    lemma_levels_from(ps, rem, e);
    match levels_spec(ps) {
        Ok(ls) => {
            assert forall|x: int| #[trigger] flat(ls).contains(x) <==> 0 <= x < ps.len() by {
                if rem.contains(x) {
                    let t = choose|t: int| 0 <= t < rem.len() && rem[t] == x;
                }
            }
            assert forall|a: int, b: int, k: int|
                0 <= a < ls.len() && 0 <= b < ls[a].len() && 0 <= k < deps_of(ps[ls[a][b]]).len()
                implies names_at(ps, flat(ls.take(a))).contains(#[trigger] deps_of(ps[ls[a][b]])[k]) by {
                assert(e + names_at(ps, flat(ls.take(a))) =~= names_at(ps, flat(ls.take(a))));
            }
        },
        Err(_) => {},
    }
}

/// Law: the execution levels fail only when some projects are left, each of
/// which depends on a name that no placed project carries.
pub proof fn law_execution_levels_error(ps: Seq<Project>)
    ensures
        levels_spec(ps) matches Err(w) ==> {
            &&& w.len() > 0
            &&& w.no_duplicates()
            &&& forall|m: int| 0 <= m < w.len() ==> 0 <= #[trigger] w[m] < ps.len()
            &&& all_stuck(ps, w)
        },
{
    let rem = all_indices(ps.len());
    let e = Seq::<Seq<char>>::empty();
    assert(rem.no_duplicates());
    assert forall|i: int| 0 <= i < ps.len() implies rem.contains(i) by {
        assert(rem[i] == i);
    }
    lemma_levels_from(ps, rem, e);
    match levels_spec(ps) {
        Ok(_) => {},
        Err(w) => {
            assert forall|m: int| 0 <= m < w.len() implies 0 <= #[trigger] w[m] < ps.len() by {
                assert(w.contains(w[m]));
                assert(rem.contains(w[m]));
                let t = choose|t: int| 0 <= t < rem.len() && rem[t] == w[m];
                assert(rem[t] == t);
            }
        },
    }
}



// ---------------------------------------------------------------------------
// Appending a project
// ---------------------------------------------------------------------------

/// An index lies in the levels exactly when some level holds it.
proof fn lemma_flat_elem(ls: Seq<Seq<int>>, x: int)
    ensures
        flat(ls).contains(x) <==> exists|a: int, b: int|
            0 <= a < ls.len() && 0 <= b < ls[a].len() && #[trigger] ls[a][b] == x,
    decreases ls.len(),
{
    if ls.len() == 0 {
        assert(!flat(ls).contains(x));
    } else {
        let rest = ls.drop_first();
        lemma_flat_elem(rest, x);
        lemma_contains_add(ls[0], flat(rest), x);
        if flat(ls).contains(x) {
            if ls[0].contains(x) {
                let b = choose|b: int| 0 <= b < ls[0].len() && ls[0][b] == x;
                assert(ls[0][b] == x);
            } else {
                let (a, b) = choose|a: int, b: int|
                    0 <= a < rest.len() && 0 <= b < rest[a].len() && #[trigger] rest[a][b] == x;
                assert(ls[a + 1][b] == x);
            }
        }
        if exists|a: int, b: int| 0 <= a < ls.len() && 0 <= b < ls[a].len() && #[trigger] ls[a][b] == x {
            let (a, b) = choose|a: int, b: int|
                0 <= a < ls.len() && 0 <= b < ls[a].len() && #[trigger] ls[a][b] == x;
            if a == 0 {
                assert(ls[0][b] == x);
                assert(ls[0].contains(x));
            } else {
                assert(rest[a - 1][b] == x);
            }
        }
    }
}

/// A name in the levels before level `a` is carried by a project of an
/// earlier level.
proof fn lemma_earlier_name(ps: Seq<Project>, ls: Seq<Seq<int>>, a: int, d: Seq<char>) -> (j: int)
    requires
        levels_spec(ps) == Ok::<Seq<Seq<int>>, Seq<int>>(ls),
        0 <= a <= ls.len(),
        names_at(ps, flat(ls.take(a))).contains(d),
    ensures
        0 <= j < ps.len(),
        ps[j].name@ == d,
        exists|a2: int, b2: int| 0 <= a2 < a && 0 <= b2 < ls[a2].len() && #[trigger] ls[a2][b2] == j,
{
    law_execution_levels(ps);
    let f = flat(ls.take(a));
    let t = choose|t: int| 0 <= t < names_at(ps, f).len() && names_at(ps, f)[t] == d;
    let j = f[t];
    assert(f.contains(j));
    lemma_flat_elem(ls.take(a), j);
    let (a2, b2) = choose|a2: int, b2: int|
        0 <= a2 < ls.take(a).len() && 0 <= b2 < ls.take(a)[a2].len() && #[trigger] ls.take(a)[a2][b2] == j;
    assert(ls[a2][b2] == j);
    lemma_flat_elem(ls, j);
    assert(flat(ls).contains(j));
    j
}

/// When the levels succeed, every dependency names a project.
proof fn lemma_levels_deps_named(ps: Seq<Project>)
    requires
        levels_spec(ps) is Ok,
    ensures
        forall|i: int, k: int|
            0 <= i < ps.len() && 0 <= k < deps_of(ps[i]).len() ==> has_name(ps, #[trigger] deps_of(ps[i])[k]),
{
    let ls = levels_spec(ps)->Ok_0;
    law_execution_levels(ps);
    assert forall|i: int, k: int| 0 <= i < ps.len() && 0 <= k < deps_of(ps[i]).len() implies has_name(
        ps,
        #[trigger] deps_of(ps[i])[k],
    ) by {
        lemma_flat_elem(ls, i);
        assert(flat(ls).contains(i));
        let (a, b) = choose|a: int, b: int| 0 <= a < ls.len() && 0 <= b < ls[a].len() && #[trigger] ls[a][b] == i;
        let d = deps_of(ps[ls[a][b]])[k];
        assert(names_at(ps, flat(ls.take(a))).contains(d));
        let j = lemma_earlier_name(ps, ls, a, d);
    }
}

/// No project of the levels up to `a` is among the stuck projects `w` of
/// the workspace `ps2`, which extends `ps` by one project.
proof fn lemma_levels_free(ps: Seq<Project>, ps2: Seq<Project>, ls: Seq<Seq<int>>, w: Seq<int>, a: int)
    requires
        ps2.len() == ps.len() + 1,
        ps2.take(ps.len() as int) == ps,
        levels_spec(ps) == Ok::<Seq<Seq<int>>, Seq<int>>(ls),
        all_stuck(ps2, w),
        0 <= a < ls.len(),
    ensures
        forall|a2: int, b: int| 0 <= a2 <= a && 0 <= b < ls[a2].len() ==> !w.contains(#[trigger] ls[a2][b]),
    decreases a,
{
    law_execution_levels(ps);
    if a > 0 {
        lemma_levels_free(ps, ps2, ls, w, a - 1);
    }
    assert forall|b: int| 0 <= b < ls[a].len() implies !w.contains(#[trigger] ls[a][b]) by {
        let x = ls[a][b];
        if w.contains(x) {
            lemma_flat_elem(ls, x);
            assert(0 <= x < ps.len());
            let m = choose|m: int| 0 <= m < w.len() && w[m] == x;
            assert(stuck(ps2, w, w[m]));
            assert(ps2[x] == ps[x]);
            let k = choose|k: int| 0 <= k < deps_of(ps2[x]).len() && #[trigger] unmet(ps2, w, deps_of(ps2[x])[k]);
            let d = deps_of(ps[ls[a][b]])[k];
            assert(names_at(ps, flat(ls.take(a))).contains(d));
            let j = lemma_earlier_name(ps, ls, a, d);
            let (a2, b2) = choose|a2: int, b2: int| 0 <= a2 < a && 0 <= b2 < ls[a2].len() && #[trigger] ls[a2][b2] == j;
            assert(!w.contains(ls[a2][b2]));
            assert(ps2[j] == ps[j]);
            assert(ps2[j].name@ != d);
        }
    }
}

/// Outside the appended name, the edges of the longer workspace are those
/// of the shorter one.
proof fn lemma_edge_kept(ps: Seq<Project>, ps2: Seq<Project>, a: Seq<char>, b: Seq<char>)
    requires
        ps2.len() == ps.len() + 1,
        ps2.take(ps.len() as int) == ps,
        a != ps2.last().name@,
        b != ps2.last().name@,
        edge(ps2, a, b),
    ensures
        edge(ps, a, b),
{
    let n = ps.len() as int;
    lemma_resolve_has_name(ps2, a);
    lemma_resolve_has_name(ps2, b);
    let ra = resolve(ps2, a)->0;
    let rb = resolve(ps2, b)->0;
    assert(ra != n);
    assert(rb != n);
    assert(ps2[ra] == ps[ra]);
    assert(ps2[rb] == ps[rb]);
    assert forall|j: int| 0 <= j < ra implies ps[j].name@ != a by {
        assert(ps2[j] == ps[j]);
    }
    assert forall|j: int| 0 <= j < rb implies ps[j].name@ != b by {
        assert(ps2[j] == ps[j]);
    }
    lemma_resolve_first(ps, a, ra);
    lemma_resolve_first(ps, b, rb);
}

/// Law: appending a project whose name is new and whose dependencies all
/// name existing projects (none of them itself) keeps the workspace
/// schedulable: the execution levels still succeed, and so does the
/// topological order where it succeeded before.
pub proof fn law_append_keeps_sound(ps: Seq<Project>, p: Project)
    requires
        levels_spec(ps) is Ok,
        !has_name(ps, p.name@),
        forall|k: int| 0 <= k < deps_of(p).len() ==> has_name(ps, #[trigger] deps_of(p)[k]) && deps_of(p)[k] != p.name@,
    ensures
        levels_spec(ps.push(p)) is Ok,
        topo_spec(ps) is Ok ==> topo_spec(ps.push(p)) is Ok,
{
    let ps2 = ps.push(p);
    let n = ps.len() as int;
    assert(ps2.take(n) =~= ps);
    assert(ps2[n] == p);
    let ls = levels_spec(ps)->Ok_0;
    law_execution_levels(ps);
    law_execution_levels_error(ps2);
    if levels_spec(ps2) is Err {
        let w = levels_spec(ps2)->Err_0;
        if ls.len() > 0 {
            lemma_levels_free(ps, ps2, ls, w, ls.len() - 1);
        }
        assert forall|m: int| 0 <= m < w.len() implies #[trigger] w[m] == n by {
            let x = w[m];
            if x < n {
                lemma_flat_elem(ls, x);
                let (a, b) = choose|a: int, b: int| 0 <= a < ls.len() && 0 <= b < ls[a].len() && #[trigger] ls[a][b] == x;
                assert(w.contains(x));
                assert(!w.contains(ls[a][b]));
            }
        }
        assert(stuck(ps2, w, w[0]));
        let k = choose|k: int| 0 <= k < deps_of(ps2[w[0]]).len() && #[trigger] unmet(ps2, w, deps_of(ps2[w[0]])[k]);
        let d = deps_of(p)[k];
        assert(has_name(ps, d));
        let j = choose|j: int| 0 <= j < ps.len() && ps[j].name@ == d;
        assert(ps2[j] == ps[j]);
        assert(!w.contains(j)) by {
            if w.contains(j) {
                let m = choose|m: int| 0 <= m < w.len() && w[m] == j;
                assert(w[m] == n);
            }
        }
        assert(ps2[j].name@ != d);
    }
    law_topological_order_total(ps);
    law_topological_order_total(ps2);
    if topo_spec(ps) is Ok && has_cycle(ps2) {
        lemma_levels_deps_named(ps);
        let pn = p.name@;
        let n0 = choose|n0: Seq<char>| #[trigger] on_cycle(ps2, n0);
        let c = choose|c: Seq<Seq<char>>| c.len() >= 2 && c[0] == n0 && c.last() == n0 && #[trigger] is_path(ps2, c);
        assert forall|k: int| 0 <= k < c.len() - 1 implies #[trigger] c[k + 1] != pn by {
            assert(edge(ps2, c[k], c[k + 1]));
            if c[k + 1] == pn {
                lemma_resolve_has_name(ps2, c[k]);
                let r = resolve(ps2, c[k])->0;
                let ds = deps_of(ps2[r]);
                let t = choose|t: int| 0 <= t < ds.len() && ds[t] == pn;
                if r < n {
                    assert(ps2[r] == ps[r]);
                    assert(has_name(ps, deps_of(ps[r])[t]));
                } else {
                    assert(deps_of(p)[t] != pn);
                }
            }
        }
        assert(c[0] != pn) by {
            assert(c[(c.len() - 2) + 1] != pn);
        }
        assert forall|k: int| 0 <= k < c.len() - 1 implies edge(ps, #[trigger] c[k], c[k + 1]) by {
            assert(edge(ps2, c[k], c[k + 1]));
            if k > 0 {
                assert(c[(k - 1) + 1] != pn);
            }
            assert(c[k + 1] != pn);
            lemma_edge_kept(ps, ps2, c[k], c[k + 1]);
        }
        assert(is_path(ps, c));
        assert(on_cycle(ps, n0));
    }
}

} // verus!
