//! Snapshots: the commit each repository is at, saved so the workspace can
//! be reset to it later.
use vstd::prelude::*;

use crate::clock::{is_compact_stamp, is_utc_rfc3339, utc_now_rfc3339, utc_time_text};
use crate::config::{local_dir_of, resolve, Project, WorkspaceConfig};
use crate::report::{add_report, reports, Level, Report};
use crate::text::{cat, cat3, cat4, decimal, str_eq, trim, trim_str, u64_to_decimal};

verus! {

/// A saved state of the workspace: when, which workspace, and the
/// abbreviated commit of each project, by name (each name once).
#[derive(Debug, Clone)]
pub struct Snapshot {
    pub created_at: String,
    pub workspace: String,
    pub commits: Vec<(String, String)>,
}

/// The models of name and commit pairs.
pub open spec fn pairs(v: Seq<(String, String)>) -> Seq<(Seq<char>, Seq<char>)> {
    v.map_values(|e: (String, String)| (e.0@, e.1@))
}

/// Each name occurs once.
pub open spec fn distinct_names(m: Seq<(Seq<char>, Seq<char>)>) -> bool {
    forall|a: int, b: int| 0 <= a < b < m.len() ==> m[a].0 != m[b].0
}

/// The position of the first entry for `k`, or the length when there is none.
pub open spec fn key_pos(m: Seq<(Seq<char>, Seq<char>)>, k: Seq<char>) -> int
    decreases m.len(),
{
    if m.len() == 0 {
        0
    } else if m[0].0 == k {
        0
    } else {
        1 + key_pos(m.drop_first(), k)
    }
}

proof fn lemma_key_pos(m: Seq<(Seq<char>, Seq<char>)>, k: Seq<char>, a: int)
    requires
        0 <= a <= m.len(),
        forall|b: int| 0 <= b < a ==> #[trigger] m[b].0 != k,
        a == m.len() || m[a].0 == k,
    ensures
        key_pos(m, k) == a,
    decreases a,
{
    if a > 0 {
        let t = m.drop_first();
        assert forall|b: int| 0 <= b < a - 1 implies #[trigger] t[b].0 != k by {
            assert(t[b] == m[b + 1]);
        }
        assert(m[0].0 != k);
        if a < m.len() {
            assert(t[a - 1] == m[a]);
        }
        lemma_key_pos(t, k, a - 1);
    }
}

/// Records `v` for `k`, as a map's insert does: replaces the value of the
/// entry for `k` where there is one, else appends an entry.
pub open spec fn insert_pair(m: Seq<(Seq<char>, Seq<char>)>, k: Seq<char>, v: Seq<char>) -> Seq<(Seq<char>, Seq<char>)> {
    let a = key_pos(m, k);
    if a < m.len() {
        m.update(a, (k, v))
    } else {
        m.push((k, v))
    }
}

/// What looking up a project's commit gave.
#[derive(Debug, Clone)]
pub enum CommitLookup {
    /// The project's directory is missing.
    Missing,
    /// The abbreviated commit of its HEAD.
    Found(String),
    /// The commit could not be read, with the reason.
    Failed(String),
}

/// The commits recorded for the projects `order[..i]`, from their lookups.
pub open spec fn commits_after(order: Seq<Project>, found: Seq<CommitLookup>, i: int) -> Seq<(Seq<char>, Seq<char>)>
    decreases i,
{
    if i <= 0 {
        Seq::empty()
    } else {
        let m = commits_after(order, found, i - 1);
        match found[i - 1] {
            CommitLookup::Found(h) => insert_pair(m, order[i - 1].name@, h@),
            _ => m,
        }
    }
}

/// The warnings for the projects `order[..i]` whose commit was not taken.
pub open spec fn warnings_after(order: Seq<Project>, found: Seq<CommitLookup>, i: int) -> Seq<(Level, Seq<char>)>
    decreases i,
{
    if i <= 0 {
        Seq::empty()
    } else {
        let w = warnings_after(order, found, i - 1);
        let n = order[i - 1].name@;
        match found[i - 1] {
            CommitLookup::Missing => w.push((Level::Warn, "'"@ + n + "' not found, skipping"@)),
            CommitLookup::Failed(e) => w.push((Level::Warn, "Could not snapshot '"@ + n + "': "@ + e@)),
            CommitLookup::Found(_) => w,
        }
    }
}

/// Records commit `v` for project `k`: replaces the commit of an entry of
/// that name, else appends one.
pub fn insert_commit(m: &mut Vec<(String, String)>, k: String, v: String)
    ensures
        pairs(final(m)@) == insert_pair(pairs(old(m)@), k@, v@),
{
    let ghost before = pairs(m@);
    let mut a: usize = 0;
    while a < m.len()
        invariant
            a <= m.len(),
            before == pairs(m@),
            before == pairs(old(m)@),
            forall|b: int| 0 <= b < a ==> #[trigger] before[b].0 != k@,
        decreases m.len() - a,
    {
        assert(before[a as int] == (m@[a as int].0@, m@[a as int].1@));
        if str_eq(m[a].0.as_str(), k.as_str()) {
            proof {
                lemma_key_pos(before, k@, a as int);
            }
            m.set(a, (k, v));
            assert(pairs(m@) =~= before.update(a as int, (k@, v@)));
            return;
        }
        a += 1;
    }
    proof {
        lemma_key_pos(before, k@, before.len() as int);
    }
    m.push((k, v));
    assert(pairs(m@) =~= before.push((k@, v@)));
}

/// Inserting keeps the names of an association list distinct.
pub proof fn law_insert_keeps_names_distinct(m: Seq<(Seq<char>, Seq<char>)>, k: Seq<char>, v: Seq<char>)
    requires
        distinct_names(m),
    ensures
        distinct_names(insert_pair(m, k, v)),
        exists|a: int| 0 <= a < insert_pair(m, k, v).len() && #[trigger] insert_pair(m, k, v)[a] == (k, v),
{
    lemma_key_pos_range(m, k);
    let a = key_pos(m, k);
    let r = insert_pair(m, k, v);
    if a < m.len() {
        assert(r[a] == (k, v));
    } else {
        assert(r[m.len() as int] == (k, v));
        assert forall|x: int, y: int| 0 <= x < y < r.len() implies r[x].0 != r[y].0 by {
            if y == m.len() {
                assert(r[x] == m[x]);
            }
        }
    }
}

proof fn lemma_key_pos_range(m: Seq<(Seq<char>, Seq<char>)>, k: Seq<char>)
    ensures
        0 <= key_pos(m, k) <= m.len(),
        key_pos(m, k) < m.len() ==> m[key_pos(m, k)].0 == k,
        forall|b: int| 0 <= b < key_pos(m, k) ==> #[trigger] m[b].0 != k,
    decreases m.len(),
{
    if m.len() > 0 && m[0].0 != k {
        let t = m.drop_first();
        lemma_key_pos_range(t, k);
        assert forall|b: int| 0 <= b < key_pos(m, k) implies #[trigger] m[b].0 != k by {
            if b > 0 {
                assert(m[b] == t[b - 1]);
            }
        }
        if key_pos(m, k) < m.len() {
            assert(m[key_pos(m, k)] == t[key_pos(t, k)]);
        }
    }
}

/// The projects of a dependency order, as values.
pub open spec fn deref_all(order: Seq<&Project>) -> Seq<Project> {
    order.map_values(|p: &Project| *p)
}

/// The commits and warnings of a snapshot taken over `order` (projects in
/// dependency order), where `found[i]` is what looking up the commit of
/// `order[i]` gave.
pub fn snapshot_from(
    workspace: &str,
    created_at: String,
    order: &Vec<&Project>,
    found: &Vec<CommitLookup>,
) -> (r: (Snapshot, Vec<Report>))
    requires
        found@.len() == order@.len(),
    ensures
        r.0.created_at == created_at,
        r.0.workspace@ == workspace@,
        pairs(r.0.commits@) == commits_after(deref_all(order@), found@, order@.len() as int),
        reports(r.1@) == warnings_after(deref_all(order@), found@, order@.len() as int),
{
    let ghost ps = deref_all(order@);
    let mut commits: Vec<(String, String)> = Vec::new();
    let mut warnings: Vec<Report> = Vec::new();
    let mut i: usize = 0;
    assert(pairs(commits@) =~= Seq::<(Seq<char>, Seq<char>)>::empty());
    assert(reports(warnings@) =~= Seq::<(Level, Seq<char>)>::empty());
    while i < order.len()
        invariant
            i <= order@.len(),
            found@.len() == order@.len(),
            ps == deref_all(order@),
            pairs(commits@) == commits_after(ps, found@, i as int),
            reports(warnings@) == warnings_after(ps, found@, i as int),
        decreases order@.len() - i,
    {
        let p = order[i];
        assert(ps[i as int] == *p);
        match &found[i] {
            CommitLookup::Missing => {
                add_report(&mut warnings, Level::Warn, cat3("'", p.name.as_str(), "' not found, skipping"));
            },
            CommitLookup::Failed(e) => {
                add_report(&mut warnings, Level::Warn, cat4("Could not snapshot '", p.name.as_str(), "': ", e.as_str()));
            },
            CommitLookup::Found(h) => {
                insert_commit(&mut commits, p.name.clone(), h.clone());
            },
        }
        i += 1;
    }
    (Snapshot { created_at, workspace: String::from_str(workspace), commits }, warnings)
}

/// A snapshot of the workspace taken now (the time read from the clock):
/// see [`snapshot_from`].
pub fn new_snapshot(cfg: &WorkspaceConfig, order: &Vec<&Project>, found: &Vec<CommitLookup>) -> (r: (Snapshot, Vec<Report>))
    requires
        found@.len() == order@.len(),
    ensures
        is_utc_rfc3339(r.0.created_at@),
        r.0.workspace@ == cfg.name@,
        pairs(r.0.commits@) == commits_after(deref_all(order@), found@, order@.len() as int),
        reports(r.1@) == warnings_after(deref_all(order@), found@, order@.len() as int),
{
    let now = utc_now_rfc3339();
    snapshot_from(cfg.name.as_str(), now, order, found)
}

/// The file a snapshot taken at the time stamp `ts` is saved to.
pub open spec fn snapshot_path_spec(ts: Seq<char>) -> Seq<char> {
    ".polyws/snapshots/"@ + ts + ".json"@
}

/// The directory snapshots are saved in.
pub fn snapshots_dir() -> (r: &'static str)
    ensures
        r@ == ".polyws/snapshots"@,
{
    ".polyws/snapshots"
}

/// The file a snapshot taken at the time stamp `ts` is saved to.
pub fn snapshot_path(ts: &str) -> (r: String)
    ensures
        r@ == snapshot_path_spec(ts@),
{
    cat3(".polyws/snapshots/", ts, ".json")
}

/// The file for a snapshot taken now: named by the UTC time as
/// `YYYYmmdd_HHMMSS`.
pub fn new_snapshot_path() -> (r: String)
    ensures
        exists|ts: Seq<char>| is_compact_stamp(ts) && r@ == snapshot_path_spec(ts),
{
    let ts = utc_time_text("%Y%m%d_%H%M%S");
    snapshot_path(ts.as_str())
}

/// What is shown once a snapshot is saved: the file, then each project
/// and its commit.
pub fn saved_lines(file: &str, snap: &Snapshot) -> (r: (Report, Vec<String>))
    ensures
        r.0@ == (Level::Pass, "Snapshot saved \u{2192} "@ + file@),
        r.1@.len() == snap.commits@.len(),
        forall|i: int| 0 <= i < r.1@.len() ==> #[trigger] r.1@[i]@ == "    "@ + snap.commits@[i].0@ + " @ "@
            + snap.commits@[i].1@,
{
    let head = Report { level: Level::Pass, text: cat("Snapshot saved \u{2192} ", file) };
    let mut lines: Vec<String> = Vec::new();
    let mut i: usize = 0;
    while i < snap.commits.len()
        invariant
            i <= snap.commits@.len(),
            lines@.len() == i,
            forall|j: int| 0 <= j < i ==> #[trigger] lines@[j]@ == "    "@ + snap.commits@[j].0@ + " @ "@
                + snap.commits@[j].1@,
        decreases snap.commits@.len() - i,
    {
        lines.push(cat4("    ", snap.commits[i].0.as_str(), " @ ", snap.commits[i].1.as_str()));
        i += 1;
    }
    (head, lines)
}

// ---------------------------------------------------------------------------
// restore
// ---------------------------------------------------------------------------

/// Restoring asks the user to type `restore`; surrounding white space is
/// ignored.
pub fn restore_confirmed(input: &str) -> (r: bool)
    ensures
        r == (trim(input@) == "restore"@),
{
    let t = trim_str(input);
    str_eq(t.as_str(), "restore")
}

/// The directory of the project named in a snapshot: the configured
/// project's directory, else the name itself.
pub open spec fn restore_dir_spec(cfg: Option<WorkspaceConfig>, name: Seq<char>) -> Seq<char> {
    match cfg {
        Some(c) => match resolve(c.projects@, name) {
            Some(i) => local_dir_of(c.projects@[i]),
            None => name,
        },
        None => name,
    }
}

/// The directory of the project named in a snapshot.
pub fn restore_dir(cfg: Option<&WorkspaceConfig>, name: &str) -> (r: String)
    ensures
        r@ == restore_dir_spec(match cfg {
            Some(c) => Some(*c),
            None => None,
        }, name@),
{
    match cfg {
        Some(c) => match c.find_project(name) {
            Some(p) => String::from_str(p.local_dir()),
            None => String::from_str(name),
        },
        None => String::from_str(name),
    }
}

/// What restoring does for one project: skip a missing directory, only
/// tell in a dry run, else reset the repository to the commit.
#[derive(Debug, Clone, Copy, PartialEq, Eq, Structural)]
pub enum RestoreStep {
    Skip,
    DryRun,
    Reset,
}

/// Decides how one project is restored.
pub fn restore_step(exists: bool, dry_run: bool) -> (r: RestoreStep)
    ensures
        r == (if !exists {
            RestoreStep::Skip
        } else if dry_run {
            RestoreStep::DryRun
        } else {
            RestoreStep::Reset
        }),
{
    if !exists {
        RestoreStep::Skip
    } else if dry_run {
        RestoreStep::DryRun
    } else {
        RestoreStep::Reset
    }
}

/// The report of one project's restore: `result` is the reset's outcome
/// (ignored unless the step resets).
pub open spec fn restore_report_spec(
    name: Seq<char>,
    dir: Seq<char>,
    hash: Seq<char>,
    step: RestoreStep,
    result: Result<(), Seq<char>>,
) -> (Level, Seq<char>) {
    match step {
        RestoreStep::Skip => (Level::Warn, "'"@ + name + "' ("@ + dir + ") not found, skipping"@),
        RestoreStep::DryRun => (Level::Info, "would restore "@ + name + " \u{2192} "@ + hash),
        RestoreStep::Reset => match result {
            Ok(()) => (Level::Pass, name + " \u{2192} "@ + hash),
            Err(e) => (Level::Fail, "Failed to restore "@ + name + ": "@ + e),
        },
    }
}

/// The report of one project's restore.
pub fn restore_report(name: &str, dir: &str, hash: &str, step: RestoreStep, result: &Result<(), String>) -> (r: Report)
    ensures
        r@ == restore_report_spec(name@, dir@, hash@, step, match result {
            Ok(()) => Ok(()),
            Err(e) => Err(e@),
        }),
{
    match step {
        RestoreStep::Skip => {
            let mut t = cat4("'", name, "' (", dir);
            t.append(") not found, skipping");
            Report { level: Level::Warn, text: t }
        },
        RestoreStep::DryRun => Report { level: Level::Info, text: cat4("would restore ", name, " \u{2192} ", hash) },
        RestoreStep::Reset => match result {
            Ok(()) => Report { level: Level::Pass, text: cat3(name, " \u{2192} ", hash) },
            Err(e) => Report { level: Level::Fail, text: cat4("Failed to restore ", name, ": ", e.as_str()) },
        },
    }
}

/// The lines that open a restore: the file and its time, and the number of
/// projects.
pub fn restore_header(file: &str, snap: &Snapshot) -> (r: (String, String))
    ensures
        r.0@ == "Restoring snapshot from \x1b[1m"@ + file@ + "\x1b[0m (created "@ + snap.created_at@ + ")"@,
        r.1@ == "Projects in snapshot: "@ + decimal(snap.commits@.len()),
{
    let mut a = cat3("Restoring snapshot from \x1b[1m", file, "\x1b[0m (created ");
    a.append(snap.created_at.as_str());
    a.append(")");
    let n = u64_to_decimal(snap.commits.len() as u64);
    let b = cat("Projects in snapshot: ", n.as_str());
    (a, b)
}

/// The line `snapshot list` shows for a file: its path, then when it was
/// created and how many repositories it holds where it could be read.
pub fn list_line(path: &str, snap: Option<&Snapshot>) -> (r: String)
    ensures
        r@ == "  \u{2022} "@ + path@ + (match snap {
            Some(s) => "  created "@ + s.created_at@ + "  ("@ + decimal(s.commits@.len()) + " repos)"@,
            None => Seq::empty(),
        }),
{
    let mut r = cat("  \u{2022} ", path);
    match snap {
        Some(s) => {
            r.append("  created ");
            r.append(s.created_at.as_str());
            r.append("  (");
            let n = u64_to_decimal(s.commits.len() as u64);
            r.append(n.as_str());
            r.append(" repos)");
        },
        None => {},
    }
    r
}

/// A snapshot records each project once, whatever the order and the
/// lookups.
pub proof fn law_snapshot_names_distinct(order: Seq<Project>, found: Seq<CommitLookup>, i: int)
    ensures
        distinct_names(commits_after(order, found, i)),
    decreases i,
{
    if i > 0 {
        law_snapshot_names_distinct(order, found, i - 1);
        match found[i - 1] {
            CommitLookup::Found(h) => {
                law_insert_keeps_names_distinct(commits_after(order, found, i - 1), order[i - 1].name@, h@);
            },
            _ => {},
        }
    }
}

/// The found commits of `order[..i]`, one entry per project, in the order
/// of `order`.
pub open spec fn found_in_order(order: Seq<Project>, found: Seq<CommitLookup>, i: int) -> Seq<(Seq<char>, Seq<char>)>
    decreases i,
{
    if i <= 0 {
        Seq::empty()
    } else {
        let m = found_in_order(order, found, i - 1);
        match found[i - 1] {
            CommitLookup::Found(h) => m.push((order[i - 1].name@, h@)),
            _ => m,
        }
    }
}

proof fn lemma_not_named(order: Seq<Project>, found: Seq<CommitLookup>, i: int, k: Seq<char>)
    requires
        forall|j: int| 0 <= j < i ==> #[trigger] order[j].name@ != k,
    ensures
        forall|b: int| 0 <= b < found_in_order(order, found, i).len() ==> #[trigger] found_in_order(order, found, i)[b].0 != k,
    decreases i,
{
    if i > 0 {
        lemma_not_named(order, found, i - 1, k);
        let m = found_in_order(order, found, i - 1);
        match found[i - 1] {
            CommitLookup::Found(h) => {
                assert forall|b: int| 0 <= b < m.push((order[i - 1].name@, h@)).len() implies #[trigger] m.push(
                    (order[i - 1].name@, h@),
                )[b].0 != k by {
                    if b < m.len() {
                        assert(m.push((order[i - 1].name@, h@))[b] == m[b]);
                    }
                }
            },
            _ => {},
        }
    }
}

/// Law: where the projects of the order carry distinct names, a snapshot
/// records one entry for each project whose commit was found, in the order
/// given: two snapshots taken in the same order with the same lookups list
/// the same commits the same way.
pub proof fn law_snapshot_in_order(order: Seq<Project>, found: Seq<CommitLookup>, i: int)
    requires
        0 <= i <= order.len(),
        forall|a: int, b: int| 0 <= a < b < order.len() ==> order[a].name@ != order[b].name@,
    ensures
        commits_after(order, found, i) == found_in_order(order, found, i),
    decreases i,
{
    if i > 0 {
        law_snapshot_in_order(order, found, i - 1);
        let m = found_in_order(order, found, i - 1);
        match found[i - 1] {
            CommitLookup::Found(h) => {
                let k = order[i - 1].name@;
                assert forall|j: int| 0 <= j < i - 1 implies #[trigger] order[j].name@ != k by {}
                lemma_not_named(order, found, i - 1, k);
                lemma_key_pos(m, k, m.len() as int);
            },
            _ => {},
        }
    }
}

// ---------------------------------------------------------------------------
// Listing
// ---------------------------------------------------------------------------

/// The position of the last `.` in `s` (or -1 without one).
pub open spec fn last_dot(s: Seq<char>) -> int
    decreases s.len(),
{
    if s.len() == 0 {
        -1
    } else if s.last() == '.' {
        s.len() - 1
    } else {
        last_dot(s.drop_last())
    }
}

/// A file name's extension as `Path::extension` reads it: what follows the
/// last `.`, unless the name is `..` or the `.` is its first character.
pub open spec fn extension(name: Seq<char>) -> Option<Seq<char>> {
    let d = last_dot(name);
    if name == ".."@ || d <= 0 {
        None
    } else {
        Some(name.skip(d + 1))
    }
}

proof fn lemma_last_dot(s: Seq<char>, d: int)
    requires
        -1 <= d < s.len(),
        d >= 0 ==> s[d] == '.',
        forall|k: int| d < k < s.len() ==> #[trigger] s[k] != '.',
    ensures
        last_dot(s) == d,
    decreases s.len(),
{
    if s.len() > 0 && d < s.len() - 1 {
        let t = s.drop_last();
        assert(s.last() == s[s.len() - 1]);
        assert forall|k: int| d < k < t.len() implies #[trigger] t[k] != '.' by {
            assert(t[k] == s[k]);
        }
        if d >= 0 {
            assert(t[d] == s[d]);
        }
        lemma_last_dot(t, d);
    } else if s.len() > 0 {
        assert(s.last() == s[d]);
    }
}

/// Whether a file name has the extension `json`.
pub fn is_json_file(name: &str) -> (r: bool)
    ensures
        r == (extension(name@) == Some("json"@)),
{
    let v = crate::text::chars_of(name);
    let mut d: usize = v.len();
    while d > 0 && v[d - 1] != '.'
        invariant
            d <= v.len(),
            v@ == name@,
            forall|k: int| d <= k < v.len() ==> #[trigger] v@[k] != '.',
        decreases d,
    {
        d -= 1;
    }
    proof {
        lemma_last_dot(v@, d - 1);
        reveal_strlit("..");
        reveal_strlit("json");
    }
    if str_eq(name, "..") || d <= 1 {
        return false;
    }
    let mut ext: Vec<char> = Vec::new();
    let mut i: usize = d;
    while i < v.len()
        invariant
            d <= i <= v.len(),
            ext@ == v@.subrange(d as int, i as int),
        decreases v.len() - i,
    {
        ext.push(v[i]);
        assert(v@.subrange(d as int, i + 1) =~= v@.subrange(d as int, i as int).push(v@[i as int]));
        i += 1;
    }
    assert(ext@ =~= v@.skip(d as int));
    let e = crate::text::string_of(&ext);
    str_eq(e.as_str(), "json")
}

/// The snapshot files among the names of a directory's entries, in name
/// order, each as a path under the snapshots directory.
pub fn snapshot_listing(names: Vec<String>) -> (r: Vec<String>)
    ensures
        exists|s: Seq<Seq<char>>|
            crate::sorting::sorted(s) && s.to_multiset() == crate::vm::ssh::views(names@).filter(
                |n: Seq<char>| extension(n) == Some("json"@),
            ).to_multiset() && crate::vm::ssh::views(r@) == s.map_values(|n: Seq<char>| ".polyws/snapshots/"@ + n),
{
    let ghost all = crate::vm::ssh::views(names@);
    let ghost pred = |n: Seq<char>| extension(n) == Some("json"@);
    let mut kept: Vec<String> = Vec::new();
    let mut i: usize = 0;
    while i < names.len()
        invariant
            i <= names@.len(),
            all == crate::vm::ssh::views(names@),
            pred == (|n: Seq<char>| extension(n) == Some("json"@)),
            crate::vm::ssh::views(kept@) == all.take(i as int).filter(pred),
        decreases names@.len() - i,
    {
        let ghost before = crate::vm::ssh::views(kept@);
        assert(all.take(i + 1).drop_last() =~= all.take(i as int));
        assert(all.take(i + 1).last() == names@[i as int]@);
        let json = is_json_file(names[i].as_str());
        proof {
            reveal(Seq::filter);
            assert(pred(names@[i as int]@) == json);
            assert(all.take(i + 1).filter(pred) == (if pred(all.take(i + 1).last()) {
                all.take(i + 1).drop_last().filter(pred).push(all.take(i + 1).last())
            } else {
                all.take(i + 1).drop_last().filter(pred)
            }));
        }
        if json {
            kept.push(names[i].clone());
            assert(crate::vm::ssh::views(kept@) =~= before.push(names@[i as int]@));
        }
        i += 1;
    }
    assert(all.take(names@.len() as int) =~= all);
    let sorted = crate::sorting::sort_names(kept);
    let ghost s = crate::vm::ssh::views(sorted@);
    let mut r: Vec<String> = Vec::new();
    let mut k: usize = 0;
    while k < sorted.len()
        invariant
            k <= sorted@.len(),
            s == crate::vm::ssh::views(sorted@),
            crate::vm::ssh::views(r@) == s.take(k as int).map_values(|n: Seq<char>| ".polyws/snapshots/"@ + n),
        decreases sorted@.len() - k,
    {
        let ghost before = crate::vm::ssh::views(r@);
        r.push(cat(".polyws/snapshots/", sorted[k].as_str()));
        assert(s[k as int] == sorted@[k as int]@);
        assert(crate::vm::ssh::views(r@) =~= before.push(".polyws/snapshots/"@ + s[k as int]));
        assert(s.take(k + 1) =~= s.take(k as int).push(s[k as int]));
        assert(crate::vm::ssh::views(r@) =~= s.take(k + 1).map_values(|n: Seq<char>| ".polyws/snapshots/"@ + n));
        k += 1;
    }
    assert(s.take(sorted@.len() as int) =~= s);
    r
}

} // verus!
