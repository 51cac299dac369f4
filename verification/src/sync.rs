//! The mirror-sync daemon: which projects are due for a push to their
//! mirror, what a sync pass reports, and how the daemon's PID file is read.
use vstd::prelude::*;

use crate::config::{Project, WorkspaceConfig};
use crate::parse::{lines, lines_of, parse_u32, parse_u32_spec};
use crate::text::{cat, cat3, decimal, trim, trim_str, u64_to_decimal};
use crate::vm::ssh::views;

verus! {

/// The file holding the daemon's process id.
pub fn pid_file() -> (r: &'static str)
    ensures
        r@ == ".polyws/sync.pid"@,
{
    ".polyws/sync.pid"
}

/// The file the daemon logs its passes to.
pub fn sync_log_file() -> (r: &'static str)
    ensures
        r@ == ".polyws/sync.log"@,
{
    ".polyws/sync.log"
}

// ---------------------------------------------------------------------------
// When a project is due
// ---------------------------------------------------------------------------

/// The workspace's sync interval in minutes: as configured, 5 by default,
/// at least 1.
pub open spec fn default_interval_spec(cfg: WorkspaceConfig) -> u64 {
    let m = match cfg.sync_interval_minutes {
        Some(m) => m,
        None => 5,
    };
    if m < 1 {
        1
    } else {
        m
    }
}

/// A project's sync interval in minutes: its own, else the workspace's; at
/// least 1.
pub open spec fn project_interval_spec(p: Project, default: u64) -> u64 {
    let m = match p.sync_interval {
        Some(m) => m,
        None => default,
    };
    if m < 1 {
        1
    } else {
        m
    }
}

/// The workspace's sync interval in minutes.
pub fn default_interval(cfg: &WorkspaceConfig) -> (r: u64)
    ensures
        r == default_interval_spec(*cfg),
        r >= 1,
{
    let m = match cfg.sync_interval_minutes {
        Some(m) => m,
        None => 5,
    };
    if m < 1 {
        1
    } else {
        m
    }
}

/// A project's sync interval in minutes.
pub fn project_interval(p: &Project, default: u64) -> (r: u64)
    ensures
        r == project_interval_spec(*p, default),
        r >= 1,
{
    let m = match p.sync_interval {
        Some(m) => m,
        None => default,
    };
    if m < 1 {
        1
    } else {
        m
    }
}

/// A project is due when it was never synced, or when at least its
/// interval has passed since (`elapsed` in whole seconds).
pub open spec fn is_due_spec(elapsed: Option<u64>, interval_minutes: u64) -> bool {
    match elapsed {
        None => true,
        Some(e) => e >= interval_minutes * 60,
    }
}

/// A project just synced is not due again before its interval (at least
/// a minute) has passed, and a project never synced is due at once.
pub proof fn law_synced_project_waits(cfg: WorkspaceConfig, p: Project, elapsed: u64)
    ensures
        elapsed < 60 ==> !is_due_spec(Some(elapsed), project_interval_spec(p, default_interval_spec(cfg))),
        is_due_spec(None, project_interval_spec(p, default_interval_spec(cfg))),
{
}

/// Law: a project's own interval decides when it sets one, whatever the
/// workspace's default (at least a minute); only a project without one
/// follows the default. So a mirrored project with its own interval of `m`
/// minutes is not due while fewer than `m * 60` seconds have passed since
/// its last sync, and is due once they have.
pub proof fn law_own_interval_decides(cfg: WorkspaceConfig, last: Seq<(String, u64)>, p: Project, d1: u64, d2: u64)
    ensures
        p.sync_interval is Some ==> project_interval_spec(p, d1) == project_interval_spec(p, d2),
        p.sync_interval matches Some(m) ==> project_interval_spec(p, d1) >= m,
        p.sync_interval matches Some(m) ==> (m >= 1 ==> project_interval_spec(p, d1) == m),
        p.sync_interval is None ==> project_interval_spec(p, d1) >= d1 && project_interval_spec(p, d1) >= 1,
        p.sync_interval is None && d1 >= 1 ==> project_interval_spec(p, d1) == d1,
        p.sync_interval matches Some(m) ==> (m >= 1 && p.sync_url is Some ==> (elapsed_for(last, p.name@) matches Some(s) ==> (
        project_due(cfg, last, p) <==> s >= m * 60))),
{
}

/// Whether a project is due for a sync.
pub fn is_due(elapsed: Option<u64>, interval_minutes: u64) -> (r: bool)
    ensures
        r == is_due_spec(elapsed, interval_minutes),
{
    match elapsed {
        None => true,
        Some(e) => {
            if interval_minutes > u64::MAX / 60 {
                false
            } else {
                e >= interval_minutes * 60
            }
        },
    }
}

/// The seconds since the project of this name was last synced, from an
/// association list of names and elapsed seconds (the first entry wins).
pub open spec fn elapsed_for(last: Seq<(String, u64)>, name: Seq<char>) -> Option<u64>
    decreases last.len(),
{
    if last.len() == 0 {
        None
    } else if last[0].0@ == name {
        Some(last[0].1)
    } else {
        elapsed_for(last.drop_first(), name)
    }
}

fn lookup_elapsed(last: &Vec<(String, u64)>, name: &str) -> (r: Option<u64>)
    ensures
        r == elapsed_for(last@, name@),
{
    let mut i: usize = 0;
    assert(last@.skip(0) =~= last@);
    while i < last.len()
        invariant
            i <= last.len(),
            elapsed_for(last@.skip(i as int), name@) == elapsed_for(last@, name@),
        decreases last.len() - i,
    {
        assert(last@.skip(i as int).drop_first() =~= last@.skip(i + 1));
        assert(last@.skip(i as int)[0] == last@[i as int]);
        if crate::text::str_eq(last[i].0.as_str(), name) {
            return Some(last[i].1);
        }
        i += 1;
    }
    None
}

/// Project `p` has a mirror and is due.
pub open spec fn project_due(cfg: WorkspaceConfig, last: Seq<(String, u64)>, p: Project) -> bool {
    p.sync_url is Some && is_due_spec(elapsed_for(last, p.name@), project_interval_spec(p, default_interval_spec(cfg)))
}

/// The indices of the projects due for a sync, in order. `last` maps the
/// names of synced projects to the seconds since their last sync.
pub fn due_projects(cfg: &WorkspaceConfig, last: &Vec<(String, u64)>) -> (r: Vec<usize>)
    ensures
        forall|k: int| 0 <= k < r@.len() ==> r@[k] < cfg.projects@.len(),
        forall|k: int, l: int| 0 <= k < l < r@.len() ==> r@[k] < r@[l],
        forall|i: int| 0 <= i < cfg.projects@.len() ==> (r@.contains(i as usize) <==> project_due(*cfg, last@, #[trigger] cfg.projects@[i])),
{
    let d = default_interval(cfg);
    let mut r: Vec<usize> = Vec::new();
    let mut i: usize = 0;
    while i < cfg.projects.len()
        invariant
            i <= cfg.projects@.len(),
            d == default_interval_spec(*cfg),
            forall|k: int| 0 <= k < r@.len() ==> r@[k] < i,
            forall|k: int, l: int| 0 <= k < l < r@.len() ==> r@[k] < r@[l],
            forall|j: int| 0 <= j < i ==> (r@.contains(j as usize) <==> project_due(*cfg, last@, #[trigger] cfg.projects@[j])),
        decreases cfg.projects@.len() - i,
    {
        let p = &cfg.projects[i];
        let due = p.sync_url.is_some() && is_due(lookup_elapsed(last, p.name.as_str()), project_interval(p, d));
        let ghost before = r@;
        if due {
            r.push(i);
        }
        assert forall|j: int| 0 <= j <= i implies (r@.contains(j as usize) <==> project_due(*cfg, last@, #[trigger] cfg.projects@[j])) by {
            if j < i {
                if before.contains(j as usize) {
                    let k = choose|k: int| 0 <= k < before.len() && before[k] == j as usize;
                    assert(r@[k] == j as usize);
                }
                if r@.contains(j as usize) {
                    let k = choose|k: int| 0 <= k < r@.len() && r@[k] == j as usize;
                    if k < before.len() {
                        assert(before[k] == j as usize);
                    }
                }
            } else {
                if r@.contains(i) {
                    let k = choose|k: int| 0 <= k < r@.len() && r@[k] == i;
                    if k < before.len() {
                        assert(before[k] < i);
                    }
                }
                if due {
                    assert(r@[before.len() as int] == i);
                }
            }
        }
        i += 1;
    }
    r
}

// ---------------------------------------------------------------------------
// The daemon's schedule
// ---------------------------------------------------------------------------

/// The seconds from `t` to `now` on the daemon's clock (none before `t`).
pub open spec fn since(now: u64, t: u64) -> u64 {
    if now >= t {
        (now - t) as u64
    } else {
        0
    }
}

/// The entries of `last` with their times turned into the seconds elapsed
/// at `now`.
pub open spec fn elapsed_at(last: Seq<(String, u64)>, now: u64) -> Seq<(String, u64)> {
    last.map_values(|e: (String, u64)| (e.0, since(now, e.1)))
}

/// The entries of `last` not for the project named `name`, in order.
pub open spec fn drop_name(last: Seq<(String, u64)>, name: Seq<char>) -> Seq<(String, u64)>
    decreases last.len(),
{
    if last.len() == 0 {
        last
    } else if last[0].0@ == name {
        drop_name(last.drop_first(), name)
    } else {
        seq![last[0]] + drop_name(last.drop_first(), name)
    }
}

/// The schedule after the project named `name` was attempted, its attempt
/// ending at `t`: its old entry goes, a new one comes last.
pub open spec fn recorded(last: Seq<(String, u64)>, name: String, t: u64) -> Seq<(String, u64)> {
    drop_name(last, name@).push((name, t))
}

/// Project `p` has a mirror and is due at `now`, given when the last
/// attempts ended.
pub open spec fn project_due_at(cfg: WorkspaceConfig, last: Seq<(String, u64)>, now: u64, p: Project) -> bool {
    project_due(cfg, elapsed_at(last, now), p)
}

proof fn lemma_elapsed_at(last: Seq<(String, u64)>, now: u64, name: Seq<char>)
    ensures
        elapsed_for(elapsed_at(last, now), name) == (match elapsed_for(last, name) {
            Some(t) => Some(since(now, t)),
            None => None,
        }),
    decreases last.len(),
{
    if last.len() > 0 {
        assert(elapsed_at(last, now).drop_first() =~= elapsed_at(last.drop_first(), now));
        lemma_elapsed_at(last.drop_first(), now, name);
    }
}

proof fn lemma_drop_name(last: Seq<(String, u64)>, name: Seq<char>, n: Seq<char>)
    ensures
        elapsed_for(drop_name(last, name), n) == (if n == name {
            None
        } else {
            elapsed_for(last, n)
        }),
    decreases last.len(),
{
    if last.len() > 0 {
        lemma_drop_name(last.drop_first(), name, n);
        if last[0].0@ != name {
            let d = seq![last[0]] + drop_name(last.drop_first(), name);
            assert(d[0] == last[0]);
            assert(d.drop_first() =~= drop_name(last.drop_first(), name));
        }
    }
}

proof fn lemma_push_entry(last: Seq<(String, u64)>, e: (String, u64), n: Seq<char>)
    ensures
        elapsed_for(last.push(e), n) == (match elapsed_for(last, n) {
            Some(t) => Some(t),
            None => if e.0@ == n {
                Some(e.1)
            } else {
                None
            },
        }),
    decreases last.len(),
{
    if last.len() == 0 {
        assert(last.push(e)[0] == e);
        assert(last.push(e).drop_first() =~= last);
        assert(elapsed_for(last, n) is None);
    } else {
        assert(last.push(e)[0] == last[0]);
        assert(last.push(e).drop_first() =~= last.drop_first().push(e));
        lemma_push_entry(last.drop_first(), e, n);
    }
}

/// What a recorded attempt changes: the project's last attempt is the new
/// one, every other project's is as before.
pub proof fn lemma_recorded(last: Seq<(String, u64)>, name: String, t: u64, n: Seq<char>)
    ensures
        elapsed_for(recorded(last, name, t), n) == (if n == name@ {
            Some(t)
        } else {
            elapsed_for(last, n)
        }),
{
    lemma_drop_name(last, name@, n);
    lemma_push_entry(drop_name(last, name@), (name, t), n);
}

/// When the sync daemon last attempted each project: the name and the time
/// (in seconds on the daemon's clock) at which the attempt ended.
pub struct SyncSchedule {
    pub last: Vec<(String, u64)>,
}

impl SyncSchedule {
    /// A schedule with no attempt yet.
    pub fn new() -> (r: SyncSchedule)
        ensures
            r.last@.len() == 0,
    {
        SyncSchedule { last: Vec::new() }
    }

    /// The seconds elapsed at `now` since each recorded attempt.
    pub fn elapsed(&self, now: u64) -> (r: Vec<(String, u64)>)
        ensures
            r@ == elapsed_at(self.last@, now),
    {
        let mut r: Vec<(String, u64)> = Vec::new();
        let mut i: usize = 0;
        while i < self.last.len()
            invariant
                i <= self.last@.len(),
                r@ == elapsed_at(self.last@.take(i as int), now),
            decreases self.last@.len() - i,
        {
            let e = &self.last[i];
            let secs = if now >= e.1 {
                now - e.1
            } else {
                0
            };
            r.push((e.0.clone(), secs));
            assert(self.last@.take(i + 1) =~= self.last@.take(i as int).push(self.last@[i as int]));
            assert(r@ =~= elapsed_at(self.last@.take(i + 1), now));
            i += 1;
        }
        assert(self.last@.take(i as int) =~= self.last@);
        r
    }

    /// The indices of the projects due at `now`, in order.
    pub fn due(&self, cfg: &WorkspaceConfig, now: u64) -> (r: Vec<usize>)
        ensures
            forall|k: int| 0 <= k < r@.len() ==> r@[k] < cfg.projects@.len(),
            forall|k: int, l: int| 0 <= k < l < r@.len() ==> r@[k] < r@[l],
            forall|i: int|
                0 <= i < cfg.projects@.len() ==> (r@.contains(i as usize) <==> project_due_at(
                    *cfg,
                    self.last@,
                    now,
                    #[trigger] cfg.projects@[i],
                )),
    {
        let e = self.elapsed(now);
        due_projects(cfg, &e)
    }

    /// Records that the project named `name` was attempted, the attempt
    /// ending at `now`.
    pub fn record(&mut self, name: String, now: u64)
        ensures
            final(self).last@ == recorded(old(self).last@, name, now),
    {
        let ghost old_last = self.last@;
        let mut kept: Vec<(String, u64)> = Vec::new();
        let mut i: usize = self.last.len();
        while i > 0
            invariant
                i <= old_last.len(),
                self.last@ == old_last,
                kept@ == drop_name(old_last.skip(i as int), name@),
            decreases i,
        {
            i -= 1;
            let ghost rest = old_last.skip(i as int);
            assert(rest[0] == old_last[i as int]);
            assert(rest.drop_first() =~= old_last.skip(i + 1));
            if !crate::text::str_eq(self.last[i].0.as_str(), name.as_str()) {
                let e = (self.last[i].0.clone(), self.last[i].1);
                kept.insert(0, e);
                assert(kept@ =~= seq![old_last[i as int]] + drop_name(old_last.skip(i + 1), name@));
            }
        }
        assert(old_last.skip(0) =~= old_last);
        kept.push((name, now));
        self.last = kept;
    }
}

/// Law: the daemon's schedule. A project without a mirror is never due; a
/// project never attempted is due at once. Once the attempt on a project
/// named `name` is recorded as ending at `t`, that project is not due while
/// fewer than its interval's seconds (at least sixty) have passed since
/// `t`, and is due as soon as they have; every other project is due exactly
/// when it was before.
pub proof fn law_daemon_schedule(
    cfg: WorkspaceConfig,
    last: Seq<(String, u64)>,
    p: Project,
    name: String,
    t: u64,
    now: u64,
)
    ensures
        p.sync_url is None ==> !project_due_at(cfg, last, now, p),
        p.sync_url is Some && elapsed_for(last, p.name@) is None ==> project_due_at(cfg, last, now, p),
        project_interval_spec(p, default_interval_spec(cfg)) * 60 >= 60,
        name@ == p.name@ && since(now, t) < project_interval_spec(p, default_interval_spec(cfg)) * 60
            ==> !project_due_at(cfg, recorded(last, name, t), now, p),
        name@ == p.name@ && p.sync_url is Some && since(now, t) >= project_interval_spec(
            p,
            default_interval_spec(cfg),
        ) * 60 ==> project_due_at(cfg, recorded(last, name, t), now, p),
        name@ != p.name@ ==> (project_due_at(cfg, recorded(last, name, t), now, p) == project_due_at(
            cfg,
            last,
            now,
            p,
        )),
{
    lemma_elapsed_at(last, now, p.name@);
    lemma_elapsed_at(recorded(last, name, t), now, p.name@);
    lemma_recorded(last, name, t, p.name@);
}

// ---------------------------------------------------------------------------
// A sync pass
// ---------------------------------------------------------------------------

/// How the mirror push of one project ended.
#[derive(Debug, Clone)]
pub enum SyncOutcome {
    /// The project's directory is missing; nothing was pushed.
    Missing,
    /// The mirror was updated.
    Pushed,
    /// The push failed with this message.
    Failed(String),
}

/// The indices of the projects with a mirror URL, in order: the projects a
/// sync pass visits.
pub fn sync_targets(cfg: &WorkspaceConfig) -> (r: Vec<usize>)
    ensures
        forall|k: int| 0 <= k < r@.len() ==> r@[k] < cfg.projects@.len() && cfg.projects@[r@[k] as int].sync_url is Some,
        forall|k: int, l: int| 0 <= k < l < r@.len() ==> r@[k] < r@[l],
        forall|i: int| 0 <= i < cfg.projects@.len() && (#[trigger] cfg.projects@[i]).sync_url is Some ==> r@.contains(i as usize),
{
    let mut r: Vec<usize> = Vec::new();
    let mut i: usize = 0;
    while i < cfg.projects.len()
        invariant
            i <= cfg.projects@.len(),
            forall|k: int| 0 <= k < r@.len() ==> r@[k] < i && cfg.projects@[r@[k] as int].sync_url is Some,
            forall|k: int, l: int| 0 <= k < l < r@.len() ==> r@[k] < r@[l],
            forall|j: int| 0 <= j < i && (#[trigger] cfg.projects@[j]).sync_url is Some ==> r@.contains(j as usize),
        decreases cfg.projects@.len() - i,
    {
        let ghost before = r@;
        if cfg.projects[i].sync_url.is_some() {
            r.push(i);
            assert(r@[before.len() as int] == i);
        }
        assert forall|j: int| 0 <= j <= i && (#[trigger] cfg.projects@[j]).sync_url is Some implies r@.contains(j as usize) by {
            if j < i {
                let k = choose|k: int| 0 <= k < before.len() && before[k] == j as usize;
                assert(r@[k] == j as usize);
            }
        }
        i += 1;
    }
    r
}

/// The line a sync pass shows for a project, and the line it logs.
pub open spec fn sync_line(name: Seq<char>, url: Seq<char>, o: SyncOutcome) -> (Seq<char>, Seq<char>) {
    match o {
        SyncOutcome::Missing => ("\u{26A0} '"@ + name + "' not found, skipping"@, "sync: '"@ + name + "' not found, skipping"@),
        SyncOutcome::Pushed => ("\u{2714} "@ + name + " \u{2192} "@ + url, "sync: "@ + name + " \u{2192} "@ + url),
        SyncOutcome::Failed(e) => ("\u{2718} "@ + name + ": "@ + e@, "sync: "@ + name + ": "@ + e@),
    }
}

/// The line the daemon logs for a project it visited: as a sync pass
/// logs it, but a missing directory is skipped for this interval.
pub fn daemon_line(name: &str, url: &str, o: &SyncOutcome) -> (r: String)
    ensures
        r@ == (match o {
            SyncOutcome::Missing => "sync: '"@ + name@ + "' not found, skipping this interval"@,
            _ => sync_line(name@, url@, *o).1,
        }),
{
    match o {
        SyncOutcome::Missing => cat3("sync: '", name, "' not found, skipping this interval"),
        _ => outcome_lines(name, url, o).1,
    }
}

/// The lines of a sync pass over the projects from the `i`-th on, given
/// each project's outcome.
pub open spec fn pass_lines(ps: Seq<Project>, outcomes: Seq<SyncOutcome>, i: int) -> Seq<Seq<char>>
    decreases ps.len() - i,
{
    if i < 0 || i >= ps.len() {
        Seq::empty()
    } else {
        let rest = pass_lines(ps, outcomes, i + 1);
        match ps[i].sync_url {
            Some(u) => seq![sync_line(ps[i].name@, u@, outcomes[i]).0] + rest,
            None => rest,
        }
    }
}

/// The log lines of the same pass.
pub open spec fn pass_log(ps: Seq<Project>, outcomes: Seq<SyncOutcome>, i: int) -> Seq<Seq<char>>
    decreases ps.len() - i,
{
    if i < 0 || i >= ps.len() {
        Seq::empty()
    } else {
        let rest = pass_log(ps, outcomes, i + 1);
        match ps[i].sync_url {
            Some(u) => seq![sync_line(ps[i].name@, u@, outcomes[i]).1] + rest,
            None => rest,
        }
    }
}

/// Some project has a mirror URL.
pub open spec fn any_mirror(ps: Seq<Project>) -> bool {
    exists|i: int| 0 <= i < ps.len() && ps[i].sync_url is Some
}

/// What a sync pass shows: a line per project with a mirror, and a note
/// when no project has one.
pub open spec fn sync_now_spec(ps: Seq<Project>, outcomes: Seq<SyncOutcome>) -> Seq<Seq<char>> {
    pass_lines(ps, outcomes, 0) + if any_mirror(ps) {
        Seq::empty()
    } else {
        seq!["No projects have a sync_url configured."@]
    }
}

fn outcome_lines(name: &str, url: &str, o: &SyncOutcome) -> (r: (String, String))
    ensures
        (r.0@, r.1@) == sync_line(name@, url@, *o),
{
    match o {
        SyncOutcome::Missing => (
            cat3("\u{26A0} '", name, "' not found, skipping"),
            cat3("sync: '", name, "' not found, skipping"),
        ),
        SyncOutcome::Pushed => {
            let mut a = cat3("\u{2714} ", name, " \u{2192} ");
            a.append(url);
            let mut b = cat3("sync: ", name, " \u{2192} ");
            b.append(url);
            (a, b)
        },
        SyncOutcome::Failed(e) => {
            let mut a = cat3("\u{2718} ", name, ": ");
            a.append(e.as_str());
            let mut b = cat3("sync: ", name, ": ");
            b.append(e.as_str());
            (a, b)
        },
    }
}

/// The lines one mirror-sync pass shows and the lines it appends to the
/// sync log, given the outcome for each project (`outcomes[i]` for the
/// `i`-th project; those without a mirror are not visited).
pub fn sync_now_silent(cfg: &WorkspaceConfig, outcomes: &Vec<SyncOutcome>) -> (r: (Vec<String>, Vec<String>))
    requires
        outcomes@.len() == cfg.projects@.len(),
    ensures
        views(r.0@) == sync_now_spec(cfg.projects@, outcomes@),
        views(r.1@) == pass_log(cfg.projects@, outcomes@, 0),
{
    let ps = &cfg.projects;
    let mut shown: Vec<String> = Vec::new();
    let mut logged: Vec<String> = Vec::new();
    let mut mirrors = false;
    let mut i: usize = 0;
    assert(views(shown@) =~= Seq::<Seq<char>>::empty());
    assert(views(logged@) =~= Seq::<Seq<char>>::empty());
    while i < ps.len()
        invariant
            i <= ps@.len(),
            outcomes@.len() == ps@.len(),
            views(shown@) + pass_lines(ps@, outcomes@, i as int) == pass_lines(ps@, outcomes@, 0),
            views(logged@) + pass_log(ps@, outcomes@, i as int) == pass_log(ps@, outcomes@, 0),
            mirrors <==> exists|j: int| 0 <= j < i && ps@[j].sync_url is Some,
        decreases ps@.len() - i,
    {
        let ghost s0 = views(shown@);
        let ghost l0 = views(logged@);
        match &ps[i].sync_url {
            Some(u) => {
                mirrors = true;
                let (a, b) = outcome_lines(ps[i].name.as_str(), u.as_str(), &outcomes[i]);
                shown.push(a);
                logged.push(b);
                assert(views(shown@) =~= s0.push(sync_line(ps@[i as int].name@, u@, outcomes@[i as int]).0));
                assert(views(logged@) =~= l0.push(sync_line(ps@[i as int].name@, u@, outcomes@[i as int]).1));
                assert(views(shown@) + pass_lines(ps@, outcomes@, i + 1) =~= s0 + pass_lines(ps@, outcomes@, i as int));
                assert(views(logged@) + pass_log(ps@, outcomes@, i + 1) =~= l0 + pass_log(ps@, outcomes@, i as int));
            },
            None => {},
        }
        i += 1;
    }
    assert(views(shown@) =~= pass_lines(ps@, outcomes@, 0));
    if !mirrors {
        let ghost s0 = views(shown@);
        shown.push(String::from_str("No projects have a sync_url configured."));
        assert(views(shown@) =~= s0.push("No projects have a sync_url configured."@));
    }
    assert(views(shown@) =~= sync_now_spec(ps@, outcomes@));
    (shown, logged)
}

// ---------------------------------------------------------------------------
// The PID file
// ---------------------------------------------------------------------------

/// The process id a PID file holds: its trimmed text read as a number.
pub open spec fn pid_of(content: Seq<char>) -> Option<u32> {
    parse_u32_spec(trim(content))
}

/// The process id a PID file holds, if its text is a number.
pub fn read_pid(content: &str) -> (r: Option<u32>)
    ensures
        r == pid_of(content@),
{
    let t = trim_str(content);
    parse_u32(t.as_str())
}

/// Whether the sync daemon runs: its PID file was read (`pid_file` is its
/// text, `None` when it is missing or unreadable), holds a process id, and
/// `alive` answers that the process exists.
pub fn is_daemon_running(pid_file: Option<&str>, alive: bool) -> (r: bool)
    ensures
        r == (match pid_file {
            Some(c) => pid_of(c@) is Some && alive,
            None => false,
        }),
{
    match pid_file {
        Some(c) => read_pid(c).is_some() && alive,
        None => false,
    }
}

/// The message of a daemon that was started already.
pub fn already_running_message() -> (r: String)
    ensures
        r@ == "Sync daemon is already running."@,
{
    String::from_str("Sync daemon is already running.")
}

/// The message of a daemon just started.
pub fn started_message(pid: u32) -> (r: String)
    ensures
        r@ == "Sync daemon started (PID "@ + decimal(pid as nat) + ")"@,
{
    let d = u64_to_decimal(pid as u64);
    cat3("Sync daemon started (PID ", d.as_str(), ")")
}

/// What stopping the daemon reports: not running without a PID file, an
/// error for a PID file without a number, else whether the signal reached
/// the process.
pub open spec fn stop_spec(pid_file: Option<Seq<char>>, signalled: bool) -> Result<Seq<char>, Seq<char>> {
    match pid_file {
        None => Ok("Sync daemon is not running."@),
        Some(c) => match pid_of(c) {
            None => Err("Invalid PID in file"@),
            Some(pid) => if signalled {
                Ok("Sync daemon stopped (PID "@ + decimal(pid as nat) + ")"@)
            } else {
                Ok("Could not signal daemon \u{2014} it may have already stopped."@)
            },
        },
    }
}

/// The report of stopping the daemon (see [`stop_spec`]).
pub fn stop_message(pid_file: Option<&str>, signalled: bool) -> (r: Result<String, String>)
    ensures
        (match r {
            Ok(m) => Ok(m@),
            Err(e) => Err(e@),
        }) == stop_spec(match pid_file {
            Some(c) => Some(c@),
            None => None,
        }, signalled),
{
    match pid_file {
        None => Ok(String::from_str("Sync daemon is not running.")),
        Some(c) => match read_pid(c) {
            None => Err(String::from_str("Invalid PID in file")),
            Some(pid) => if signalled {
                let d = u64_to_decimal(pid as u64);
                Ok(cat3("Sync daemon stopped (PID ", d.as_str(), ")"))
            } else {
                Ok(String::from_str("Could not signal daemon \u{2014} it may have already stopped."))
            },
        },
    }
}

/// The last line of the sync log, if it has one.
pub fn last_log_line(content: &str) -> (r: Option<String>)
    ensures
        r is None <==> lines_of(content@).len() == 0,
        r matches Some(l) ==> l@ == lines_of(content@).last(),
{
    let mut ls = lines(content);
    let ghost v = views(ls@);
    if ls.len() == 0 {
        None
    } else {
        let l = ls.pop();
        match l {
            Some(x) => {
                assert(v.last() == x@);
                Some(x)
            },
            None => None,
        }
    }
}

/// The status line of the daemon.
pub fn status_message(running: bool, pid_text: &str) -> (r: String)
    ensures
        r@ == (if running {
            "Sync daemon running (PID "@ + trim(pid_text@) + ")"@
        } else {
            "Sync daemon is not running"@
        }),
{
    if running {
        let t = trim_str(pid_text);
        cat3("Sync daemon running (PID ", t.as_str(), ")")
    } else {
        String::from_str("Sync daemon is not running")
    }
}

} // verus!
