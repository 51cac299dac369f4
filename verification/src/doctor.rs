//! `doctor`: what the environment checks report, given what the probes
//! found.
use vstd::prelude::*;

use crate::config::{local_dir_of, Project, WorkspaceConfig};
use crate::dirs::{config_names, known_config_paths};
use crate::report::{add_report, reports, Exit, Level, Outcome, Report};
use crate::text::{cat, cat3, join, join_strings};
use crate::vm::ssh::views;

verus! {

/// How to install a missing tool, on Windows or elsewhere.
pub open spec fn install_hint(bin: Seq<char>, windows: bool) -> Seq<char> {
    if windows {
        if bin == "git"@ {
            "winget install Git.Git  |  choco install git"@
        } else if bin == "rustc"@ || bin == "cargo"@ {
            "download rustup from https://rustup.rs/"@
        } else if bin == "ssh"@ {
            "Windows 10+ includes OpenSSH \u{2014} enable it in Settings > Apps > Optional Features"@
        } else {
            "see your package manager (winget, choco, scoop)"@
        }
    } else {
        if bin == "git"@ {
            "brew install git  |  sudo apt-get install git"@
        } else if bin == "rustc"@ || bin == "cargo"@ {
            "curl --proto '=https' --tlsv1.2 -sSf https://sh.rustup.rs | sh"@
        } else if bin == "ssh"@ {
            "sudo apt-get install openssh-client"@
        } else {
            "see your package manager"@
        }
    }
}

/// The install hint for a tool (see [`install_hint`]).
pub fn suggest_install(bin: &str, windows: bool) -> (r: &'static str)
    ensures
        r@ == install_hint(bin@, windows),
{
    let git = crate::text::str_eq(bin, "git");
    let rust = crate::text::str_eq(bin, "rustc") || crate::text::str_eq(bin, "cargo");
    let ssh = crate::text::str_eq(bin, "ssh");
    if windows {
        if git {
            "winget install Git.Git  |  choco install git"
        } else if rust {
            "download rustup from https://rustup.rs/"
        } else if ssh {
            "Windows 10+ includes OpenSSH \u{2014} enable it in Settings > Apps > Optional Features"
        } else {
            "see your package manager (winget, choco, scoop)"
        }
    } else {
        if git {
            "brew install git  |  sudo apt-get install git"
        } else if rust {
            "curl --proto '=https' --tlsv1.2 -sSf https://sh.rustup.rs | sh"
        } else if ssh {
            "sudo apt-get install openssh-client"
        } else {
            "see your package manager"
        }
    }
}

/// The reports of a tool check: the probe ran and succeeded (or wrote to
/// its error output, as `ssh -V` does), or it failed and a fix is shown.
pub open spec fn tool_reports(bin: Seq<char>, label: Seq<char>, o: Outcome, windows: bool) -> Seq<(Level, Seq<char>)> {
    let fix = (Level::Info, "Fix: "@ + install_hint(bin, windows));
    match o {
        Outcome::Exited(e) => if e.success || e.stderr@.len() > 0 {
            seq![(Level::Pass, label)]
        } else {
            seq![(Level::Fail, bin + " not working"@), fix]
        },
        Outcome::NotRun(_) => seq![(Level::Fail, label), fix],
    }
}

/// The reports of a tool check (see [`tool_reports`]).
pub fn check_tool(bin: &str, label: &str, outcome: &Outcome, windows: bool) -> (r: Vec<Report>)
    ensures
        reports(r@) == tool_reports(bin@, label@, *outcome, windows),
{
    let mut r: Vec<Report> = Vec::new();
    let fix = cat("Fix: ", suggest_install(bin, windows));
    match outcome {
        Outcome::Exited(e) => {
            if e.success || !e.stderr.as_str().is_empty() {
                add_report(&mut r, Level::Pass, String::from_str(label));
            } else {
                add_report(&mut r, Level::Fail, cat(bin, " not working"));
                add_report(&mut r, Level::Info, fix);
            }
        },
        Outcome::NotRun(_) => {
            add_report(&mut r, Level::Fail, String::from_str(label));
            add_report(&mut r, Level::Info, fix);
        },
    }
    assert(reports(r@) =~= tool_reports(bin@, label@, *outcome, windows));
    r
}

/// The tools `doctor` probes: the program, its arguments and the label of
/// the check.
pub fn tool_probes() -> (r: Vec<(&'static str, &'static str, &'static str)>)
    ensures
        r@.len() == 4,
        r@[0].0@ == "git"@ && r@[0].1@ == "--version"@ && r@[0].2@ == "git installed"@,
        r@[1].0@ == "ssh"@ && r@[1].1@ == "-V"@ && r@[1].2@ == "ssh available"@,
        r@[2].0@ == "rustc"@ && r@[2].1@ == "--version"@ && r@[2].2@ == "rustc installed"@,
        r@[3].0@ == "cargo"@ && r@[3].1@ == "--version"@ && r@[3].2@ == "cargo available"@,
{
    vec![
        ("git", "--version", "git installed"),
        ("ssh", "-V", "ssh available"),
        ("rustc", "--version", "rustc installed"),
        ("cargo", "--version", "cargo available"),
    ]
}

/// The report of the internet probe.
pub fn internet_report(reachable: bool) -> (r: Report)
    ensures
        r@ == (if reachable {
            (Level::Pass, "internet reachable"@)
        } else {
            (Level::Fail, "internet not reachable"@)
        }),
{
    if reachable {
        Report { level: Level::Pass, text: String::from_str("internet reachable") }
    } else {
        Report { level: Level::Fail, text: String::from_str("internet not reachable") }
    }
}

/// The report of the disk probe: the working directory could be written,
/// or the write failed with this error.
pub fn disk_report(result: &Result<(), String>) -> (r: Report)
    ensures
        r@ == (match result {
            Ok(()) => (Level::Pass, "working directory is writable"@),
            Err(e) => (Level::Fail, "working directory not writable: "@ + e@),
        }),
{
    match result {
        Ok(()) => Report { level: Level::Pass, text: String::from_str("working directory is writable") },
        Err(e) => Report { level: Level::Fail, text: cat("working directory not writable: ", e.as_str()) },
    }
}

/// The file the disk probe writes (and removes).
pub fn disk_probe_file() -> (r: &'static str)
    ensures
        r@ == ".polyws_disk_probe"@,
{
    ".polyws_disk_probe"
}

/// What a project's directory holds.
#[derive(Debug, Clone, Copy, PartialEq, Eq, Structural)]
pub enum Presence {
    /// A git repository.
    Repo,
    /// Something that is not a git repository.
    NotARepo,
    /// Nothing: the directory is missing.
    Missing,
}

/// What a directory holds, given whether it opens as a repository and
/// whether it exists.
pub fn presence(is_repo: bool, exists: bool) -> (r: Presence)
    ensures
        r == (if is_repo {
            Presence::Repo
        } else if exists {
            Presence::NotARepo
        } else {
            Presence::Missing
        }),
{
    if is_repo {
        Presence::Repo
    } else if exists {
        Presence::NotARepo
    } else {
        Presence::Missing
    }
}

/// The report of one project's repository.
pub open spec fn repo_report(name: Seq<char>, p: Presence) -> (Level, Seq<char>) {
    match p {
        Presence::Repo => (Level::Pass, "repo '"@ + name + "' present"@),
        Presence::NotARepo => (Level::Fail, "'"@ + name + "' exists but is not a git repo"@),
        Presence::Missing => (Level::Warn, "repo '"@ + name + "' not cloned \u{2014} run `polyws pull`"@),
    }
}

/// The reports of the projects' repositories, one per project, given what
/// each directory holds (`found[i]` for the `i`-th project).
pub fn check_repos(cfg: &WorkspaceConfig, found: &Vec<Presence>) -> (r: Vec<Report>)
    requires
        found@.len() == cfg.projects@.len(),
    ensures
        reports(r@) == Seq::new(cfg.projects@.len(), |i: int| repo_report(cfg.projects@[i].name@, found@[i])),
{
    let mut r: Vec<Report> = Vec::new();
    let mut i: usize = 0;
    while i < cfg.projects.len()
        invariant
            i <= cfg.projects@.len(),
            found@.len() == cfg.projects@.len(),
            reports(r@) == Seq::new(i as nat, |j: int| repo_report(cfg.projects@[j].name@, found@[j])),
        decreases cfg.projects@.len() - i,
    {
        let name = cfg.projects[i].name.as_str();
        let ghost before = reports(r@);
        match found[i] {
            Presence::Repo => add_report(&mut r, Level::Pass, cat3("repo '", name, "' present")),
            Presence::NotARepo => add_report(&mut r, Level::Fail, cat3("'", name, "' exists but is not a git repo")),
            Presence::Missing => add_report(&mut r, Level::Warn, cat3("repo '", name, "' not cloned \u{2014} run `polyws pull`")),
        }
        assert(reports(r@) =~= Seq::new((i + 1) as nat, |j: int| repo_report(cfg.projects@[j].name@, found@[j])));
        i += 1;
    }
    r
}

/// The reports of the workspace check: no configuration found (naming the
/// files tried), a configuration that does not load, or a valid one with
/// its repositories and VM.
pub open spec fn workspace_reports(found: bool, loaded: Result<WorkspaceConfig, Seq<char>>, repos: Seq<Presence>) -> Seq<(Level, Seq<char>)> {
    if !found {
        seq![(Level::Warn, "no workspace config found (tried: "@ + join(config_names(), ", "@) + ")"@)]
    } else {
        match loaded {
            Err(e) => seq![(Level::Fail, "workspace config invalid: "@ + e)],
            Ok(cfg) => seq![(Level::Pass, "workspace config valid ("@ + cfg.name@ + ")"@)] + Seq::new(
                cfg.projects@.len(),
                |i: int| repo_report(cfg.projects@[i].name@, repos[i]),
            ) + if cfg.vm is Some {
                seq![(Level::Pass, "vm config present"@)]
            } else {
                Seq::empty()
            },
        }
    }
}

/// The reports of the workspace check (see [`workspace_reports`]):
/// `found` tells whether a configuration file exists, `loaded` how loading
/// it went, and `repos` what each project's directory holds.
pub fn check_workspace(found: bool, loaded: &Result<WorkspaceConfig, String>, repos: &Vec<Presence>) -> (r: Vec<Report>)
    requires
        loaded matches Ok(cfg) ==> repos@.len() == cfg.projects@.len(),
    ensures
        reports(r@) == workspace_reports(found, match loaded {
            Ok(c) => Ok(*c),
            Err(e) => Err(e@),
        }, repos@),
{
    let mut r: Vec<Report> = Vec::new();
    if !found {
        let names = known_config_paths();
        let mut owned: Vec<String> = Vec::new();
        let mut i: usize = 0;
        while i < names.len()
            invariant
                i <= names@.len(),
                views(owned@) == names@.take(i as int).map_values(|s: &str| s@),
            decreases names@.len() - i,
        {
            let ghost before = owned@;
            owned.push(String::from_str(names[i]));
            assert(views(owned@) =~= views(before).push(names@[i as int]@));
            assert(names@.take(i + 1) =~= names@.take(i as int).push(names@[i as int]));
            assert(views(owned@) =~= names@.take(i + 1).map_values(|s: &str| s@));
            i += 1;
        }
        assert(names@.take(names@.len() as int) =~= names@);
        let tried = join_strings(&owned, ", ");
        assert(owned@.map_values(|s: String| s@) == views(owned@));
        add_report(&mut r, Level::Warn, cat3("no workspace config found (tried: ", tried.as_str(), ")"));
        assert(reports(r@) =~= workspace_reports(found, match loaded {
            Ok(c) => Ok(*c),
            Err(e) => Err(e@),
        }, repos@));
        return r;
    }
    match loaded {
        Err(e) => {
            add_report(&mut r, Level::Fail, cat("workspace config invalid: ", e.as_str()));
        },
        Ok(cfg) => {
            add_report(&mut r, Level::Pass, cat3("workspace config valid (", cfg.name.as_str(), ")"));
            let ghost first = reports(r@);
            let mut rest = check_repos(cfg, repos);
            let ghost mid = reports(rest@);
            r.append(&mut rest);
            assert(reports(r@) =~= first + mid);
            if cfg.vm.is_some() {
                add_report(&mut r, Level::Pass, String::from_str("vm config present"));
            }
        },
    }
    assert(reports(r@) =~= workspace_reports(found, match loaded {
        Ok(c) => Ok(*c),
        Err(e) => Err(e@),
    }, repos@));
    r
}

/// The heading of a group of checks, `[title]` in bold after a blank line.
pub fn section_line(title: &str) -> (r: String)
    ensures
        r@ == "\n\x1b[1m["@ + title@ + "]\x1b[0m"@,
{
    cat3("\n\x1b[1m[", title, "]\x1b[0m")
}

} // verus!
