//! `exec`: running a shell command in every repository, level by level in
//! dependency order.
use vstd::prelude::*;

use crate::report::{Exit, Level, Outcome, Report};
use crate::text::{cat, cat3, cat4, decimal, decimal_int, i64_to_decimal, u64_to_decimal};
use crate::vm::ssh::views;

verus! {

/// The program and arguments that run `cmd` through the platform's shell:
/// `cmd /C` on Windows, `sh -c` elsewhere.
pub fn shell_command(cmd: &str, windows: bool) -> (r: (String, Vec<String>))
    ensures
        windows ==> r.0@ == "cmd"@ && views(r.1@) == seq!["/C"@, cmd@],
        !windows ==> r.0@ == "sh"@ && views(r.1@) == seq!["-c"@, cmd@],
{
    let mut args: Vec<String> = Vec::new();
    if windows {
        args.push(String::from_str("/C"));
        args.push(String::from_str(cmd));
        assert(views(args@) =~= seq!["/C"@, cmd@]);
        (String::from_str("cmd"), args)
    } else {
        args.push(String::from_str("-c"));
        args.push(String::from_str(cmd));
        assert(views(args@) =~= seq!["-c"@, cmd@]);
        (String::from_str("sh"), args)
    }
}

/// The check before running in a project: its directory must exist.
pub fn exec_precheck(exists: bool, dir: &str, name: &str) -> (r: Result<(), String>)
    ensures
        r is Ok <==> exists,
        r matches Err(m) ==> m@ == "directory '"@ + dir@ + "' for project '"@ + name@
            + "' not found \u{2014} run `polyws pull` first"@,
{
    if exists {
        Ok(())
    } else {
        let mut m = cat4("directory '", dir, "' for project '", name);
        m.append("' not found \u{2014} run `polyws pull` first");
        Err(m)
    }
}

/// How running the command in a project ended: it could not be started,
/// it failed with its exit status (-1 without one), or it succeeded.
pub open spec fn run_result_spec(dir: Seq<char>, o: Outcome) -> Result<(), Seq<char>> {
    match o {
        Outcome::NotRun(e) => Err("Failed to spawn command in '"@ + dir + "': "@ + e@),
        Outcome::Exited(x) => if x.success {
            Ok(())
        } else {
            Err("command exited with status "@ + decimal_int(match x.code {
                Some(c) => c as int,
                None => -1,
            }))
        },
    }
}

/// How running the command in a project ended (see [`run_result_spec`]).
pub fn run_result(dir: &str, outcome: &Outcome) -> (r: Result<(), String>)
    ensures
        (match r {
            Ok(()) => Ok(()),
            Err(e) => Err(e@),
        }) == run_result_spec(dir@, *outcome),
{
    match outcome {
        Outcome::NotRun(e) => Err(cat4("Failed to spawn command in '", dir, "': ", e.as_str())),
        Outcome::Exited(x) => {
            if x.success {
                Ok(())
            } else {
                let code: i64 = match x.code {
                    Some(c) => c as i64,
                    None => -1,
                };
                let d = i64_to_decimal(code);
                Err(cat("command exited with status ", d.as_str()))
            }
        },
    }
}

/// The report of one project's run.
pub fn exec_report(name: &str, result: &Result<(), String>) -> (r: Report)
    ensures
        r@ == (match result {
            Ok(()) => (Level::Pass, name@ + " succeeded"@),
            Err(e) => (Level::Fail, name@ + " failed: "@ + e@),
        }),
{
    match result {
        Ok(()) => Report { level: Level::Pass, text: cat(name, " succeeded") },
        Err(e) => Report { level: Level::Fail, text: cat3(name, " failed: ", e.as_str()) },
    }
}

/// The line that opens an `exec` run.
pub fn exec_header(cmd: &str, projects: usize, levels: usize) -> (r: String)
    ensures
        r@ == "Executing \x1b[1m"@ + cmd@ + "\x1b[0m across "@ + decimal(projects as nat) + " project(s) in "@
            + decimal(levels as nat) + " level(s)\n"@,
{
    let p = u64_to_decimal(projects as u64);
    let l = u64_to_decimal(levels as u64);
    let mut r = cat4("Executing \x1b[1m", cmd, "\x1b[0m across ", p.as_str());
    r.append(" project(s) in ");
    r.append(l.as_str());
    r.append(" level(s)\n");
    r
}

/// What `exec` says in a workspace without projects.
pub fn no_projects_message() -> (r: &'static str)
    ensures
        r@ == "No projects in workspace. Add some with `polyws add`."@,
{
    "No projects in workspace. Add some with `polyws add`."
}

} // verus!
