//! The remote development VM: OS detection, SSH command lines, dependency
//! installation and file synchronisation plans.
pub mod detect_os;
pub mod installer;
pub mod ssh;

use vstd::prelude::*;

use crate::config::VmConfig;
use crate::report::{Exit, Level, Outcome, Report};
use crate::text::{decimal_int, i64_to_decimal, str_eq};
use ssh::{base_args_spec, shell_escape_spec, target_spec, views, SshSession};

verus! {

/// A local program to run with its arguments.
#[derive(Debug, Clone)]
pub struct LocalCommand {
    pub program: String,
    pub args: Vec<String>,
}

/// `user@host:path`, the remote end of a synchronisation.
pub open spec fn remote_spec(vm: VmConfig) -> Seq<char> {
    vm.user@ + "@"@ + vm.host@ + ":"@ + vm.path@
}

fn remote_of(vm: &VmConfig) -> (r: String)
    ensures
        r@ == remote_spec(*vm),
{
    let mut r = vm.user.clone();
    r.append("@");
    r.append(vm.host.as_str());
    r.append(":");
    r.append(vm.path.as_str());
    r
}

fn push_str(v: &mut Vec<String>, s: &str)
    ensures
        views(final(v)@) == views(old(v)@).push(s@),
{
    let ghost before = v@;
    v.push(String::from_str(s));
    assert(views(v@) =~= views(before).push(s@));
}

/// The synchronisation command of a VM: a `mutagen` session named after the
/// workspace when the mode is `mutagen`, else a one-shot `rsync`.
pub open spec fn sync_start_spec(vm: VmConfig, workspace: Seq<char>) -> (Seq<char>, Seq<Seq<char>>) {
    if vm.sync@ == "mutagen"@ {
        ("mutagen"@, seq!["sync"@, "create"@, "--name"@, workspace, "."@, remote_spec(vm)])
    } else {
        (
            "rsync"@,
            seq![
                "-avz"@,
                "--exclude=target/"@,
                "--exclude=.git/"@,
                "--exclude=.polyws/"@,
                "./"@,
                remote_spec(vm),
            ],
        )
    }
}

/// Start continuous file synchronisation to the VM: the command to run.
pub fn sync_start(vm: &VmConfig, workspace: &str) -> (r: LocalCommand)
    ensures
        (r.program@, views(r.args@)) == sync_start_spec(*vm, workspace@),
{
    let remote = remote_of(vm);
    let mut args: Vec<String> = Vec::new();
    if str_eq(vm.sync.as_str(), "mutagen") {
        push_str(&mut args, "sync");
        push_str(&mut args, "create");
        push_str(&mut args, "--name");
        push_str(&mut args, workspace);
        push_str(&mut args, ".");
        let ghost before = args@;
        args.push(remote);
        assert(views(args@) =~= views(before).push(remote_spec(*vm)));
        assert(views(args@) =~= sync_start_spec(*vm, workspace@).1);
        LocalCommand { program: String::from_str("mutagen"), args }
    } else {
        push_str(&mut args, "-avz");
        push_str(&mut args, "--exclude=target/");
        push_str(&mut args, "--exclude=.git/");
        push_str(&mut args, "--exclude=.polyws/");
        push_str(&mut args, "./");
        let ghost before = args@;
        args.push(remote);
        assert(views(args@) =~= views(before).push(remote_spec(*vm)));
        assert(views(args@) =~= sync_start_spec(*vm, workspace@).1);
        LocalCommand { program: String::from_str("rsync"), args }
    }
}

/// Stop continuous synchronisation: the `mutagen` command that ends the
/// session, or `None` in rsync mode (no session persists).
pub fn sync_stop(vm: &VmConfig, workspace: &str) -> (r: Option<LocalCommand>)
    ensures
        vm.sync@ == "mutagen"@ <==> r is Some,
        r matches Some(c) ==> c.program@ == "mutagen"@ && views(c.args@) == seq!["sync"@, "terminate"@, workspace@],
{
    if str_eq(vm.sync.as_str(), "mutagen") {
        let mut args: Vec<String> = Vec::new();
        push_str(&mut args, "sync");
        push_str(&mut args, "terminate");
        push_str(&mut args, workspace);
        assert(views(args@) =~= seq!["sync"@, "terminate"@, workspace@]);
        Some(LocalCommand { program: String::from_str("mutagen"), args })
    } else {
        None
    }
}

/// Run `cmd` inside the remote workspace directory: the `ssh` arguments.
pub fn exec_on_vm(vm: &VmConfig, cmd: &str) -> (r: Vec<String>)
    ensures
        views(r@) == base_args_spec() + seq![
            target_spec(vm.user@, vm.host@),
            "cd "@ + shell_escape_spec(vm.path@) + " && "@ + cmd@,
        ],
{
    let ssh = SshSession::new(vm.user.as_str(), vm.host.as_str());
    ssh.exec_in_path(vm.path.as_str(), cmd)
}

/// The error a remote command ends with when it fails: its exit status, or
/// -1 when it has none.
pub fn remote_exit_error(exit: &Exit) -> (r: Option<String>)
    ensures
        exit.success <==> r is None,
        r matches Some(m) ==> m@ == "Remote command exited with status: "@ + decimal_int(
            match exit.code {
                Some(c) => c as int,
                None => -1,
            },
        ),
{
    if exit.success {
        None
    } else {
        let code: i64 = match exit.code {
            Some(c) => c as i64,
            None => -1,
        };
        let mut m = String::from_str("Remote command exited with status: ");
        let d = i64_to_decimal(code);
        m.append(d.as_str());
        Some(m)
    }
}

/// Open an interactive SSH shell on the VM: the `ssh` arguments.
pub fn open_shell(vm: &VmConfig) -> (r: Vec<String>)
    ensures
        views(r@) == seq!["-o"@, "StrictHostKeyChecking=no"@, target_spec(vm.user@, vm.host@)],
{
    let ssh = SshSession::new(vm.user.as_str(), vm.host.as_str());
    ssh.interactive_shell()
}

/// The remote command that tests that the workspace directory exists.
pub fn workspace_check_command(path: &str) -> (r: String)
    ensures
        r@ == "test -d "@ + path@ + " && echo ok"@,
{
    let mut r = String::from_str("test -d ");
    r.append(path);
    r.append(" && echo ok");
    r
}

/// The remote command that creates the workspace directory.
pub fn mkdir_command(path: &str) -> (r: String)
    ensures
        r@ == "mkdir -p "@ + path@,
{
    let mut r = String::from_str("mkdir -p ");
    r.append(path);
    r
}

/// The remote command that deletes and recreates the workspace directory.
pub fn reset_command(path: &str) -> (r: String)
    ensures
        r@ == "rm -rf "@ + path@ + " && mkdir -p "@ + path@,
{
    let mut r = String::from_str("rm -rf ");
    r.append(path);
    r.append(" && mkdir -p ");
    r.append(path);
    r
}

/// The status line of the workspace-directory check of `vm doctor`.
pub fn workspace_check_report(path: &str, outcome: &Outcome) -> (r: Report)
    ensures
        outcome matches Outcome::Exited(e) && e.success ==> r.level == Level::Pass && r.text@
            == "workspace directory exists: "@ + path@,
        !(outcome matches Outcome::Exited(e) && e.success) ==> r.level == Level::Warn && r.text@
            == "workspace directory missing: "@ + path@ + " — run `polyws vm setup`"@,
{
    let ok = match outcome {
        Outcome::Exited(e) => e.success,
        Outcome::NotRun(_) => false,
    };
    if ok {
        let mut t = String::from_str("workspace directory exists: ");
        t.append(path);
        Report { level: Level::Pass, text: t }
    } else {
        let mut t = String::from_str("workspace directory missing: ");
        t.append(path);
        t.append(" — run `polyws vm setup`");
        Report { level: Level::Warn, text: t }
    }
}

} // verus!
