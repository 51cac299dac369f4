use polyws::clock::local_timestamp;
use polyws::config::{Project, VmConfig, WorkspaceConfig};
use polyws::doctor::{check_repos, check_tool, check_workspace, internet_report, suggest_install, Presence};
use polyws::exec::{exec_header, exec_precheck, exec_report, run_result, shell_command};
use polyws::git::{classify_git_hint, has_uncommitted_changes, summarize_git_failure, GitAction, Pull};
use polyws::report::{Exit, Level, Outcome};
use polyws::snapshot::{
    list_line, restore_confirmed, restore_dir, restore_report, restore_step, snapshot_from, snapshot_path,
    CommitLookup, RestoreStep, Snapshot, new_snapshot, new_snapshot_path,
};
use polyws::update::{detect_platform, download_url, is_current, resolve_latest_version, version_from_tag};
use polyws::vm::installer::{install_dependency, InstallError};
use polyws::vm::detect_os::OsType;
use polyws::vm::ssh::{shell_escape, SshSession};

fn exit(success: bool, code: Option<i32>, out: &str, err: &str) -> Exit {
    Exit { success, code, stdout: out.to_string(), stderr: err.to_string() }
}

fn proj(name: &str) -> Project {
    Project {
        name: name.to_string(),
        path: None,
        url: "u".to_string(),
        branch: "main".to_string(),
        depends_on: None,
        sync_url: None,
        sync_interval: None,
    }
}

#[test]
fn platform_and_release_urls() {
    assert_eq!(detect_platform("linux", "x86_64"), Ok("x86_64-unknown-linux-gnu".to_string()));
    assert_eq!(detect_platform("macos", "aarch64"), Ok("aarch64-apple-darwin".to_string()));
    assert_eq!(detect_platform("windows", "x86_64"), Err("Unsupported OS for self-update: windows".to_string()));
    assert_eq!(detect_platform("linux", "riscv64"), Err("Unsupported architecture for self-update: riscv64".to_string()));
    assert_eq!(
        download_url("v1.2.0", "x86_64-unknown-linux-gnu"),
        "https://github.com/cmdworks/polyws/releases/download/v1.2.0/polyws-x86_64-unknown-linux-gnu.tar.gz"
    );
    assert!(is_current("v0.1.0", "0.1.0"));
    assert!(!is_current("0.1.0", "0.1.0"));
}

#[test]
fn latest_version_from_the_api_answer() {
    let body = br#"{"tag_name": "v2.0.1", "name": "x"}"#.to_vec();
    assert_eq!(resolve_latest_version(true, &body), Ok("v2.0.1".to_string()));
    assert_eq!(resolve_latest_version(true, &b"not json".to_vec()), Err("Invalid JSON from GitHub API".to_string()));
    assert_eq!(
        resolve_latest_version(true, &br#"{"tag_name": 3}"#.to_vec()),
        Err("No tag_name field in GitHub API response".to_string())
    );
    assert_eq!(
        resolve_latest_version(false, &body),
        Err("Failed to fetch latest release info from GitHub".to_string())
    );
    assert_eq!(version_from_tag(Ok(Some("v1".to_string()))), Ok("v1".to_string()));
}

#[test]
fn doctor_reports() {
    assert_eq!(suggest_install("git", false), "brew install git  |  sudo apt-get install git");
    assert_eq!(suggest_install("cargo", true), "download rustup from https://rustup.rs/");
    assert_eq!(suggest_install("zsh", false), "see your package manager");
    let ssh = Outcome::Exited(exit(false, Some(255), "", "OpenSSH_9.0"));
    let r = check_tool("ssh", "ssh available", &ssh, false);
    assert_eq!(r.len(), 1);
    assert_eq!(r[0].level, Level::Pass);
    let broken = Outcome::Exited(exit(false, Some(1), "", ""));
    let r = check_tool("git", "git installed", &broken, false);
    assert_eq!(r[0].text, "git not working");
    assert_eq!(r[1].text, "Fix: brew install git  |  sudo apt-get install git");
    let missing = Outcome::NotRun("not found".to_string());
    assert_eq!(check_tool("rustc", "rustc installed", &missing, false)[0].text, "rustc installed");
    assert_eq!(internet_report(false).text, "internet not reachable");
    let cfg = WorkspaceConfig { name: "w".to_string(), sync_interval_minutes: None, projects: vec![proj("a"), proj("b")], vm: None };
    let r = check_repos(&cfg, &vec![Presence::NotARepo, Presence::Missing]);
    assert_eq!(r[0].text, "'a' exists but is not a git repo");
    assert_eq!(r[1].text, "repo 'b' not cloned \u{2014} run `polyws pull`");
    let r = check_workspace(false, &Err(String::new()), &vec![]);
    assert_eq!(
        r[0].text,
        "no workspace config found (tried: .polyws, .poly, .polyws.json, .poly.json, .polyws.toml, .poly.toml)"
    );
    let r = check_workspace(true, &Ok(cfg.clone()), &vec![Presence::Repo, Presence::Repo]);
    assert_eq!(r.len(), 3);
    assert_eq!(r[0].text, "workspace config valid (w)");
    let r = check_workspace(true, &Err("bad".to_string()), &vec![]);
    assert_eq!(r[0].text, "workspace config invalid: bad");
}

#[test]
fn exec_messages() {
    let (prog, args) = shell_command("make", false);
    assert_eq!(prog, "sh");
    assert_eq!(args, vec!["-c", "make"]);
    let (prog, args) = shell_command("make", true);
    assert_eq!(prog, "cmd");
    assert_eq!(args, vec!["/C", "make"]);
    assert_eq!(
        exec_precheck(false, "apps/a", "a"),
        Err("directory 'apps/a' for project 'a' not found \u{2014} run `polyws pull` first".to_string())
    );
    assert_eq!(run_result("d", &Outcome::Exited(exit(false, Some(2), "", ""))), Err("command exited with status 2".to_string()));
    assert_eq!(run_result("d", &Outcome::Exited(exit(false, None, "", ""))), Err("command exited with status -1".to_string()));
    assert_eq!(run_result("d", &Outcome::NotRun("nope".to_string())), Err("Failed to spawn command in 'd': nope".to_string()));
    assert_eq!(exec_report("a", &Ok(())).text, "a succeeded");
    assert_eq!(exec_report("a", &Err("x".to_string())).text, "a failed: x");
    assert_eq!(exec_header("ls", 3, 2), "Executing \x1b[1mls\x1b[0m across 3 project(s) in 2 level(s)\n");
}

#[test]
fn snapshots() {
    let a = proj("a");
    let b = proj("b");
    let c = proj("c");
    let order = vec![&a, &b, &c];
    let found = vec![
        CommitLookup::Found("abc1234".to_string()),
        CommitLookup::Missing,
        CommitLookup::Failed("no HEAD".to_string()),
    ];
    let (snap, warnings) = snapshot_from("ws", "2024-01-01T00:00:00+00:00".to_string(), &order, &found);
    assert_eq!(snap.commits, vec![("a".to_string(), "abc1234".to_string())]);
    assert_eq!(snap.workspace, "ws");
    assert_eq!(warnings[0].text, "'b' not found, skipping");
    assert_eq!(warnings[1].text, "Could not snapshot 'c': no HEAD");
    assert_eq!(snapshot_path("20240101_000000"), ".polyws/snapshots/20240101_000000.json");
    assert!(restore_confirmed("  restore\n"));
    assert!(!restore_confirmed("yes"));
    let mut moved = proj("a");
    moved.path = Some("apps/a".to_string());
    let cfg = WorkspaceConfig { name: "w".to_string(), sync_interval_minutes: None, projects: vec![moved], vm: None };
    assert_eq!(restore_dir(Some(&cfg), "a"), "apps/a");
    assert_eq!(restore_dir(Some(&cfg), "z"), "z");
    assert_eq!(restore_dir(None, "a"), "a");
    assert_eq!(restore_step(false, true), RestoreStep::Skip);
    assert_eq!(restore_step(true, true), RestoreStep::DryRun);
    assert_eq!(restore_report("a", "apps/a", "abc", RestoreStep::Skip, &Ok(())).text, "'a' (apps/a) not found, skipping");
    assert_eq!(restore_report("a", "a", "abc", RestoreStep::Reset, &Ok(())).text, "a \u{2192} abc");
    let s = Snapshot { created_at: "t".to_string(), workspace: "w".to_string(), commits: vec![] };
    assert_eq!(list_line("f.json", Some(&s)), "  \u{2022} f.json  created t  (0 repos)");
    assert_eq!(list_line("f.json", None), "  \u{2022} f.json");
}

#[test]
fn snapshot_keeps_one_commit_per_name() {
    let a = proj("a");
    let a2 = proj("a");
    let order = vec![&a, &a2];
    let found = vec![CommitLookup::Found("1111111".to_string()), CommitLookup::Found("2222222".to_string())];
    let (snap, _) = snapshot_from("ws", String::new(), &order, &found);
    assert_eq!(snap.commits, vec![("a".to_string(), "2222222".to_string())]);
}

#[test]
fn git_messages() {
    assert_eq!(
        classify_git_hint("ERROR: Permission denied (publickey)."),
        Some("SSH auth failed. Check your SSH key, ssh-agent, and host alias in ~/.ssh/config.".to_string())
    );
    assert_eq!(classify_git_hint("all good"), None);
    assert_eq!(summarize_git_failure(&exit(false, Some(128), "", "  fatal: repository not found \n")),
        "fatal: repository not found | Hint: Repository was not found or access is missing. Verify repo URL and permissions.");
    assert_eq!(summarize_git_failure(&exit(false, None, "", "")), "git exited with status -1");
    assert_eq!(has_uncommitted_changes("r", &exit(true, Some(0), " M a.rs\n", "")), Ok(true));
    assert_eq!(has_uncommitted_changes("r", &exit(true, Some(0), "\n", "")), Ok(false));
    assert_eq!(has_uncommitted_changes("r", &exit(false, Some(1), "", "")), Err("git status failed in r".to_string()));
}

#[test]
fn pull_starts_with_a_fetch() {
    let (_p, first) = Pull::start("repo", "main", false);
    match first {
        GitAction::Run { args, show_output } => {
            assert_eq!(args, vec!["fetch", "--all", "--prune"]);
            assert!(!show_output);
        }
        _ => panic!("expected a command"),
    }
}

#[test]
fn vm_commands() {
    assert_eq!(shell_escape("it's"), "'it'\\''s'");
    let ssh = SshSession::new("dev", "box");
    assert_eq!(ssh.target(), "dev@box");
    assert_eq!(
        ssh.base_args(),
        vec!["-o", "StrictHostKeyChecking=no", "-o", "BatchMode=yes", "-o", "ConnectTimeout=10"]
    );
    assert_eq!(install_dependency(&OsType::Arch, "git"), Ok("sudo pacman -S --noconfirm git".to_string()));
    assert_eq!(
        install_dependency(&OsType::Ubuntu, "rm -rf"),
        Err(InstallError::UnsafeName("rm -rf".to_string()))
    );
    assert_eq!(
        install_dependency(&OsType::Unknown("Plan9".to_string()), "git").unwrap_err().message(),
        "Cannot install 'git': unsupported OS 'Plan9'"
    );
    let vm = VmConfig {
        host: "box".to_string(),
        user: "dev".to_string(),
        path: "/work".to_string(),
        sync: "rsync".to_string(),
        dependencies: vec![],
    };
    let cmd = polyws::vm::exec_on_vm(&vm, "make");
    assert_eq!(cmd.last().unwrap(), "cd '/work' && make");
    assert!(polyws::vm::sync_stop(&vm, "ws").is_none());
}

#[test]
fn local_timestamp_has_the_commit_stamp_shape() {
    let t = local_timestamp();
    let c: Vec<char> = t.chars().collect();
    assert_eq!(c.len(), 19);
    for (i, ch) in c.iter().enumerate() {
        match i {
            4 | 7 => assert_eq!(*ch, '-'),
            10 => assert_eq!(*ch, 'T'),
            13 | 16 => assert_eq!(*ch, ':'),
            _ => assert!(ch.is_ascii_digit()),
        }
    }
    let month: u32 = t[5..7].parse().unwrap();
    let hour: u32 = t[11..13].parse().unwrap();
    assert!((1..=12).contains(&month));
    assert!(hour <= 23);
}

#[test]
fn snapshot_file_is_named_by_the_utc_stamp() {
    let p = new_snapshot_path();
    assert!(p.starts_with(".polyws/snapshots/"));
    assert!(p.ends_with(".json"));
    let stamp: Vec<char> = p[".polyws/snapshots/".len()..p.len() - ".json".len()].chars().collect();
    assert_eq!(stamp.len(), 15);
    for (i, c) in stamp.iter().enumerate() {
        if i == 8 {
            assert_eq!(*c, '_');
        } else {
            assert!(c.is_ascii_digit());
        }
    }
}

#[test]
fn snapshot_records_an_rfc3339_utc_time() {
    let cfg = WorkspaceConfig { name: "w".to_string(), sync_interval_minutes: None, projects: vec![], vm: None };
    let (snap, warnings) = new_snapshot(&cfg, &vec![], &vec![]);
    assert!(warnings.is_empty());
    assert_eq!(snap.workspace, "w");
    let t = &snap.created_at;
    assert!(t.ends_with("+00:00"));
    let c: Vec<char> = t.chars().collect();
    assert_eq!(c[4], '-');
    assert_eq!(c[7], '-');
    assert_eq!(c[10], 'T');
    assert_eq!(c[13], ':');
    assert_eq!(c[16], ':');
}

#[test]
fn shell_punctuation_is_refused_in_a_dependency() {
    assert_eq!(
        install_dependency(&OsType::Ubuntu, "git; rm -rf ~"),
        Err(InstallError::UnsafeName("git; rm -rf ~".to_string()))
    );
}

#[test]
fn snapshot_lists_commits_in_the_order_taken() {
    let (c, b, a) = (proj("c"), proj("b"), proj("a"));
    let order = vec![&c, &b, &a];
    let found = vec![
        CommitLookup::Found("ccc0001".to_string()),
        CommitLookup::Missing,
        CommitLookup::Found("aaa0001".to_string()),
    ];
    let (first, _) = snapshot_from("ws", "t".to_string(), &order, &found);
    let (second, _) = snapshot_from("ws", "u".to_string(), &order, &found);
    let expected = vec![("c".to_string(), "ccc0001".to_string()), ("a".to_string(), "aaa0001".to_string())];
    assert_eq!(first.commits, expected);
    assert_eq!(second.commits, expected);
}
