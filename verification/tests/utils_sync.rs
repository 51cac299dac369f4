use polyws::config::{Project, WorkspaceConfig};
use polyws::parse::{lines, parse_u32};
use polyws::sync::{
    SyncSchedule,
    default_interval, due_projects, is_daemon_running, is_due, last_log_line, project_interval, read_pid,
    started_message, status_message, stop_message, sync_now_silent, sync_targets, SyncOutcome,
};
use polyws::utils::{git_lock_file, lock_file_content, read_lock_pid, table_lines, RepoLock};

fn mirrored(name: &str, url: Option<&str>, interval: Option<u64>) -> Project {
    Project {
        name: name.to_string(),
        path: None,
        url: String::new(),
        branch: "main".to_string(),
        depends_on: None,
        sync_url: url.map(|u| u.to_string()),
        sync_interval: interval,
    }
}

#[test]
fn parse_u32_like_std() {
    assert_eq!(parse_u32("42"), Some(42));
    assert_eq!(parse_u32("+7"), Some(7));
    assert_eq!(parse_u32("007"), Some(7));
    assert_eq!(parse_u32("4294967295"), Some(u32::MAX));
    assert_eq!(parse_u32("4294967296"), None);
    assert_eq!(parse_u32(""), None);
    assert_eq!(parse_u32("+"), None);
    assert_eq!(parse_u32("-1"), None);
    assert_eq!(parse_u32(" 1"), None);
    for s in ["0", "12x", "99999999999999999999", "+0"] {
        assert_eq!(parse_u32(s), s.parse::<u32>().ok());
    }
}

#[test]
fn lines_like_std() {
    for s in ["", "a", "a\n", "a\r\nb", "a\n\nb\r", "\n", "x\r\n\r\n", "a\rb\n"] {
        let expected: Vec<String> = s.lines().map(|l| l.to_string()).collect();
        assert_eq!(lines(s), expected, "text {:?}", s);
    }
}

#[test]
fn lock_file_round_trip() {
    let content = lock_file_content(4242, "tui-pull");
    assert_eq!(content, "pid=4242\nlabel=tui-pull\n");
    assert_eq!(read_lock_pid(&content), Some(4242));
    assert_eq!(read_lock_pid("label=x\npid= 17 \n"), Some(17));
    assert_eq!(read_lock_pid("pid=abc\npid=9"), Some(9));
    assert_eq!(read_lock_pid("nothing"), None);
    assert_eq!(git_lock_file(), ".polyws/git.lock");
    assert_eq!(RepoLock::new().path, ".polyws/git.lock");
}

#[test]
fn table_is_aligned() {
    let rows = vec![vec!["foo".to_string(), "main".to_string(), "clean".to_string()]];
    let t = table_lines(&["Name", "Branch", "Status"], &rows, &["", "36", ""]);
    assert_eq!(t.len(), 5);
    assert_eq!(t[0], "\u{250C}\u{2500}\u{2500}\u{2500}\u{2500}\u{2500}\u{2500}\u{252C}\u{2500}\u{2500}\u{2500}\u{2500}\u{2500}\u{2500}\u{2500}\u{2500}\u{252C}\u{2500}\u{2500}\u{2500}\u{2500}\u{2500}\u{2500}\u{2500}\u{2500}\u{2510}");
    assert_eq!(t[1], "\u{2502} \x1b[1mName\x1b[0m \u{2502} \x1b[1mBranch\x1b[0m \u{2502} \x1b[1mStatus\x1b[0m \u{2502}");
    assert_eq!(t[3], "\u{2502} foo  \u{2502} \x1b[36mmain\x1b[0m   \u{2502} clean  \u{2502}");
    assert!(t[4].starts_with('\u{2514}') && t[4].ends_with('\u{2518}'));
}

#[test]
fn intervals_and_due() {
    let mut cfg = WorkspaceConfig { name: "w".to_string(), sync_interval_minutes: None, projects: vec![], vm: None };
    assert_eq!(default_interval(&cfg), 5);
    cfg.sync_interval_minutes = Some(0);
    assert_eq!(default_interval(&cfg), 1);
    assert_eq!(project_interval(&mirrored("a", None, Some(0)), 5), 1);
    assert_eq!(project_interval(&mirrored("a", None, None), 7), 7);
    assert!(is_due(None, 5));
    assert!(!is_due(Some(299), 5));
    assert!(is_due(Some(300), 5));
    assert!(!is_due(Some(0), 1));
    assert!(!is_due(Some(u64::MAX), u64::MAX));
}

#[test]
fn due_projects_follow_their_intervals() {
    let cfg = WorkspaceConfig {
        name: "w".to_string(),
        sync_interval_minutes: Some(10),
        projects: vec![
            mirrored("a", Some("m:a"), None),
            mirrored("b", None, None),
            mirrored("c", Some("m:c"), Some(1)),
            mirrored("d", Some("m:d"), None),
        ],
        vm: None,
    };
    let last = vec![("a".to_string(), 120u64), ("c".to_string(), 120u64)];
    assert_eq!(due_projects(&cfg, &last), vec![2, 3]);
    assert_eq!(sync_targets(&cfg), vec![0, 2, 3]);
}

#[test]
fn sync_pass_lines() {
    let cfg = WorkspaceConfig {
        name: "w".to_string(),
        sync_interval_minutes: None,
        projects: vec![mirrored("a", Some("m:a"), None), mirrored("b", None, None), mirrored("c", Some("m:c"), None)],
        vm: None,
    };
    let outcomes = vec![SyncOutcome::Pushed, SyncOutcome::Missing, SyncOutcome::Failed("boom".to_string())];
    let (shown, logged) = sync_now_silent(&cfg, &outcomes);
    assert_eq!(shown, vec!["\u{2714} a \u{2192} m:a", "\u{2718} c: boom"]);
    assert_eq!(logged, vec!["sync: a \u{2192} m:a", "sync: c: boom"]);
    let none = WorkspaceConfig { name: "w".to_string(), sync_interval_minutes: None, projects: vec![mirrored("b", None, None)], vm: None };
    let (shown, logged) = sync_now_silent(&none, &vec![SyncOutcome::Missing]);
    assert_eq!(shown, vec!["No projects have a sync_url configured."]);
    assert!(logged.is_empty());
}

#[test]
fn pid_file_handling() {
    assert_eq!(read_pid(" 1234\n"), Some(1234));
    assert_eq!(read_pid("x"), None);
    assert!(is_daemon_running(Some("12"), true));
    assert!(!is_daemon_running(Some("12"), false));
    assert!(!is_daemon_running(Some("bad"), true));
    assert!(!is_daemon_running(None, true));
    assert_eq!(stop_message(None, false), Ok("Sync daemon is not running.".to_string()));
    assert_eq!(stop_message(Some("bad"), true), Err("Invalid PID in file".to_string()));
    assert_eq!(stop_message(Some("77"), true), Ok("Sync daemon stopped (PID 77)".to_string()));
    assert_eq!(
        stop_message(Some("77"), false),
        Ok("Could not signal daemon \u{2014} it may have already stopped.".to_string())
    );
    assert_eq!(started_message(9), "Sync daemon started (PID 9)");
    assert_eq!(status_message(true, " 9\n"), "Sync daemon running (PID 9)");
    assert_eq!(status_message(false, ""), "Sync daemon is not running");
    assert_eq!(last_log_line("a\nb\n"), Some("b".to_string()));
    assert_eq!(last_log_line(""), None);
}

#[test]
fn daemon_schedule_waits_for_the_interval() {
    let cfg = WorkspaceConfig {
        name: "w".to_string(),
        sync_interval_minutes: Some(2),
        projects: vec![mirrored("a", Some("m:a"), None), mirrored("b", None, None)],
        vm: None,
    };
    let mut s = SyncSchedule::new();
    assert_eq!(s.due(&cfg, 0), vec![0]);
    s.record("a".to_string(), 100);
    assert!(s.due(&cfg, 100).is_empty());
    assert!(s.due(&cfg, 219).is_empty());
    assert_eq!(s.due(&cfg, 220), vec![0]);
    s.record("a".to_string(), 300);
    assert_eq!(s.last.len(), 1);
    assert!(s.due(&cfg, 400).is_empty());
    assert_eq!(s.elapsed(400), vec![("a".to_string(), 100)]);
}

#[test]
fn recording_one_project_leaves_the_others_due() {
    let cfg = WorkspaceConfig {
        name: "w".to_string(),
        sync_interval_minutes: Some(1),
        projects: vec![mirrored("a", Some("m:a"), None), mirrored("b", Some("m:b"), None)],
        vm: None,
    };
    let mut s = SyncSchedule::new();
    s.record("a".to_string(), 50);
    assert_eq!(s.due(&cfg, 60), vec![1]);
    assert_eq!(s.due(&cfg, 10), vec![1]);
    assert_eq!(s.due(&cfg, 110), vec![0, 1]);
}
