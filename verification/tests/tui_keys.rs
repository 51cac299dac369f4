use polyws::tui::keys::{Action, PushScope, Ui};
use polyws::tui::tasks::{
    commit_line, doctor_lines, exec_lines, form_project_checked, push_plan, pushed_line, result_line,
    task_done_message, task_pull_plan, DirtyProbe, PushPlan, TaskMsg, TaskPull,
};
use polyws::tui::types::{move_down, move_up, AddForm, Key, Tab};
use polyws::tui::view::{
    base_name_of, field_display, field_height, hint, layout_for, level_lines, log_tone, overview_lines,
    recent_snapshots, status_tone, FieldLook, Tone,
};
use polyws::config::{Project, WorkspaceConfig};
use polyws::doctor::Presence;
use polyws::report::{Exit, Outcome};

fn ui() -> Ui {
    Ui::new(true, 3, 2, false)
}

#[test]
fn tabs_and_titles() {
    assert_eq!(Tab::titles(), vec!["1:Dash", "2:Proj", "3:Graph", "4:Snap", "5:Sync", "6:Doctor"]);
    assert_eq!(Tab::from_usize(0), Tab::Dashboard);
    assert_eq!(Tab::from_usize(4), Tab::Sync);
    assert_eq!(Tab::from_usize(99), Tab::Logs);
    assert_eq!(Tab::Snapshots.index(), 3);
}

#[test]
fn add_form_default() {
    let f = AddForm::new();
    assert_eq!(f.fields, vec!["", "", "", "main", "", ""]);
    assert_eq!(f.focused, 0);
}

#[test]
fn selection_moves_and_wraps() {
    assert_eq!(move_up(Some(0), 3), Some(2));
    assert_eq!(move_up(Some(2), 3), Some(1));
    assert_eq!(move_down(Some(2), 3), Some(0));
    assert_eq!(move_down(None, 3), Some(1));
    assert_eq!(move_up(Some(1), 0), Some(1));
    assert_eq!(move_down(Some(usize::MAX), 2), Some(0));
}

#[test]
fn keys_switch_tabs_and_quit() {
    let mut u = ui();
    assert!(u.handle_key(Key::Char('3'), false).is_empty());
    assert_eq!(u.tab, Tab::Graph);
    u.handle_key(Key::Tab, false);
    assert_eq!(u.tab, Tab::Snapshots);
    u.handle_key(Key::BackTab, false);
    u.handle_key(Key::BackTab, false);
    assert_eq!(u.tab, Tab::Projects);
    assert_eq!(u.handle_key(Key::Char('q'), false), vec![Action::Quit]);
    assert_eq!(u.handle_key(Key::Char('c'), true), vec![Action::Quit]);
}

#[test]
fn keys_on_tabs_ask_for_work() {
    let mut u = ui();
    assert_eq!(u.handle_key(Key::Char('p'), false), vec![Action::PullAll]);
    u.handle_key(Key::Char('2'), false);
    assert_eq!(u.handle_key(Key::Char('f'), false), vec![Action::PullSelected(true)]);
    assert_eq!(u.handle_key(Key::Down, false), vec![]);
    assert_eq!(u.selected, Some(1));
    u.handle_key(Key::Char('4'), false);
    assert_eq!(u.handle_key(Key::Char('r'), false), vec![Action::Reload, Action::RestoreSnapshot(0)]);
}

#[test]
fn exec_prompt_collects_a_command() {
    let mut u = ui();
    u.handle_key(Key::Char('2'), false);
    u.handle_key(Key::Char('e'), false);
    assert!(u.show_exec_prompt);
    for c in " ls -la ".chars() {
        u.handle_key(Key::Char(c), false);
    }
    u.handle_key(Key::Backspace, false);
    assert_eq!(u.exec_input, " ls -la");
    assert_eq!(u.handle_key(Key::Enter, false), vec![Action::RunExec("ls -la".to_string())]);
    assert!(!u.show_exec_prompt);
    assert_eq!(u.exec_input, "");
}

#[test]
fn add_form_keys() {
    let mut u = ui();
    u.handle_key(Key::Char('a'), false);
    assert!(u.show_add_form);
    u.handle_key(Key::Char('x'), false);
    u.handle_key(Key::Up, false);
    assert_eq!(u.add_form.focused, 5);
    u.handle_key(Key::Char('y'), false);
    assert_eq!(u.add_form.fields[0], "x");
    assert_eq!(u.add_form.fields[5], "y");
    assert_eq!(u.handle_key(Key::Enter, false), vec![Action::SubmitAddForm]);
    u.handle_key(Key::Esc, false);
    assert!(!u.show_add_form);
    assert_eq!(u.add_form.fields[0], "");
    let mut none = Ui::new(false, 0, 0, false);
    none.handle_key(Key::Char('a'), false);
    assert!(!none.show_add_form);
    assert_eq!(
        none.status,
        Some(("No workspace loaded. Press  i  to initialize first.".to_string(), true))
    );
    assert_eq!(none.handle_key(Key::Char('i'), false), vec![Action::InitWorkspace]);
}

#[test]
fn delete_needs_confirmation() {
    let mut u = ui();
    u.request_delete("core", "apps/core", true);
    assert!(u.confirm_delete);
    assert_eq!(u.handle_key(Key::Char('q'), false), vec![]);
    u.handle_key(Key::Char('n'), false);
    assert!(!u.confirm_delete);
    assert_eq!(u.status, Some(("Delete cancelled".to_string(), false)));
    u.request_delete("root", " ./ ", true);
    assert_eq!(u.status, Some(("Refusing to delete workspace root (path '.')".to_string(), true)));
    u.request_delete("core", "apps/core", true);
    assert_eq!(u.handle_key(Key::Char('Y'), false), vec![Action::DeleteConfirmed]);
    assert!(u.finish_delete(&Ok(())));
    assert_eq!(u.status, Some(("Deleted local copy of 'core'".to_string(), false)));
}

#[test]
fn commit_prompt_starts_the_push() {
    let mut u = ui();
    let cfg = WorkspaceConfig { name: "w".to_string(), sync_interval_minutes: None, projects: vec![proj("a"), proj("b")], vm: None };
    let probes = vec![DirtyProbe::Skipped, DirtyProbe::Answer(Ok(true))];
    assert!(!u.request_push_all(&cfg, &probes));
    assert!(u.show_commit_prompt);
    assert_eq!(u.handle_key(Key::Enter, false), vec![]);
    assert_eq!(u.status, Some(("Commit message required".to_string(), true)));
    for c in "fix".chars() {
        u.handle_key(Key::Char(c), false);
    }
    assert_eq!(u.handle_key(Key::Enter, false), vec![Action::StartPush(PushScope::All, "fix".to_string())]);
    let failing = vec![DirtyProbe::Answer(Err("boom".to_string())), DirtyProbe::Answer(Ok(true))];
    assert!(!u.request_push_all(&cfg, &failing));
    assert_eq!(u.status, Some(("a: boom".to_string(), true)));
    assert!(u.request_push_all(&cfg, &vec![DirtyProbe::Skipped, DirtyProbe::Answer(Ok(false))]));
}

fn proj(name: &str) -> Project {
    Project {
        name: name.to_string(),
        path: None,
        url: "u".to_string(),
        branch: "main".to_string(),
        depends_on: None,
        sync_url: None,
        sync_interval: None,
    }
}

#[test]
fn tasks_report_progress() {
    let mut u = ui();
    assert!(!u.busy());
    u.start_task("pull-all".to_string());
    assert_eq!(u.tab, Tab::Logs);
    assert!(u.busy());
    assert_eq!(u.status, Some(("Another task is already running".to_string(), true)));
    assert!(!u.on_task_message(TaskMsg::Log("\u{2714} core".to_string())));
    assert_eq!(u.log_lines, vec!["\u{2714} core"]);
    assert!(u.on_task_message(TaskMsg::Done { ok: false, msg: task_done_message("pull-all", true) }));
    assert!(!u.task_running);
    assert_eq!(u.status, Some(("pull-all finished with errors".to_string(), true)));
}

#[test]
fn per_project_plans() {
    assert_eq!(task_pull_plan(true, false, false), TaskPull::InitInPlace);
    assert_eq!(task_pull_plan(false, false, false), TaskPull::Clone);
    assert_eq!(push_plan("a", false, false, &Ok(false), true), PushPlan::Fail("\u{2718} a: missing (run pull first)".to_string()));
    assert_eq!(push_plan("a", true, true, &Ok(true), true), PushPlan::Commit);
    assert_eq!(
        push_plan("a", true, true, &Ok(true), false),
        PushPlan::Fail("\u{2718} a: has uncommitted changes (commit required)".to_string())
    );
    assert_eq!(push_plan("a", true, true, &Err("x".to_string()), false), PushPlan::Push);
    assert_eq!(result_line("a", &Ok(())), "\u{2714} a");
    assert_eq!(commit_line("a", &Err("e".to_string())), "\u{2718} a: commit failed: e");
    assert_eq!(pushed_line("a", &Ok(())), "\u{2714} a pushed");
}

#[test]
fn add_form_validation() {
    let mut f = AddForm::new();
    f.fields[0] = " api ".to_string();
    f.fields[1] = "svc/api".to_string();
    f.fields[2] = "git@x:api.git".to_string();
    f.fields[3] = "".to_string();
    f.fields[5] = "core, util,".to_string();
    let existing = vec![proj("core")];
    let p = form_project_checked(&f, Some(&existing), false).unwrap();
    assert_eq!(p.name, "api");
    assert_eq!(p.path, Some("svc/api".to_string()));
    assert_eq!(p.branch, "main");
    assert_eq!(p.depends_on, Some(vec!["core".to_string(), "util".to_string(), "".to_string()]));
    assert_eq!(p.sync_url, None);
    f.fields[1] = "core".to_string();
    assert_eq!(form_project_checked(&f, Some(&existing), false).unwrap_err(), "project path 'core' is already used");
    f.fields[2] = " ".to_string();
    assert_eq!(form_project_checked(&f, Some(&existing), false).unwrap_err(), "Name and URL are required");
    f.fields[2] = "u".to_string();
    assert_eq!(form_project_checked(&f, None, false).unwrap_err(), "No workspace loaded. Run `polyws init` first.");
    f.fields[0] = "core".to_string();
    assert_eq!(form_project_checked(&f, Some(&existing), false).unwrap_err(), "'core' already exists");
}

#[test]
fn doctor_and_exec_lines() {
    let cfg = WorkspaceConfig { name: "w".to_string(), sync_interval_minutes: None, projects: vec![proj("a"), proj("b")], vm: None };
    let lines = doctor_lines(
        &vec![("git installed".to_string(), true), ("ssh available".to_string(), false)],
        true,
        Some(&cfg),
        &vec![Presence::Repo, Presence::Missing],
    );
    assert_eq!(
        lines,
        vec![
            "\u{2714} git installed",
            "\u{2718} ssh available",
            "\u{2714} internet reachable",
            "\u{2714} workspace 'w' loaded",
            "\u{2714} repo 'a' present",
            "\u{26A0} repo 'b' not cloned",
        ]
    );
    let ok = Outcome::Exited(Exit { success: true, code: Some(0), stdout: "x\ny\n".to_string(), stderr: String::new() });
    assert_eq!(exec_lines("a", &ok), vec!["\u{2500}\u{2500} a \u{2500}\u{2500}", "   x", "   y"]);
    let bad = Outcome::NotRun("directory missing".to_string());
    assert_eq!(exec_lines("a", &bad), vec!["\u{2718} a: directory missing"]);
}

#[test]
fn views_of_the_screens() {
    assert_eq!(hint(false, Tab::Projects, true), "i:Init q:Quit");
    assert_eq!(hint(true, Tab::Sync, false), "s:Start/Stop n:SyncNow r:Reload q:Quit");
    assert_eq!(layout_for(80), (true, 2, true));
    assert_eq!(layout_for(100), (false, 1, true));
    assert_eq!(layout_for(120), (false, 1, false));
    assert_eq!(status_tone("missing", true), Tone::Bad);
    assert_eq!(status_tone("\u{2718} x", true), Tone::Bad);
    assert_eq!(status_tone("\u{2718} x", false), Tone::Good);
    assert_eq!(status_tone("main (2 modified)", false), Tone::Notice);
    assert_eq!(overview_lines(3, 1, true), vec![" Projects    : 3", " Snapshots   : 1", " Sync daemon : running"]);
    assert_eq!(base_name_of(".polyws/snapshots/a.json"), "a.json");
    assert_eq!(base_name_of("plain"), "plain");
    let files: Vec<String> = (0..12).map(|i| format!("d/{:02}.json", i)).collect();
    let recent = recent_snapshots(&files);
    assert_eq!(recent.len(), 10);
    assert_eq!(recent[0], " 11.json");
    assert_eq!(recent[9], " 02.json");
    assert_eq!(log_tone("\u{26A0} x"), Tone::Notice);
    assert_eq!(field_height(40), 4);
    assert_eq!(field_height(20), 3);
    assert_eq!(field_display(true, "  ", false, "main"), ("main".to_string(), FieldLook::Filled));
    assert_eq!(field_display(false, "", false, "required"), ("required".to_string(), FieldLook::Hint));
    assert_eq!(field_display(false, "ab", true, "h"), ("ab|".to_string(), FieldLook::Focused));
    let levels = vec![vec!["core".to_string()], vec!["api".to_string(), "web".to_string()]];
    assert_eq!(
        level_lines(&levels),
        vec!["", "  Level 1", "   \u{2514}\u{2500} core", "", "  Level 2", "   \u{2514}\u{2500} api, web", ""]
    );
}
