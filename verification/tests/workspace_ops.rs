use polyws::config::{Project, WorkspaceConfig};
use polyws::dirs::{config_write_path, find_existing_config_path, known_config_paths, normalize_local_dir};
use polyws::report::Level;
use polyws::workspace::{
    level_banner, list_row, new_workspace, pull_plan, pull_report, push_precheck, repair_closing_report,
    repair_opening_reports, repair_step, set_remote_args, status_row, AddError, PullPlan, RepairStep,
};

fn ws() -> WorkspaceConfig {
    new_workspace("ws".to_string())
}

fn add(cfg: &mut WorkspaceConfig, name: &str, path: Option<&str>, deps: &[&str]) -> Result<(), AddError> {
    cfg.add_project_checked(
        name.to_string(),
        path.map(|p| p.to_string()),
        format!("git@x:{}.git", name),
        "main".to_string(),
        deps.iter().map(|d| d.to_string()).collect(),
        None,
        false,
    )
}

#[test]
fn normalize_local_dir_examples() {
    assert_eq!(normalize_local_dir("  apps//platform/./core/ "), "apps/platform/core");
    assert_eq!(normalize_local_dir("apps\\core"), "apps/core");
    assert_eq!(normalize_local_dir("./"), ".");
    assert_eq!(normalize_local_dir(""), ".");
    assert_eq!(normalize_local_dir("core"), "core");
}

#[test]
fn config_file_names() {
    assert_eq!(known_config_paths(), vec![".polyws", ".poly", ".polyws.json", ".poly.json", ".polyws.toml", ".poly.toml"]);
    assert_eq!(find_existing_config_path(&vec![false, true, true, false, false, false]), Some(".poly"));
    assert_eq!(find_existing_config_path(&vec![false; 6]), None);
    assert_eq!(config_write_path(false, true), ".poly");
    assert_eq!(config_write_path(true, true), ".polyws");
    assert_eq!(config_write_path(false, false), ".polyws");
}

#[test]
fn add_appends_a_project() {
    let mut cfg = ws();
    assert_eq!(add(&mut cfg, "core", Some("apps/core"), &[]), Ok(()));
    assert_eq!(add(&mut cfg, "api", None, &["core"]), Ok(()));
    assert_eq!(cfg.projects.len(), 2);
    assert_eq!(cfg.projects[0].path, Some("apps/core".to_string()));
    assert_eq!(cfg.projects[1].path, None);
    assert_eq!(cfg.projects[1].depends_on, Some(vec!["core".to_string()]));
    assert_eq!(cfg.projects[0].depends_on, None);
    assert_eq!(cfg.find_project("api").unwrap().url, "git@x:api.git");
}

#[test]
fn add_keeps_a_path_only_when_it_differs_from_the_name() {
    let mut cfg = ws();
    assert_eq!(add(&mut cfg, "core", Some("  core  "), &[]), Ok(()));
    assert_eq!(cfg.projects[0].path, None);
    assert_eq!(add(&mut cfg, "api", Some("   "), &[]), Ok(()));
    assert_eq!(cfg.projects[1].path, None);
}

#[test]
fn add_refuses_bad_projects() {
    let mut cfg = ws();
    add(&mut cfg, "core", Some("apps/core"), &[]).unwrap();
    assert_eq!(add(&mut cfg, "core", None, &[]), Err(AddError::Exists("core".to_string())));
    assert_eq!(add(&mut cfg, "x", Some("apps//core/"), &[]), Err(AddError::PathUsed("apps//core/".to_string())));
    assert_eq!(add(&mut cfg, "y", None, &["y"]), Err(AddError::SelfDependency("y".to_string())));
    assert_eq!(add(&mut cfg, "z", None, &["core", "ghost"]), Err(AddError::MissingDependency("ghost".to_string())));
    let abs = cfg.add_project_checked(
        "w".to_string(),
        Some("/abs".to_string()),
        "u".to_string(),
        "main".to_string(),
        vec![],
        None,
        true,
    );
    assert_eq!(abs, Err(AddError::AbsolutePath));
    assert_eq!(cfg.projects.len(), 1);
}

#[test]
fn add_error_messages() {
    assert_eq!(AddError::Exists("a".to_string()).message(), "Project 'a' already exists in the workspace");
    assert_eq!(AddError::AbsolutePath.message(), "Project path must be relative to workspace root");
    assert_eq!(AddError::PathUsed("p".to_string()).message(), "Project path 'p' is already used by another project");
    assert_eq!(AddError::SelfDependency("a".to_string()).message(), "Project 'a' cannot depend on itself");
    assert_eq!(
        AddError::MissingDependency("d".to_string()).message(),
        "Dependency 'd' not found. Add it first or remove it from --depends-on."
    );
}

#[test]
fn add_with_the_platform_answer() {
    let mut cfg = ws();
    assert_eq!(
        cfg.add_project("core".to_string(), Some("apps/core".to_string()), "u".to_string(), "main".to_string(), vec![], None),
        Ok(())
    );
    let r = cfg.add_project("abs".to_string(), Some("/tmp/abs".to_string()), "u".to_string(), "main".to_string(), vec![], None);
    assert_eq!(r, Err(AddError::AbsolutePath));
}

#[test]
fn add_then_remove_restores() {
    let mut cfg = ws();
    add(&mut cfg, "core", None, &[]).unwrap();
    add(&mut cfg, "api", None, &["core"]).unwrap();
    assert_eq!(cfg.remove_project("api"), Ok(()));
    assert_eq!(cfg.projects.len(), 1);
    assert_eq!(cfg.projects[0].name, "core");
    assert_eq!(cfg.remove_project("api"), Err("Project 'api' not found in the workspace".to_string()));
}

#[test]
fn remove_drops_every_project_of_the_name() {
    let mut cfg = ws();
    let p = |n: &str| Project {
        name: n.to_string(),
        path: None,
        url: String::new(),
        branch: "main".to_string(),
        depends_on: None,
        sync_url: None,
        sync_interval: None,
    };
    cfg.projects = vec![p("a"), p("b"), p("a")];
    cfg.remove_project("a").unwrap();
    assert_eq!(cfg.projects.len(), 1);
    assert_eq!(cfg.projects[0].name, "b");
}

#[test]
fn pull_plans() {
    assert_eq!(pull_plan(false, false, false), PullPlan::Clone);
    assert_eq!(pull_plan(true, true, false), PullPlan::Update);
    assert_eq!(pull_plan(true, false, true), PullPlan::Clone);
    assert_eq!(pull_plan(true, false, false), PullPlan::NotARepo);
    assert_eq!(pull_report("core", PullPlan::Update, &Ok(())).text, "core updated");
    assert_eq!(pull_report("core", PullPlan::Clone, &Ok(())).text, "core cloned");
    let f = pull_report("core", PullPlan::Clone, &Err("boom".to_string()));
    assert_eq!(f.level, Level::Fail);
    assert_eq!(f.text, "core: boom");
}

#[test]
fn push_precheck_and_banner() {
    assert_eq!(push_precheck(true, "core"), Ok(()));
    assert_eq!(
        push_precheck(false, "apps/core"),
        Err("directory 'apps/core' not found \u{2014} run `polyws pull` first".to_string())
    );
    assert_eq!(level_banner("Pull level ", 0, 1), None);
    assert_eq!(
        level_banner("Pull level ", 1, 3),
        Some("Pull level 2 \u{2014} running 3 projects in parallel".to_string())
    );
}

#[test]
fn list_and_status_rows() {
    let p = Project {
        name: "api".to_string(),
        path: Some("svc/api".to_string()),
        url: "u".to_string(),
        branch: "dev".to_string(),
        depends_on: Some(vec!["core".to_string(), "util".to_string()]),
        sync_url: None,
        sync_interval: None,
    };
    assert_eq!(list_row(&p), vec!["api", "svc/api", "dev", "core, util", "\u{2014}"]);
    assert_eq!(status_row(&p, false, None), vec!["api", "dev", "missing \u{2014} run `polyws pull`"]);
    assert_eq!(status_row(&p, true, None), vec!["api", "dev", "not a git repo"]);
    assert_eq!(status_row(&p, true, Some("dev (clean)".to_string())), vec!["api", "dev", "dev (clean)"]);
}

#[test]
fn repair_steps_and_reports() {
    assert_eq!(repair_step(false, false, None, "u"), RepairStep::Reclone);
    assert_eq!(repair_step(true, false, None, "u"), RepairStep::NotARepo);
    assert_eq!(repair_step(true, true, Some("u".to_string()), "u"), RepairStep::RemoteOk);
    assert_eq!(repair_step(true, true, Some("old".to_string()), "u"), RepairStep::FixRemote("old".to_string()));
    assert_eq!(repair_step(true, true, None, "u"), RepairStep::CannotCheck);
    let p = Project {
        name: "api".to_string(),
        path: None,
        url: "new".to_string(),
        branch: "main".to_string(),
        depends_on: None,
        sync_url: None,
        sync_interval: None,
    };
    let r = repair_opening_reports(&p, &RepairStep::FixRemote("old".to_string()));
    assert_eq!(r[0].text, "Fixing remote URL for 'api': old \u{2192} new");
    let r = repair_opening_reports(&p, &RepairStep::NotARepo);
    assert_eq!(r.len(), 2);
    assert_eq!(r[0].text, "'api' (api) exists but is not a git repository");
    let c = repair_closing_report("api", &RepairStep::Reclone, &Err("e".to_string())).unwrap();
    assert_eq!(c.text, "Failed to clone api: e");
    assert!(repair_closing_report("api", &RepairStep::RemoteOk, &Ok(())).is_none());
    assert_eq!(set_remote_args("u"), vec!["remote", "set-url", "origin", "u"]);
}

#[test]
fn add_refuses_an_absolute_name_without_a_path() {
    let mut cfg = ws();
    let r = cfg.add_project("/srv/x".to_string(), None, "u".to_string(), "main".to_string(), vec![], None);
    assert_eq!(r, Err(AddError::AbsolutePath));
    let checked = cfg.add_project_checked("n".to_string(), None, "u".to_string(), "main".to_string(), vec![], None, true);
    assert_eq!(checked, Err(AddError::AbsolutePath));
    assert!(cfg.projects.is_empty());
}

#[test]
fn add_keeps_the_workspace_schedulable() {
    let mut cfg = ws();
    add(&mut cfg, "core", None, &[]).unwrap();
    add(&mut cfg, "api", None, &["core"]).unwrap();
    add(&mut cfg, "web", Some("apps/web"), &["api", "core"]).unwrap();
    assert!(cfg.execution_levels().is_ok());
    assert!(cfg.topological_order().is_ok());
    assert_eq!(cfg.execution_levels().unwrap().len(), 3);
}
