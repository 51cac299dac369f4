use polyws::config::{ConfigError, Project, WorkspaceConfig};

fn project(name: &str, deps: &[&str]) -> Project {
    Project {
        name: name.to_string(),
        path: None,
        url: format!("git@example.com:org/{}.git", name),
        branch: "main".to_string(),
        depends_on: if deps.is_empty() {
            None
        } else {
            Some(deps.iter().map(|d| d.to_string()).collect())
        },
        sync_url: None,
        sync_interval: None,
    }
}

fn workspace(projects: Vec<Project>) -> WorkspaceConfig {
    WorkspaceConfig { name: "ws".to_string(), sync_interval_minutes: None, projects, vm: None }
}

fn names(v: &[&Project]) -> Vec<String> {
    v.iter().map(|p| p.name.clone()).collect()
}

#[test]
fn topological_order_puts_dependencies_first() {
    let cfg = workspace(vec![
        project("api", &["core"]),
        project("web", &["api", "core"]),
        project("core", &[]),
    ]);
    let order = cfg.topological_order().unwrap();
    assert_eq!(names(&order), vec!["core", "api", "web"]);
}

#[test]
fn topological_order_reports_a_cycle() {
    let cfg = workspace(vec![project("a", &["b"]), project("b", &["a"])]);
    match cfg.topological_order() {
        Err(ConfigError::Cycle(n)) => assert_eq!(n, "a"),
        _ => panic!("expected a cycle"),
    }
}

#[test]
fn unknown_dependencies_are_ignored_by_the_order() {
    let cfg = workspace(vec![project("a", &["ghost"])]);
    assert_eq!(names(&cfg.topological_order().unwrap()), vec!["a"]);
}

#[test]
fn execution_levels_group_independent_projects() {
    let cfg = workspace(vec![
        project("core", &[]),
        project("util", &[]),
        project("api", &["core"]),
        project("web", &["api", "util"]),
    ]);
    let levels = cfg.execution_levels().unwrap();
    let named: Vec<Vec<String>> = levels.iter().map(|l| names(l)).collect();
    assert_eq!(named, vec![vec!["core", "util"], vec!["api"], vec!["web"]]);
}

#[test]
fn execution_levels_report_what_cannot_run() {
    let cfg = workspace(vec![project("core", &[]), project("a", &["b"]), project("b", &["a"])]);
    match cfg.execution_levels() {
        Err(ConfigError::Unresolvable(left)) => assert_eq!(left, vec!["a", "b"]),
        _ => panic!("expected unresolvable dependencies"),
    }
    let missing = workspace(vec![project("a", &["ghost"])]);
    assert!(missing.execution_levels().is_err());
}

#[test]
fn dependent_map_lists_dependents() {
    let cfg = workspace(vec![project("core", &[]), project("api", &["core"]), project("web", &["core"])]);
    let m = cfg.dependent_map();
    let core = m.iter().find(|(k, _)| k == "core").unwrap();
    assert_eq!(core.1, vec!["api", "web"]);
    let api = m.iter().find(|(k, _)| k == "api").unwrap();
    assert!(api.1.is_empty());
    assert_eq!(m.len(), 3);
}

#[test]
fn find_project_gives_the_first_of_a_name() {
    let mut second = project("core", &[]);
    second.branch = "dev".to_string();
    let cfg = workspace(vec![project("core", &[]), second]);
    assert_eq!(cfg.find_project("core").unwrap().branch, "main");
    assert!(cfg.find_project("nope").is_none());
}

#[test]
fn graph_lines_draw_trees_under_roots() {
    let cfg = workspace(vec![
        project("core", &[]),
        project("api", &["core"]),
        project("web", &["api"]),
        project("cli", &["core"]),
    ]);
    assert_eq!(
        cfg.graph_lines(),
        vec!["core", "\u{251C}\u{2500} api", "\u{2502}  \u{2514}\u{2500} web", "\u{2514}\u{2500} cli"]
    );
}

#[test]
fn graph_without_plain_roots_starts_everywhere() {
    let cfg = workspace(vec![project("a", &["b"]), project("b", &["a"])]);
    let lines = cfg.graph_lines();
    assert_eq!(
        lines,
        vec!["a", "\u{2514}\u{2500} b", "   \u{2514}\u{2500} a", "b", "\u{2514}\u{2500} a", "   \u{2514}\u{2500} b"]
    );
}

#[test]
fn defaults() {
    assert_eq!(polyws::config::default_branch(), "main");
    assert_eq!(polyws::config::default_sync(), "rsync");
    let mut p = project("core", &[]);
    assert_eq!(p.local_dir(), "core");
    p.path = Some("apps/core".to_string());
    assert_eq!(p.local_dir(), "apps/core");
}
