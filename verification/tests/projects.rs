use danny::config::{Project, Timestamp};
use danny::projects::{ConfigError, ConfigManager, DannyConfig};
use danny::security::SecurityError;

fn s(x: &str) -> String {
    x.to_string()
}

fn project(id: &str) -> Project {
    Project {
        id: s(id),
        name: format!("Project {}", id),
        path: format!("./{}", id),
        enabled: true,
        last_checked: None,
        settings: None,
        workspace_members: None,
    }
}

fn manager() -> ConfigManager {
    ConfigManager::new(s("/home/u/.config/danny/config.toml"), DannyConfig::default_config())
}

#[test]
fn added_project_is_found_with_its_canonical_path() {
    let mut m = manager();
    assert_eq!(m.add_project(project("web"), Ok(s("/work/web"))), Ok(()));
    let found = m.get_project("web").expect("found");
    assert_eq!(found.path, "/work/web");
    assert_eq!(found.name, "Project web");
    assert!(m.get_project("api").is_none());
}

#[test]
fn duplicate_ids_are_refused() {
    let mut m = manager();
    m.add_project(project("web"), Ok(s("/work/web"))).unwrap();
    assert_eq!(m.add_project(project("web"), Ok(s("/work/other"))), Err(ConfigError::ProjectExists(s("web"))));
    assert_eq!(m.list_projects().len(), 1);
}

#[test]
fn invalid_projects_are_refused_without_change() {
    let mut m = manager();
    let r = m.add_project(project("bad id!"), Ok(s("/work/x")));
    assert!(matches!(r, Err(ConfigError::Security(SecurityError::InvalidProjectId(_)))));
    let r = m.add_project(project("web"), Err(SecurityError::PathDoesNotExist(s("./web"))));
    assert_eq!(r, Err(ConfigError::Security(SecurityError::PathDoesNotExist(s("./web")))));
    assert!(m.list_projects().is_empty());
}

#[test]
fn removed_project_is_gone() {
    let mut m = manager();
    m.add_project(project("web"), Ok(s("/work/web"))).unwrap();
    m.add_project(project("api"), Ok(s("/work/api"))).unwrap();
    assert_eq!(m.remove_project("web"), Ok(()));
    assert!(m.get_project("web").is_none());
    assert!(m.get_project("api").is_some());
    assert_eq!(m.remove_project("web"), Err(ConfigError::ProjectNotFound(s("web"))));
}

#[test]
fn toggling_keeps_the_project_findable() {
    let mut m = manager();
    m.add_project(project("web"), Ok(s("/work/web"))).unwrap();
    m.add_project(project("api"), Ok(s("/work/api"))).unwrap();
    m.disable_project("web").unwrap();
    assert!(!m.get_project("web").unwrap().enabled);
    let enabled: Vec<String> = m.list_enabled_projects().iter().map(|p| p.id.clone()).collect();
    assert_eq!(enabled, vec![s("api")]);
    m.enable_project("web").unwrap();
    assert!(m.get_project("web").unwrap().enabled);
    m.update_last_checked("api", Timestamp { secs: 1_700_000_000, nanos: 0 }).unwrap();
    assert_eq!(m.get_project("api").unwrap().last_checked, Some(Timestamp { secs: 1_700_000_000, nanos: 0 }));
    assert_eq!(m.enable_project("nope"), Err(ConfigError::ProjectNotFound(s("nope"))));
    assert_eq!(m.list_projects().len(), 2);
}
