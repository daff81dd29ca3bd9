//! The list of watched projects and the operations that edit it.
use vstd::prelude::*;
use crate::config::{GlobalSettings, Project, Timestamp};
use crate::security::{security_error_text, SecurityError, validate_project_id, validate_project_name, valid_project_id, is_control_char, name_error};
use crate::text::{concat, str_eq, to_owned_string};

verus! {

/// Main configuration structure for Danny.
#[derive(Debug, Clone, PartialEq, Eq)]
pub struct DannyConfig {
    /// Schema version for migrations
    pub version: String,
    /// Global settings
    pub settings: GlobalSettings,
    /// List of watched projects
    pub projects: Vec<Project>,
}

impl DannyConfig {
    /// The configuration written by `init`: version "1.0", default settings, no projects.
    pub fn default_config() -> (r: DannyConfig)
        ensures
            r.version@ == "1.0"@,
            r.settings.check_interval_minutes == 60,
            r.settings.max_concurrent_checks == 5,
            r.settings.enable_notifications,
            r.projects@.len() == 0,
    {
        DannyConfig {
            version: to_owned_string("1.0"),
            settings: GlobalSettings::default_settings(),
            projects: Vec::new(),
        }
    }
}

/// Errors of the project-list operations.
#[derive(Debug, Clone, PartialEq, Eq)]
pub enum ConfigError {
    Security(SecurityError),
    ProjectNotFound(String),
    ProjectExists(String),
}

/// The index of the first project with the given id.
pub open spec fn first_index(ps: Seq<Project>, id: Seq<char>) -> Option<int> {
    if exists|i: int| 0 <= i < ps.len() && #[trigger] ps[i].id@ == id {
        let i = choose|i: int|
            0 <= i < ps.len() && #[trigger] ps[i].id@ == id && forall|j: int|
                0 <= j < i ==> #[trigger] ps[j].id@ != id;
        Some(i)
    } else {
        None
    }
}

/// No two projects share an id.
pub open spec fn ids_unique(ps: Seq<Project>) -> bool {
    forall|i: int, j: int| 0 <= i < j < ps.len() ==> ps[i].id@ != ps[j].id@
}

/// Whether a project's name is acceptable.
pub open spec fn valid_project_name(name: Seq<char>) -> bool {
    &&& name.len() > 0
    &&& name.len() <= 100
    &&& forall|i: int| 0 <= i < name.len() ==> !is_control_char(#[trigger] name[i])
}

/// Finds the index of the first project with id `id`.
pub fn position(ps: &Vec<Project>, id: &str) -> (r: Option<usize>)
    ensures
        match r {
            Some(i) => first_index(ps@, id@) == Some(i as int) && i < ps@.len(),
            None => first_index(ps@, id@) is None,
        },
{
    let mut i: usize = 0;
    while i < ps.len()
        invariant
            i <= ps@.len(),
            forall|j: int| 0 <= j < i ==> #[trigger] ps@[j].id@ != id@,
        decreases ps@.len() - i,
    {
        if str_eq(ps[i].id.as_str(), id) {
            proof {
                let k = choose|k: int|
                    0 <= k < ps@.len() && #[trigger] ps@[k].id@ == id@ && forall|j: int|
                        0 <= j < k ==> #[trigger] ps@[j].id@ != id@;
                if k < i {
                } else if k > i {
                    assert(ps@[i as int].id@ == id@);
                }
            }
            return Some(i);
        }
        i = i + 1;
    }
    None
}

/// Manager for the Danny configuration: the path it is stored at and its contents.
/// Reading and writing the file is done by the caller.
pub struct ConfigManager {
    pub config_path: String,
    pub config: DannyConfig,
}

impl ConfigManager {
    /// A manager for the given path and contents.
    pub fn new(config_path: String, config: DannyConfig) -> (r: ConfigManager)
        ensures
            r.config_path == config_path,
            r.config == config,
    {
        ConfigManager { config_path, config }
    }

    /// Get reference to config.
    pub fn config(&self) -> (r: &DannyConfig)
        ensures
            *r == self.config,
    {
        &self.config
    }

    /// Add a new project. `canonical_path` is the outcome of validating and
    /// canonicalizing the project's path, which the caller did on disk; it is
    /// consulted only once the id and name are valid. The project is refused when
    /// its id is already listed.
    pub fn add_project(&mut self, project: Project, canonical_path: Result<String, SecurityError>) -> (r: Result<(), ConfigError>)
        ensures
            !valid_project_id(project.id@) ==> (r matches Err(ConfigError::Security(SecurityError::InvalidProjectId(s)))
                && s@ == project.id@),
            valid_project_id(project.id@) && !valid_project_name(project.name@)
                ==> r == Err::<(), ConfigError>(ConfigError::Security(name_error(project.name@))),
            valid_project_id(project.id@) && valid_project_name(project.name@) ==> match canonical_path {
                Err(e) => r == Err::<(), ConfigError>(ConfigError::Security(e)),
                Ok(path) => if first_index(old(self).config.projects@, project.id@) is Some {
                    r matches Err(ConfigError::ProjectExists(id)) && id@ == project.id@
                } else {
                    r is Ok
                },
            },
            r is Ok ==> canonical_path is Ok && final(self).config.projects@ == old(self).config.projects@.push(
                Project { path: canonical_path.unwrap(), ..project },
            ),
            r is Err ==> final(self).config == old(self).config,
            final(self).config_path == old(self).config_path,
            final(self).config.version == old(self).config.version,
            final(self).config.settings == old(self).config.settings,
    {
        match validate_project_id(project.id.as_str()) {
            Err(e) => return Err(ConfigError::Security(e)),
            Ok(()) => {},
        }
        match validate_project_name(project.name.as_str()) {
            Err(e) => return Err(ConfigError::Security(e)),
            Ok(()) => {},
        }
        let path = match canonical_path {
            Err(e) => return Err(ConfigError::Security(e)),
            Ok(p) => p,
        };
        if position(&self.config.projects, project.id.as_str()).is_some() {
            return Err(ConfigError::ProjectExists(project.id));
        }
        let mut project = project;
        project.path = path;
        self.config.projects.push(project);
        Ok(())
    }

    /// Remove the first project with the given id.
    pub fn remove_project(&mut self, id: &str) -> (r: Result<(), ConfigError>)
        ensures
            match first_index(old(self).config.projects@, id@) {
                None => r matches Err(ConfigError::ProjectNotFound(s)) && s@ == id@ && final(self).config
                    == old(self).config,
                Some(i) => r is Ok && final(self).config.projects@ == old(self).config.projects@.remove(i),
            },
            final(self).config_path == old(self).config_path,
            final(self).config.version == old(self).config.version,
            final(self).config.settings == old(self).config.settings,
    {
        match position(&self.config.projects, id) {
            None => Err(ConfigError::ProjectNotFound(to_owned_string(id))),
            Some(i) => {
                self.config.projects.remove(i);
                Ok(())
            },
        }
    }

    /// Set whether the first project with the given id is enabled.
    fn set_enabled(&mut self, id: &str, enabled: bool) -> (r: Result<(), ConfigError>)
        ensures
            match first_index(old(self).config.projects@, id@) {
                None => r matches Err(ConfigError::ProjectNotFound(s)) && s@ == id@ && final(self).config
                    == old(self).config,
                Some(i) => r is Ok && final(self).config.projects@ == old(self).config.projects@.update(
                    i,
                    Project { enabled, ..old(self).config.projects@[i] },
                ),
            },
            final(self).config_path == old(self).config_path,
            final(self).config.version == old(self).config.version,
            final(self).config.settings == old(self).config.settings,
    {
        match position(&self.config.projects, id) {
            None => Err(ConfigError::ProjectNotFound(to_owned_string(id))),
            Some(i) => {
                let mut p = self.config.projects.remove(i);
                p.enabled = enabled;
                self.config.projects.insert(i, p);
                proof {
                    assert(self.config.projects@ =~= old(self).config.projects@.update(
                        i as int,
                        Project { enabled, ..old(self).config.projects@[i as int] },
                    ));
                }
                Ok(())
            },
        }
    }

    /// Enable the first project with the given id.
    pub fn enable_project(&mut self, id: &str) -> (r: Result<(), ConfigError>)
        ensures
            match first_index(old(self).config.projects@, id@) {
                None => r matches Err(ConfigError::ProjectNotFound(s)) && s@ == id@ && final(self).config
                    == old(self).config,
                Some(i) => r is Ok && final(self).config.projects@ == old(self).config.projects@.update(
                    i,
                    Project { enabled: true, ..old(self).config.projects@[i] },
                ),
            },
            final(self).config_path == old(self).config_path,
            final(self).config.version == old(self).config.version,
            final(self).config.settings == old(self).config.settings,
    {
        self.set_enabled(id, true)
    }

    /// Disable the first project with the given id.
    pub fn disable_project(&mut self, id: &str) -> (r: Result<(), ConfigError>)
        ensures
            match first_index(old(self).config.projects@, id@) {
                None => r matches Err(ConfigError::ProjectNotFound(s)) && s@ == id@ && final(self).config
                    == old(self).config,
                Some(i) => r is Ok && final(self).config.projects@ == old(self).config.projects@.update(
                    i,
                    Project { enabled: false, ..old(self).config.projects@[i] },
                ),
            },
            final(self).config_path == old(self).config_path,
            final(self).config.version == old(self).config.version,
            final(self).config.settings == old(self).config.settings,
    {
        self.set_enabled(id, false)
    }

    /// Record when the first project with the given id was last checked.
    pub fn update_last_checked(&mut self, id: &str, timestamp: Timestamp) -> (r: Result<(), ConfigError>)
        ensures
            match first_index(old(self).config.projects@, id@) {
                None => r matches Err(ConfigError::ProjectNotFound(s)) && s@ == id@ && final(self).config
                    == old(self).config,
                Some(i) => r is Ok && final(self).config.projects@ == old(self).config.projects@.update(
                    i,
                    Project { last_checked: Some(timestamp), ..old(self).config.projects@[i] },
                ),
            },
            final(self).config_path == old(self).config_path,
            final(self).config.version == old(self).config.version,
            final(self).config.settings == old(self).config.settings,
    {
        match position(&self.config.projects, id) {
            None => Err(ConfigError::ProjectNotFound(to_owned_string(id))),
            Some(i) => {
                let mut p = self.config.projects.remove(i);
                p.last_checked = Some(timestamp);
                self.config.projects.insert(i, p);
                proof {
                    assert(self.config.projects@ =~= old(self).config.projects@.update(
                        i as int,
                        Project { last_checked: Some(timestamp), ..old(self).config.projects@[i as int] },
                    ));
                }
                Ok(())
            },
        }
    }

    /// Get the first project with the given id.
    pub fn get_project(&self, id: &str) -> (r: Option<&Project>)
        ensures
            match first_index(self.config.projects@, id@) {
                None => r is None,
                Some(i) => r == Some(&self.config.projects@[i]),
            },
    {
        match position(&self.config.projects, id) {
            None => None,
            Some(i) => Some(&self.config.projects[i]),
        }
    }

    /// List all projects.
    pub fn list_projects(&self) -> (r: &Vec<Project>)
        ensures
            r@ == self.config.projects@,
    {
        &self.config.projects
    }

    /// List enabled projects only, in order.
    pub fn list_enabled_projects(&self) -> (r: Vec<&Project>)
        ensures
            r@.len() == self.config.projects@.filter(|p: Project| p.enabled).len(),
            forall|k: int| 0 <= k < r@.len() ==> *r@[k] == self.config.projects@.filter(|p: Project| p.enabled)[k],
    {
        let ps = &self.config.projects;
        let mut r: Vec<&Project> = Vec::new();
        let mut i: usize = 0;
        while i < ps.len()
            invariant
                i <= ps@.len(),
                r@.len() == ps@.take(i as int).filter(|p: Project| p.enabled).len(),
                forall|k: int| 0 <= k < r@.len() ==> *r@[k] == ps@.take(i as int).filter(|p: Project| p.enabled)[k],
            decreases ps@.len() - i,
        {
            if ps[i].enabled {
                r.push(&ps[i]);
            }
            proof {
                assert(ps@.take(i + 1).drop_last() =~= ps@.take(i as int));
                reveal_with_fuel(Seq::filter, 1);
            }
            i = i + 1;
        }
        assert(ps@.take(ps@.len() as int) =~= ps@);
        r
    }
}

impl Default for DannyConfig {
    /// Version "1.0", default settings, no projects.
    fn default() -> (r: Self)
        ensures
            r.version@ == "1.0"@,
            r.settings.check_interval_minutes == 60,
            r.settings.max_concurrent_checks == 5,
            r.settings.enable_notifications,
            r.projects@.len() == 0,
    {
        DannyConfig::default_config()
    }
}

/// What a configuration error says.
pub open spec fn config_error_text(e: ConfigError) -> Seq<char> {
    match e {
        ConfigError::Security(s) => "Security error: "@ + security_error_text(s),
        ConfigError::ProjectNotFound(id) => "Project not found: "@ + id@,
        ConfigError::ProjectExists(id) => "Project already exists: "@ + id@,
    }
}

impl ConfigError {
    /// What the error says, as it is shown to the user.
    pub fn message(&self) -> (r: String)
        ensures
            r@ == config_error_text(*self),
    {
        match self {
            ConfigError::Security(s) => {
                let m = s.message();
                concat("Security error: ", m.as_str())
            },
            ConfigError::ProjectNotFound(id) => concat("Project not found: ", id.as_str()),
            ConfigError::ProjectExists(id) => concat("Project already exists: ", id.as_str()),
        }
    }
}

} // verus!
