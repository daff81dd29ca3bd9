//! The global configuration of watched projects, and the analysis target model.
use vstd::prelude::*;
use crate::capabilities::{AnalysisCapabilities, AnalysisMode, UnavailableCategory, UnavailableReason, categories_of, package_mode_available, files_mode_available, files_mode_unavailable};
use crate::category_kind::Category;
use crate::paths::{path_parent, path_parent_of};
use crate::text::{concat, str_eq};

verus! {

broadcast use vstd::seq_lib::group_seq_properties;

/// Global settings for Danny.
#[derive(Debug, Clone, PartialEq, Eq)]
pub struct GlobalSettings {
    /// Check interval in minutes
    pub check_interval_minutes: u32,
    /// Max concurrent project checks
    pub max_concurrent_checks: usize,
    /// Enable desktop notifications
    pub enable_notifications: bool,
    /// Default feed configuration - fetch changelogs from GitHub
    pub fetch_changelogs: bool,
    /// Include dev dependencies in feed
    pub include_dev_deps: bool,
    /// Only include dependencies from public registries
    pub registry_only: bool,
}

/// Default check interval, in minutes.
pub fn default_check_interval() -> (r: u32)
    ensures
        r == 60,
{
    60
}

/// Default number of projects checked at once.
pub fn default_max_concurrent() -> (r: usize)
    ensures
        r == 5,
{
    5
}

/// Desktop notifications are on unless configured off.
pub fn default_notifications() -> (r: bool)
    ensures
        r,
{
    true
}

/// The default of the boolean settings that are on unless configured off.
pub fn default_true() -> (r: bool)
    ensures
        r,
{
    true
}

impl GlobalSettings {
    /// The settings used when none are configured.
    pub fn default_settings() -> (r: GlobalSettings)
        ensures
            r.check_interval_minutes == 60,
            r.max_concurrent_checks == 5,
            r.enable_notifications,
            !r.fetch_changelogs,
            r.include_dev_deps,
            r.registry_only,
    {
        GlobalSettings {
            check_interval_minutes: default_check_interval(),
            max_concurrent_checks: default_max_concurrent(),
            enable_notifications: default_notifications(),
            fetch_changelogs: false,
            include_dev_deps: default_true(),
            registry_only: default_true(),
        }
    }
}

/// A point in time, as seconds and nanoseconds since the Unix epoch (UTC).
#[derive(Debug, Clone, Copy, PartialEq, Eq, Structural)]
pub struct Timestamp {
    pub secs: i64,
    pub nanos: u32,
}

/// Project-specific settings that override global settings.
#[derive(Debug, Clone, Copy, PartialEq, Eq, Structural)]
pub struct ProjectSettings {
    /// Override global fetch_changelogs setting
    pub fetch_changelogs: Option<bool>,
    /// Override global include_dev_deps setting
    pub include_dev_deps: Option<bool>,
    /// Override global registry_only setting
    pub registry_only: Option<bool>,
}

/// Workspace member configuration for monorepos.
///
/// If a list is absent, it places no constraint.
#[derive(Debug, Clone, PartialEq, Eq)]
pub struct WorkspaceMemberConfig {
    /// Specific members to enable (if None, all are enabled except disabled ones)
    pub enabled_members: Option<Vec<String>>,
    /// Specific members to disable (takes precedence over enabled_members)
    pub disabled_members: Option<Vec<String>>,
}

/// Whether a name occurs in a list of strings.
pub open spec fn names_contain(names: Seq<String>, name: Seq<char>) -> bool {
    exists|i: int| 0 <= i < names.len() && #[trigger] names[i]@ == name
}

/// Whether a workspace member is included: the disabled list wins; otherwise a
/// present enabled list must name it; otherwise it is included.
pub open spec fn member_enabled(cfg: WorkspaceMemberConfig, name: Seq<char>) -> bool {
    if cfg.disabled_members is Some && names_contain(cfg.disabled_members.unwrap()@, name) {
        false
    } else if cfg.enabled_members is Some {
        names_contain(cfg.enabled_members.unwrap()@, name)
    } else {
        true
    }
}

/// Whether `name` occurs in `names`.
pub fn list_contains(names: &Vec<String>, name: &str) -> (r: bool)
    ensures
        r == names_contain(names@, name@),
{
    let mut i: usize = 0;
    while i < names.len()
        invariant
            i <= names@.len(),
            forall|j: int| 0 <= j < i ==> names@[j]@ != name@,
        decreases names@.len() - i,
    {
        if str_eq(names[i].as_str(), name) {
            return true;
        }
        i = i + 1;
    }
    false
}

impl WorkspaceMemberConfig {
    /// Check if a workspace member should be included.
    pub fn is_member_enabled(&self, member_name: &str) -> (r: bool)
        ensures
            r == member_enabled(*self, member_name@),
    {
        if let Some(disabled) = &self.disabled_members {
            if list_contains(disabled, member_name) {
                return false;
            }
        }
        if let Some(enabled) = &self.enabled_members {
            return list_contains(enabled, member_name);
        }
        true
    }
}

/// A watched project.
#[derive(Debug, Clone, PartialEq, Eq)]
pub struct Project {
    /// Unique identifier (UUID or slug)
    pub id: String,
    /// Display name
    pub name: String,
    /// Absolute path to project root
    pub path: String,
    /// Whether this project is enabled
    pub enabled: bool,
    /// Last check timestamp
    pub last_checked: Option<Timestamp>,
    /// Project-specific settings override
    pub settings: Option<ProjectSettings>,
    /// Workspace member configuration (for monorepos)
    pub workspace_members: Option<WorkspaceMemberConfig>,
}

/// Detected framework.
#[derive(Debug, Clone, Copy, PartialEq, Eq, Structural)]
pub enum Framework {
    NextJs,
    React,
    Vue,
    Svelte,
}

/// The display name of a framework.
pub open spec fn framework_name(f: Framework) -> Seq<char> {
    match f {
        Framework::NextJs => "Next.js"@,
        Framework::React => "React"@,
        Framework::Vue => "Vue"@,
        Framework::Svelte => "Svelte"@,
    }
}

impl Framework {
    /// The display name of this framework.
    pub fn name(&self) -> (r: &'static str)
        ensures
            r@ == framework_name(*self),
    {
        match self {
            Framework::NextJs => "Next.js",
            Framework::React => "React",
            Framework::Vue => "Vue",
            Framework::Svelte => "Svelte",
        }
    }
}

/// Package analysis target (full capabilities).
#[derive(Debug, Clone)]
pub struct PackageTarget {
    /// Root directory containing package.json
    pub root: String,
    /// Entry points detected or configured
    pub entry_points: Vec<String>,
    /// Detected framework (if any)
    pub framework: Option<Framework>,
    /// Whether node_modules exists
    pub has_node_modules: bool,
}

/// Files analysis target (limited capabilities).
#[derive(Debug, Clone)]
pub struct FilesTarget {
    /// Specific files to analyze
    pub files: Vec<String>,
    /// Working directory for resolution
    pub working_dir: String,
    /// Nearby package.json found (for suggestions)
    pub nearby_package: Option<String>,
}

/// What Danny should analyze - Package or Files mode.
#[derive(Debug, Clone)]
pub enum AnalysisTarget {
    /// Full package analysis with complete dependency graph
    Package(PackageTarget),
    /// Limited file-level analysis
    Files(FilesTarget),
}

/// Suggestion to use package mode instead.
#[derive(Debug, Clone, PartialEq, Eq)]
pub struct PackageSuggestion {
    pub package_json: String,
    pub command: String,
}

/// The capabilities of package mode for a package that does or does not have
/// `node_modules` and a detected framework: the always-available categories,
/// plus Dependencies and Framework when their requirement is met.
pub open spec fn package_available(has_node_modules: bool, has_framework: bool) -> Set<Category> {
    let base = package_mode_available();
    let with_deps = if has_node_modules { base.insert(Category::Dependencies) } else { base };
    if has_framework { with_deps.insert(Category::Framework) } else { with_deps }
}

/// The unavailable entries of package mode for the same situation, in order.
pub open spec fn package_unavailable(has_node_modules: bool, has_framework: bool) -> Seq<
    UnavailableCategory,
> {
    let deps: Seq<UnavailableCategory> = if has_node_modules {
        seq![]
    } else {
        seq![
            UnavailableCategory {
                category: Category::Dependencies,
                reason: UnavailableReason::RequiresNodeModules,
            },
        ]
    };
    if has_framework {
        deps
    } else {
        deps.push(
            UnavailableCategory {
                category: Category::Framework,
                reason: UnavailableReason::RequiresFrameworkDetection,
            },
        )
    }
}

impl PackageTarget {
    /// Get capabilities for package mode.
    pub fn capabilities(&self) -> (r: AnalysisCapabilities)
        ensures
            r.wf(),
            r.mode_spec() == AnalysisMode::Package,
            r.available_set() == package_available(self.has_node_modules, self.framework is Some),
            r.unavailable_seq() == package_unavailable(self.has_node_modules, self.framework is Some),
    {
        let mut caps = AnalysisCapabilities::package_mode();
        if self.has_node_modules {
            caps.mark_available(Category::Dependencies);
            assert(caps.unavailable_seq() =~= Seq::<UnavailableCategory>::empty());
        } else {
            caps.mark_unavailable(Category::Dependencies, UnavailableReason::RequiresNodeModules);
            assert(caps.available_set() =~= package_mode_available());
        }
        let ghost mid = caps.unavailable_seq();
        assert(mid =~= package_unavailable(self.has_node_modules, true));
        if self.framework.is_some() {
            caps.mark_available(Category::Framework);
            proof {
                reveal_with_fuel(Seq::filter, 2);
                assert(mid.filter(|u: UnavailableCategory| u.category != Category::Framework) =~= mid);
            }
        } else {
            caps.mark_unavailable(Category::Framework, UnavailableReason::RequiresFrameworkDetection);
            proof {
                assert(!categories_of(mid).contains(Category::Framework)) by {
                    if !self.has_node_modules {
                        assert(categories_of(mid) =~= seq![Category::Dependencies]);
                    } else {
                        assert(categories_of(mid) =~= Seq::<Category>::empty());
                    }
                }
                let prev = if self.has_node_modules {
                    package_mode_available().insert(Category::Dependencies)
                } else {
                    package_mode_available()
                };
                assert(prev.remove(Category::Framework) =~= prev);
            }
        }
        caps
    }
}

impl FilesTarget {
    /// Get capabilities for files mode (always limited).
    pub fn capabilities(&self) -> (r: AnalysisCapabilities)
        ensures
            r.wf(),
            r.mode_spec() == AnalysisMode::Files,
            r.available_set() == files_mode_available(),
            r.unavailable_seq() == files_mode_unavailable(),
    {
        AnalysisCapabilities::files_mode()
    }

    /// Suggest package mode if a nearby package.json exists: the command runs
    /// Danny on the directory of that package.json.
    pub fn suggest_package_mode(&self) -> (r: Option<PackageSuggestion>)
        ensures
            match self.nearby_package {
                None => r is None,
                Some(pkg) => r is Some && r.unwrap().package_json@ == pkg@ && r.unwrap().command@
                    == "danny "@ + match path_parent_of(pkg@) {
                    Some(dir) => dir,
                    None => pkg@,
                },
            },
    {
        match &self.nearby_package {
            None => None,
            Some(pkg_path) => {
                let dir = match path_parent(pkg_path.as_str()) {
                    Some(d) => d,
                    None => pkg_path.clone(),
                };
                let command = concat("danny ", dir.as_str());
                Some(PackageSuggestion { package_json: pkg_path.clone(), command })
            },
        }
    }
}

impl AnalysisTarget {
    /// The capabilities of the target, as its package or files view defines them.
    pub open spec fn capabilities_spec_available(&self) -> Set<Category> {
        match self {
            AnalysisTarget::Package(p) => package_available(p.has_node_modules, p.framework is Some),
            AnalysisTarget::Files(_) => files_mode_available(),
        }
    }

    /// The mode of the target.
    pub open spec fn mode_of(&self) -> AnalysisMode {
        match self {
            AnalysisTarget::Package(_) => AnalysisMode::Package,
            AnalysisTarget::Files(_) => AnalysisMode::Files,
        }
    }

    /// Get the analysis capabilities for this target.
    pub fn capabilities(&self) -> (r: AnalysisCapabilities)
        ensures
            r.wf(),
            r.mode_spec() == self.mode_of(),
            r.available_set() == self.capabilities_spec_available(),
            r.unavailable_seq() == match self {
                AnalysisTarget::Package(p) => package_unavailable(p.has_node_modules, p.framework is Some),
                AnalysisTarget::Files(_) => files_mode_unavailable(),
            },
    {
        match self {
            AnalysisTarget::Package(pkg) => pkg.capabilities(),
            AnalysisTarget::Files(files) => files.capabilities(),
        }
    }

    /// Get the analysis mode.
    pub fn mode(&self) -> (r: AnalysisMode)
        ensures
            r == self.mode_of(),
    {
        match self {
            AnalysisTarget::Package(_) => AnalysisMode::Package,
            AnalysisTarget::Files(_) => AnalysisMode::Files,
        }
    }

    /// Check if a category is supported.
    pub fn supports_category(&self, category: Category) -> (r: bool)
        ensures
            r == self.capabilities_spec_available().contains(category),
    {
        self.capabilities().supports(category)
    }

    /// Get the root directory being analyzed.
    pub fn root_dir(&self) -> (r: &String)
        ensures
            r@ == match self {
                AnalysisTarget::Package(p) => p.root@,
                AnalysisTarget::Files(f) => f.working_dir@,
            },
    {
        match self {
            AnalysisTarget::Package(pkg) => &pkg.root,
            AnalysisTarget::Files(files) => &files.working_dir,
        }
    }
}

impl Default for GlobalSettings {
    /// Hourly checks, five at a time, notifications on, changelogs off,
    /// dev dependencies included, registry dependencies only.
    fn default() -> (r: Self)
        ensures
            r.check_interval_minutes == 60,
            r.max_concurrent_checks == 5,
            r.enable_notifications,
            !r.fetch_changelogs,
            r.include_dev_deps,
            r.registry_only,
    {
        GlobalSettings::default_settings()
    }
}

} // verus!
