//! Settings read from a project's `.danny.toml`.
use vstd::prelude::*;
use crate::text::to_owned_string;

verus! {

/// Entry point detection configuration.
#[derive(Debug, Clone, PartialEq, Eq)]
pub struct EntryPointConfig {
    /// Auto-detect entry points from package.json.
    pub auto_detect: bool,
    /// Manually specified entry points.
    pub manual: Vec<String>,
    /// Glob patterns for entry points.
    pub patterns: Vec<String>,
    /// Patterns to exclude.
    pub exclude: Vec<String>,
}

/// Analysis behavior configuration.
#[derive(Debug, Clone, Copy, PartialEq, Eq, Structural)]
pub struct AnalysisConfig {
    /// Follow external (npm) dependencies.
    pub follow_external: bool,
    /// Maximum traversal depth (None = unlimited).
    pub max_depth: Option<usize>,
    /// Number of parallel workers (None = auto).
    pub workers: Option<usize>,
}

impl AnalysisConfig {
    /// The analysis settings used when none are configured.
    pub fn default_config() -> (r: AnalysisConfig)
        ensures
            r == (AnalysisConfig { follow_external: false, max_depth: None, workers: None }),
    {
        AnalysisConfig { follow_external: false, max_depth: None, workers: None }
    }
}

/// Code quality analysis configuration.
#[derive(Debug, Clone, Copy, PartialEq, Eq, Structural)]
pub struct CodeQualityConfig {
    pub max_function_lines: usize,
    pub max_parameters: usize,
    pub max_class_lines: usize,
    pub max_complexity: usize,
    pub max_nesting: usize,
    pub max_message_chain: usize,
    pub max_methods: usize,
    pub max_fields: usize,
    pub max_return_count: usize,
}

/// The default `max_function_lines`.
pub fn default_max_function_lines() -> (r: usize)
    ensures
        r == 50,
{
    50
}

/// The default `max_parameters`.
pub fn default_max_parameters() -> (r: usize)
    ensures
        r == 4,
{
    4
}

/// The default `max_class_lines`.
pub fn default_max_class_lines() -> (r: usize)
    ensures
        r == 300,
{
    300
}

/// The default `max_complexity`.
pub fn default_max_complexity() -> (r: usize)
    ensures
        r == 10,
{
    10
}

/// The default `max_nesting`.
pub fn default_max_nesting() -> (r: usize)
    ensures
        r == 4,
{
    4
}

/// The default `max_message_chain`.
pub fn default_max_message_chain() -> (r: usize)
    ensures
        r == 4,
{
    4
}

/// The default `max_methods`.
pub fn default_max_methods() -> (r: usize)
    ensures
        r == 20,
{
    20
}

/// The default `max_fields`.
pub fn default_max_fields() -> (r: usize)
    ensures
        r == 10,
{
    10
}

/// The default `max_return_count`.
pub fn default_max_return_count() -> (r: usize)
    ensures
        r == 3,
{
    3
}

/// The default of boolean settings that are on unless configured off.
pub fn default_true() -> (r: bool)
    ensures
        r,
{
    true
}

/// The first complaint about a quality configuration, field by field in declaration
/// order: zero first, then an upper bound; `None` when every field is in range.
pub open spec fn quality_config_error(c: CodeQualityConfig) -> Option<Seq<char>> {
    if c.max_function_lines == 0 {
        Some("max_function_lines must be > 0"@)
    } else if c.max_function_lines > 10000 {
        Some("max_function_lines unreasonably large (>10000)"@)
    } else if c.max_parameters == 0 {
        Some("max_parameters must be > 0"@)
    } else if c.max_parameters > 20 {
        Some("max_parameters unreasonably large (>20)"@)
    } else if c.max_class_lines == 0 {
        Some("max_class_lines must be > 0"@)
    } else if c.max_class_lines > 50000 {
        Some("max_class_lines unreasonably large (>50000)"@)
    } else if c.max_complexity == 0 {
        Some("max_complexity must be > 0"@)
    } else if c.max_complexity > 100 {
        Some("max_complexity unreasonably large (>100)"@)
    } else if c.max_nesting == 0 {
        Some("max_nesting must be > 0"@)
    } else if c.max_nesting > 20 {
        Some("max_nesting unreasonably large (>20)"@)
    } else if c.max_message_chain == 0 {
        Some("max_message_chain must be > 0"@)
    } else if c.max_message_chain > 20 {
        Some("max_message_chain unreasonably large (>20)"@)
    } else if c.max_methods == 0 {
        Some("max_methods must be > 0"@)
    } else if c.max_methods > 200 {
        Some("max_methods unreasonably large (>200)"@)
    } else if c.max_fields == 0 {
        Some("max_fields must be > 0"@)
    } else if c.max_fields > 100 {
        Some("max_fields unreasonably large (>100)"@)
    } else if c.max_return_count == 0 {
        Some("max_return_count must be > 0"@)
    } else if c.max_return_count > 20 {
        Some("max_return_count unreasonably large (>20)"@)
    } else {
        None
    }
}

impl CodeQualityConfig {
    /// The quality thresholds used when none are configured.
    pub fn default_config() -> (r: CodeQualityConfig)
        ensures
            r.max_function_lines == 50,
            r.max_parameters == 4,
            r.max_class_lines == 300,
            r.max_complexity == 10,
            r.max_nesting == 4,
            r.max_message_chain == 4,
            r.max_methods == 20,
            r.max_fields == 10,
            r.max_return_count == 3,
    {
        CodeQualityConfig {
            max_function_lines: default_max_function_lines(),
            max_parameters: default_max_parameters(),
            max_class_lines: default_max_class_lines(),
            max_complexity: default_max_complexity(),
            max_nesting: default_max_nesting(),
            max_message_chain: default_max_message_chain(),
            max_methods: default_max_methods(),
            max_fields: default_max_fields(),
            max_return_count: default_max_return_count(),
        }
    }

    /// Validates that every threshold is positive and within its upper bound.
    pub fn validate(&self) -> (r: Result<(), String>)
        ensures
            match quality_config_error(*self) {
                None => r is Ok,
                Some(msg) => r matches Err(e) && e@ == msg,
            },
    {
        if self.max_function_lines == 0 {
            return Err(to_owned_string("max_function_lines must be > 0"));
        }
        if self.max_function_lines > 10000 {
            return Err(to_owned_string("max_function_lines unreasonably large (>10000)"));
        }
        if self.max_parameters == 0 {
            return Err(to_owned_string("max_parameters must be > 0"));
        }
        if self.max_parameters > 20 {
            return Err(to_owned_string("max_parameters unreasonably large (>20)"));
        }
        if self.max_class_lines == 0 {
            return Err(to_owned_string("max_class_lines must be > 0"));
        }
        if self.max_class_lines > 50000 {
            return Err(to_owned_string("max_class_lines unreasonably large (>50000)"));
        }
        if self.max_complexity == 0 {
            return Err(to_owned_string("max_complexity must be > 0"));
        }
        if self.max_complexity > 100 {
            return Err(to_owned_string("max_complexity unreasonably large (>100)"));
        }
        if self.max_nesting == 0 {
            return Err(to_owned_string("max_nesting must be > 0"));
        }
        if self.max_nesting > 20 {
            return Err(to_owned_string("max_nesting unreasonably large (>20)"));
        }
        if self.max_message_chain == 0 {
            return Err(to_owned_string("max_message_chain must be > 0"));
        }
        if self.max_message_chain > 20 {
            return Err(to_owned_string("max_message_chain unreasonably large (>20)"));
        }
        if self.max_methods == 0 {
            return Err(to_owned_string("max_methods must be > 0"));
        }
        if self.max_methods > 200 {
            return Err(to_owned_string("max_methods unreasonably large (>200)"));
        }
        if self.max_fields == 0 {
            return Err(to_owned_string("max_fields must be > 0"));
        }
        if self.max_fields > 100 {
            return Err(to_owned_string("max_fields unreasonably large (>100)"));
        }
        if self.max_return_count == 0 {
            return Err(to_owned_string("max_return_count must be > 0"));
        }
        if self.max_return_count > 20 {
            return Err(to_owned_string("max_return_count unreasonably large (>20)"));
        }
        Ok(())
    }
}

impl Default for AnalysisConfig {
    /// Internal dependencies only, unlimited depth, automatic worker count.
    fn default() -> (r: Self)
        ensures
            r == (AnalysisConfig { follow_external: false, max_depth: None, workers: None }),
    {
        AnalysisConfig::default_config()
    }
}

impl Default for CodeQualityConfig {
    /// The default thresholds of every quality check.
    fn default() -> (r: Self)
        ensures
            r.max_function_lines == 50,
            r.max_parameters == 4,
            r.max_class_lines == 300,
            r.max_complexity == 10,
            r.max_nesting == 4,
            r.max_message_chain == 4,
            r.max_methods == 20,
            r.max_fields == 10,
            r.max_return_count == 3,
    {
        CodeQualityConfig::default_config()
    }
}

} // verus!
