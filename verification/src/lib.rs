//! Danny: dead-code analysis model for JavaScript/TypeScript projects.
pub mod text;
pub mod category_kind;
pub mod capabilities;
pub mod paths;
pub mod config;
pub mod security;
pub mod projects;
pub mod findings;
pub mod error;
pub mod bundle;
pub mod format;
pub mod toml_config;
pub mod analyzers;
pub mod circular;
pub mod quality;
pub mod members;
pub mod ignore;
pub mod filtering;
pub mod category_validation;
pub mod braces;
pub mod entry_points;
pub mod graph_report;
pub mod backends;
pub mod report;
pub mod analysis_run;
pub mod capability_display;
pub mod config_commands;
pub mod laws;
pub mod discovery;
pub mod monorepo;
pub mod feed;
pub mod analysis_laws;
