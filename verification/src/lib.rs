//! Scaffolding for new Rust projects: the naming rules, the dependency
//! descriptors, the plan of files to generate with the context they are
//! rendered against, and the decisions of a run.

pub mod cli;
pub mod dependencies;
pub mod errors;
pub mod helpers;
pub mod history;
pub mod orchestrator;
pub mod paths;
pub mod patterns;
pub mod receipts;
pub mod tables;
pub mod templates;
pub mod text;

pub use crate::cli::{Craft, Layout, PlannedTemplate};
pub use crate::dependencies::{Dependency, DependencyFault};
pub use crate::errors::{Error, ExecutionResult};
pub use crate::helpers::{
    acceptable_crate_name, capitalize_string, crate_name_from_path, into_acceptable_crate_name,
    into_acceptable_error_type_name, into_acceptable_name, into_acceptable_package_name,
    manifest_path_of, manifest_path_verdict, manifest_target, package_name_from_string_or_path,
    path_to_entry_path, slug, strip_ends, struct_name_from_package_name, to_pascal_case,
    valid_crate_name, valid_package_name, words,
};
pub use crate::history::{executer_args, write_history};
pub use crate::orchestrator::{Action, Event, Phase, Place, Policy, Run, Step, Verdict};
pub use crate::tables::extend_table;
pub use crate::templates::{tera_context, tera_info};
