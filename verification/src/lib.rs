//! Verified core of a project-scaffolding tool.
//!
//! A scaffold is described by a manifest: typed arguments collected from an
//! operator and an ordered list of steps (create directories and files,
//! download assets, run commands, initialise version control, patch files)
//! executed conditionally over the collected argument values.
//!
//! This crate holds the logic of that process — argument validation,
//! condition evaluation, placeholder substitution, the text-patch engine and
//! step planning — each function with a proved contract. The surrounding
//! program performs the filesystem, network and terminal work that the
//! planned actions call for.

pub mod argmap;
pub mod args;
pub mod language;
pub mod locate;
pub mod numeric;
pub mod pattern;
pub mod report;
pub mod step;
pub mod strutil;
pub mod subst;
pub mod template;
pub mod text;

pub use argmap::ArgMap;
pub use args::{ArgType, ArgValue, TemplateArg};
pub use language::Language;
pub use step::{
    Condition, ConditionOperator, Conditions, LogicalOperator, ModificationType, StepAction,
    StepType, TemplateStep,
};
pub use template::{ExtendArg, Template, TemplateExtend};
