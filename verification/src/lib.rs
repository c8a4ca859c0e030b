//! Core logic of a front-end project scaffolder: a structured-value model
//! with deep-merge semantics, a package-manifest sorter, a lint-configuration
//! synthesizer, and the file-policy rules of the template tree copier.

pub mod args;
pub mod create_eslint_config;
pub mod editor_config;
pub mod json;
pub mod prompts;
pub mod render;
pub mod text;
pub mod utils;
pub mod value;
