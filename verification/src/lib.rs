//! Project license manager: license lookup, template filling, configuration
//! resolution and project metadata detection.

pub mod text;
pub mod document;
pub mod project;
pub mod paths;
pub mod config;
pub mod licenses;
pub mod commands;
pub mod templates;
