//! A package installer for JavaScript-ecosystem projects: version resolution,
//! a lockfile of resolution outcomes, and the per-package install decisions.

pub mod text;
pub mod logger;
pub mod resolver;
pub mod json;
pub mod registry;
pub mod lockfile;
pub mod cache;
pub mod install;
pub mod manifest;
pub mod task;
pub mod cli;
