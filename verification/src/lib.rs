//! Build orchestrator core for an Unreal Engine project.
//!
//! The crate models the pure heart of a command-line build tool: supervised
//! subprocess invocations, the binary-artifact dealiasing algorithm that
//! renames misnamed build outputs, and the localization pipeline that
//! projects per-language config files and packages translation archives.
//! All file and process I/O lives outside this crate; the functions here
//! compute invocations, plans and file contents from plain values.

pub mod archive;
pub mod cli;
pub mod compile;
pub mod config;
pub mod cook;
pub mod editor_modules;
pub mod editor_target;
pub mod errors;
pub mod ini;
pub mod localization;
pub mod package;
pub mod paths;
pub mod pisep;
pub mod process;
pub mod project_files;
pub mod release;
pub mod run_editor;
pub mod strutil;
pub mod types;
pub mod unreal;
pub mod uproject;
