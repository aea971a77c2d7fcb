//! The commands: what each one decides, given what was read from disk.

pub mod add;
pub mod add_repo;
pub mod common;
pub mod completions;
pub mod config_cmd;
pub mod destroy;
pub mod doctor;
pub mod info;
pub mod init;
pub mod list;
pub mod plugins;
pub mod remove;
pub mod setup;
pub mod setup_repos;
pub mod update;
